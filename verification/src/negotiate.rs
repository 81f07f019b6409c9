//! Choosing a device configuration.
//!
//! The pipeline runs at 48 kHz mono. A device offers ranges of sample
//! rates, each with a channel count; the first range, in the device's
//! order, that meets the best preference wins:
//!
//! 1. 48 kHz mono;
//! 2. 48 kHz with any channel count (channels are converted);
//! 3. 96000, 44100, 24000, 16000 or 8000 Hz, in that order, mono before
//!    any channel count (the rate is converted);
//! 4. the first range, at its highest rate up to 96 kHz.

use vstd::prelude::*;

verus! {

/// Sample rate of the codec pipeline.
pub const TARGET_RATE: u32 = 48000;

/// Channel count of the codec pipeline.
pub const TARGET_CHANNELS: u16 = 1;

/// Highest rate that the last resort picks.
pub const FALLBACK_RATE_LIMIT: u32 = 96000;

/// The number of preferences before the last resort.
pub const PREFERENCES: usize = 12;

/// One range of configurations that a device supports.
#[derive(Debug, Clone, Copy, PartialEq, Eq, Structural)]
pub struct ConfigRange {
    pub min_sample_rate: u32,
    pub max_sample_rate: u32,
    pub channels: u16,
}

/// The configuration chosen for a device.
#[derive(Debug, Clone, Copy, PartialEq, Eq, Structural)]
pub struct NegotiatedConfig {
    /// Which of the device's ranges was chosen.
    pub range: usize,
    /// The rate to run the device at.
    pub device_rate: u32,
    /// The device's channel count.
    pub device_channels: u16,
    /// Whether the device rate differs from 48 kHz.
    pub needs_resample: bool,
}

/// Why no configuration was chosen.
#[derive(Debug, Clone, Copy, PartialEq, Eq, Structural)]
pub enum NegotiateError {
    /// The device reports no supported configurations.
    NoConfigurations,
}

impl NegotiateError {
    /// What the host is told.
    pub open spec fn text(self) -> Seq<char> {
        match self {
            NegotiateError::NoConfigurations => "Device reports no supported configurations"@,
        }
    }

    /// What the host is told.
    pub fn message(&self) -> (text: String)
        ensures
            text@ == self.text(),
    {
        match self {
            NegotiateError::NoConfigurations => {
                "Device reports no supported configurations".to_owned()
            },
        }
    }
}

/// The range offers the rate, and is mono where that is asked.
pub open spec fn offers(r: ConfigRange, rate: u32, mono_only: bool) -> bool {
    r.min_sample_rate <= rate && rate <= r.max_sample_rate && (mono_only ==> r.channels
        == TARGET_CHANNELS)
}

/// The first range that offers the rate, if any does.
pub open spec fn first_offer(ranges: Seq<ConfigRange>, rate: u32, mono_only: bool) -> Option<int>
    decreases ranges.len(),
{
    if ranges.len() == 0 {
        None
    } else {
        match first_offer(ranges.drop_last(), rate, mono_only) {
            Some(i) => Some(i),
            None => if offers(ranges.last(), rate, mono_only) {
                Some(ranges.len() - 1)
            } else {
                None
            },
        }
    }
}

/// The rate of preference `k`.
pub open spec fn preferred_rate(k: int) -> u32 {
    if k < 2 {
        48000
    } else if k < 4 {
        96000
    } else if k < 6 {
        44100
    } else if k < 8 {
        24000
    } else if k < 10 {
        16000
    } else {
        8000
    }
}

/// Preferences come in pairs: mono first, then any channel count.
pub open spec fn preferred_mono(k: int) -> bool {
    k % 2 == 0
}

/// The configuration that running range `i` at `rate` makes.
pub open spec fn config_at(ranges: Seq<ConfigRange>, i: int, rate: u32) -> NegotiatedConfig {
    NegotiatedConfig {
        range: i as usize,
        device_rate: rate,
        device_channels: ranges[i].channels,
        needs_resample: rate != TARGET_RATE,
    }
}

/// The last resort: the first range at its highest rate, but no more than
/// 96 kHz unless the range starts above that.
pub open spec fn fallback_rate(r: ConfigRange) -> u32 {
    let capped = if r.max_sample_rate < FALLBACK_RATE_LIMIT {
        r.max_sample_rate
    } else {
        FALLBACK_RATE_LIMIT
    };
    if capped < r.min_sample_rate {
        r.min_sample_rate
    } else {
        capped
    }
}

/// The choice among the preferences from `k` on, then the last resort.
pub open spec fn choice_from(ranges: Seq<ConfigRange>, k: int) -> NegotiatedConfig
    decreases PREFERENCES - k,
{
    if k >= PREFERENCES {
        config_at(ranges, 0, fallback_rate(ranges[0]))
    } else {
        match first_offer(ranges, preferred_rate(k), preferred_mono(k)) {
            Some(i) => config_at(ranges, i, preferred_rate(k)),
            None => choice_from(ranges, k + 1),
        }
    }
}

/// The configuration chosen for a device that offers `ranges`.
pub open spec fn negotiated(ranges: Seq<ConfigRange>) -> Result<NegotiatedConfig, NegotiateError> {
    if ranges.len() == 0 {
        Err(NegotiateError::NoConfigurations)
    } else {
        Ok(choice_from(ranges, 0))
    }
}

fn find_offer(ranges: &[ConfigRange], rate: u32, mono_only: bool) -> (found: Option<usize>)
    ensures
        match found {
            Some(i) => first_offer(ranges@, rate, mono_only) == Some(i as int) && i < ranges@.len(),
            None => first_offer(ranges@, rate, mono_only).is_none(),
        },
{
    let mut i: usize = 0;
    assert(ranges@.subrange(0, 0) =~= Seq::<ConfigRange>::empty());
    while i < ranges.len()
        invariant
            i <= ranges@.len(),
            first_offer(ranges@.subrange(0, i as int), rate, mono_only).is_none(),
        decreases ranges@.len() - i,
    {
        let r = ranges[i];
        let hit: bool = r.min_sample_rate <= rate && rate <= r.max_sample_rate && (!mono_only
            || r.channels == TARGET_CHANNELS);
        proof {
            assert(ranges@.subrange(0, i + 1).drop_last() =~= ranges@.subrange(0, i as int));
        }
        if hit {
            proof {
                lemma_first_offer_stays(ranges@, rate, mono_only, i + 1);
            }
            return Some(i);
        }
        i += 1;
    }
    assert(ranges@.subrange(0, i as int) =~= ranges@);
    None
}

/// A first offer among the first `n` ranges is the first offer among all.
proof fn lemma_first_offer_stays(ranges: Seq<ConfigRange>, rate: u32, mono_only: bool, n: int)
    requires
        0 <= n <= ranges.len(),
        first_offer(ranges.subrange(0, n), rate, mono_only).is_some(),
    ensures
        first_offer(ranges, rate, mono_only) == first_offer(ranges.subrange(0, n), rate, mono_only),
    decreases ranges.len() - n,
{
    if n < ranges.len() {
        assert(ranges.subrange(0, n + 1).drop_last() =~= ranges.subrange(0, n));
        lemma_first_offer_stays(ranges, rate, mono_only, n + 1);
    } else {
        assert(ranges.subrange(0, n) =~= ranges);
    }
}

fn rate_of(k: usize) -> (rate: u32)
    ensures
        rate == preferred_rate(k as int),
{
    if k < 2 {
        48000
    } else if k < 4 {
        96000
    } else if k < 6 {
        44100
    } else if k < 8 {
        24000
    } else if k < 10 {
        16000
    } else {
        8000
    }
}

/// Pick the best supported configuration of a device, aiming at 48 kHz
/// mono. Fails only for a device that offers nothing.
pub fn negotiate_config(ranges: &[ConfigRange]) -> (r: Result<NegotiatedConfig, NegotiateError>)
    ensures
        r == negotiated(ranges@),
{
    if ranges.len() == 0 {
        return Err(NegotiateError::NoConfigurations);
    }
    let mut k: usize = 0;
    while k < PREFERENCES
        invariant
            k <= PREFERENCES,
            ranges@.len() > 0,
            choice_from(ranges@, 0) == choice_from(ranges@, k as int),
        decreases PREFERENCES - k,
    {
        let rate = rate_of(k);
        match find_offer(ranges, rate, k % 2 == 0) {
            Some(i) => {
                return Ok(
                    NegotiatedConfig {
                        range: i,
                        device_rate: rate,
                        device_channels: ranges[i].channels,
                        needs_resample: rate != TARGET_RATE,
                    },
                );
            },
            None => {},
        }
        k += 1;
    }
    let first = ranges[0];
    let capped: u32 = if first.max_sample_rate < FALLBACK_RATE_LIMIT {
        first.max_sample_rate
    } else {
        FALLBACK_RATE_LIMIT
    };
    let rate: u32 = if capped < first.min_sample_rate {
        first.min_sample_rate
    } else {
        capped
    };
    Ok(
        NegotiatedConfig {
            range: 0,
            device_rate: rate,
            device_channels: first.channels,
            needs_resample: rate != TARGET_RATE,
        },
    )
}

/// The place of the first device with the name, if there is one.
pub open spec fn first_named(names: Seq<String>, wanted: Seq<char>) -> Option<int>
    decreases names.len(),
{
    if names.len() == 0 {
        None
    } else {
        match first_named(names.drop_last(), wanted) {
            Some(i) => Some(i),
            None => if names.last()@ == wanted {
                Some(names.len() - 1)
            } else {
                None
            },
        }
    }
}

proof fn lemma_first_named_stays(names: Seq<String>, wanted: Seq<char>, n: int)
    requires
        0 <= n <= names.len(),
        first_named(names.subrange(0, n), wanted).is_some(),
    ensures
        first_named(names, wanted) == first_named(names.subrange(0, n), wanted),
    decreases names.len() - n,
{
    if n < names.len() {
        assert(names.subrange(0, n + 1).drop_last() =~= names.subrange(0, n));
        lemma_first_named_stays(names, wanted, n + 1);
    } else {
        assert(names.subrange(0, n) =~= names);
    }
}

/// Choose a device by name among the names of the devices, in the host's
/// order. `None` means the default device: no name was asked for, or no
/// device has it.
pub fn choose_device(names: &[String], wanted: Option<&String>) -> (choice: Option<usize>)
    ensures
        match wanted {
            None => choice.is_none(),
            Some(w) => match choice {
                Some(i) => first_named(names@, w@) == Some(i as int),
                None => first_named(names@, w@).is_none(),
            },
        },
{
    let w = match wanted {
        Some(w) => w,
        None => {
            return None;
        },
    };
    let mut i: usize = 0;
    assert(names@.subrange(0, 0) =~= Seq::<String>::empty());
    while i < names.len()
        invariant
            i <= names@.len(),
            wanted == Some(w),
            first_named(names@.subrange(0, i as int), w@).is_none(),
        decreases names@.len() - i,
    {
        proof {
            assert(names@.subrange(0, i + 1).drop_last() =~= names@.subrange(0, i as int));
        }
        if names[i] == *w {
            proof {
                lemma_first_named_stays(names@, w@, i + 1);
            }
            return Some(i);
        }
        i += 1;
    }
    assert(names@.subrange(0, i as int) =~= names@);
    None
}

} // verus!
