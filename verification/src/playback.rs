//! The playback path between the decoder and the device callback.
//!
//! Decoded frames are resampled from 48 kHz where the device runs at
//! another rate, mixed up to the device's channels and queued. The device
//! takes what it needs; where the queue is empty it gets silence, and where
//! more than two seconds are queued the oldest samples are dropped.

use crate::mix::upmix_from_mono;
use crate::mix::upmixed;
use crate::resample::resampled;
use crate::resample::PlaybackResampler;
use crate::resample::ResamplerView;
use crate::negotiate::TARGET_RATE;
use std::collections::VecDeque;
use vstd::prelude::*;
use vstd::slice::slice_to_vec;

verus! {

/// The state of a playback path.
pub struct PlaybackView {
    pub channels: u16,
    pub resampler: Option<ResamplerView>,
    pub queued: Seq<i16>,
    pub limit: u64,
}

/// The most samples that may wait: two seconds at the device's rate and
/// channels.
pub open spec fn playback_limit(device_rate: u32, device_channels: u16) -> u64 {
    (device_rate * device_channels * 2) as u64
}

/// The device samples of a decoded frame.
pub open spec fn playback_samples(v: PlaybackView, frame: Seq<i16>) -> Seq<i16> {
    upmixed(
        match v.resampler {
            Some(r) => resampled(r, frame).1,
            None => frame,
        },
        v.channels as int,
    )
}

/// The state after a decoded frame was queued.
pub open spec fn after_feed(v: PlaybackView, frame: Seq<i16>) -> PlaybackView {
    PlaybackView {
        resampler: match v.resampler {
            Some(r) => Some(resampled(r, frame).0),
            None => None,
        },
        queued: v.queued + playback_samples(v, frame),
        ..v
    }
}

/// The number of samples over the limit.
pub open spec fn excess(v: PlaybackView) -> int {
    if v.queued.len() > v.limit {
        v.queued.len() - v.limit
    } else {
        0
    }
}

/// What waits once the samples over the limit are dropped.
pub open spec fn capped(v: PlaybackView) -> Seq<i16> {
    v.queued.subrange(excess(v), v.queued.len() as int)
}

/// The samples for `len` device slots: the oldest queued ones, then
/// silence.
pub open spec fn rendered(v: PlaybackView, len: int) -> Seq<i16> {
    Seq::new(
        len as nat,
        |i: int|
            if i < capped(v).len() {
                capped(v)[i]
            } else {
                0i16
            },
    )
}

/// The state after `len` device slots were filled.
pub open spec fn after_render(v: PlaybackView, len: int) -> PlaybackView {
    PlaybackView {
        queued: capped(v).subrange(
            if len < capped(v).len() {
                len
            } else {
                capped(v).len() as int
            },
            capped(v).len() as int,
        ),
        ..v
    }
}

/// What one callback gets.
pub struct Rendered {
    /// One sample per device slot.
    pub samples: Vec<i16>,
    /// The number of samples that were dropped for being over the limit.
    pub dropped: usize,
}

/// The playback path of one output device.
pub struct PlaybackBuffer {
    channels: u16,
    resampler: Option<PlaybackResampler>,
    queued: VecDeque<i16>,
    limit: u64,
}

impl View for PlaybackBuffer {
    type V = PlaybackView;

    closed spec fn view(&self) -> PlaybackView {
        PlaybackView {
            channels: self.channels,
            resampler: match self.resampler {
                Some(r) => Some(r@),
                None => None,
            },
            queued: self.queued@,
            limit: self.limit,
        }
    }
}

impl PlaybackBuffer {
    /// The playback path for a device that runs at `device_rate` with
    /// `device_channels` channels.
    pub fn new(device_rate: u32, device_channels: u16, needs_resample: bool) -> (p: PlaybackBuffer)
        requires
            needs_resample ==> device_rate > 0,
        ensures
            p@ == (PlaybackView {
                channels: device_channels,
                resampler: if needs_resample {
                    Some(
                        ResamplerView {
                            from_rate: TARGET_RATE,
                            to_rate: device_rate,
                            phase: 0,
                            prev: 0,
                        },
                    )
                } else {
                    None
                },
                queued: Seq::empty(),
                limit: playback_limit(device_rate, device_channels),
            }),
    {
        assert(device_rate * device_channels * 2 <= 0xFFFF_FFFF * 0xFFFF * 2) by (nonlinear_arith)
            requires
                0 <= device_rate <= 0xFFFF_FFFF,
                0 <= device_channels <= 0xFFFF,
        ;
        assert(device_rate * device_channels >= 0 && device_rate * device_channels <= 0xFFFF_FFFF
            * 0xFFFF) by (nonlinear_arith)
            requires
                0 <= device_rate <= 0xFFFF_FFFF,
                0 <= device_channels <= 0xFFFF,
        ;
        PlaybackBuffer {
            channels: device_channels,
            resampler: if needs_resample {
                Some(PlaybackResampler::new(device_rate))
            } else {
                None
            },
            queued: VecDeque::new(),
            limit: (device_rate as u64) * (device_channels as u64) * 2,
        }
    }

    /// The number of samples that wait.
    pub fn len(&self) -> (n: usize)
        ensures
            n == self@.queued.len(),
    {
        self.queued.len()
    }

    /// Queue one decoded frame of 48 kHz mono.
    pub fn feed(&mut self, frame: &[i16])
        ensures
            final(self)@ == after_feed(old(self)@, frame@),
    {
        let mut resampler: Option<PlaybackResampler> = None;
        core::mem::swap(&mut resampler, &mut self.resampler);
        let mono: Vec<i16> = match resampler {
            Some(mut r) => {
                let s = r.process(frame);
                resampler = Some(r);
                s
            },
            None => slice_to_vec(frame),
        };
        core::mem::swap(&mut resampler, &mut self.resampler);
        let samples: Vec<i16> = upmix_from_mono(mono.as_slice(), self.channels);
        assert(samples@ == playback_samples(old(self)@, frame@));
        let ghost before = self.queued@;
        let ghost moved = self.resampler;
        let mut i: usize = 0;
        assert(before + samples@.subrange(0, 0) =~= before);
        while i < samples.len()
            invariant
                i <= samples@.len(),
                self.queued@ == before + samples@.subrange(0, i as int),
                self.channels == old(self).channels,
                self.limit == old(self).limit,
                self.resampler == moved,
            decreases samples@.len() - i,
        {
            self.queued.push_back(samples[i]);
            assert(self.queued@ =~= before + samples@.subrange(0, i + 1));
            i += 1;
        }
        assert(samples@.subrange(0, samples@.len() as int) =~= samples@);
    }

    /// Fill `len` device slots: drop what is over the limit, then hand out
    /// the oldest samples, and silence where none are left.
    pub fn render(&mut self, len: usize) -> (out: Rendered)
        ensures
            final(self)@ == after_render(old(self)@, len as int),
            out.samples@ == rendered(old(self)@, len as int),
            out.dropped == excess(old(self)@),
    {
        let ghost start = self.queued@;
        let have: usize = self.queued.len();
        let over: usize = if (have as u64) > self.limit {
            ((have as u64) - self.limit) as usize
        } else {
            0
        };
        let mut d: usize = 0;
        while d < over
            invariant
                d <= over,
                over <= start.len(),
                self.queued@ == start.subrange(d as int, start.len() as int),
                self.channels == old(self).channels,
                self.limit == old(self).limit,
                self.resampler == old(self).resampler,
            decreases over - d,
        {
            let _ = self.queued.pop_front();
            assert(self.queued@ =~= start.subrange(d + 1, start.len() as int));
            d += 1;
        }
        let ghost kept = self.queued@;
        let mut samples: Vec<i16> = Vec::new();
        let mut i: usize = 0;
        while i < len
            invariant
                i <= len,
                samples@.len() == i,
                forall|j: int|
                    0 <= j < i ==> samples@[j] == (if j < kept.len() {
                        kept[j]
                    } else {
                        0i16
                    }),
                self.queued@ == kept.subrange(
                    if i < kept.len() {
                        i as int
                    } else {
                        kept.len() as int
                    },
                    kept.len() as int,
                ),
                self.channels == old(self).channels,
                self.limit == old(self).limit,
                self.resampler == old(self).resampler,
            decreases len - i,
        {
            let ghost waiting = self.queued@;
            match self.queued.pop_front() {
                Some(s) => {
                    assert(self.queued@ =~= kept.subrange(i + 1, kept.len() as int));
                    samples.push(s);
                },
                None => {
                    samples.push(0);
                },
            }
            i += 1;
        }
        assert(samples@ =~= rendered(old(self)@, len as int));
        Rendered { samples, dropped: over }
    }
}

} // verus!
