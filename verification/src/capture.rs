//! The capture path between the device callback and the encoder.
//!
//! What the device delivers is mixed down to mono, resampled to 48 kHz
//! where the device runs at another rate, and cut into frames of a fixed
//! number of samples. Samples that do not fill a frame wait for the next
//! delivery.

use crate::mix::downmix_to_mono;
use crate::mix::downmixed;
use crate::negotiate::TARGET_RATE;
use crate::resample::resampled;
use crate::resample::LinearResampler;
use crate::resample::ResamplerView;
use vstd::prelude::*;
use vstd::slice::slice_subrange;
use vstd::slice::slice_to_vec;

verus! {

/// The state of a capture path.
pub struct CaptureView {
    pub channels: u16,
    pub resampler: Option<ResamplerView>,
    pub pending: Seq<i16>,
    pub frame_size: usize,
}

/// The mono signal of a delivery.
pub open spec fn captured_mono(v: CaptureView, data: Seq<i16>) -> Seq<i16> {
    if v.channels == 1 {
        data
    } else {
        downmixed(data, v.channels as int)
    }
}

/// The 48 kHz signal of a delivery.
pub open spec fn captured_samples(v: CaptureView, data: Seq<i16>) -> Seq<i16> {
    match v.resampler {
        Some(r) => resampled(r, captured_mono(v, data)).1,
        None => captured_mono(v, data),
    }
}

/// Everything that waits to be framed after a delivery.
pub open spec fn captured_backlog(v: CaptureView, data: Seq<i16>) -> Seq<i16> {
    v.pending + captured_samples(v, data)
}

/// The number of whole frames in the backlog.
pub open spec fn captured_frames(v: CaptureView, data: Seq<i16>) -> int {
    (captured_backlog(v, data).len() as int) / (v.frame_size as int)
}

/// The state after a delivery.
pub open spec fn after_capture(v: CaptureView, data: Seq<i16>) -> CaptureView {
    CaptureView {
        resampler: match v.resampler {
            Some(r) => Some(resampled(r, captured_mono(v, data)).0),
            None => None,
        },
        pending: captured_backlog(v, data).subrange(
            captured_frames(v, data) * v.frame_size,
            captured_backlog(v, data).len() as int,
        ),
        ..v
    }
}

/// The capture path of one input device.
pub struct CapturePipeline {
    channels: u16,
    resampler: Option<LinearResampler>,
    pending: Vec<i16>,
    frame_size: usize,
}

impl View for CapturePipeline {
    type V = CaptureView;

    closed spec fn view(&self) -> CaptureView {
        CaptureView {
            channels: self.channels,
            resampler: match self.resampler {
                Some(r) => Some(r@),
                None => None,
            },
            pending: self.pending@,
            frame_size: self.frame_size,
        }
    }
}

impl CapturePipeline {
    #[verifier::type_invariant]
    spec fn well_formed(&self) -> bool {
        self.channels > 0 && self.frame_size > 0
    }

    /// The capture path for a device that runs at `device_rate` with
    /// `device_channels` channels, delivering frames of `frame_size`
    /// samples.
    pub fn new(device_rate: u32, device_channels: u16, needs_resample: bool, frame_size: usize) -> (p:
        CapturePipeline)
        requires
            device_channels > 0,
            frame_size > 0,
            needs_resample ==> device_rate > 0,
        ensures
            p@ == (CaptureView {
                channels: device_channels,
                resampler: if needs_resample {
                    Some(
                        ResamplerView {
                            from_rate: device_rate,
                            to_rate: TARGET_RATE,
                            phase: 0,
                            prev: 0,
                        },
                    )
                } else {
                    None
                },
                pending: Seq::empty(),
                frame_size,
            }),
    {
        CapturePipeline {
            channels: device_channels,
            resampler: if needs_resample {
                Some(LinearResampler::new(device_rate, TARGET_RATE))
            } else {
                None
            },
            pending: Vec::new(),
            frame_size,
        }
    }

    /// Take one delivery of interleaved samples and give the frames that
    /// are now complete, oldest first.
    pub fn process(&mut self, data: &[i16]) -> (frames: Vec<Vec<i16>>)
        ensures
            final(self)@ == after_capture(old(self)@, data@),
            frames@.len() == captured_frames(old(self)@, data@),
            forall|i: int|
                0 <= i < frames@.len() ==> (#[trigger] frames@[i])@ == captured_backlog(
                    old(self)@,
                    data@,
                ).subrange(i * old(self)@.frame_size, (i + 1) * old(self)@.frame_size),
    {
        proof {
            use_type_invariant(&*self);
        }
        let mono: Vec<i16> = if self.channels == 1 {
            slice_to_vec(data)
        } else {
            downmix_to_mono(data, self.channels)
        };
        let mut resampler: Option<LinearResampler> = None;
        core::mem::swap(&mut resampler, &mut self.resampler);
        let samples: Vec<i16> = match resampler {
            Some(mut r) => {
                let s = r.process(mono.as_slice());
                resampler = Some(r);
                s
            },
            None => mono,
        };
        core::mem::swap(&mut resampler, &mut self.resampler);
        assert(mono@ == captured_mono(old(self)@, data@));
        assert(samples@ == captured_samples(old(self)@, data@));
        let mut backlog: Vec<i16> = Vec::new();
        core::mem::swap(&mut backlog, &mut self.pending);
        backlog.extend_from_slice(samples.as_slice());
        assert(backlog@ == captured_backlog(old(self)@, data@));
        let size: usize = self.frame_size;
        let count: usize = backlog.len() / size;
        let mut frames: Vec<Vec<i16>> = Vec::new();
        let mut i: usize = 0;
        proof {
            vstd::arithmetic::div_mod::lemma_fundamental_div_mod(backlog@.len() as int, size as int);
            assert(count * size == size * count) by (nonlinear_arith);
        }
        while i < count
            invariant
                i <= count,
                size > 0,
                count * size <= backlog@.len() <= usize::MAX,
                frames@.len() == i,
                forall|j: int|
                    0 <= j < i ==> (#[trigger] frames@[j])@ == backlog@.subrange(
                        j * size,
                        (j + 1) * size,
                    ),
            decreases count - i,
        {
            proof {
                assert((i + 1) * size <= count * size) by (nonlinear_arith)
                    requires
                        i + 1 <= count,
                        size > 0,
                ;
                assert((i + 1) * size == i * size + size) by (nonlinear_arith);
                assert(i * size >= 0) by (nonlinear_arith);
            }
            let frame = slice_to_vec(slice_subrange(backlog.as_slice(), i * size, i * size + size));
            frames.push(frame);
            i += 1;
        }
        let mut rest = slice_to_vec(slice_subrange(backlog.as_slice(), count * size, backlog.len()));
        core::mem::swap(&mut rest, &mut self.pending);
        frames
    }
}

} // verus!
