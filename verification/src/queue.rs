//! The queue of decoded pictures that the host polls.
//!
//! It holds at most eight pictures. When a ninth arrives the oldest is
//! dropped: a slow host sees recent pictures, not old ones.

use std::collections::VecDeque;
use vstd::prelude::*;

verus! {

/// Most pictures that wait for the host at one time.
pub const VIDEO_QUEUE_CAPACITY: usize = 8;

/// The user id under which the local camera's pictures are shown.
pub const LOCAL_PREVIEW_USER: u32 = 0;

/// A decoded picture for the host. User 0 is the local preview.
#[derive(Debug, Clone, PartialEq, Eq)]
pub struct VideoFrameOutput {
    pub user_id: u32,
    pub width: u32,
    pub height: u32,
    pub rgba: Vec<u8>,
}

/// What the queue holds after a picture was pushed: the picture is last,
/// and the oldest made room for it where the queue was full.
pub open spec fn pushed(waiting: Seq<VideoFrameOutput>, frame: VideoFrameOutput) -> Seq<
    VideoFrameOutput,
> {
    if waiting.len() >= VIDEO_QUEUE_CAPACITY {
        waiting.drop_first().push(frame)
    } else {
        waiting.push(frame)
    }
}

/// Bounded queue of decoded pictures, oldest first.
pub struct VideoFrameQueue {
    frames: VecDeque<VideoFrameOutput>,
}

impl View for VideoFrameQueue {
    type V = Seq<VideoFrameOutput>;

    closed spec fn view(&self) -> Seq<VideoFrameOutput> {
        self.frames@
    }
}

impl VideoFrameQueue {
    #[verifier::type_invariant]
    spec fn bounded(&self) -> bool {
        self.frames@.len() <= VIDEO_QUEUE_CAPACITY
    }

    /// An empty queue.
    pub fn new() -> (q: VideoFrameQueue)
        ensures
            q@ == Seq::<VideoFrameOutput>::empty(),
    {
        VideoFrameQueue { frames: VecDeque::new() }
    }

    /// The number of pictures waiting.
    pub fn len(&self) -> (n: usize)
        ensures
            n == self@.len(),
            n <= VIDEO_QUEUE_CAPACITY,
    {
        proof {
            use_type_invariant(self);
        }
        self.frames.len()
    }

    /// Push a picture, dropping the oldest where eight are waiting.
    pub fn push(&mut self, frame: VideoFrameOutput)
        ensures
            final(self)@ == pushed(old(self)@, frame),
    {
        proof {
            use_type_invariant(&*self);
        }
        let mut frames: VecDeque<VideoFrameOutput> = VecDeque::new();
        core::mem::swap(&mut frames, &mut self.frames);
        if frames.len() >= VIDEO_QUEUE_CAPACITY {
            let _ = frames.pop_front();
            assert(frames@ =~= old(self)@.drop_first());
        }
        frames.push_back(frame);
        core::mem::swap(&mut frames, &mut self.frames);
    }

    /// Take the oldest picture, if any waits.
    pub fn pop(&mut self) -> (frame: Option<VideoFrameOutput>)
        ensures
            match frame {
                Some(f) => old(self)@.len() > 0 && f == old(self)@.first()
                    && final(self)@ == old(self)@.drop_first(),
                None => old(self)@.len() == 0 && final(self)@ == old(self)@,
            },
    {
        proof {
            use_type_invariant(&*self);
        }
        let mut frames: VecDeque<VideoFrameOutput> = VecDeque::new();
        core::mem::swap(&mut frames, &mut self.frames);
        let frame = frames.pop_front();
        assert(frame.is_some() ==> frames@ =~= old(self)@.drop_first());
        core::mem::swap(&mut frames, &mut self.frames);
        frame
    }
}

/// The local preview of a captured picture.
pub fn local_preview(width: u32, height: u32, rgba: Vec<u8>) -> (frame: VideoFrameOutput)
    ensures
        frame == (VideoFrameOutput { user_id: LOCAL_PREVIEW_USER, width, height, rgba }),
{
    VideoFrameOutput { user_id: LOCAL_PREVIEW_USER, width, height, rgba }
}

/// Push a picture onto the queue, bounded to eight, dropping the oldest.
pub fn push_video_frame(queue: &mut VideoFrameQueue, frame: VideoFrameOutput)
    ensures
        final(queue)@ == pushed(old(queue)@, frame),
{
    queue.push(frame)
}

} // verus!
