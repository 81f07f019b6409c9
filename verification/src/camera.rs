//! Stopping the camera worker.
//!
//! The worker runs on a thread of its own and looks at a flag between two
//! frames. Whoever holds the handle can raise the flag; dropping the handle
//! raises it too, so that a worker never outlives its session.

use std::sync::atomic::AtomicBool;
use std::sync::atomic::Ordering;
use std::sync::Arc;
use vstd::prelude::*;

verus! {

/// Frames that may wait between the camera worker and the session; when
/// all slots are taken the newest frame is dropped.
pub const CAMERA_CHANNEL_CAPACITY: usize = 4;

/// Handle to stop the camera worker. Dropping it stops capture.
pub struct CameraStopHandle {
    stop: Arc<AtomicBool>,
}

/// The worker's end of the stop flag.
pub struct StopFlag {
    stop: Arc<AtomicBool>,
}

/// `AtomicBool::store` of `true` with relaxed ordering. It neither fails
/// nor unwinds.
#[verifier::external_body]
fn raise(flag: &AtomicBool)
    opens_invariants none
    no_unwind
{
    flag.store(true, Ordering::Relaxed)
}

impl CameraStopHandle {
    /// The worker's end looks at the flag that this handle raises.
    pub closed spec fn stops(&self, worker: &StopFlag) -> bool {
        self.stop == worker.stop
    }

    /// A handle with its flag down, and the worker's end of the same flag.
    pub fn new() -> (pair: (CameraStopHandle, StopFlag))
        ensures
            pair.0.stops(&pair.1),
    {
        let stop = Arc::new(AtomicBool::new(false));
        let worker = StopFlag { stop: stop.clone() };
        (CameraStopHandle { stop }, worker)
    }

    /// Raise the flag.
    pub fn stop(&self) {
        raise(&self.stop);
    }
}

impl StopFlag {
    /// Whether the flag is up: the worker is to end.
    pub fn is_raised(&self) -> (raised: bool) {
        self.stop.load(Ordering::Relaxed)
    }
}

impl Drop for CameraStopHandle {
    fn drop(&mut self)
        opens_invariants none
        no_unwind
    {
        raise(&self.stop);
    }
}

} // verus!
