//! Client-side media engine for voice-and-video rooms.
//!
//! - Wire: [`header`], [`frame`], [`fragment`], [`reassembly`], and what
//!   the two make of each other in [`delivery`].
//! - Audio: [`negotiate`], [`resample`], [`mix`], [`capture`],
//!   [`playback`], [`level`], [`speaking`].
//! - Video: [`video`], [`camera`], [`codec`], [`av1`], [`queue`].
//! - Session: [`session`], [`supervisor`], [`reconnect`], [`idle`],
//!   [`event`], [`endpoint`], [`trust`].
//! - Group messaging: [`mls`], [`envelope`], [`cipher`].
//! - Tools: [`table`], [`text`], [`clock`], [`buffer`].
//!
//! Times are milliseconds on a monotonic clock. Gains are thousandths,
//! levels ten-thousandths of full scale; all sample arithmetic is exact.

pub mod av1;
pub mod buffer;
pub mod camera;
pub mod capture;
pub mod cipher;
pub mod clock;
pub mod codec;
pub mod delivery;
pub mod endpoint;
pub mod envelope;
pub mod event;
pub mod fragment;
pub mod frame;
pub mod header;
pub mod idle;
pub mod level;
pub mod mix;
pub mod mls;
pub mod negotiate;
pub mod playback;
pub mod queue;
pub mod reassembly;
pub mod reconnect;
pub mod resample;
pub mod session;
pub mod speaking;
pub mod supervisor;
pub mod table;
pub mod text;
pub mod trust;
pub mod video;
