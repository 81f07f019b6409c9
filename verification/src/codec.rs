//! What the codecs are configured with and what their results mean.
//!
//! The codecs themselves are driven by the caller. Here stand the numbers
//! they are set up with, the packets and pictures that pass between them
//! and the session, and the rule by which the encoder is drained.

use crate::text::begins_with;
use crate::text::prefixed;
use crate::video::i420_to_rgba;
use crate::video::shows_pixel;
use crate::video::Plane;
use vstd::prelude::*;

verus! {

/// Sample rate of the audio codec.
pub const OPUS_SAMPLE_RATE: u32 = 48000;

/// Samples per audio frame: 20 ms at 48 kHz.
pub const OPUS_FRAME_SIZE: usize = 960;

/// Largest encoded audio frame, in bytes.
pub const OPUS_MAX_PACKET: usize = 4000;

/// Longest encoded audio frame that stands for discontinued transmission:
/// with nothing to say, the audio codec emits a frame of at most two bytes.
pub const OPUS_DTX_MAX_LEN: usize = 2;

/// Whether an encoded audio frame of this length stands for discontinued
/// transmission.
pub fn is_dtx_frame(len: usize) -> (dtx: bool)
    ensures
        dtx == (len <= OPUS_DTX_MAX_LEN),
{
    len <= OPUS_DTX_MAX_LEN
}

/// An encoded video packet from the encoder.
#[derive(Debug, Clone, PartialEq, Eq)]
pub struct EncodedPacket {
    pub data: Vec<u8>,
    pub is_keyframe: bool,
    pub timestamp: u64,
}

/// A decoded video frame in RGBA.
#[derive(Debug, Clone, PartialEq, Eq)]
pub struct DecodedFrame {
    pub width: u32,
    pub height: u32,
    pub rgba: Vec<u8>,
}

/// What the video encoder is set up with.
#[derive(Debug, Clone, Copy, PartialEq, Eq, Structural)]
pub struct EncoderSettings {
    pub width: usize,
    pub height: usize,
    pub bit_depth: usize,
    /// The time base is `time_base_num / time_base_den` seconds.
    pub time_base_num: u64,
    pub time_base_den: u64,
    pub low_latency: bool,
    pub bitrate: i32,
    pub min_key_frame_interval: u64,
    pub max_key_frame_interval: u64,
    pub speed_preset: u8,
    pub threads: usize,
}

/// A number of 32 bits read as a signed one.
pub open spec fn as_signed(x: u32) -> i32 {
    if x <= i32::MAX {
        x as i32
    } else {
        (x - 0x1_0000_0000) as i32
    }
}

/// The settings of the low-latency encoder: eight bits, a time base of one
/// frame, a keyframe at least every ten seconds, the fastest preset, two
/// threads.
pub open spec fn low_latency_settings(width: usize, height: usize, fps: u32, bitrate_kbps: u32) -> EncoderSettings {
    EncoderSettings {
        width,
        height,
        bit_depth: 8,
        time_base_num: 1,
        time_base_den: fps as u64,
        low_latency: true,
        bitrate: as_signed(bitrate_kbps),
        min_key_frame_interval: 0,
        max_key_frame_interval: (fps * 10) as u64,
        speed_preset: 10,
        threads: 2,
    }
}

/// The settings for a video encoder.
pub fn encoder_settings(width: usize, height: usize, fps: u32, bitrate_kbps: u32) -> (s:
    EncoderSettings)
    ensures
        s == low_latency_settings(width, height, fps, bitrate_kbps),
{
    EncoderSettings {
        width,
        height,
        bit_depth: 8,
        time_base_num: 1,
        time_base_den: fps as u64,
        low_latency: true,
        bitrate: if bitrate_kbps <= 0x7FFF_FFFF {
            bitrate_kbps as i32
        } else {
            (bitrate_kbps as i64 - 0x1_0000_0000) as i32
        },
        min_key_frame_interval: 0,
        max_key_frame_interval: (fps as u64) * 10,
        speed_preset: 10,
        threads: 2,
    }
}

/// The lengths of the rows in which the planes of an I420 picture of this
/// width are read: the width for luma, half of it for each chroma plane.
pub fn plane_strides(width: usize) -> (strides: (usize, usize))
    ensures
        strides.0 == width,
        strides.1 == width / 2,
{
    (width, width / 2)
}

/// What the video decoder is set up with.
#[derive(Debug, Clone, Copy, PartialEq, Eq, Structural)]
pub struct DecoderSettings {
    pub threads: u32,
    pub max_frame_delay: u32,
}

/// The settings for a video decoder: two threads, at most one frame of
/// delay.
pub fn decoder_settings() -> (s: DecoderSettings)
    ensures
        s == (DecoderSettings { threads: 2, max_frame_delay: 1 }),
{
    DecoderSettings { threads: 2, max_frame_delay: 1 }
}

/// The planes of an I420 picture have the sizes that the encoder expects.
pub open spec fn planes_fit(width: usize, height: usize, y: nat, u: nat, v: nat) -> bool {
    y == width * height && u == (width / 2) * (height / 2) && v == (width / 2) * (height / 2)
}

/// Whether the planes of an I420 picture have the sizes that the encoder
/// expects.
pub fn check_planes(width: usize, height: usize, y: &[u8], u: &[u8], v: &[u8]) -> (fit: bool)
    ensures
        fit == planes_fit(width, height, y@.len(), u@.len(), v@.len()),
{
    proof {
        assert(vstd::slice::spec_slice_len(y) == y@.len());
        assert((width / 2) * (height / 2) <= width * height) by (nonlinear_arith);
    }
    match width.checked_mul(height) {
        Some(n) => y.len() == n && u.len() == (width / 2) * (height / 2) && v.len() == (width / 2)
            * (height / 2),
        None => false,
    }
}

/// What one poll of the encoder brought.
#[derive(Debug, Clone, PartialEq, Eq)]
pub enum PacketPoll {
    /// A packet.
    Packet(EncodedPacket),
    /// A frame was encoded, no packet is ready yet.
    Encoded,
    /// The encoder needs more frames.
    NeedMoreData,
    /// The encoder reached its frame limit.
    LimitReached,
    /// The encoder failed.
    Failed(String),
}

/// What to do after a poll.
#[derive(Debug, Clone, PartialEq, Eq)]
pub enum DrainStep {
    /// Poll again.
    Continue,
    /// The encoder is drained.
    Stop,
    /// Give up with this message.
    Fail(String),
}

/// Draining takes every packet, polls again after an encoded frame, ends
/// when the encoder wants more frames or reached its limit, and fails on
/// any failure.
pub fn drain_step(packets: &mut Vec<EncodedPacket>, poll: PacketPoll) -> (step: DrainStep)
    ensures
        match poll {
            PacketPoll::Packet(p) => final(packets)@ == old(packets)@.push(p) && step
                == DrainStep::Continue,
            PacketPoll::Encoded => final(packets)@ == old(packets)@ && step == DrainStep::Continue,
            PacketPoll::NeedMoreData => final(packets)@ == old(packets)@ && step == DrainStep::Stop,
            PacketPoll::LimitReached => final(packets)@ == old(packets)@ && step == DrainStep::Stop,
            PacketPoll::Failed(message) => final(packets)@ == old(packets)@ && (step matches DrainStep::Fail(
                text,
            ) && text@ == "rav1e receive_packet: "@ + message@ && begins_with(
                text@,
                "rav1e receive_packet: "@,
            )),
        },
{
    match poll {
        PacketPoll::Packet(p) => {
            packets.push(p);
            DrainStep::Continue
        },
        PacketPoll::Encoded => DrainStep::Continue,
        PacketPoll::NeedMoreData => DrainStep::Stop,
        PacketPoll::LimitReached => DrainStep::Stop,
        PacketPoll::Failed(message) => DrainStep::Fail(
            prefixed("rav1e receive_packet: ", message.as_str()),
        ),
    }
}

/// What draining returns for a run of polls, `taken` being the packets
/// taken before: every packet is taken, in order, until a poll says that the
/// encoder wants more frames or reached its limit, or the polls run out; a
/// failed poll fails the draining with its message.
pub open spec fn drain_run(polls: Seq<PacketPoll>, taken: Seq<EncodedPacket>) -> Result<
    Seq<EncodedPacket>,
    Seq<char>,
>
    decreases polls.len(),
{
    if polls.len() == 0 {
        Ok(taken)
    } else {
        match polls.first() {
            PacketPoll::Packet(p) => drain_run(polls.drop_first(), taken.push(p)),
            PacketPoll::Encoded => drain_run(polls.drop_first(), taken),
            PacketPoll::NeedMoreData => Ok(taken),
            PacketPoll::LimitReached => Ok(taken),
            PacketPoll::Failed(message) => Err("rav1e receive_packet: "@ + message@),
        }
    }
}

/// The packets or the message of a drained encoder, as sequences.
pub open spec fn drain_view(r: Result<Vec<EncodedPacket>, String>) -> Result<
    Seq<EncodedPacket>,
    Seq<char>,
> {
    match r {
        Ok(packets) => Ok(packets@),
        Err(message) => Err(message@),
    }
}

/// After a poll that brought a packet or an encoded frame, draining goes on.
pub open spec fn polls_again(poll: PacketPoll) -> bool {
    poll is Packet || poll is Encoded
}

/// One more poll after polls that all let draining go on: the outcome is
/// that of the last poll alone, with the packets of the earlier ones taken.
pub proof fn lemma_drain_run_push(polls: Seq<PacketPoll>, taken: Seq<EncodedPacket>, last: PacketPoll)
    requires
        forall|i: int| 0 <= i < polls.len() ==> polls_again(#[trigger] polls[i]),
    ensures
        drain_run(polls, taken) matches Ok(packets) && drain_run(polls.push(last), taken)
            == drain_run(seq![last], packets),
    decreases polls.len(),
{
    if polls.len() == 0 {
        assert(polls.push(last) =~= seq![last]);
    } else {
        let rest = polls.drop_first();
        assert(polls_again(polls[0]));
        assert forall|i: int| 0 <= i < rest.len() implies polls_again(#[trigger] rest[i]) by {
            assert(rest[i] == polls[i + 1]);
        }
        assert(polls.push(last).drop_first() =~= rest.push(last));
        match polls.first() {
            PacketPoll::Packet(p) => lemma_drain_run_push(rest, taken.push(p), last),
            _ => lemma_drain_run_push(rest, taken, last),
        }
    }
}

/// The decoded frame of an I420 picture.
pub fn decoded_frame(y: &Plane, u: &Plane, v: &Plane, width: u32, height: u32) -> (frame:
    DecodedFrame)
    requires
        width * height * 4 <= usize::MAX,
        y.covers(width as nat, height as nat),
        u.covers(((width + 1) / 2) as nat, ((height + 1) / 2) as nat),
        v.covers(((width + 1) / 2) as nat, ((height + 1) / 2) as nat),
    ensures
        frame.width == width,
        frame.height == height,
        frame.rgba@.len() == width * height * 4,
        forall|p: int|
            0 <= p < width * height ==> #[trigger] shows_pixel(
                frame.rgba@,
                *y,
                *u,
                *v,
                width as int,
                p,
            ),
{
    DecodedFrame { width, height, rgba: i420_to_rgba(y, u, v, width as usize, height as usize) }
}

} // verus!
