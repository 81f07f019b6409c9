//! The AV1 encoder, by way of the `rav1e` crate.
//!
//! The encoder is set up for low latency. Each picture is handed over as
//! three planes of eight-bit samples; after each picture, and after a
//! flush, the encoder is drained of the packets it has ready.

use crate::codec::drain_run;
use crate::codec::drain_step;
use crate::codec::drain_view;
use crate::codec::encoder_settings;
use crate::codec::lemma_drain_run_push;
use crate::codec::low_latency_settings;
use crate::codec::plane_strides;
use crate::codec::polls_again;
use crate::codec::DrainStep;
use crate::codec::EncodedPacket;
use crate::codec::EncoderSettings;
use crate::codec::PacketPoll;
use crate::text::begins_with;
use crate::text::prefixed;
use rav1e::data::FrameType;
use rav1e::data::Rational;
use rav1e::Config;
use rav1e::Context;
use rav1e::EncoderConfig;
use rav1e::EncoderStatus;
use vstd::prelude::*;

verus! {

/// The encoder state of the `rav1e` crate for eight-bit pixels. Nothing
/// is known of what it holds.
#[verifier::external_body]
pub struct EncoderContext {
    inner: Context<u8>,
}

/// Whether the `rav1e` crate accepts these settings for an encoder of
/// eight-bit pixels, everything else at the crate's defaults.
pub uninterp spec fn context_accepted(
    width: usize,
    height: usize,
    bit_depth: usize,
    time_base_num: u64,
    time_base_den: u64,
    low_latency: bool,
    bitrate: i32,
    min_key_frame_interval: u64,
    max_key_frame_interval: u64,
    speed_preset: u8,
    threads: usize,
) -> bool;

/// Whether the `rav1e` crate accepts the settings.
pub open spec fn settings_accepted(s: EncoderSettings) -> bool {
    context_accepted(
        s.width,
        s.height,
        s.bit_depth,
        s.time_base_num,
        s.time_base_den,
        s.low_latency,
        s.bitrate,
        s.min_key_frame_interval,
        s.max_key_frame_interval,
        s.speed_preset,
        s.threads,
    )
}

/// `Config::new_context` for eight-bit pixels, after
/// `EncoderConfig::with_speed_preset`, `Config::with_encoder_config` and
/// `Config::with_threads`. The crate's defaults stand for what the settings
/// do not name, among them 4:2:0 chroma. The crate panics on a bit depth
/// above that of the pixels. It accepts or refuses by the settings alone,
/// and accepts no width below sixteen.
#[verifier::external_body]
fn context_new(s: &EncoderSettings) -> (r: Result<EncoderContext, String>)
    requires
        s.bit_depth <= 8,
    ensures
        r.is_ok() == context_accepted(
            s.width,
            s.height,
            s.bit_depth,
            s.time_base_num,
            s.time_base_den,
            s.low_latency,
            s.bitrate,
            s.min_key_frame_interval,
            s.max_key_frame_interval,
            s.speed_preset,
            s.threads,
        ),
        r.is_ok() ==> s.width >= 16,
{
    let mut enc = EncoderConfig::with_speed_preset(s.speed_preset);
    enc.width = s.width;
    enc.height = s.height;
    enc.bit_depth = s.bit_depth;
    enc.time_base = Rational { num: s.time_base_num, den: s.time_base_den };
    enc.low_latency = s.low_latency;
    enc.bitrate = s.bitrate;
    enc.min_key_frame_interval = s.min_key_frame_interval;
    enc.max_key_frame_interval = s.max_key_frame_interval;
    match Config::new().with_encoder_config(enc).with_threads(s.threads).new_context() {
        Ok(inner) => Ok(EncoderContext { inner }),
        Err(e) => Err(e.to_string()),
    }
}

/// `Context::send_frame` with a frame of `Context::new_frame` filled by
/// `Plane::copy_from_raw_u8`. The crate panics on a stride of zero.
#[verifier::external_body]
fn context_send(
    ctx: &mut EncoderContext,
    y: &[u8],
    u: &[u8],
    v: &[u8],
    luma_stride: usize,
    chroma_stride: usize,
) -> (r: Result<(), String>)
    requires
        luma_stride > 0,
        chroma_stride > 0,
{
    let mut frame = ctx.inner.new_frame();
    frame.planes[0].copy_from_raw_u8(y, luma_stride, 1);
    frame.planes[1].copy_from_raw_u8(u, chroma_stride, 1);
    frame.planes[2].copy_from_raw_u8(v, chroma_stride, 1);
    ctx.inner.send_frame(frame).map_err(|e| e.to_string())
}

/// `Context::flush`: no more pictures follow.
#[verifier::external_body]
fn context_flush(ctx: &mut EncoderContext) {
    ctx.inner.flush()
}

/// `Context::receive_packet`, with the packet and each status the crate
/// tells apart named in the library's own terms. What comes back depends
/// on what the encoder was fed.
#[verifier::external_body]
fn context_receive(ctx: &mut EncoderContext) -> (poll: PacketPoll) {
    match ctx.inner.receive_packet() {
        Ok(p) => PacketPoll::Packet(
            EncodedPacket {
                data: p.data,
                is_keyframe: p.frame_type == FrameType::KEY,
                timestamp: p.input_frameno,
            },
        ),
        Err(EncoderStatus::Encoded) => PacketPoll::Encoded,
        Err(EncoderStatus::NeedMoreData) => PacketPoll::NeedMoreData,
        Err(EncoderStatus::LimitReached) => PacketPoll::LimitReached,
        Err(e) => PacketPoll::Failed(e.to_string()),
    }
}

/// A count one further, but no further than 64 bits hold.
pub open spec fn counted(n: u64) -> u64 {
    if n < u64::MAX {
        (n + 1) as u64
    } else {
        n
    }
}

/// The size of the pictures that an encoder takes. A picture is at least
/// two samples wide, so that a row of chroma has a sample.
struct PictureSize {
    width: usize,
    height: usize,
}

impl PictureSize {
    #[verifier::type_invariant]
    spec fn wide_enough(&self) -> bool {
        self.width >= 2
    }
}

/// AV1 encoder with low-latency settings.
pub struct Av1Encoder {
    ctx: EncoderContext,
    size: PictureSize,
    frame_count: u64,
}

impl Av1Encoder {
    /// Width of the pictures.
    pub closed spec fn spec_width(&self) -> usize {
        self.size.width
    }

    /// Height of the pictures.
    pub closed spec fn spec_height(&self) -> usize {
        self.size.height
    }

    /// The number of pictures handed over so far.
    pub closed spec fn spec_frame_count(&self) -> u64 {
        self.frame_count
    }

    /// Create an encoder for pictures of `width` by `height`, at `fps`
    /// pictures per second and a target of `bitrate_kbps`. There is an
    /// encoder exactly where the encoder crate accepts the low-latency
    /// settings for these numbers; where it does not, its message follows
    /// `rav1e context: `.
    pub fn new(width: usize, height: usize, fps: u32, bitrate_kbps: u32) -> (r: Result<
        Av1Encoder,
        String,
    >)
        ensures
            r.is_ok() == settings_accepted(
                low_latency_settings(width, height, fps, bitrate_kbps),
            ),
            r matches Ok(e) ==> e.spec_width() == width && e.spec_height() == height
                && e.spec_frame_count() == 0 && width >= 16,
            r matches Err(message) ==> begins_with(message@, "rav1e context: "@),
    {
        let settings = encoder_settings(width, height, fps, bitrate_kbps);
        match context_new(&settings) {
            Ok(ctx) => Ok(Av1Encoder { ctx, size: PictureSize { width, height }, frame_count: 0 }),
            Err(e) => Err(prefixed("rav1e context: ", e.as_str())),
        }
    }

    #[verifier::when_used_as_spec(spec_width)]
    pub fn width(&self) -> (w: usize)
        ensures
            w == self.spec_width(),
            w >= 2,
    {
        proof {
            use_type_invariant(&self.size);
        }
        self.size.width
    }

    #[verifier::when_used_as_spec(spec_height)]
    pub fn height(&self) -> (h: usize)
        ensures
            h == self.spec_height(),
    {
        self.size.height
    }

    #[verifier::when_used_as_spec(spec_frame_count)]
    pub fn frame_count(&self) -> (n: u64)
        ensures
            n == self.spec_frame_count(),
    {
        self.frame_count
    }

    /// Hand one picture to the encoder, as its three I420 planes, and take
    /// the packets that are ready. The planes are read in rows of
    /// `plane_strides` of the width.
    pub fn encode(&mut self, y: &[u8], u: &[u8], v: &[u8]) -> (r: Result<Vec<EncodedPacket>, String>)
        ensures
            final(self).spec_width() == old(self).spec_width(),
            final(self).spec_height() == old(self).spec_height(),
            r.is_ok() ==> final(self).spec_frame_count() == counted(old(self).spec_frame_count()),
            r matches Err(message) ==> begins_with(message@, "rav1e send_frame: "@) || begins_with(
                message@,
                "rav1e receive_packet: "@,
            ),
            (r matches Err(message) && begins_with(message@, "rav1e send_frame: "@)) || exists|
                polls: Seq<PacketPoll>,
            | #[trigger] drain_run(polls, Seq::empty()) == drain_view(r),
    {
        proof {
            use_type_invariant(&self.size);
        }
        let strides = plane_strides(self.size.width);
        match context_send(&mut self.ctx, y, u, v, strides.0, strides.1) {
            Ok(()) => {},
            Err(e) => {
                return Err(prefixed("rav1e send_frame: ", e.as_str()));
            },
        }
        if self.frame_count < u64::MAX {
            self.frame_count = self.frame_count + 1;
        }
        self.drain_packets()
    }

    /// Tell the encoder that no more pictures follow, and take the packets
    /// that are left.
    pub fn flush(&mut self) -> (r: Result<Vec<EncodedPacket>, String>)
        ensures
            final(self).spec_width() == old(self).spec_width(),
            final(self).spec_height() == old(self).spec_height(),
            final(self).spec_frame_count() == old(self).spec_frame_count(),
            r matches Err(message) ==> begins_with(message@, "rav1e receive_packet: "@),
            exists|polls: Seq<PacketPoll>|
                #[trigger] drain_run(polls, Seq::empty()) == drain_view(r),
    {
        context_flush(&mut self.ctx);
        self.drain_packets()
    }

    fn drain_packets(&mut self) -> (r: Result<Vec<EncodedPacket>, String>)
        ensures
            final(self).spec_width() == old(self).spec_width(),
            final(self).spec_height() == old(self).spec_height(),
            final(self).spec_frame_count() == old(self).spec_frame_count(),
            r matches Err(message) ==> begins_with(message@, "rav1e receive_packet: "@),
            exists|polls: Seq<PacketPoll>|
                #[trigger] drain_run(polls, Seq::empty()) == drain_view(r),
    {
        let mut packets: Vec<EncodedPacket> = Vec::new();
        let ghost mut seen: Seq<PacketPoll> = Seq::empty();
        let mut polls: u64 = 0;
        while polls < u64::MAX
            invariant
                self.size == old(self).size,
                self.frame_count == old(self).frame_count,
                forall|i: int| 0 <= i < seen.len() ==> polls_again(#[trigger] seen[i]),
                drain_run(seen, Seq::empty()) == Ok::<Seq<EncodedPacket>, Seq<char>>(packets@),
            decreases u64::MAX - polls,
        {
            polls = polls + 1;
            let poll = context_receive(&mut self.ctx);
            let ghost polled = poll;
            let ghost taken = packets@;
            proof {
                lemma_drain_run_push(seen, Seq::empty(), polled);
                reveal_with_fuel(drain_run, 2);
                assert(seq![polled].drop_first() =~= Seq::<PacketPoll>::empty());
            }
            match drain_step(&mut packets, poll) {
                DrainStep::Continue => {
                    proof {
                        seen = seen.push(polled);
                    }
                },
                DrainStep::Stop => {
                    let r = Ok(packets);
                    assert(drain_run(seen.push(polled), Seq::empty()) == drain_view(r));
                    return r;
                },
                DrainStep::Fail(message) => {
                    let r = Err(message);
                    assert(drain_run(seen.push(polled), Seq::empty()) == drain_view(r));
                    return r;
                },
            }
        }
        let r = Ok(packets);
        assert(drain_run(seen, Seq::empty()) == drain_view(r));
        r
    }
}

} // verus!
