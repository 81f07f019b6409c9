//! The state of one connected media session and the rules that change it.
//!
//! The session owns every number the media paths need: the running audio
//! and video counters, the mute and deafen flags, the gains, the speaking
//! states, the video reassembler and the per-user decoders. Devices, codecs
//! and the transport are driven by the caller, which hands each captured
//! buffer, datagram and decoder result to the session and does what the
//! session answers.

use crate::buffer::bytes_as_slice;
use crate::buffer::bytes_contents;
use crate::fragment::advance_seq;
use crate::fragment::fragment;
use crate::fragment::fragment_count;
use crate::fragment::fragment_video;
use crate::fragment::MAX_FRAGMENT_PAYLOAD;
use crate::frame::audio_header;
use crate::frame::frame_of_datagram;
use crate::frame::FrameView;
use crate::frame::InFrame;
use crate::frame::OutFrame;
use crate::header::MediaHeader;
use crate::header::CODEC_OPUS;
use crate::header::MEDIA_TYPE_AUDIO;
use crate::header::MEDIA_TYPE_VIDEO;
use crate::idle::evict_idle_step;
use crate::idle::DecoderTable;
use crate::idle::Slot;
use crate::level::amplified;
use crate::level::amplify;
use crate::level::apply_input_processing;
use crate::level::processed_input;
use crate::level::quieter_than;
use crate::level::UNITY_GAIN;
use crate::reassembly::add_step;
use crate::reassembly::evict_step;
use crate::reassembly::PartialView;
use crate::reassembly::ReassembledFrame;
use crate::reassembly::VideoReassembler;
use crate::speaking::remembered;
use crate::speaking::speaking_step;
use crate::speaking::SpeakingEdge;
use crate::speaking::SpeakingState;
use crate::speaking::SpeakingTable;
use crate::speaking::SPEAKING_LEVEL;
use crate::table::Table;
use crate::video::CameraConfig;
use bytes::Bytes;
use vstd::prelude::*;

verus! {

/// Samples in one audio frame: 20 ms at 48 kHz.
pub const AUDIO_FRAME_SAMPLES: u32 = 960;

/// Partial video frames are dropped after this long without a fragment.
pub const REASSEMBLY_STALE_TIMEOUT_MS: u64 = 2000;

/// Video configuration, applied when video is switched on.
#[derive(Debug, Clone, Copy, PartialEq, Eq, Structural)]
pub struct VideoConfig {
    pub width: u32,
    pub height: u32,
    pub fps: u32,
    pub bitrate_kbps: u32,
}

impl Default for VideoConfig {
    fn default() -> (c: VideoConfig)
        ensures
            c == (VideoConfig { width: 640, height: 480, fps: 30, bitrate_kbps: 500 }),
    {
        VideoConfig { width: 640, height: 480, fps: 30, bitrate_kbps: 500 }
    }
}

/// Everything a session knows.
pub struct SessionView<A, V> {
    pub room_id: u32,
    pub user_id: u32,
    pub sequence: u32,
    pub timestamp: u32,
    pub muted: bool,
    pub deafened: bool,
    pub input_volume: u32,
    pub output_volume: u32,
    pub noise_gate: u16,
    pub user_volumes: Map<u64, u32>,
    pub speaking: Map<u64, SpeakingState>,
    pub video: bool,
    pub video_config: VideoConfig,
    pub video_sequence: u32,
    pub video_timestamp: u32,
    pub reassembly: Map<u64, PartialView>,
    pub audio_decoders: Map<u64, Slot<A>>,
    pub video_decoders: Map<u64, Slot<V>>,
}

/// The session right after the connection was made.
pub open spec fn fresh_session<A, V>(room_id: u32, user_id: u32) -> SessionView<A, V> {
    SessionView {
        room_id,
        user_id,
        sequence: 0,
        timestamp: 0,
        muted: false,
        deafened: false,
        input_volume: UNITY_GAIN,
        output_volume: UNITY_GAIN,
        noise_gate: 0,
        user_volumes: Map::empty(),
        speaking: Map::empty(),
        video: false,
        video_config: VideoConfig { width: 640, height: 480, fps: 30, bitrate_kbps: 500 },
        video_sequence: 0,
        video_timestamp: 0,
        reassembly: Map::empty(),
        audio_decoders: Map::empty(),
        video_decoders: Map::empty(),
    }
}

/// A change of a speaking state, told of the user it concerns.
#[derive(Debug, Clone, Copy, PartialEq, Eq, Structural)]
pub enum SpeakingEvent {
    Start(u32),
    Stop(u32),
}

/// The event for a change of a user's speaking state.
pub open spec fn speaking_event(user_id: u32, edge: Option<SpeakingEdge>) -> Option<SpeakingEvent> {
    match edge {
        Some(SpeakingEdge::Start) => Some(SpeakingEvent::Start(user_id)),
        Some(SpeakingEdge::Stop) => Some(SpeakingEvent::Stop(user_id)),
        None => None,
    }
}

/// What to do with a captured buffer.
pub struct Captured {
    /// Encode the buffer and send it.
    pub send: bool,
    /// Report this change of the local user's speaking state.
    pub event: Option<SpeakingEvent>,
}

/// What becomes of a captured buffer and of the session that takes it.
///
/// Unmuted, the buffer passes the noise gate and the input gain, counts
/// for the local user's speaking state and is sent. Muted, it is dropped,
/// and a local user who counted as speaking stops.
pub open spec fn capture_step<A, V>(s: SessionView<A, V>, pcm: Seq<i16>, now: u64) -> (
    SessionView<A, V>,
    Seq<i16>,
    bool,
    Option<SpeakingEvent>,
) {
    let local = s.user_id as u64;
    if !s.muted {
        let processed = processed_input(pcm, s.input_volume, s.noise_gate);
        if processed.len() == 0 {
            (s, processed, true, None)
        } else {
            let step = speaking_step(
                remembered(s.speaking, s.user_id),
                !quieter_than(processed, SPEAKING_LEVEL),
                now,
            );
            (
                SessionView { speaking: s.speaking.insert(local, step.0), ..s },
                processed,
                true,
                speaking_event(s.user_id, step.1),
            )
        }
    } else if s.speaking.contains_key(local) && s.speaking[local].speaking {
        (
            SessionView {
                speaking: s.speaking.insert(
                    local,
                    SpeakingState {
                        speaking: false,
                        last_above_threshold: s.speaking[local].last_above_threshold,
                    },
                ),
                ..s
            },
            pcm,
            false,
            Some(SpeakingEvent::Stop(s.user_id)),
        )
    } else {
        (s, pcm, false, None)
    }
}

/// The session after an audio frame was built: the sequence number is one
/// further, the timestamp one frame of samples, both wrapping.
pub open spec fn after_audio_frame<A, V>(s: SessionView<A, V>) -> SessionView<A, V> {
    SessionView {
        sequence: advance_seq(s.sequence, 1),
        timestamp: advance_seq(s.timestamp, AUDIO_FRAME_SAMPLES as nat),
        ..s
    }
}

/// What an incoming datagram is to the session.
pub enum Inbound {
    /// Too short for a header, of a media type not handled, or audio while
    /// deafened.
    Ignored,
    /// Audio to decode with the sender's decoder.
    Audio(InFrame),
    /// A video fragment that was stored; its frame is not complete.
    Collecting,
    /// The video frame that the fragment completed, to decode with the
    /// sender's decoder.
    Video(ReassembledFrame),
}

/// The view of what a datagram is to the session.
pub enum InboundView {
    Ignored,
    Audio(FrameView),
    Collecting,
    Video(crate::reassembly::ReassembledView),
}

impl View for Inbound {
    type V = InboundView;

    open spec fn view(&self) -> InboundView {
        match self {
            Inbound::Ignored => InboundView::Ignored,
            Inbound::Audio(f) => InboundView::Audio(f@),
            Inbound::Collecting => InboundView::Collecting,
            Inbound::Video(f) => InboundView::Video(f@),
        }
    }
}

/// What an incoming datagram is to the session, and the session after it.
pub open spec fn datagram_step<A, V>(s: SessionView<A, V>, data: Seq<u8>, now: u64) -> (
    SessionView<A, V>,
    InboundView,
) {
    match frame_of_datagram(data) {
        None => (s, InboundView::Ignored),
        Some(f) => if f.header.media_type == MEDIA_TYPE_AUDIO {
            if s.deafened {
                (s, InboundView::Ignored)
            } else {
                (s, InboundView::Audio(f))
            }
        } else if f.header.media_type == MEDIA_TYPE_VIDEO {
            let step = add_step(s.reassembly, f.header, f.payload, now);
            (
                SessionView { reassembly: step.0, ..s },
                match step.1 {
                    Some(frame) => InboundView::Video(frame),
                    None => InboundView::Collecting,
                },
            )
        } else {
            (s, InboundView::Ignored)
        },
    }
}

/// The gain for a user's audio: the user's own gain, or unity where none
/// was set, times the output gain; in millionths.
pub open spec fn playback_gain<A, V>(s: SessionView<A, V>, user_id: u32) -> int {
    (if s.user_volumes.contains_key(user_id as u64) {
        s.user_volumes[user_id as u64]
    } else {
        UNITY_GAIN
    }) * s.output_volume
}

/// What becomes of a decoded buffer of a user's audio: it counts for the
/// user's speaking state as decoded, and is played with the user's gain.
pub open spec fn playback_step<A, V>(s: SessionView<A, V>, user_id: u32, pcm: Seq<i16>, now: u64) -> (
    SessionView<A, V>,
    Seq<i16>,
    Option<SpeakingEvent>,
) {
    let played = amplified(pcm, playback_gain(s, user_id), UNITY_GAIN * UNITY_GAIN);
    if pcm.len() == 0 {
        (s, played, None)
    } else {
        let step = speaking_step(
            remembered(s.speaking, user_id),
            !quieter_than(pcm, SPEAKING_LEVEL),
            now,
        );
        (
            SessionView { speaking: s.speaking.insert(user_id as u64, step.0), ..s },
            played,
            speaking_event(user_id, step.1),
        )
    }
}

/// What to do when video is switched.
#[derive(Debug, Clone, Copy, PartialEq, Eq, Structural)]
pub enum VideoSwitch {
    /// Video already is as asked.
    Unchanged,
    /// Start the camera, then the encoder, and report how it went.
    Start { camera: CameraConfig, encoder: VideoConfig },
    /// Stop the camera and drop the encoder.
    Stop,
}

/// The answer to a request to switch video, and the session after it.
/// Switching on changes nothing yet: the session counts video as on once
/// camera and encoder run.
pub open spec fn video_switch_step<A, V>(s: SessionView<A, V>, enabled: bool) -> (
    SessionView<A, V>,
    VideoSwitch,
) {
    if enabled == s.video {
        (s, VideoSwitch::Unchanged)
    } else if enabled {
        (
            s,
            VideoSwitch::Start {
                camera: CameraConfig {
                    width: s.video_config.width,
                    height: s.video_config.height,
                    fps: s.video_config.fps,
                },
                encoder: s.video_config,
            },
        )
    } else {
        (SessionView { video: false, ..s }, VideoSwitch::Stop)
    }
}

/// The session after a user's gain was set: unity removes the entry.
pub open spec fn with_user_volume<A, V>(s: SessionView<A, V>, user_id: u32, volume: u32) -> SessionView<
    A,
    V,
> {
    SessionView {
        user_volumes: if volume == UNITY_GAIN {
            s.user_volumes.remove(user_id as u64)
        } else {
            s.user_volumes.insert(user_id as u64, volume)
        },
        ..s
    }
}

/// The session after the periodic cleanup at time `now`.
pub open spec fn cleanup_step<A, V>(s: SessionView<A, V>, now: u64) -> SessionView<A, V> {
    SessionView {
        reassembly: evict_step(s.reassembly, now, REASSEMBLY_STALE_TIMEOUT_MS),
        audio_decoders: evict_idle_step(s.audio_decoders, now),
        video_decoders: evict_idle_step(s.video_decoders, now),
        ..s
    }
}

/// One connected session. `A` and `V` are the caller's audio and video
/// decoders.
pub struct Session<A, V> {
    room_id: u32,
    user_id: u32,
    sequence: u32,
    timestamp: u32,
    muted: bool,
    deafened: bool,
    input_volume: u32,
    output_volume: u32,
    noise_gate: u16,
    user_volumes: Table<u32>,
    speaking: SpeakingTable,
    video: bool,
    video_config: VideoConfig,
    video_sequence: u32,
    video_timestamp: u32,
    reassembler: VideoReassembler,
    audio_decoders: DecoderTable<A>,
    video_decoders: DecoderTable<V>,
}

impl<A, V> View for Session<A, V> {
    type V = SessionView<A, V>;

    closed spec fn view(&self) -> SessionView<A, V> {
        SessionView {
            room_id: self.room_id,
            user_id: self.user_id,
            sequence: self.sequence,
            timestamp: self.timestamp,
            muted: self.muted,
            deafened: self.deafened,
            input_volume: self.input_volume,
            output_volume: self.output_volume,
            noise_gate: self.noise_gate,
            user_volumes: self.user_volumes@,
            speaking: self.speaking@,
            video: self.video,
            video_config: self.video_config,
            video_sequence: self.video_sequence,
            video_timestamp: self.video_timestamp,
            reassembly: self.reassembler@,
            audio_decoders: self.audio_decoders@,
            video_decoders: self.video_decoders@,
        }
    }
}

fn event_of(user_id: u32, edge: Option<SpeakingEdge>) -> (event: Option<SpeakingEvent>)
    ensures
        event == speaking_event(user_id, edge),
{
    match edge {
        Some(SpeakingEdge::Start) => Some(SpeakingEvent::Start(user_id)),
        Some(SpeakingEdge::Stop) => Some(SpeakingEvent::Stop(user_id)),
        None => None,
    }
}

impl<A, V> Session<A, V> {
    /// The session of a connection just made.
    pub fn new(room_id: u32, user_id: u32) -> (s: Session<A, V>)
        ensures
            s@ == fresh_session::<A, V>(room_id, user_id),
    {
        Session {
            room_id,
            user_id,
            sequence: 0,
            timestamp: 0,
            muted: false,
            deafened: false,
            input_volume: UNITY_GAIN,
            output_volume: UNITY_GAIN,
            noise_gate: 0,
            user_volumes: Table::new(),
            speaking: SpeakingTable::new(),
            video: false,
            video_config: VideoConfig { width: 640, height: 480, fps: 30, bitrate_kbps: 500 },
            video_sequence: 0,
            video_timestamp: 0,
            reassembler: VideoReassembler::new(),
            audio_decoders: DecoderTable::new(),
            video_decoders: DecoderTable::new(),
        }
    }

    pub fn room_id(&self) -> (r: u32)
        ensures
            r == self@.room_id,
    {
        self.room_id
    }

    pub fn user_id(&self) -> (r: u32)
        ensures
            r == self@.user_id,
    {
        self.user_id
    }

    pub fn sequence(&self) -> (r: u32)
        ensures
            r == self@.sequence,
    {
        self.sequence
    }

    pub fn timestamp(&self) -> (r: u32)
        ensures
            r == self@.timestamp,
    {
        self.timestamp
    }

    pub fn is_muted(&self) -> (r: bool)
        ensures
            r == self@.muted,
    {
        self.muted
    }

    pub fn is_deafened(&self) -> (r: bool)
        ensures
            r == self@.deafened,
    {
        self.deafened
    }

    pub fn is_video_enabled(&self) -> (r: bool)
        ensures
            r == self@.video,
    {
        self.video
    }

    pub fn video_config(&self) -> (r: VideoConfig)
        ensures
            r == self@.video_config,
    {
        self.video_config
    }

    pub fn video_sequence(&self) -> (r: u32)
        ensures
            r == self@.video_sequence,
    {
        self.video_sequence
    }

    pub fn video_timestamp(&self) -> (r: u32)
        ensures
            r == self@.video_timestamp,
    {
        self.video_timestamp
    }

    /// The gain set for a user, if one other than unity was set.
    pub fn user_volume(&self, user_id: u32) -> (r: Option<u32>)
        ensures
            r == (if self@.user_volumes.contains_key(user_id as u64) {
                Some(self@.user_volumes[user_id as u64])
            } else {
                None
            }),
    {
        match self.user_volumes.get(user_id as u64) {
            Some(v) => Some(*v),
            None => None,
        }
    }

    /// Whether a user counts as speaking.
    pub fn is_speaking(&self, user_id: u32) -> (r: bool)
        ensures
            r == (self@.speaking.contains_key(user_id as u64) && self@.speaking[user_id
                as u64].speaking),
    {
        self.speaking.is_speaking(user_id)
    }

    pub fn set_mute(&mut self, muted: bool)
        ensures
            final(self)@ == (SessionView { muted, ..old(self)@ }),
    {
        self.muted = muted;
    }

    pub fn set_deaf(&mut self, deafened: bool)
        ensures
            final(self)@ == (SessionView { deafened, ..old(self)@ }),
    {
        self.deafened = deafened;
    }

    /// Sets the configuration that the next switching on of video uses.
    pub fn set_video_config(&mut self, config: VideoConfig)
        ensures
            final(self)@ == (SessionView { video_config: config, ..old(self)@ }),
    {
        self.video_config = config;
    }

    pub fn set_input_volume(&mut self, volume: u32)
        ensures
            final(self)@ == (SessionView { input_volume: volume, ..old(self)@ }),
    {
        self.input_volume = volume;
    }

    pub fn set_output_volume(&mut self, volume: u32)
        ensures
            final(self)@ == (SessionView { output_volume: volume, ..old(self)@ }),
    {
        self.output_volume = volume;
    }

    /// Sets the noise gate; 0 switches it off.
    pub fn set_noise_gate(&mut self, level: u16)
        ensures
            final(self)@ == (SessionView { noise_gate: level, ..old(self)@ }),
    {
        self.noise_gate = level;
    }

    /// Sets a user's playback gain; unity removes the entry.
    pub fn set_user_volume(&mut self, user_id: u32, volume: u32)
        ensures
            final(self)@ == with_user_volume(old(self)@, user_id, volume),
    {
        if volume == UNITY_GAIN {
            let _ = self.user_volumes.remove(user_id as u64);
        } else {
            self.user_volumes.insert(user_id as u64, volume);
        }
    }

    /// Take a captured buffer: process it in place and say whether to send
    /// it and what to report.
    pub fn on_captured(&mut self, pcm: &mut Vec<i16>, now: u64) -> (out: Captured)
        ensures
            final(self)@ == capture_step(old(self)@, old(pcm)@, now).0,
            final(pcm)@ == capture_step(old(self)@, old(pcm)@, now).1,
            out.send == capture_step(old(self)@, old(pcm)@, now).2,
            out.event == capture_step(old(self)@, old(pcm)@, now).3,
    {
        if !self.muted {
            apply_input_processing(pcm, self.input_volume, self.noise_gate);
            let edge = self.speaking.update(self.user_id, pcm.as_slice(), now);
            Captured { send: true, event: event_of(self.user_id, edge) }
        } else if self.speaking.silence(self.user_id) {
            Captured { send: false, event: Some(SpeakingEvent::Stop(self.user_id)) }
        } else {
            Captured { send: false, event: None }
        }
    }

    /// Build the frame for one encoded audio buffer and advance the audio
    /// counters.
    pub fn next_audio_frame(&mut self, payload: Bytes, is_dtx: bool) -> (frame: OutFrame)
        ensures
            frame.header == (MediaHeader {
                dtx: is_dtx,
                ..audio_header(
                    old(self)@.room_id,
                    old(self)@.user_id,
                    CODEC_OPUS,
                    old(self)@.sequence,
                    old(self)@.timestamp,
                )
            }),
            frame.payload == payload,
            final(self)@ == after_audio_frame(old(self)@),
    {
        let mut frame = OutFrame::audio(
            self.room_id,
            self.user_id,
            CODEC_OPUS,
            self.sequence,
            self.timestamp,
            payload,
        );
        frame.header.dtx = is_dtx;
        self.sequence = self.sequence.wrapping_add(1);
        self.timestamp = self.timestamp.wrapping_add(AUDIO_FRAME_SAMPLES);
        frame
    }

    /// Take an incoming datagram and say what it is.
    pub fn on_datagram(&mut self, data: Bytes, now: u64) -> (inbound: Inbound)
        ensures
            final(self)@ == datagram_step(old(self)@, bytes_contents(data), now).0,
            inbound@ == datagram_step(old(self)@, bytes_contents(data), now).1,
    {
        let frame = match InFrame::decode(data) {
            Some(f) => f,
            None => {
                return Inbound::Ignored;
            },
        };
        if frame.header.media_type == MEDIA_TYPE_AUDIO {
            if self.deafened {
                Inbound::Ignored
            } else {
                Inbound::Audio(frame)
            }
        } else if frame.header.media_type == MEDIA_TYPE_VIDEO {
            match self.reassembler.add_fragment_at(
                &frame.header,
                bytes_as_slice(&frame.payload),
                now,
            ) {
                Some(whole) => Inbound::Video(whole),
                None => Inbound::Collecting,
            }
        } else {
            Inbound::Ignored
        }
    }

    /// Take a user's audio decoder out for use; `None` where the user has
    /// none yet.
    pub fn take_audio_decoder(&mut self, user_id: u32) -> (decoder: Option<A>)
        ensures
            final(self)@ == (SessionView {
                audio_decoders: old(self)@.audio_decoders.remove(user_id as u64),
                ..old(self)@
            }),
            match decoder {
                Some(d) => old(self)@.audio_decoders.contains_key(user_id as u64) && old(
                    self,
                )@.audio_decoders[user_id as u64].decoder == d,
                None => !old(self)@.audio_decoders.contains_key(user_id as u64),
            },
    {
        self.audio_decoders.checkout(user_id)
    }

    /// Put a user's audio decoder back, used at time `now`.
    pub fn return_audio_decoder(&mut self, user_id: u32, decoder: A, now: u64)
        ensures
            final(self)@ == (SessionView {
                audio_decoders: old(self)@.audio_decoders.insert(
                    user_id as u64,
                    Slot { decoder, last_used: now },
                ),
                ..old(self)@
            }),
    {
        self.audio_decoders.checkin(user_id, decoder, now);
    }

    /// Take a user's video decoder out for use; `None` where the user has
    /// none yet.
    pub fn take_video_decoder(&mut self, user_id: u32) -> (decoder: Option<V>)
        ensures
            final(self)@ == (SessionView {
                video_decoders: old(self)@.video_decoders.remove(user_id as u64),
                ..old(self)@
            }),
            match decoder {
                Some(d) => old(self)@.video_decoders.contains_key(user_id as u64) && old(
                    self,
                )@.video_decoders[user_id as u64].decoder == d,
                None => !old(self)@.video_decoders.contains_key(user_id as u64),
            },
    {
        self.video_decoders.checkout(user_id)
    }

    /// Put a user's video decoder back, used at time `now`.
    pub fn return_video_decoder(&mut self, user_id: u32, decoder: V, now: u64)
        ensures
            final(self)@ == (SessionView {
                video_decoders: old(self)@.video_decoders.insert(
                    user_id as u64,
                    Slot { decoder, last_used: now },
                ),
                ..old(self)@
            }),
    {
        self.video_decoders.checkin(user_id, decoder, now);
    }

    /// Take a decoded buffer of a user's audio: note the speaking state,
    /// apply the gains in place and say what to report.
    pub fn on_decoded_audio(&mut self, user_id: u32, pcm: &mut Vec<i16>, now: u64) -> (event: Option<
        SpeakingEvent,
    >)
        ensures
            final(self)@ == playback_step(old(self)@, user_id, old(pcm)@, now).0,
            final(pcm)@ == playback_step(old(self)@, user_id, old(pcm)@, now).1,
            event == playback_step(old(self)@, user_id, old(pcm)@, now).2,
    {
        let edge = self.speaking.update(user_id, pcm.as_slice(), now);
        let user_volume: u32 = match self.user_volumes.get(user_id as u64) {
            Some(v) => *v,
            None => UNITY_GAIN,
        };
        assert(user_volume * self.output_volume <= 0xFFFF_FFFF * 0xFFFF_FFFF) by (nonlinear_arith)
            requires
                0 <= user_volume <= 0xFFFF_FFFF,
                0 <= self.output_volume <= 0xFFFF_FFFF,
        ;
        let combined: u64 = (user_volume as u64) * (self.output_volume as u64);
        amplify(pcm, combined, (UNITY_GAIN as u64) * (UNITY_GAIN as u64));
        event_of(user_id, edge)
    }

    /// The periodic cleanup: drop partial frames without a fragment for two
    /// seconds and decoders idle for ten.
    pub fn cleanup(&mut self, now: u64)
        ensures
            final(self)@ == cleanup_step(old(self)@, now),
    {
        self.reassembler.evict_stale_at(now, REASSEMBLY_STALE_TIMEOUT_MS);
        let _ = self.audio_decoders.evict_idle(now);
        let _ = self.video_decoders.evict_idle(now);
    }

    /// Answer a request to switch video on or off.
    pub fn set_video(&mut self, enabled: bool) -> (switch: VideoSwitch)
        ensures
            final(self)@ == video_switch_step(old(self)@, enabled).0,
            switch == video_switch_step(old(self)@, enabled).1,
    {
        if enabled == self.video {
            VideoSwitch::Unchanged
        } else if enabled {
            VideoSwitch::Start {
                camera: CameraConfig {
                    width: self.video_config.width,
                    height: self.video_config.height,
                    fps: self.video_config.fps,
                },
                encoder: self.video_config,
            }
        } else {
            self.video = false;
            VideoSwitch::Stop
        }
    }

    /// Camera and encoder run: video is on, and its counters start at zero.
    pub fn video_started(&mut self)
        ensures
            final(self)@ == (SessionView {
                video: true,
                video_sequence: 0,
                video_timestamp: 0,
                ..old(self)@
            }),
    {
        self.video = true;
        self.video_sequence = 0;
        self.video_timestamp = 0;
    }

    /// Fragment one encoded video packet for sending. All fragments carry
    /// the current video timestamp, which then moves on by one; the video
    /// sequence number moves on by the number of fragments.
    pub fn next_video_packet(&mut self, is_keyframe: bool, data: &[u8]) -> (frames: Vec<OutFrame>)
        ensures
            frames@.len() == fragment_count(data@.len(), MAX_FRAGMENT_PAYLOAD as nat),
            forall|i: int|
                0 <= i < frames@.len() ==> (#[trigger] frames@[i])@ == fragment(
                    old(self)@.room_id,
                    old(self)@.user_id,
                    old(self)@.video_sequence,
                    old(self)@.video_timestamp,
                    is_keyframe,
                    data@,
                    MAX_FRAGMENT_PAYLOAD as nat,
                    i as nat,
                ),
            final(self)@ == (SessionView {
                video_sequence: advance_seq(old(self)@.video_sequence, frames@.len()),
                video_timestamp: advance_seq(old(self)@.video_timestamp, 1),
                ..old(self)@
            }),
    {
        let mut seq: u32 = self.video_sequence;
        let frames = fragment_video(
            self.room_id,
            self.user_id,
            &mut seq,
            self.video_timestamp,
            is_keyframe,
            data,
        );
        self.video_sequence = seq;
        self.video_timestamp = self.video_timestamp.wrapping_add(1);
        frames
    }
}

} // verus!
