//! Outbound and inbound media frames: a header and an opaque payload.

use crate::buffer::bytes_as_slice;
use crate::buffer::bytes_contents;
use crate::buffer::bytes_mut_extend_from_slice;
use crate::buffer::bytes_mut_freeze;
use crate::buffer::bytes_mut_put_slice;
use crate::buffer::bytes_mut_with_capacity;
use crate::buffer::bytes_slice_from;
use crate::header::MediaHeader;
use crate::header::CODEC_AV1;
use crate::header::FLAG_END_OF_FRAME;
use crate::header::FLAG_KEYFRAME;
use crate::header::HEADER_SIZE;
use crate::header::MEDIA_TYPE_AUDIO;
use crate::header::MEDIA_TYPE_VIDEO;
use crate::header::PROTOCOL_VERSION;
use bytes::Bytes;
use vstd::prelude::*;

verus! {

/// What a frame is: its header and the bytes of its payload.
pub struct FrameView {
    pub header: MediaHeader,
    pub payload: Seq<u8>,
}

impl FrameView {
    /// The datagram that carries the frame: header, then payload.
    pub open spec fn datagram(self) -> Seq<u8> {
        self.header.wire() + self.payload
    }
}

/// The flags byte of a video fragment.
pub open spec fn video_flags(is_keyframe: bool, is_end_of_frame: bool) -> u8 {
    if is_keyframe && is_end_of_frame {
        0xC0
    } else if is_keyframe {
        0x80
    } else if is_end_of_frame {
        0x40
    } else {
        0
    }
}

/// The header of an audio frame: one datagram per frame, so the end-of-frame
/// flag is always set.
pub open spec fn audio_header(
    room_id: u32,
    user_id: u32,
    codec_id: u8,
    seq: u32,
    timestamp: u32,
) -> MediaHeader {
    MediaHeader {
        version: PROTOCOL_VERSION,
        media_type: MEDIA_TYPE_AUDIO,
        codec_id,
        flags: FLAG_END_OF_FRAME,
        room_id,
        user_id,
        sequence: seq,
        timestamp,
        spatial_id: 0,
        temporal_id: 0,
        dtx: false,
    }
}

/// The header of one video fragment.
pub open spec fn video_header(
    room_id: u32,
    user_id: u32,
    seq: u32,
    timestamp: u32,
    is_keyframe: bool,
    is_end_of_frame: bool,
) -> MediaHeader {
    MediaHeader {
        version: PROTOCOL_VERSION,
        media_type: MEDIA_TYPE_VIDEO,
        codec_id: CODEC_AV1,
        flags: video_flags(is_keyframe, is_end_of_frame),
        room_id,
        user_id,
        sequence: seq,
        timestamp,
        spatial_id: 0,
        temporal_id: 0,
        dtx: false,
    }
}

/// The flags byte of a video fragment carries exactly the two facts it was
/// made from.
pub proof fn lemma_video_flags(is_keyframe: bool, is_end_of_frame: bool)
    ensures
        video_flags(is_keyframe, is_end_of_frame) & FLAG_KEYFRAME != 0 <==> is_keyframe,
        video_flags(is_keyframe, is_end_of_frame) & FLAG_END_OF_FRAME != 0 <==> is_end_of_frame,
{
    assert(0xC0u8 & 0x80u8 != 0 && 0xC0u8 & 0x40u8 != 0 && 0x80u8 & 0x80u8 != 0 && 0x80u8 & 0x40u8
        == 0 && 0x40u8 & 0x80u8 == 0 && 0x40u8 & 0x40u8 != 0 && 0u8 & 0x80u8 == 0 && 0u8 & 0x40u8
        == 0) by (bit_vector);
}

/// Outbound media frame to send to the forwarding unit.
pub struct OutFrame {
    pub header: MediaHeader,
    pub payload: Bytes,
}

impl View for OutFrame {
    type V = FrameView;

    open spec fn view(&self) -> FrameView {
        FrameView { header: self.header, payload: bytes_contents(self.payload) }
    }
}

impl OutFrame {
    /// Build an audio frame.
    pub fn audio(
        room_id: u32,
        user_id: u32,
        codec_id: u8,
        seq: u32,
        timestamp: u32,
        payload: Bytes,
    ) -> (f: OutFrame)
        ensures
            f.header == audio_header(room_id, user_id, codec_id, seq, timestamp),
            f.payload == payload,
            f.header.valid(),
    {
        OutFrame {
            header: MediaHeader {
                version: PROTOCOL_VERSION,
                media_type: MEDIA_TYPE_AUDIO,
                codec_id,
                flags: FLAG_END_OF_FRAME,
                room_id,
                user_id,
                sequence: seq,
                timestamp,
                spatial_id: 0,
                temporal_id: 0,
                dtx: false,
            },
            payload,
        }
    }

    /// Build one video fragment.
    pub fn video(
        room_id: u32,
        user_id: u32,
        seq: u32,
        timestamp: u32,
        is_keyframe: bool,
        is_end_of_frame: bool,
        payload: Bytes,
    ) -> (f: OutFrame)
        ensures
            f.header == video_header(
                room_id,
                user_id,
                seq,
                timestamp,
                is_keyframe,
                is_end_of_frame,
            ),
            f.payload == payload,
            f.header.valid(),
            f.header.keyframe() == is_keyframe,
            f.header.end_of_frame() == is_end_of_frame,
    {
        let mut flags: u8 = 0;
        if is_keyframe {
            flags = flags | FLAG_KEYFRAME;
        }
        if is_end_of_frame {
            flags = flags | FLAG_END_OF_FRAME;
        }
        proof {
            assert(0u8 | 0x80u8 == 0x80u8 && 0u8 | 0x40u8 == 0x40u8 && 0x80u8 | 0x40u8 == 0xC0u8)
                by (bit_vector);
            lemma_video_flags(is_keyframe, is_end_of_frame);
        }
        OutFrame {
            header: MediaHeader {
                version: PROTOCOL_VERSION,
                media_type: MEDIA_TYPE_VIDEO,
                codec_id: CODEC_AV1,
                flags,
                room_id,
                user_id,
                sequence: seq,
                timestamp,
                spatial_id: 0,
                temporal_id: 0,
                dtx: false,
            },
            payload,
        }
    }

    /// The datagram for this frame: the 22 header bytes, then the payload.
    pub fn encode(&self) -> (datagram: Bytes)
        ensures
            bytes_contents(datagram) == self@.datagram(),
    {
        let header_bytes: [u8; 22] = self.header.encode();
        let payload: &[u8] = bytes_as_slice(&self.payload);
        let mut buf = bytes_mut_with_capacity(HEADER_SIZE.saturating_add(payload.len()));
        bytes_mut_put_slice(&mut buf, header_bytes.as_slice());
        bytes_mut_extend_from_slice(&mut buf, payload);
        bytes_mut_freeze(buf)
    }
}

/// Inbound media frame received from the forwarding unit.
pub struct InFrame {
    pub header: MediaHeader,
    pub payload: Bytes,
}

impl View for InFrame {
    type V = FrameView;

    open spec fn view(&self) -> FrameView {
        FrameView { header: self.header, payload: bytes_contents(self.payload) }
    }
}

/// The frame that a datagram stands for: none where it is shorter than a
/// header, else the parsed header and everything behind it.
pub open spec fn frame_of_datagram(data: Seq<u8>) -> Option<FrameView> {
    match MediaHeader::from_wire(data) {
        None => None,
        Some(header) => Some(
            FrameView { header, payload: data.subrange(HEADER_SIZE as int, data.len() as int) },
        ),
    }
}

impl InFrame {
    /// Split a datagram into header and payload.
    pub fn decode(data: Bytes) -> (r: Option<InFrame>)
        ensures
            match r {
                Some(f) => frame_of_datagram(bytes_contents(data)) == Some(f@),
                None => frame_of_datagram(bytes_contents(data)).is_none(),
            },
    {
        match MediaHeader::parse(bytes_as_slice(&data)) {
            None => None,
            Some(header) => {
                let payload = bytes_slice_from(&data, HEADER_SIZE);
                Some(InFrame { header, payload })
            },
        }
    }
}

/// A frame with a representable header survives the trip through its
/// datagram.
pub proof fn lemma_frame_round_trip(f: FrameView)
    requires
        f.header.valid(),
    ensures
        frame_of_datagram(f.datagram()) == Some(f),
{
    crate::header::lemma_header_round_trip(f.header);
    crate::header::lemma_header_prefix(f.header, f.payload);
    let d = f.datagram();
    assert(d.subrange(HEADER_SIZE as int, d.len() as int) =~= f.payload);
}

} // verus!
