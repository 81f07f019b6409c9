//! The fixed 22-byte media header that starts every datagram after the
//! authentication token.
//!
//! Layout, big-endian:
//!
//! | bytes | field |
//! |-------|-------|
//! | 0     | version |
//! | 1     | media type |
//! | 2     | codec id |
//! | 3     | flags |
//! | 4..8  | room id |
//! | 8..12 | user id |
//! | 12..16| sequence |
//! | 16..20| timestamp |
//! | 20    | spatial id (high nibble), temporal id (low nibble) |
//! | 21    | discontinuous-transmission bit (most significant bit) |

use vstd::prelude::*;

verus! {

/// Size of the fixed media header in bytes.
pub const HEADER_SIZE: usize = 22;

/// Protocol version carried in byte 0 of every outbound datagram.
pub const PROTOCOL_VERSION: u8 = 1;

pub const MEDIA_TYPE_AUDIO: u8 = 0;

pub const MEDIA_TYPE_VIDEO: u8 = 1;

pub const MEDIA_TYPE_SCREEN: u8 = 2;

pub const MEDIA_TYPE_FEC: u8 = 3;

pub const MEDIA_TYPE_RTCP_FB: u8 = 4;

pub const CODEC_NONE: u8 = 0;

pub const CODEC_OPUS: u8 = 1;

pub const CODEC_AV1: u8 = 2;

pub const CODEC_AV1_SCREEN: u8 = 3;

pub const FLAG_KEYFRAME: u8 = 0x80;

pub const FLAG_END_OF_FRAME: u8 = 0x40;

pub const FLAG_FEC: u8 = 0x20;

pub const FLAG_MARKER: u8 = 0x10;

pub const FLAG_HAS_DEP_DESC: u8 = 0x08;

/// The four bytes of `x`, most significant first.
pub open spec fn be_bytes(x: u32) -> Seq<u8> {
    seq![
        (x / 0x100_0000) as u8,
        ((x / 0x1_0000) % 0x100) as u8,
        ((x / 0x100) % 0x100) as u8,
        (x % 0x100) as u8,
    ]
}

/// The number whose big-endian bytes are `b0 b1 b2 b3`.
pub open spec fn be_value(b0: u8, b1: u8, b2: u8, b3: u8) -> int {
    b0 * 0x100_0000 + b1 * 0x1_0000 + b2 * 0x100 + b3
}

/// Media frame header.
#[derive(Debug, Clone, Copy, PartialEq, Eq, Structural)]
pub struct MediaHeader {
    pub version: u8,
    pub media_type: u8,
    pub codec_id: u8,
    pub flags: u8,
    pub room_id: u32,
    pub user_id: u32,
    pub sequence: u32,
    pub timestamp: u32,
    pub spatial_id: u8,
    pub temporal_id: u8,
    pub dtx: bool,
}

impl MediaHeader {
    /// A header is representable when both layer ids fit their nibble.
    pub open spec fn valid(self) -> bool {
        self.spatial_id < 16 && self.temporal_id < 16
    }

    /// The 22 bytes that stand for this header on the wire.
    pub open spec fn wire(self) -> Seq<u8> {
        seq![self.version, self.media_type, self.codec_id, self.flags]
            + be_bytes(self.room_id)
            + be_bytes(self.user_id)
            + be_bytes(self.sequence)
            + be_bytes(self.timestamp)
            + seq![
                ((self.spatial_id % 16) * 16 + self.temporal_id % 16) as u8,
                if self.dtx { 0x80u8 } else { 0u8 },
            ]
    }

    /// The header that the first 22 bytes of `data` stand for, if there are
    /// that many.
    pub open spec fn from_wire(data: Seq<u8>) -> Option<MediaHeader> {
        if data.len() < HEADER_SIZE {
            None
        } else {
            Some(
                MediaHeader {
                    version: data[0],
                    media_type: data[1],
                    codec_id: data[2],
                    flags: data[3],
                    room_id: be_value(data[4], data[5], data[6], data[7]) as u32,
                    user_id: be_value(data[8], data[9], data[10], data[11]) as u32,
                    sequence: be_value(data[12], data[13], data[14], data[15]) as u32,
                    timestamp: be_value(data[16], data[17], data[18], data[19]) as u32,
                    spatial_id: data[20] / 16,
                    temporal_id: data[20] % 16,
                    dtx: data[21] >= 0x80,
                },
            )
        }
    }

    pub open spec fn keyframe(self) -> bool {
        self.flags & FLAG_KEYFRAME != 0
    }

    pub open spec fn end_of_frame(self) -> bool {
        self.flags & FLAG_END_OF_FRAME != 0
    }

    pub open spec fn dep_desc(self) -> bool {
        self.flags & FLAG_HAS_DEP_DESC != 0
    }

    /// Parse a media header from the first 22 bytes of a datagram. Shorter
    /// input has no header.
    pub fn parse(data: &[u8]) -> (r: Option<MediaHeader>)
        ensures
            r == Self::from_wire(data@),
    {
        if data.len() < HEADER_SIZE {
            return None;
        }
        let b21: u8 = data[21];
        Some(
            MediaHeader {
                version: data[0],
                media_type: data[1],
                codec_id: data[2],
                flags: data[3],
                room_id: read_be(data[4], data[5], data[6], data[7]),
                user_id: read_be(data[8], data[9], data[10], data[11]),
                sequence: read_be(data[12], data[13], data[14], data[15]),
                timestamp: read_be(data[16], data[17], data[18], data[19]),
                spatial_id: data[20] / 16,
                temporal_id: data[20] % 16,
                dtx: b21 >= 0x80,
            },
        )
    }

    /// Serialize the header into its 22 bytes.
    pub fn encode(&self) -> (buf: [u8; 22])
        ensures
            buf@ == self.wire(),
    {
        let r: [u8; 4] = write_be(self.room_id);
        let u: [u8; 4] = write_be(self.user_id);
        let s: [u8; 4] = write_be(self.sequence);
        let t: [u8; 4] = write_be(self.timestamp);
        let layers: u8 = (self.spatial_id % 16) * 16 + self.temporal_id % 16;
        let last: u8 = if self.dtx { 0x80 } else { 0 };
        let buf: [u8; 22] = [
            self.version,
            self.media_type,
            self.codec_id,
            self.flags,
            r[0], r[1], r[2], r[3],
            u[0], u[1], u[2], u[3],
            s[0], s[1], s[2], s[3],
            t[0], t[1], t[2], t[3],
            layers,
            last,
        ];
        assert(buf@ =~= self.wire());
        buf
    }

    pub fn is_keyframe(&self) -> (r: bool)
        ensures
            r == self.keyframe(),
    {
        self.flags & FLAG_KEYFRAME != 0
    }

    pub fn is_end_of_frame(&self) -> (r: bool)
        ensures
            r == self.end_of_frame(),
    {
        self.flags & FLAG_END_OF_FRAME != 0
    }

    pub fn has_dep_desc(&self) -> (r: bool)
        ensures
            r == self.dep_desc(),
    {
        self.flags & FLAG_HAS_DEP_DESC != 0
    }
}

/// Reads four bytes as one big-endian number.
pub fn read_be(b0: u8, b1: u8, b2: u8, b3: u8) -> (x: u32)
    ensures
        x == be_value(b0, b1, b2, b3),
{
    (b0 as u32) * 0x100_0000 + (b1 as u32) * 0x1_0000 + (b2 as u32) * 0x100 + (b3 as u32)
}

/// Writes a number as its four big-endian bytes.
pub fn write_be(x: u32) -> (b: [u8; 4])
    ensures
        b@ == be_bytes(x),
{
    let b: [u8; 4] = [
        (x / 0x100_0000) as u8,
        ((x / 0x1_0000) % 0x100) as u8,
        ((x / 0x100) % 0x100) as u8,
        (x % 0x100) as u8,
    ];
    assert(b@ =~= be_bytes(x));
    b
}

/// Reading back the big-endian bytes of a number gives the number.
pub proof fn lemma_be_round_trip(x: u32)
    ensures
        be_bytes(x).len() == 4,
        be_value(be_bytes(x)[0], be_bytes(x)[1], be_bytes(x)[2], be_bytes(x)[3]) == x,
{
}

/// Parsing the encoding of a representable header gives the header back.
pub proof fn lemma_header_round_trip(h: MediaHeader)
    requires
        h.valid(),
    ensures
        h.wire().len() == HEADER_SIZE,
        MediaHeader::from_wire(h.wire()) == Some(h),
{
    let w = h.wire();
    lemma_be_round_trip(h.room_id);
    lemma_be_round_trip(h.user_id);
    lemma_be_round_trip(h.sequence);
    lemma_be_round_trip(h.timestamp);
    assert(w.len() == 22);
    assert(w.subrange(4, 8) =~= be_bytes(h.room_id));
    assert(w.subrange(8, 12) =~= be_bytes(h.user_id));
    assert(w.subrange(12, 16) =~= be_bytes(h.sequence));
    assert(w.subrange(16, 20) =~= be_bytes(h.timestamp));
}

/// Every datagram that starts with an encoded header and is followed by any
/// payload parses to that header.
pub proof fn lemma_header_prefix(h: MediaHeader, payload: Seq<u8>)
    requires
        h.valid(),
    ensures
        MediaHeader::from_wire(h.wire() + payload) == Some(h),
{
    lemma_header_round_trip(h);
    let w = h.wire();
    let d = w + payload;
    assert forall|i: int| 0 <= i < 22 implies d[i] == w[i] by {}
}

} // verus!
