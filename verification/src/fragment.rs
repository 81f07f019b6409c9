//! Splitting one encoded video frame into datagram-sized fragments.
//!
//! All fragments of a frame share its timestamp; their sequence numbers
//! count up by one from the sender's running counter, wrapping at 2^32. The
//! first fragment alone may carry the keyframe flag, the last alone carries
//! the end-of-frame flag. An empty frame still travels as one empty fragment.

use crate::buffer::bytes_copy_from_slice;
use crate::frame::video_header;
use crate::frame::FrameView;
use crate::frame::OutFrame;
use vstd::prelude::*;
use vstd::slice::slice_subrange;

verus! {

/// Largest payload of one fragment: a 1200-byte datagram less the header.
pub const MAX_FRAGMENT_PAYLOAD: usize = 1178;

/// The number of fragments for a payload of `len` bytes cut into pieces of
/// at most `max` bytes: `ceil(len / max)`, and one for the empty payload.
pub open spec fn fragment_count(len: nat, max: nat) -> nat {
    if len == 0 {
        1
    } else {
        ((len + max - 1) / (max as int)) as nat
    }
}

/// The `i`-th piece of `data` cut into pieces of `max` bytes.
pub open spec fn chunk(data: Seq<u8>, max: nat, i: nat) -> Seq<u8> {
    let lo = if i * max <= data.len() { i * max } else { data.len() };
    let hi = if (i + 1) * max <= data.len() { (i + 1) * max } else { data.len() };
    data.subrange(lo as int, hi as int)
}

/// The payloads of all fragments of `data`, in order.
pub open spec fn chunks(data: Seq<u8>, max: nat) -> Seq<Seq<u8>> {
    Seq::new(fragment_count(data.len(), max), |i: int| chunk(data, max, i as nat))
}

/// A counter advanced by `n`, wrapping at 2^32.
pub open spec fn advance_seq(start: u32, n: nat) -> u32 {
    ((start + n) % 0x1_0000_0000) as u32
}

/// The `i`-th fragment of a frame.
pub open spec fn fragment(
    room_id: u32,
    user_id: u32,
    start_seq: u32,
    timestamp: u32,
    is_keyframe: bool,
    data: Seq<u8>,
    max: nat,
    i: nat,
) -> FrameView {
    FrameView {
        header: video_header(
            room_id,
            user_id,
            advance_seq(start_seq, i),
            timestamp,
            is_keyframe && i == 0,
            i + 1 == fragment_count(data.len(), max),
        ),
        payload: chunk(data, max, i),
    }
}

/// `ceil(len / max)` computed without leaving the machine word.
proof fn lemma_count(len: nat, max: nat)
    requires
        len > 0,
        max > 0,
    ensures
        fragment_count(len, max) == (len - 1) / (max as int) + 1,
        ((len - 1) / (max as int)) * max <= len - 1,
        len <= ((len - 1) / (max as int) + 1) * max,
{
    let q = (len - 1) / (max as int);
    vstd::arithmetic::div_mod::lemma_fundamental_div_mod(len - 1, max as int);
    vstd::arithmetic::div_mod::lemma_mod_bound(len - 1, max as int);
    assert(max * q == q * max) by (nonlinear_arith);
    assert((q + 1) * max == q * max + max) by (nonlinear_arith);
    vstd::arithmetic::div_mod::lemma_fundamental_div_mod_converse_div(
        len + max - 1,
        max as int,
        q + 1,
        (len - 1) % (max as int),
    );
}

/// Split `data` into fragments of at most `max_fragment_payload` bytes and
/// advance the running sequence counter by their number.
pub fn fragment_frame(
    room_id: u32,
    user_id: u32,
    start_seq: &mut u32,
    timestamp: u32,
    is_keyframe: bool,
    data: &[u8],
    max_fragment_payload: usize,
) -> (frames: Vec<OutFrame>)
    requires
        max_fragment_payload > 0,
    ensures
        frames@.len() == fragment_count(data@.len(), max_fragment_payload as nat),
        forall|i: int|
            0 <= i < frames@.len() ==> (#[trigger] frames@[i])@ == fragment(
                room_id,
                user_id,
                *old(start_seq),
                timestamp,
                is_keyframe,
                data@,
                max_fragment_payload as nat,
                i as nat,
            ),
        *final(start_seq) == advance_seq(*old(start_seq), frames@.len()),
{
    let max: usize = max_fragment_payload;
    let len: usize = data.len();
    let n: usize = if len == 0 {
        1
    } else {
        (len - 1) / max + 1
    };
    proof {
        if len > 0 {
            lemma_count(len as nat, max as nat);
        }
    }
    let ghost first: u32 = *start_seq;
    let mut frames: Vec<OutFrame> = Vec::new();
    let mut seq: u32 = *start_seq;
    let mut i: usize = 0;
    while i < n
        invariant
            i <= n,
            max > 0,
            max == max_fragment_payload,
            len == data@.len(),
            n == fragment_count(len as nat, max as nat),
            len > 0 ==> (n - 1) * max <= len - 1,
            frames@.len() == i,
            seq == advance_seq(first, i as nat),
            forall|j: int|
                0 <= j < i ==> (#[trigger] frames@[j])@ == fragment(
                    room_id,
                    user_id,
                    first,
                    timestamp,
                    is_keyframe,
                    data@,
                    max as nat,
                    j as nat,
                ),
        decreases n - i,
    {
        proof {
            if len > 0 {
                assert(i * max <= (n - 1) * max) by (nonlinear_arith)
                    requires
                        i <= n - 1,
                        max > 0,
                ;
            } else {
                assert(i * max == 0) by (nonlinear_arith)
                    requires
                        i == 0,
                ;
            }
            assert((i + 1) * max == i * max + max) by (nonlinear_arith);
        }
        let lo: usize = i * max;
        let hi: usize = if len - lo > max {
            lo + max
        } else {
            len
        };
        let piece: &[u8] = slice_subrange(data, lo, hi);
        let frame = OutFrame::video(
            room_id,
            user_id,
            seq,
            timestamp,
            is_keyframe && i == 0,
            i == n - 1,
            bytes_copy_from_slice(piece),
        );
        assert(piece@ == chunk(data@, max as nat, i as nat));
        frames.push(frame);
        seq = seq.wrapping_add(1);
        i += 1;
    }
    *start_seq = seq;
    frames
}

/// Split one encoded video frame into datagrams of at most 1200 bytes.
pub fn fragment_video(
    room_id: u32,
    user_id: u32,
    start_seq: &mut u32,
    timestamp: u32,
    is_keyframe: bool,
    data: &[u8],
) -> (frames: Vec<OutFrame>)
    ensures
        frames@.len() == fragment_count(data@.len(), MAX_FRAGMENT_PAYLOAD as nat),
        forall|i: int|
            0 <= i < frames@.len() ==> (#[trigger] frames@[i])@ == fragment(
                room_id,
                user_id,
                *old(start_seq),
                timestamp,
                is_keyframe,
                data@,
                MAX_FRAGMENT_PAYLOAD as nat,
                i as nat,
            ),
        *final(start_seq) == advance_seq(*old(start_seq), frames@.len()),
{
    fragment_frame(
        room_id,
        user_id,
        start_seq,
        timestamp,
        is_keyframe,
        data,
        MAX_FRAGMENT_PAYLOAD,
    )
}

/// The first `k` pieces of `data`, joined, are its first `k * max` bytes.
proof fn lemma_prefix_of_chunks(data: Seq<u8>, max: nat, k: nat)
    requires
        max > 0,
    ensures
        Seq::new(k, |i: int| chunk(data, max, i as nat)).flatten() == data.subrange(
            0,
            if k * max <= data.len() {
                (k * max) as int
            } else {
                data.len() as int
            },
        ),
    decreases k,
{
    let pieces = Seq::new(k, |i: int| chunk(data, max, i as nat));
    if k == 0 {
        assert(0 * max == 0) by (nonlinear_arith);
        assert(pieces =~= Seq::<Seq<u8>>::empty());
        assert(pieces.flatten() =~= Seq::<u8>::empty());
    } else {
        let shorter = Seq::new((k - 1) as nat, |i: int| chunk(data, max, i as nat));
        lemma_prefix_of_chunks(data, max, (k - 1) as nat);
        assert(pieces =~= shorter.push(chunk(data, max, (k - 1) as nat)));
        shorter.lemma_flatten_push(chunk(data, max, (k - 1) as nat));
        assert(((k - 1) + 1) * max == (k - 1) * max + max) by (nonlinear_arith);
        assert((k - 1) * max >= 0) by (nonlinear_arith)
            requires
                k >= 1,
                max > 0,
        ;
    }
}

/// Fragmenting loses nothing: there are `ceil(max(len, 1) / max)` fragments,
/// the last one and no other carries the end-of-frame flag, the first one
/// and no other carries the keyframe flag of a keyframe, and their payloads
/// joined in sequence order are the frame.
pub proof fn lemma_fragments_rebuild(
    room_id: u32,
    user_id: u32,
    start_seq: u32,
    timestamp: u32,
    is_keyframe: bool,
    data: Seq<u8>,
    max: nat,
)
    requires
        max > 0,
    ensures
        fragment_count(data.len(), max) >= 1,
        fragment_count(data.len(), max) == (if data.len() == 0 {
            1
        } else {
            data.len()
        } + max - 1) / (max as int),
        forall|i: nat|
            i < fragment_count(data.len(), max) ==> (#[trigger] fragment(
                room_id,
                user_id,
                start_seq,
                timestamp,
                is_keyframe,
                data,
                max,
                i,
            ).header.end_of_frame() <==> i + 1 == fragment_count(data.len(), max)),
        forall|i: nat|
            i < fragment_count(data.len(), max) ==> (#[trigger] fragment(
                room_id,
                user_id,
                start_seq,
                timestamp,
                is_keyframe,
                data,
                max,
                i,
            ).header.keyframe() <==> is_keyframe && i == 0),
        chunks(data, max).flatten() == data,
{
    let n = fragment_count(data.len(), max);
    if data.len() > 0 {
        lemma_count(data.len(), max);
    } else {
        vstd::arithmetic::div_mod::lemma_div_by_self(max as int);
    }
    assert forall|i: nat| i < n implies (#[trigger] fragment(
        room_id,
        user_id,
        start_seq,
        timestamp,
        is_keyframe,
        data,
        max,
        i,
    ).header.end_of_frame() <==> i + 1 == n) by {
        crate::frame::lemma_video_flags(is_keyframe && i == 0, i + 1 == n);
    }
    assert forall|i: nat| i < n implies (#[trigger] fragment(
        room_id,
        user_id,
        start_seq,
        timestamp,
        is_keyframe,
        data,
        max,
        i,
    ).header.keyframe() <==> is_keyframe && i == 0) by {
        crate::frame::lemma_video_flags(is_keyframe && i == 0, i + 1 == n);
    }
    lemma_prefix_of_chunks(data, max, n);
    assert(chunks(data, max).flatten() =~= data);
}

} // verus!
