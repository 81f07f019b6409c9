//! What the reassembler makes of a fragmented frame, whatever the order in
//! which the network delivers its fragments.
//!
//! A frame is released the moment its end-of-frame fragment arrives, and
//! fragments are ordered by their plain sequence numbers. So the frame comes
//! out whole where the end-of-frame fragment arrives last and the sequence
//! numbers of the frame do not wrap.

use crate::fragment::advance_seq;
use crate::fragment::chunk;
use crate::fragment::chunks;
use crate::fragment::fragment;
use crate::fragment::fragment_count;
use crate::fragment::lemma_fragments_rebuild;
use crate::header::MediaHeader;
use crate::reassembly::add_step;
use crate::reassembly::insert_piece;
use crate::reassembly::join;
use crate::reassembly::reassembly_key;
use crate::reassembly::sort_by_sequence;
use crate::reassembly::PartialView;
use crate::reassembly::Piece;
use crate::reassembly::ReassembledView;
use vstd::prelude::*;

verus! {

/// One fragment as it arrives: its header, its payload and the time.
pub struct Arrival {
    pub header: MediaHeader,
    pub payload: Seq<u8>,
    pub now: u64,
}

/// The reassembler's collections after a run of arrivals, and what each
/// arrival released.
pub open spec fn feed(state: Map<u64, PartialView>, arrivals: Seq<Arrival>) -> (
    Map<u64, PartialView>,
    Seq<Option<ReassembledView>>,
)
    decreases arrivals.len(),
{
    if arrivals.len() == 0 {
        (state, Seq::empty())
    } else {
        let before = feed(state, arrivals.drop_last());
        let a = arrivals.last();
        let step = add_step(before.0, a.header, a.payload, a.now);
        (step.0, before.1.push(step.1))
    }
}

/// The fragments of one frame, delivered in the order `order` at the times
/// `times`.
pub open spec fn delivery(
    room_id: u32,
    user_id: u32,
    start_seq: u32,
    timestamp: u32,
    is_keyframe: bool,
    data: Seq<u8>,
    max: nat,
    order: Seq<int>,
    times: Seq<u64>,
) -> Seq<Arrival> {
    Seq::new(
        order.len(),
        |i: int|
            {
                let f = fragment(
                    room_id,
                    user_id,
                    start_seq,
                    timestamp,
                    is_keyframe,
                    data,
                    max,
                    order[i] as nat,
                );
                Arrival { header: f.header, payload: f.payload, now: times[i] }
            },
    )
}

/// The sequence numbers rise strictly along the pieces.
pub open spec fn rising(pieces: Seq<Piece>) -> bool {
    forall|i: int, j: int| 0 <= i < j < pieces.len() ==> pieces[i].0 < pieces[j].0
}

/// No two pieces have the same sequence number.
pub open spec fn distinct_sequences(pieces: Seq<Piece>) -> bool {
    forall|i: int, j: int| 0 <= i < j < pieces.len() ==> pieces[i].0 != pieces[j].0
}

proof fn lemma_insert_rising(x: Piece, sorted: Seq<Piece>)
    requires
        rising(sorted),
        forall|i: int| 0 <= i < sorted.len() ==> (#[trigger] sorted[i]).0 != x.0,
    ensures
        rising(insert_piece(x, sorted)),
        insert_piece(x, sorted).len() == sorted.len() + 1,
        forall|p: Piece| #[trigger]
            insert_piece(x, sorted).contains(p) <==> p == x || sorted.contains(p),
    decreases sorted.len(),
{
    let out = insert_piece(x, sorted);
    if sorted.len() == 0 {
        assert(out[0] == x);
        assert forall|p: Piece| #[trigger] out.contains(p) <==> p == x || sorted.contains(p) by {
            if out.contains(p) {
                let i = choose|i: int| 0 <= i < out.len() && out[i] == p;
            }
        }
    } else if x.0 <= sorted.first().0 {
        assert(sorted[0].0 != x.0);
        assert forall|i: int, j: int| 0 <= i < j < out.len() implies out[i].0 < out[j].0 by {
            if i == 0 {
                assert(out[j] == sorted[j - 1]);
                if j - 1 > 0 {
                    assert(sorted[0].0 < sorted[j - 1].0);
                }
            } else {
                assert(out[i] == sorted[i - 1] && out[j] == sorted[j - 1]);
            }
        }
        assert forall|p: Piece| #[trigger] out.contains(p) <==> p == x || sorted.contains(p) by {
            if out.contains(p) {
                let i = choose|i: int| 0 <= i < out.len() && out[i] == p;
                if i > 0 {
                    assert(sorted[i - 1] == p);
                }
            }
            if p == x {
                assert(out[0] == p);
            }
            if sorted.contains(p) {
                let i = choose|i: int| 0 <= i < sorted.len() && sorted[i] == p;
                assert(out[i + 1] == p);
            }
        }
    } else {
        let rest = sorted.drop_first();
        assert forall|i: int, j: int| 0 <= i < j < rest.len() implies rest[i].0 < rest[j].0 by {
            assert(rest[i] == sorted[i + 1] && rest[j] == sorted[j + 1]);
        }
        assert forall|i: int| 0 <= i < rest.len() implies (#[trigger] rest[i]).0 != x.0 by {
            assert(rest[i] == sorted[i + 1]);
        }
        lemma_insert_rising(x, rest);
        let tail = insert_piece(x, rest);
        assert(out =~= seq![sorted.first()] + tail);
        assert forall|i: int, j: int| 0 <= i < j < out.len() implies out[i].0 < out[j].0 by {
            if i == 0 {
                assert(out[j] == tail[j - 1]);
                assert(tail.contains(tail[j - 1]));
                if tail[j - 1] != x {
                    let k = choose|k: int| 0 <= k < rest.len() && rest[k] == tail[j - 1];
                    assert(rest[k] == sorted[k + 1]);
                }
            } else {
                assert(out[i] == tail[i - 1] && out[j] == tail[j - 1]);
            }
        }
        assert forall|p: Piece| #[trigger] out.contains(p) <==> p == x || sorted.contains(p) by {
            if out.contains(p) {
                let i = choose|i: int| 0 <= i < out.len() && out[i] == p;
                if i > 0 {
                    assert(tail[i - 1] == p);
                    assert(tail.contains(p));
                    if p != x {
                        let k = choose|k: int| 0 <= k < rest.len() && rest[k] == p;
                        assert(sorted[k + 1] == p);
                    }
                } else {
                    assert(sorted[0] == p);
                }
            }
            if p == x {
                assert(tail.contains(p));
                let k = choose|k: int| 0 <= k < tail.len() && tail[k] == p;
                assert(out[k + 1] == p);
            }
            if sorted.contains(p) {
                let i = choose|i: int| 0 <= i < sorted.len() && sorted[i] == p;
                if i == 0 {
                    assert(out[0] == p);
                } else {
                    assert(rest[i - 1] == p);
                    assert(rest.contains(p));
                    assert(tail.contains(p));
                    let k = choose|k: int| 0 <= k < tail.len() && tail[k] == p;
                    assert(out[k + 1] == p);
                }
            }
        }
    }
}

/// Sorting pieces with distinct sequence numbers gives the same pieces with
/// strictly rising numbers.
pub proof fn lemma_sort_rising(pieces: Seq<Piece>)
    requires
        distinct_sequences(pieces),
    ensures
        rising(sort_by_sequence(pieces)),
        sort_by_sequence(pieces).len() == pieces.len(),
        forall|p: Piece| #[trigger] sort_by_sequence(pieces).contains(p) <==> pieces.contains(p),
    decreases pieces.len(),
{
    if pieces.len() > 0 {
        let rest = pieces.drop_first();
        assert forall|i: int, j: int| 0 <= i < j < rest.len() implies rest[i].0 != rest[j].0 by {
            assert(rest[i] == pieces[i + 1] && rest[j] == pieces[j + 1]);
        }
        lemma_sort_rising(rest);
        let sorted = sort_by_sequence(rest);
        let x = pieces.first();
        assert forall|i: int| 0 <= i < sorted.len() implies (#[trigger] sorted[i]).0 != x.0 by {
            assert(sorted.contains(sorted[i]));
            let k = choose|k: int| 0 <= k < rest.len() && rest[k] == sorted[i];
            assert(rest[k] == pieces[k + 1]);
        }
        lemma_insert_rising(x, sorted);
        let out = sort_by_sequence(pieces);
        assert forall|p: Piece| #[trigger] out.contains(p) <==> pieces.contains(p) by {
            if pieces.contains(p) {
                let i = choose|i: int| 0 <= i < pieces.len() && pieces[i] == p;
                if i > 0 {
                    assert(rest[i - 1] == p);
                    assert(rest.contains(p));
                }
            }
            if out.contains(p) && p != x {
                assert(sorted.contains(p));
                assert(rest.contains(p));
                let k = choose|k: int| 0 <= k < rest.len() && rest[k] == p;
                assert(pieces[k + 1] == p);
            }
            if p == x {
                assert(pieces[0] == p);
            }
        }
    }
}

/// Two runs of pieces with strictly rising sequence numbers that hold the
/// same pieces are the same run.
pub proof fn lemma_rising_unique(x: Seq<Piece>, y: Seq<Piece>)
    requires
        rising(x),
        rising(y),
        forall|p: Piece| x.contains(p) <==> y.contains(p),
    ensures
        x == y,
    decreases x.len(),
{
    if x.len() == 0 {
        if y.len() > 0 {
            assert(y.contains(y[0]));
            assert(x.contains(y[0]));
        }
        assert(x =~= y);
    } else {
        let xl = x.last();
        assert(x.contains(xl));
        assert(y.contains(xl));
        let j = choose|j: int| 0 <= j < y.len() && y[j] == xl;
        let yl = y.last();
        assert(y.contains(yl));
        assert(x.contains(yl));
        let i = choose|i: int| 0 <= i < x.len() && x[i] == yl;
        assert(j == y.len() - 1) by {
            if j < y.len() - 1 {
                assert(y[j].0 < y[y.len() - 1].0);
                if i < x.len() - 1 {
                    assert(x[i].0 < x[x.len() - 1].0);
                }
            }
        }
        let xs = x.drop_last();
        let ys = y.drop_last();
        assert forall|p: Piece| xs.contains(p) <==> ys.contains(p) by {
            if xs.contains(p) {
                let k = choose|k: int| 0 <= k < xs.len() && xs[k] == p;
                assert(x[k] == p);
                assert(x[k].0 < x[x.len() - 1].0);
                assert(x.contains(p));
                assert(y.contains(p));
                let m = choose|m: int| 0 <= m < y.len() && y[m] == p;
                assert(m < y.len() - 1);
                assert(ys[m] == p);
            }
            if ys.contains(p) {
                let k = choose|k: int| 0 <= k < ys.len() && ys[k] == p;
                assert(y[k] == p);
                assert(y[k].0 < y[y.len() - 1].0);
                assert(y.contains(p));
                assert(x.contains(p));
                let m = choose|m: int| 0 <= m < x.len() && x[m] == p;
                assert(m < x.len() - 1);
                assert(xs[m] == p);
            }
        }
        lemma_rising_unique(xs, ys);
        assert(x =~= xs.push(xl));
        assert(y =~= ys.push(yl));
    }
}

/// The pieces that a run of arrivals carries.
pub open spec fn pieces_in(arrivals: Seq<Arrival>) -> Seq<Piece> {
    arrivals.map_values(|a: Arrival| (a.header.sequence, a.payload))
}

/// While fragments of one frame arrive and none ends the frame, nothing is
/// released and the fragments pile up in their order of arrival.
proof fn lemma_collecting(
    state: Map<u64, PartialView>,
    arrivals: Seq<Arrival>,
    user_id: u32,
    timestamp: u32,
)
    requires
        !state.contains_key(reassembly_key(user_id, timestamp)),
        forall|i: int|
            0 <= i < arrivals.len() ==> {
                &&& (#[trigger] arrivals[i]).header.user_id == user_id
                &&& arrivals[i].header.timestamp == timestamp
                &&& !arrivals[i].header.end_of_frame()
            },
    ensures
        feed(state, arrivals).1.len() == arrivals.len(),
        forall|i: int| 0 <= i < arrivals.len() ==> (#[trigger] feed(state, arrivals).1[i]).is_none(),
        arrivals.len() == 0 ==> feed(state, arrivals).0 == state,
        arrivals.len() > 0 ==> feed(state, arrivals).0 == state.insert(
            reassembly_key(user_id, timestamp),
            (PartialView {
                fragments: pieces_in(arrivals),
                is_keyframe: exists|i: int|
                    0 <= i < arrivals.len() && (#[trigger] arrivals[i]).header.keyframe(),
                last_activity: arrivals.last().now,
            }),
        ),
    decreases arrivals.len(),
{
    if arrivals.len() > 0 {
        let key = reassembly_key(user_id, timestamp);
        let earlier = arrivals.drop_last();
        let a = arrivals.last();
        lemma_collecting(state, earlier, user_id, timestamp);
        let before = feed(state, earlier);
        let step = add_step(before.0, a.header, a.payload, a.now);
        assert(pieces_in(arrivals) =~= pieces_in(earlier).push((a.header.sequence, a.payload)));
        let seen_before = exists|i: int|
            0 <= i < earlier.len() && (#[trigger] earlier[i]).header.keyframe();
        let seen = exists|i: int|
            0 <= i < arrivals.len() && (#[trigger] arrivals[i]).header.keyframe();
        assert(seen == (seen_before || a.header.keyframe())) by {
            if seen_before {
                let i = choose|i: int|
                    0 <= i < earlier.len() && (#[trigger] earlier[i]).header.keyframe();
                assert(arrivals[i].header.keyframe());
            }
            if a.header.keyframe() {
                assert(arrivals[arrivals.len() - 1].header.keyframe());
            }
            if seen {
                let i = choose|i: int|
                    0 <= i < arrivals.len() && (#[trigger] arrivals[i]).header.keyframe();
                if i < earlier.len() {
                    assert(earlier[i].header.keyframe());
                }
            }
        }
        if earlier.len() == 0 {
            assert(pieces_in(arrivals) =~= seq![(a.header.sequence, a.payload)]);
        }
        assert(step.0 =~= state.insert(
            key,
            PartialView {
                fragments: pieces_in(arrivals),
                is_keyframe: seen,
                last_activity: a.now,
            },
        ));
    }
}

/// A fragmented frame comes out of the reassembler whole, whatever the
/// order of its fragments, where each fragment is delivered exactly once,
/// the end-of-frame fragment last, the sequence numbers do not wrap within
/// the frame and nothing was collected for the frame before. No arrival but
/// the last releases anything, the released frame is a keyframe exactly
/// when a fragment said so, and the collections are afterwards what they
/// were.
pub proof fn lemma_reassembly_converges(
    state: Map<u64, PartialView>,
    room_id: u32,
    user_id: u32,
    start_seq: u32,
    timestamp: u32,
    is_keyframe: bool,
    data: Seq<u8>,
    max: nat,
    order: Seq<int>,
    times: Seq<u64>,
)
    requires
        max > 0,
        start_seq + fragment_count(data.len(), max) <= 0x1_0000_0000,
        !state.contains_key(reassembly_key(user_id, timestamp)),
        order.len() == fragment_count(data.len(), max),
        times.len() == order.len(),
        forall|i: int| 0 <= i < order.len() ==> 0 <= #[trigger] order[i] < order.len(),
        forall|i: int, j: int| 0 <= i < j < order.len() ==> order[i] != order[j],
        forall|f: int| 0 <= f < order.len() ==> #[trigger] order.contains(f),
        order.last() == order.len() - 1,
    ensures
        ({
            let arrivals = delivery(
                room_id,
                user_id,
                start_seq,
                timestamp,
                is_keyframe,
                data,
                max,
                order,
                times,
            );
            let end = feed(state, arrivals);
            &&& end.0 == state
            &&& end.1.len() == order.len()
            &&& forall|i: int| 0 <= i < order.len() - 1 ==> (#[trigger] end.1[i]).is_none()
            &&& end.1.last() == Some((ReassembledView { user_id, timestamp, is_keyframe, data }))
        }),
{
    let n = order.len() as int;
    let key = reassembly_key(user_id, timestamp);
    let arrivals = delivery(
        room_id,
        user_id,
        start_seq,
        timestamp,
        is_keyframe,
        data,
        max,
        order,
        times,
    );
    lemma_fragments_rebuild(room_id, user_id, start_seq, timestamp, is_keyframe, data, max);
    let frag = |f: int|
        fragment(room_id, user_id, start_seq, timestamp, is_keyframe, data, max, f as nat);
    assert forall|i: int| 0 <= i < n implies {
        &&& (#[trigger] arrivals[i]).header.user_id == user_id
        &&& arrivals[i].header.timestamp == timestamp
        &&& arrivals[i].header.sequence == start_seq + order[i]
        &&& arrivals[i].payload == chunk(data, max, order[i] as nat)
        &&& arrivals[i].header.end_of_frame() == (order[i] == n - 1)
        &&& arrivals[i].header.keyframe() == (is_keyframe && order[i] == 0)
    } by {
        let f = order[i] as nat;
        assert(f < fragment_count(data.len(), max));
        assert(arrivals[i].header == frag(order[i]).header);
        assert(frag(order[i]).header.end_of_frame() <==> f + 1 == fragment_count(data.len(), max));
        assert(frag(order[i]).header.keyframe() <==> is_keyframe && f == 0);
        assert(advance_seq(start_seq, f) == start_seq + f);
    }
    let earlier = arrivals.drop_last();
    let last = arrivals.last();
    assert forall|i: int| 0 <= i < earlier.len() implies {
        &&& (#[trigger] earlier[i]).header.user_id == user_id
        &&& earlier[i].header.timestamp == timestamp
        &&& !earlier[i].header.end_of_frame()
    } by {
        assert(earlier[i] == arrivals[i]);
        assert(order[i] != order[n - 1]);
    }
    lemma_collecting(state, earlier, user_id, timestamp);
    let before = feed(state, earlier);
    let step = add_step(before.0, last.header, last.payload, last.now);
    assert(last == arrivals[n - 1]);
    assert(last.header.end_of_frame());
    assert(step.0 =~= state);
    // The pieces that arrived are the pieces that were sent.
    let got = pieces_in(arrivals);
    let sent = Seq::new(n as nat, |f: int| ((start_seq + f) as u32, chunk(data, max, f as nat)));
    assert(got =~= pieces_in(earlier).push((last.header.sequence, last.payload)));
    if earlier.len() == 0 {
        assert(got =~= seq![(last.header.sequence, last.payload)]);
    }
    assert forall|i: int| 0 <= i < n implies #[trigger] got[i] == sent[order[i]] by {
        assert(got[i] == (arrivals[i].header.sequence, arrivals[i].payload));
    }
    assert forall|i: int, j: int| 0 <= i < j < got.len() implies got[i].0 != got[j].0 by {
        assert(got[i] == sent[order[i]] && got[j] == sent[order[j]]);
    }
    lemma_sort_rising(got);
    let sorted = sort_by_sequence(got);
    assert forall|p: Piece| sorted.contains(p) <==> sent.contains(p) by {
        if got.contains(p) {
            let i = choose|i: int| 0 <= i < got.len() && got[i] == p;
            assert(got[i] == sent[order[i]]);
        }
        if sent.contains(p) {
            let f = choose|f: int| 0 <= f < sent.len() && sent[f] == p;
            assert(order.contains(f));
            let i = choose|i: int| 0 <= i < order.len() && order[i] == f;
            assert(got[i] == sent[order[i]]);
            assert(got.contains(p));
        }
    }
    lemma_rising_unique(sorted, sent);
    assert(sent.map_values(|p: Piece| p.1) =~= chunks(data, max));
    assert(join(sorted) == data);
    // The keyframe flag was latched by whichever arrival carried it.
    let seen = (before.0.contains_key(key) && before.0[key].is_keyframe)
        || last.header.keyframe();
    assert(seen == is_keyframe) by {
        if is_keyframe {
            assert(order.contains(0));
            let i = choose|i: int| 0 <= i < order.len() && order[i] == 0;
            assert(arrivals[i].header.keyframe());
            if i < n - 1 {
                assert(earlier[i].header.keyframe());
            }
        }
        if before.0.contains_key(key) && before.0[key].is_keyframe {
            let i = choose|i: int|
                0 <= i < earlier.len() && (#[trigger] earlier[i]).header.keyframe();
            assert(arrivals[i].header.keyframe());
        }
    }
    assert(feed(state, arrivals).1 =~= before.1.push(step.1));
}

} // verus!
