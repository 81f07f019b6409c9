//! Reassembly of fragmented video frames.
//!
//! Fragments are collected per `(user_id, timestamp)`. A frame is complete
//! as soon as a fragment with the end-of-frame flag arrives: its fragments
//! are then put in ascending order of sequence number and joined. Gaps are
//! not detected. Collections that saw no fragment for too long are dropped.

use crate::clock::duration_millis;
use crate::clock::elapsed;
use crate::clock::elapsed_between;
use crate::clock::millis_of;
use crate::clock::Clock;
use crate::header::MediaHeader;
use crate::table::Table;
use std::time::Duration;
use vstd::prelude::*;
use vstd::slice::slice_to_vec;

verus! {

/// One received fragment: its sequence number and its payload.
pub type Piece = (u32, Seq<u8>);

/// Puts `x` in front of the first piece whose sequence number is not
/// smaller than its own.
pub open spec fn insert_piece(x: Piece, sorted: Seq<Piece>) -> Seq<Piece>
    decreases sorted.len(),
{
    if sorted.len() == 0 {
        seq![x]
    } else if x.0 <= sorted.first().0 {
        seq![x] + sorted
    } else {
        seq![sorted.first()] + insert_piece(x, sorted.drop_first())
    }
}

/// The pieces in ascending order of sequence number; pieces with the same
/// number keep their order of arrival.
pub open spec fn sort_by_sequence(pieces: Seq<Piece>) -> Seq<Piece>
    decreases pieces.len(),
{
    if pieces.len() == 0 {
        pieces
    } else {
        insert_piece(pieces.first(), sort_by_sequence(pieces.drop_first()))
    }
}

/// The payloads of the pieces, joined in the order given.
pub open spec fn join(pieces: Seq<Piece>) -> Seq<u8> {
    pieces.map_values(|p: Piece| p.1).flatten()
}

/// The key under which the fragments of one frame are collected.
pub open spec fn reassembly_key(user_id: u32, timestamp: u32) -> u64 {
    (user_id * 0x1_0000_0000 + timestamp) as u64
}

/// What is known of a frame that is still being collected.
pub struct PartialView {
    pub fragments: Seq<Piece>,
    pub is_keyframe: bool,
    pub last_activity: u64,
}

/// What a reassembled frame holds.
pub struct ReassembledView {
    pub user_id: u32,
    pub timestamp: u32,
    pub is_keyframe: bool,
    pub data: Seq<u8>,
}

/// The effect of one arriving fragment on the collections, and the frame it
/// completes, if it completes one.
pub open spec fn add_step(
    state: Map<u64, PartialView>,
    header: MediaHeader,
    payload: Seq<u8>,
    now: u64,
) -> (Map<u64, PartialView>, Option<ReassembledView>) {
    let key = reassembly_key(header.user_id, header.timestamp);
    let fragments = if state.contains_key(key) {
        state[key].fragments.push((header.sequence, payload))
    } else {
        seq![(header.sequence, payload)]
    };
    let is_keyframe = (state.contains_key(key) && state[key].is_keyframe) || header.keyframe();
    if header.end_of_frame() {
        (
            state.remove(key),
            Some(
                ReassembledView {
                    user_id: header.user_id,
                    timestamp: header.timestamp,
                    is_keyframe,
                    data: join(sort_by_sequence(fragments)),
                },
            ),
        )
    } else {
        (state.insert(key, PartialView { fragments, is_keyframe, last_activity: now }), None)
    }
}

/// A collection is fresh while its last fragment is younger than `max_age`.
pub open spec fn is_fresh(last_activity: u64, now: u64, max_age: u64) -> bool {
    elapsed(last_activity, now) < max_age
}

/// The collections that stay when the stale ones are dropped.
pub open spec fn evict_step(state: Map<u64, PartialView>, now: u64, max_age: u64) -> Map<
    u64,
    PartialView,
> {
    Map::new(
        |k: u64| state.contains_key(k) && is_fresh(state[k].last_activity, now, max_age),
        |k: u64| state[k],
    )
}

/// A fully reassembled video frame, ready for decoding.
pub struct ReassembledFrame {
    pub user_id: u32,
    pub timestamp: u32,
    pub is_keyframe: bool,
    pub data: Vec<u8>,
}

impl View for ReassembledFrame {
    type V = ReassembledView;

    open spec fn view(&self) -> ReassembledView {
        ReassembledView {
            user_id: self.user_id,
            timestamp: self.timestamp,
            is_keyframe: self.is_keyframe,
            data: self.data@,
        }
    }
}

/// The fragments of one frame received so far.
pub struct PartialFrame {
    fragments: Vec<(u32, Vec<u8>)>,
    is_keyframe: bool,
    last_activity: u64,
}

/// The pieces that stored fragments stand for.
pub open spec fn pieces_of(stored: Seq<(u32, Vec<u8>)>) -> Seq<Piece> {
    stored.map_values(|f: (u32, Vec<u8>)| (f.0, f.1@))
}

impl View for PartialFrame {
    type V = PartialView;

    closed spec fn view(&self) -> PartialView {
        PartialView {
            fragments: pieces_of(self.fragments@),
            is_keyframe: self.is_keyframe,
            last_activity: self.last_activity,
        }
    }
}

proof fn lemma_insert_at(x: Piece, sorted: Seq<Piece>, at: int)
    requires
        0 <= at <= sorted.len(),
        forall|i: int| 0 <= i < at ==> (#[trigger] sorted[i]).0 < x.0,
        at < sorted.len() ==> x.0 <= sorted[at].0,
    ensures
        insert_piece(x, sorted) == sorted.insert(at, x),
    decreases sorted.len(),
{
    if sorted.len() == 0 {
        assert(sorted.insert(at, x) =~= seq![x]);
    } else if at == 0 {
        assert(sorted.insert(0, x) =~= seq![x] + sorted);
    } else {
        assert(sorted[0].0 < x.0);
        let rest = sorted.drop_first();
        assert forall|i: int| 0 <= i < at - 1 implies (#[trigger] rest[i]).0 < x.0 by {
            assert(rest[i] == sorted[i + 1]);
        }
        lemma_insert_at(x, rest, at - 1);
        assert(sorted.insert(at, x) =~= seq![sorted.first()] + rest.insert(at - 1, x));
    }
}

/// Sorts fragments by sequence number, keeping the order of equal numbers.
fn sort_fragments(fragments: Vec<(u32, Vec<u8>)>) -> (sorted: Vec<(u32, Vec<u8>)>)
    ensures
        pieces_of(sorted@) == sort_by_sequence(pieces_of(fragments@)),
{
    let ghost all = pieces_of(fragments@);
    let mut rest = fragments;
    let mut sorted: Vec<(u32, Vec<u8>)> = Vec::new();
    assert(all.subrange(all.len() as int, all.len() as int) =~= Seq::<Piece>::empty());
    while rest.len() > 0
        invariant
            rest@.len() <= all.len(),
            pieces_of(rest@) == all.subrange(0, rest@.len() as int),
            pieces_of(sorted@) == sort_by_sequence(
                all.subrange(rest@.len() as int, all.len() as int),
            ),
        decreases rest@.len(),
    {
        let ghost before = rest@;
        let ghost done = pieces_of(sorted@);
        let x = rest.pop().unwrap();
        let ghost xp: Piece = (x.0, x.1@);
        let mut at: usize = 0;
        while at < sorted.len() && sorted[at].0 < x.0
            invariant
                at <= sorted@.len(),
                forall|i: int| 0 <= i < at ==> (#[trigger] pieces_of(sorted@)[i]).0 < x.0,
            decreases sorted@.len() - at,
        {
            at += 1;
        }
        proof {
            let k = rest@.len() as int;
            assert(pieces_of(before)[k] == xp);
            assert(all[k] == xp);
            let tail = all.subrange(k, all.len() as int);
            assert(tail.first() == xp);
            assert(tail.drop_first() =~= all.subrange(k + 1, all.len() as int));
            lemma_insert_at(xp, done, at as int);
            assert(pieces_of(rest@) =~= all.subrange(0, k));
        }
        sorted.insert(at, x);
        assert(pieces_of(sorted@) =~= done.insert(at as int, xp));
    }
    assert(all.subrange(0, all.len() as int) =~= all);
    sorted
}

/// Joins the payloads of fragments in the order given.
fn join_fragments(fragments: &Vec<(u32, Vec<u8>)>) -> (data: Vec<u8>)
    ensures
        data@ == join(pieces_of(fragments@)),
{
    let ghost all = pieces_of(fragments@);
    let mut data: Vec<u8> = Vec::new();
    let mut i: usize = 0;
    assert(all.subrange(0, 0).map_values(|p: Piece| p.1) =~= Seq::<Seq<u8>>::empty());
    while i < fragments.len()
        invariant
            i <= fragments@.len(),
            all == pieces_of(fragments@),
            data@ == join(all.subrange(0, i as int)),
        decreases fragments@.len() - i,
    {
        proof {
            let shorter = all.subrange(0, i as int).map_values(|p: Piece| p.1);
            let longer = all.subrange(0, i + 1).map_values(|p: Piece| p.1);
            assert(longer =~= shorter.push(all[i as int].1));
            shorter.lemma_flatten_push(all[i as int].1);
        }
        data.extend_from_slice(fragments[i].1.as_slice());
        i += 1;
    }
    assert(all.subrange(0, all.len() as int) =~= all);
    data
}

/// Reassembles fragmented video datagrams into complete frames.
pub struct VideoReassembler {
    pending: Table<PartialFrame>,
    clock: Clock,
}

impl View for VideoReassembler {
    type V = Map<u64, PartialView>;

    closed spec fn view(&self) -> Map<u64, PartialView> {
        self.pending@.map_values(|p: PartialFrame| p@)
    }
}

fn make_key(user_id: u32, timestamp: u32) -> (key: u64)
    ensures
        key == reassembly_key(user_id, timestamp),
{
    (user_id as u64) * 0x1_0000_0000 + (timestamp as u64)
}

impl VideoReassembler {
    /// A reassembler with nothing collected.
    pub fn new() -> (r: VideoReassembler)
        ensures
            r@ == Map::<u64, PartialView>::empty(),
    {
        let r = VideoReassembler { pending: Table::new(), clock: Clock::new() };
        assert(r@ =~= Map::<u64, PartialView>::empty());
        r
    }

    /// The number of frames being collected.
    pub fn pending_frames(&self) -> (n: usize)
        ensures
            n == 0 <==> self@ == Map::<u64, PartialView>::empty(),
    {
        proof {
            self.pending.lemma_count_zero();
            if self.pending.count() == 0 {
                assert(self@ =~= Map::<u64, PartialView>::empty());
            } else {
                let k = choose|k: u64| self.pending@.contains_key(k);
                assert(self@.contains_key(k));
            }
        }
        self.pending.len()
    }

    /// Add a video fragment that arrived at time `now`. Returns the frame it
    /// completes, which is the case exactly when it carries the end-of-frame
    /// flag.
    pub fn add_fragment_at(&mut self, header: &MediaHeader, payload: &[u8], now: u64) -> (r: Option<
        ReassembledFrame,
    >)
        ensures
            final(self)@ == add_step(old(self)@, *header, payload@, now).0,
            match r {
                Some(frame) => add_step(old(self)@, *header, payload@, now).1 == Some(frame@),
                None => add_step(old(self)@, *header, payload@, now).1.is_none(),
            },
    {
        let key = make_key(header.user_id, header.timestamp);
        let ghost before = self@;
        let ghost stored = self.pending@;
        let mut partial = match self.pending.remove(key) {
            Some(p) => p,
            None => PartialFrame { fragments: Vec::new(), is_keyframe: false, last_activity: now },
        };
        let ghost had = pieces_of(partial.fragments@);
        if header.is_keyframe() {
            partial.is_keyframe = true;
        }
        partial.fragments.push((header.sequence, slice_to_vec(payload)));
        partial.last_activity = now;
        proof {
            assert(pieces_of(partial.fragments@) =~= had.push((header.sequence, payload@)));
            if stored.contains_key(key) {
                assert(before[key] == stored[key]@);
            } else {
                assert(had =~= Seq::<Piece>::empty());
                assert(had.push((header.sequence, payload@)) =~= seq![(header.sequence, payload@)]);
            }
        }
        if header.is_end_of_frame() {
            let sorted = sort_fragments(partial.fragments);
            let data = join_fragments(&sorted);
            assert(self@ =~= before.remove(key));
            Some(
                ReassembledFrame {
                    user_id: header.user_id,
                    timestamp: header.timestamp,
                    is_keyframe: partial.is_keyframe,
                    data,
                },
            )
        } else {
            self.pending.insert(key, partial);
            assert(self@ =~= before.insert(key, partial@));
            None
        }
    }

    /// Add a video fragment that arrives now.
    pub fn add_fragment(&mut self, header: &MediaHeader, payload: &[u8]) -> (r: Option<
        ReassembledFrame,
    >)
        ensures
            exists|now: u64|
                {
                    &&& final(self)@ == (#[trigger] add_step(old(self)@, *header, payload@, now)).0
                    &&& match r {
                        Some(frame) => add_step(old(self)@, *header, payload@, now).1 == Some(
                            frame@,
                        ),
                        None => add_step(old(self)@, *header, payload@, now).1.is_none(),
                    }
                },
            r.is_some() == header.end_of_frame(),
    {
        let now = self.clock.now_ms();
        self.add_fragment_at(header, payload, now)
    }

    /// Drop the collections whose last fragment is `max_age` milliseconds
    /// old or older at time `now`.
    pub fn evict_stale_at(&mut self, now: u64, max_age: u64)
        ensures
            final(self)@ == evict_step(old(self)@, now, max_age),
    {
        let ghost before = self@;
        let ghost stored = self.pending@;
        let mut kept: Table<PartialFrame> = Table::new();
        loop
            invariant
                forall|k: u64| #[trigger]
                    self.pending@.contains_key(k) ==> stored.contains_key(k) && stored[k]
                        == self.pending@[k] && !kept@.contains_key(k),
                forall|k: u64| #[trigger]
                    kept@.contains_key(k) ==> stored.contains_key(k) && stored[k] == kept@[k]
                        && is_fresh(stored[k]@.last_activity, now, max_age),
                forall|k: u64| #[trigger]
                    stored.contains_key(k) && is_fresh(stored[k]@.last_activity, now, max_age)
                        ==> kept@.contains_key(k) || self.pending@.contains_key(k),
            ensures
                self.pending@ == Map::<u64, PartialFrame>::empty(),
            decreases self.pending.count(),
        {
            match self.pending.take_any() {
                None => {
                    break ;
                },
                Some((key, partial)) => {
                    if elapsed_between(partial.last_activity, now) < max_age {
                        kept.insert(key, partial);
                    }
                },
            }
        }
        self.pending = kept;
        assert(self@ =~= evict_step(before, now, max_age)) by {
            assert forall|k: u64| self@.contains_key(k) <==> evict_step(
                before,
                now,
                max_age,
            ).contains_key(k) by {
                if before.contains_key(k) {
                    assert(stored.contains_key(k));
                    assert(before[k] == stored[k]@);
                }
            }
        }
    }

    /// Evict partial frames that saw no fragment for `max_age` or longer.
    pub fn evict_stale(&mut self, max_age: Duration)
        ensures
            exists|now: u64|
                final(self)@ == #[trigger] evict_step(old(self)@, now, millis_of(max_age)),
    {
        let now = self.clock.now_ms();
        let age = duration_millis(&max_age);
        self.evict_stale_at(now, age)
    }
}

} // verus!
