//! Per-user decoders with an idle timeout.
//!
//! A decoder is made when the first frame of a user arrives and dropped
//! when the user sent nothing for ten seconds. The table holds the decoders
//! themselves; what kind of decoder they are is the caller's matter.

use crate::clock::elapsed;
use crate::clock::elapsed_between;
use crate::table::Table;
use vstd::prelude::*;

verus! {

/// A decoder is dropped after this long without a frame.
pub const DECODER_IDLE_TIMEOUT_MS: u64 = 10000;

/// A user's decoder and the time of its last use.
pub struct Slot<D> {
    pub decoder: D,
    pub last_used: u64,
}

/// The slots that stay at time `now`: those used less than ten seconds ago.
pub open spec fn evict_idle_step<D>(slots: Map<u64, Slot<D>>, now: u64) -> Map<u64, Slot<D>> {
    Map::new(
        |k: u64| slots.contains_key(k) && elapsed(slots[k].last_used, now) < DECODER_IDLE_TIMEOUT_MS,
        |k: u64| slots[k],
    )
}

/// The decoders of the users heard lately.
pub struct DecoderTable<D> {
    slots: Table<Slot<D>>,
}

impl<D> View for DecoderTable<D> {
    type V = Map<u64, Slot<D>>;

    closed spec fn view(&self) -> Map<u64, Slot<D>> {
        self.slots@
    }
}

impl<D> DecoderTable<D> {
    /// No decoders.
    pub fn new() -> (t: DecoderTable<D>)
        ensures
            t@ == Map::<u64, Slot<D>>::empty(),
    {
        DecoderTable { slots: Table::new() }
    }

    /// The number of decoders held.
    pub fn len(&self) -> (n: usize)
        ensures
            n == 0 <==> self@ == Map::<u64, Slot<D>>::empty(),
    {
        proof {
            self.slots.lemma_count_zero();
        }
        self.slots.len()
    }

    /// Whether the user has a decoder.
    pub fn contains(&self, user_id: u32) -> (found: bool)
        ensures
            found == self@.contains_key(user_id as u64),
    {
        self.slots.contains(user_id as u64)
    }

    /// Takes the user's decoder out for use. `None` where the user has
    /// none: the caller then makes one.
    pub fn checkout(&mut self, user_id: u32) -> (decoder: Option<D>)
        ensures
            final(self)@ == old(self)@.remove(user_id as u64),
            match decoder {
                Some(d) => old(self)@.contains_key(user_id as u64) && old(self)@[user_id
                    as u64].decoder == d,
                None => !old(self)@.contains_key(user_id as u64),
            },
    {
        match self.slots.remove(user_id as u64) {
            Some(slot) => Some(slot.decoder),
            None => None,
        }
    }

    /// Puts the user's decoder back, used at time `now`.
    pub fn checkin(&mut self, user_id: u32, decoder: D, now: u64)
        ensures
            final(self)@ == old(self)@.insert(user_id as u64, (Slot { decoder, last_used: now })),
    {
        self.slots.insert(user_id as u64, Slot { decoder, last_used: now });
    }

    /// Drops the decoders that were idle for ten seconds or more at time
    /// `now`, and says how many there were.
    pub fn evict_idle(&mut self, now: u64) -> (evicted: usize)
        ensures
            final(self)@ == evict_idle_step(old(self)@, now),
    {
        let ghost before = self.slots@;
        let mut kept: Table<Slot<D>> = Table::new();
        let mut evicted: usize = 0;
        loop
            invariant
                forall|k: u64| #[trigger]
                    self.slots@.contains_key(k) ==> before.contains_key(k) && before[k]
                        == self.slots@[k] && !kept@.contains_key(k),
                forall|k: u64| #[trigger]
                    kept@.contains_key(k) ==> before.contains_key(k) && before[k] == kept@[k]
                        && elapsed(before[k].last_used, now) < DECODER_IDLE_TIMEOUT_MS,
                forall|k: u64| #[trigger]
                    before.contains_key(k) && elapsed(before[k].last_used, now)
                        < DECODER_IDLE_TIMEOUT_MS ==> kept@.contains_key(k)
                        || self.slots@.contains_key(k),
            ensures
                self.slots@ == Map::<u64, Slot<D>>::empty(),
            decreases self.slots.count(),
        {
            match self.slots.take_any() {
                None => {
                    break ;
                },
                Some((user, slot)) => {
                    if elapsed_between(slot.last_used, now) < DECODER_IDLE_TIMEOUT_MS {
                        kept.insert(user, slot);
                    } else {
                        evicted = evicted.saturating_add(1);
                    }
                },
            }
        }
        self.slots = kept;
        assert(self@ =~= evict_idle_step(before, now));
        evicted
    }
}

/// Decoder eviction. After the idle decoders were dropped at time `now`, a
/// user who sent nothing for ten seconds or more has no decoder, every
/// other decoder is still there, and when the next frame of an evicted user
/// arrives there is none to take out, so that the one put back is new.
pub proof fn lemma_idle_decoder_is_dropped<D>(slots: Map<u64, Slot<D>>, now: u64, user_id: u32)
    ensures
        slots.contains_key(user_id as u64) && elapsed(slots[user_id as u64].last_used, now)
            >= DECODER_IDLE_TIMEOUT_MS ==> !evict_idle_step(slots, now).contains_key(
            user_id as u64,
        ),
        slots.contains_key(user_id as u64) && elapsed(slots[user_id as u64].last_used, now)
            < DECODER_IDLE_TIMEOUT_MS ==> evict_idle_step(slots, now).contains_key(user_id as u64)
            && evict_idle_step(slots, now)[user_id as u64] == slots[user_id as u64],
        !slots.contains_key(user_id as u64) ==> !evict_idle_step(slots, now).contains_key(
            user_id as u64,
        ),
{
}

} // verus!
