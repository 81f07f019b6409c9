//! Speaking-activity detection with hysteresis.
//!
//! A user starts speaking with the first buffer whose level reaches the
//! threshold, and stops with the first quieter buffer that comes at least
//! 200 ms after the last buffer that reached it.

use crate::clock::elapsed;
use crate::clock::elapsed_between;
use crate::level::is_quieter_than;
use crate::level::quieter_than;
use crate::table::Table;
use vstd::prelude::*;

verus! {

/// Level from which on a buffer counts as speech: 0.01 of full scale.
pub const SPEAKING_LEVEL: u16 = 100;

/// How long after the last loud buffer a user still counts as speaking.
pub const SPEAKING_HOLDOFF_MS: u64 = 200;

/// What is remembered of one user.
#[derive(Debug, Clone, Copy, PartialEq, Eq, Structural)]
pub struct SpeakingState {
    pub speaking: bool,
    pub last_above_threshold: u64,
}

/// A change of a user's speaking state.
#[derive(Debug, Clone, Copy, PartialEq, Eq, Structural)]
pub enum SpeakingEdge {
    Start,
    Stop,
}

/// The state of a user of whom nothing is remembered yet.
pub open spec fn unheard(now: u64) -> SpeakingState {
    SpeakingState {
        speaking: false,
        last_above_threshold: if now > SPEAKING_HOLDOFF_MS {
            (now - SPEAKING_HOLDOFF_MS - 1) as u64
        } else {
            0
        },
    }
}

/// The state of a user after one buffer, and the change that the buffer
/// brought, if any.
pub open spec fn speaking_step(state: Option<SpeakingState>, loud: bool, now: u64) -> (
    SpeakingState,
    Option<SpeakingEdge>,
) {
    let prior = match state {
        Some(s) => s,
        None => unheard(now),
    };
    if loud {
        (
            SpeakingState { speaking: true, last_above_threshold: now },
            if prior.speaking {
                None
            } else {
                Some(SpeakingEdge::Start)
            },
        )
    } else if prior.speaking && elapsed(prior.last_above_threshold, now) >= SPEAKING_HOLDOFF_MS {
        (
            SpeakingState { speaking: false, last_above_threshold: prior.last_above_threshold },
            Some(SpeakingEdge::Stop),
        )
    } else {
        (prior, None)
    }
}

/// The speaking states of the users heard so far.
pub struct SpeakingTable {
    states: Table<SpeakingState>,
}

impl View for SpeakingTable {
    type V = Map<u64, SpeakingState>;

    closed spec fn view(&self) -> Map<u64, SpeakingState> {
        self.states@
    }
}

/// What is remembered of a user, if anything.
pub open spec fn remembered(states: Map<u64, SpeakingState>, user_id: u32) -> Option<
    SpeakingState,
> {
    if states.contains_key(user_id as u64) {
        Some(states[user_id as u64])
    } else {
        None
    }
}

impl SpeakingTable {
    /// Nobody has been heard.
    pub fn new() -> (t: SpeakingTable)
        ensures
            t@ == Map::<u64, SpeakingState>::empty(),
    {
        SpeakingTable { states: Table::new() }
    }

    /// Whether the user counts as speaking.
    pub fn is_speaking(&self, user_id: u32) -> (speaking: bool)
        ensures
            speaking == (self@.contains_key(user_id as u64) && self@[user_id as u64].speaking),
    {
        match self.states.get(user_id as u64) {
            Some(s) => s.speaking,
            None => false,
        }
    }

    /// Take one buffer of a user's audio into account. An empty buffer
    /// changes nothing.
    pub fn update(&mut self, user_id: u32, pcm: &[i16], now: u64) -> (edge: Option<SpeakingEdge>)
        ensures
            pcm@.len() == 0 ==> final(self)@ == old(self)@ && edge.is_none(),
            pcm@.len() > 0 ==> {
                let step = speaking_step(
                    remembered(old(self)@, user_id),
                    !quieter_than(pcm@, SPEAKING_LEVEL),
                    now,
                );
                final(self)@ == old(self)@.insert(user_id as u64, step.0) && edge == step.1
            },
    {
        if pcm.len() == 0 {
            return None;
        }
        let loud: bool = !is_quieter_than(pcm, SPEAKING_LEVEL);
        let prior: SpeakingState = match self.states.get(user_id as u64) {
            Some(s) => *s,
            None => SpeakingState {
                speaking: false,
                last_above_threshold: if now > SPEAKING_HOLDOFF_MS {
                    now - SPEAKING_HOLDOFF_MS - 1
                } else {
                    0
                },
            },
        };
        if loud {
            self.states.insert(
                user_id as u64,
                SpeakingState { speaking: true, last_above_threshold: now },
            );
            if prior.speaking {
                None
            } else {
                Some(SpeakingEdge::Start)
            }
        } else {
            if prior.speaking && elapsed_between(prior.last_above_threshold, now)
                >= SPEAKING_HOLDOFF_MS {
                self.states.insert(
                    user_id as u64,
                    SpeakingState {
                        speaking: false,
                        last_above_threshold: prior.last_above_threshold,
                    },
                );
                Some(SpeakingEdge::Stop)
            } else {
                self.states.insert(user_id as u64, prior);
                None
            }
        }
    }

    /// The user's microphone is muted: where the user counted as speaking,
    /// that ends now. Says whether it did.
    pub fn silence(&mut self, user_id: u32) -> (stopped: bool)
        ensures
            stopped == (old(self)@.contains_key(user_id as u64) && old(self)@[user_id
                as u64].speaking),
            stopped ==> final(self)@ == old(self)@.insert(
                user_id as u64,
                (SpeakingState {
                    speaking: false,
                    last_above_threshold: old(self)@[user_id as u64].last_above_threshold,
                }),
            ),
            !stopped ==> final(self)@ == old(self)@,
    {
        let prior: Option<SpeakingState> = match self.states.get(user_id as u64) {
            Some(s) => Some(*s),
            None => None,
        };
        match prior {
            Some(s) => {
                if s.speaking {
                    self.states.insert(
                        user_id as u64,
                        SpeakingState {
                            speaking: false,
                            last_above_threshold: s.last_above_threshold,
                        },
                    );
                    true
                } else {
                    false
                }
            },
            None => false,
        }
    }
}

/// One buffer as the detector sees it: whether its level reached the
/// threshold, and when it came.
pub struct Heard {
    pub loud: bool,
    pub now: u64,
}

/// The state after a run of buffers of one user, and the change that each
/// buffer brought.
pub open spec fn speaking_run(state: Option<SpeakingState>, heard: Seq<Heard>) -> (
    Option<SpeakingState>,
    Seq<Option<SpeakingEdge>>,
)
    decreases heard.len(),
{
    if heard.len() == 0 {
        (state, Seq::empty())
    } else {
        let before = speaking_run(state, heard.drop_last());
        let step = speaking_step(before.0, heard.last().loud, heard.last().now);
        (Some(step.0), before.1.push(step.1))
    }
}

/// What buffer `i` of a burst and the quiet after it must bring: the first
/// buffer the start, the first quiet buffer that comes 200 ms or more after
/// the end of the burst the stop, every other buffer nothing.
pub open spec fn expected_edge(heard: Seq<Heard>, burst: int, i: int) -> Option<SpeakingEdge> {
    let last_loud = heard[burst - 1].now;
    if i == 0 {
        Some(SpeakingEdge::Start)
    } else if i >= burst && elapsed(last_loud, heard[i].now) >= SPEAKING_HOLDOFF_MS && (i == burst
        || elapsed(last_loud, heard[i - 1].now) < SPEAKING_HOLDOFF_MS) {
        Some(SpeakingEdge::Stop)
    } else {
        None
    }
}

proof fn lemma_hysteresis_prefix(state: Option<SpeakingState>, heard: Seq<Heard>, burst: int, n: int)
    requires
        state matches Some(s) ==> !s.speaking,
        1 <= burst <= heard.len(),
        1 <= n <= heard.len(),
        forall|i: int| 0 <= i < heard.len() ==> (#[trigger] heard[i]).loud == (i < burst),
        forall|i: int, j: int| 0 <= i <= j < heard.len() ==> heard[i].now <= heard[j].now,
    ensures
        speaking_run(state, heard.subrange(0, n)).1.len() == n,
        forall|i: int|
            0 <= i < n ==> #[trigger] speaking_run(state, heard.subrange(0, n)).1[i]
                == expected_edge(heard, burst, i),
        speaking_run(state, heard.subrange(0, n)).0 == Some(
            (SpeakingState {
                speaking: n <= burst || elapsed(heard[burst - 1].now, heard[n - 1].now)
                    < SPEAKING_HOLDOFF_MS,
                last_above_threshold: if n <= burst {
                    heard[n - 1].now
                } else {
                    heard[burst - 1].now
                },
            }),
        ),
    decreases n,
{
    let upto = heard.subrange(0, n);
    assert(upto.drop_last() =~= heard.subrange(0, n - 1));
    assert(upto.last() == heard[n - 1]);
    if n == 1 {
        assert(heard.subrange(0, 0) =~= Seq::<Heard>::empty());
        assert(heard[0].loud);
    } else {
        lemma_hysteresis_prefix(state, heard, burst, n - 1);
        let before = speaking_run(state, heard.subrange(0, n - 1));
        let step = speaking_step(before.0, heard[n - 1].loud, heard[n - 1].now);
        assert(heard[n - 1].loud == (n - 1 < burst));
        assert(heard[burst - 1].now <= heard[n - 2].now || n - 1 < burst);
        assert(heard[n - 2].now <= heard[n - 1].now);
        assert(step.1 == expected_edge(heard, burst, n - 1));
        assert forall|i: int| 0 <= i < n implies #[trigger] speaking_run(state, upto).1[i]
            == expected_edge(heard, burst, i) by {
            if i < n - 1 {
                assert(speaking_run(state, upto).1[i] == before.1[i]);
            }
        }
    }
}

/// Hysteresis. Of a user who is not speaking, a burst of loud buffers
/// followed by quiet ones, in the order of their times, brings exactly one
/// start, with the first buffer, and at most one stop: with the first quiet
/// buffer that comes 200 ms or more after the last loud one, and so no
/// earlier than that.
pub proof fn lemma_hysteresis(state: Option<SpeakingState>, heard: Seq<Heard>, burst: int)
    requires
        state matches Some(s) ==> !s.speaking,
        1 <= burst <= heard.len(),
        forall|i: int| 0 <= i < heard.len() ==> (#[trigger] heard[i]).loud == (i < burst),
        forall|i: int, j: int| 0 <= i <= j < heard.len() ==> heard[i].now <= heard[j].now,
    ensures
        speaking_run(state, heard).1.len() == heard.len(),
        forall|i: int|
            0 <= i < heard.len() ==> #[trigger] speaking_run(state, heard).1[i] == expected_edge(
                heard,
                burst,
                i,
            ),
        forall|i: int, j: int|
            0 <= i < j < heard.len() && speaking_run(state, heard).1[i] == Some(
                SpeakingEdge::Stop,
            ) ==> speaking_run(state, heard).1[j].is_none(),
        forall|i: int|
            0 <= i < heard.len() && speaking_run(state, heard).1[i] == Some(SpeakingEdge::Stop)
                ==> heard[i].now - heard[burst - 1].now >= SPEAKING_HOLDOFF_MS,
{
    lemma_hysteresis_prefix(state, heard, burst, heard.len() as int);
    assert(heard.subrange(0, heard.len() as int) =~= heard);
    let edges = speaking_run(state, heard).1;
    assert forall|i: int, j: int|
        0 <= i < j < heard.len() && edges[i] == Some(SpeakingEdge::Stop) implies edges[j].is_none() by {
        assert(edges[i] == expected_edge(heard, burst, i));
        assert(edges[j] == expected_edge(heard, burst, j));
        assert(heard[i].now <= heard[j - 1].now);
    }
    assert forall|i: int|
        0 <= i < heard.len() && edges[i] == Some(SpeakingEdge::Stop) implies heard[i].now
        - heard[burst - 1].now >= SPEAKING_HOLDOFF_MS by {
        assert(edges[i] == expected_edge(heard, burst, i));
    }
}

} // verus!
