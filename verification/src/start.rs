//! Self-paced polling start: the rotor paces its own commutations. One
//! comparator sample per control tick goes in; a crossing counts once the
//! level has agreed with its expected value for enough polls in a row, and
//! the start hands off to the interrupt mode when the crossings are fast
//! and steady. Durations are polls unless noted.

use vstd::prelude::*;

verus! {

/// Agreeing polls in a row that make a crossing.
pub const MIN_BEMF_COUNTS: u8 = 3;

/// The first crossings take twice as many.
pub const EARLY_CROSSINGS: u8 = 5;

/// After each of the first commutations the comparator is ignored for this
/// many polls.
pub const EARLY_SKIP_POLLS: u8 = 6;

/// Without a crossing for this long, the start commutates blind.
pub const BLIND_STEP_POLLS: u16 = 300;

/// Longest crossing interval that counts toward the handoff, µs.
pub const HANDOFF_INTERVAL_US: u32 = 2_500;

/// Fast crossings in a row that hand off.
pub const HANDOFF_STREAK: u8 = 4;

/// What to do after a poll.
#[derive(Debug, Clone, Copy, PartialEq, Eq, Structural)]
pub enum StartAction {
    /// Keep polling.
    Wait,
    /// Commutate: a crossing was accepted.
    Commutate,
    /// Commutate blind: no crossing came.
    CommutateBlind,
    /// Commutate and hand off, with the interval to seed the estimator.
    Handoff {
        /// Last crossing interval, µs.
        interval_us: u32,
    },
}

/// The state of a start.
#[derive(Debug, Clone, Copy, PartialEq, Eq, Structural)]
pub struct StartState {
    /// Agreeing polls in a row.
    pub agree_run: u8,
    /// Polls left to ignore.
    pub skip_left: u8,
    /// Crossings so far.
    pub crossings: u16,
    /// Polls since the last commutation.
    pub polls_since_comm: u16,
    /// Time of the last crossing, µs; 0 is none.
    pub last_cross_us: u32,
    /// Last crossing interval, µs; 0 when it was not measured.
    pub interval_us: u32,
    /// Fast crossings in a row.
    pub fast_streak: u8,
}

impl StartState {
    /// A start that has not begun.
    pub open spec fn fresh() -> StartState {
        StartState {
            agree_run: 0,
            skip_left: 0,
            crossings: 0,
            polls_since_comm: 0,
            last_cross_us: 0,
            interval_us: 0,
            fast_streak: 0,
        }
    }

    /// Agreeing polls that the next crossing takes.
    pub open spec fn needed(self) -> int {
        if self.crossings < EARLY_CROSSINGS {
            2 * MIN_BEMF_COUNTS
        } else {
            MIN_BEMF_COUNTS as int
        }
    }

    /// The state with this poll counted.
    pub open spec fn counted(self) -> StartState {
        StartState { polls_since_comm: self.polls_since_comm.saturating_add(1), ..self }
    }

    /// The state after a commutation; a blind one breaks the chain of
    /// measured crossings.
    pub open spec fn after_commutation(self, qualified: bool) -> StartState {
        StartState {
            agree_run: 0,
            polls_since_comm: 0,
            last_cross_us: if qualified {
                self.last_cross_us
            } else {
                0
            },
            fast_streak: if qualified {
                self.fast_streak
            } else {
                0
            },
            skip_left: if self.crossings < EARLY_CROSSINGS {
                EARLY_SKIP_POLLS
            } else {
                self.skip_left
            },
            ..self
        }
    }

    /// The interval that a crossing at `now_us` ends; 0 when there is no
    /// crossing to measure from.
    pub open spec fn measured(self, now_us: u32) -> u32 {
        if self.last_cross_us != 0 {
            now_us.wrapping_sub(self.last_cross_us)
        } else {
            0
        }
    }

    /// The state with a crossing at `now_us` counted.
    pub open spec fn crossed(self, now_us: u32) -> StartState {
        let interval = self.measured(now_us);
        let crossings = self.crossings.saturating_add(1);
        StartState {
            last_cross_us: now_us,
            interval_us: interval,
            crossings,
            fast_streak: if crossings > EARLY_CROSSINGS && 0 < interval <= HANDOFF_INTERVAL_US {
                self.fast_streak.saturating_add(1)
            } else {
                0
            },
            ..self
        }
    }

    /// What a poll decides.
    pub open spec fn action(self, level: bool, expected: bool, now_us: u32) -> StartAction {
        if self.skip_left > 0 {
            StartAction::Wait
        } else if self.counted().polls_since_comm >= BLIND_STEP_POLLS {
            StartAction::CommutateBlind
        } else if level != expected || self.agree_run.saturating_add(1) < self.needed() {
            StartAction::Wait
        } else if self.crossed(now_us).fast_streak >= HANDOFF_STREAK {
            StartAction::Handoff { interval_us: self.measured(now_us) }
        } else {
            StartAction::Commutate
        }
    }

    /// The state after a poll.
    pub open spec fn after_poll(self, level: bool, expected: bool, now_us: u32) -> StartState {
        let s = self.counted();
        match self.action(level, expected, now_us) {
            StartAction::Wait => if self.skip_left > 0 {
                StartState { skip_left: (self.skip_left - 1) as u8, ..s }
            } else if level == expected {
                StartState { agree_run: self.agree_run.saturating_add(1), ..s }
            } else {
                StartState { agree_run: 0, ..s }
            },
            StartAction::CommutateBlind => s.after_commutation(false),
            _ => StartState { agree_run: self.agree_run.saturating_add(1), ..s }.crossed(
                now_us,
            ).after_commutation(true),
        }
    }

    /// A start that has not begun.
    pub fn new() -> (r: Self)
        ensures
            r == StartState::fresh(),
    {
        Self {
            agree_run: 0,
            skip_left: 0,
            crossings: 0,
            polls_since_comm: 0,
            last_cross_us: 0,
            interval_us: 0,
            fast_streak: 0,
        }
    }

    /// Starts over.
    pub fn reset(&mut self)
        ensures
            *final(self) == StartState::fresh(),
    {
        *self = Self::new();
    }

    fn need(&self) -> (r: u8)
        ensures
            r == self.needed(),
    {
        if self.crossings < EARLY_CROSSINGS as u16 {
            MIN_BEMF_COUNTS * 2
        } else {
            MIN_BEMF_COUNTS
        }
    }

    /// Takes one poll: the comparator level, the level expected after this
    /// sector's crossing, and a wrapping µs timestamp.
    pub fn poll(&mut self, level: bool, expected_post_zc: bool, now_us: u32) -> (r: StartAction)
        ensures
            r == old(self).action(level, expected_post_zc, now_us),
            *final(self) == old(self).after_poll(level, expected_post_zc, now_us),
    {
        self.polls_since_comm = self.polls_since_comm.saturating_add(1);
        if self.skip_left > 0 {
            self.skip_left = self.skip_left - 1;
            return StartAction::Wait;
        }
        if self.polls_since_comm >= BLIND_STEP_POLLS {
            self.commutated(false);
            return StartAction::CommutateBlind;
        }
        if level == expected_post_zc {
            self.agree_run = self.agree_run.saturating_add(1);
            if self.agree_run >= self.need() {
                let interval: u32 = if self.last_cross_us != 0 {
                    now_us.wrapping_sub(self.last_cross_us)
                } else {
                    0
                };
                self.last_cross_us = now_us;
                self.interval_us = interval;
                self.crossings = self.crossings.saturating_add(1);
                if self.crossings > EARLY_CROSSINGS as u16 && interval != 0 && interval
                    <= HANDOFF_INTERVAL_US {
                    self.fast_streak = self.fast_streak.saturating_add(1);
                } else {
                    self.fast_streak = 0;
                }
                let hand: bool = self.fast_streak >= HANDOFF_STREAK;
                self.commutated(true);
                return if hand {
                    StartAction::Handoff { interval_us: interval }
                } else {
                    StartAction::Commutate
                };
            }
        } else {
            self.agree_run = 0;
        }
        StartAction::Wait
    }

    fn commutated(&mut self, qualified: bool)
        ensures
            *final(self) == old(self).after_commutation(qualified),
    {
        self.agree_run = 0;
        self.polls_since_comm = 0;
        if !qualified {
            self.last_cross_us = 0;
            self.fast_streak = 0;
        }
        if self.crossings < EARLY_CROSSINGS as u16 {
            self.skip_left = EARLY_SKIP_POLLS;
        }
    }
}

impl Default for StartState {
    fn default() -> (r: Self)
        ensures
            r == StartState::fresh(),
    {
        Self::new()
    }
}

impl StartState {
    /// The streak only holds crossings past the early ones, a blind step
    /// comes before the polls run out, and the skip is over after the polls
    /// it was set to.
    pub open spec fn wf(self) -> bool {
        &&& self.fast_streak > 0 ==> self.crossings >= EARLY_CROSSINGS + self.fast_streak
        &&& self.polls_since_comm < BLIND_STEP_POLLS
        &&& self.skip_left > 0 ==> self.polls_since_comm + self.skip_left <= EARLY_SKIP_POLLS
    }

    /// The state after a train of polls: level, expected level, time.
    pub open spec fn after_polls(self, polls: Seq<(bool, bool, u32)>) -> StartState
        decreases polls.len(),
    {
        if polls.len() == 0 {
            self
        } else {
            let p = polls.last();
            self.after_polls(polls.drop_last()).after_poll(p.0, p.1, p.2)
        }
    }

    /// What the last of a train of polls decided.
    pub open spec fn last_action(self, polls: Seq<(bool, bool, u32)>) -> StartAction {
        let p = polls.last();
        self.after_polls(polls.drop_last()).action(p.0, p.1, p.2)
    }
}

/// Every poll keeps the invariant, and a fresh start has it.
pub proof fn law_poll_keeps_the_invariant(s: StartState, level: bool, expected: bool, now_us: u32)
    requires
        s.wf(),
    ensures
        s.after_poll(level, expected, now_us).wf(),
        StartState::fresh().wf(),
{
}

/// A handoff takes a real, fast interval, and no fewer crossings than the
/// early ones and a full streak.
pub proof fn law_handoff_is_earned(s: StartState, level: bool, expected: bool, now_us: u32)
    requires
        s.wf(),
        s.action(level, expected, now_us) is Handoff,
    ensures
        s.action(level, expected, now_us) == (StartAction::Handoff {
            interval_us: s.measured(now_us),
        }),
        0 < s.measured(now_us) <= HANDOFF_INTERVAL_US,
        s.after_poll(level, expected, now_us).crossings >= EARLY_CROSSINGS + HANDOFF_STREAK,
        level == expected,
{
}

/// A blind step voids the streak and the chain: the next crossing measures
/// nothing and cannot hand off.
pub proof fn law_blind_step_voids_the_streak(
    s: StartState,
    level: bool,
    expected: bool,
    now_us: u32,
    later_us: u32,
)
    requires
        s.action(level, expected, now_us) == StartAction::CommutateBlind,
    ensures
        ({
            let b = s.after_poll(level, expected, now_us);
            &&& b.fast_streak == 0
            &&& b.measured(later_us) == 0
            &&& b.crossed(later_us).fast_streak == 0
        }),
{
}

/// A disagreeing poll never takes a crossing, and starts the agreement
/// over unless it is ignored.
pub proof fn law_disagreement_starts_over(s: StartState, expected: bool, now_us: u32)
    ensures
        ({
            let a = s.action(!expected, expected, now_us);
            a == StartAction::Wait || a == StartAction::CommutateBlind
        }),
        s.skip_left == 0 ==> s.after_poll(!expected, expected, now_us).agree_run == 0,
{
}

/// While a train of polls decides nothing, its polls are counted and the
/// skip runs down.
proof fn lemma_idle_polls_count(s: StartState, polls: Seq<(bool, bool, u32)>)
    requires
        s.polls_since_comm + polls.len() < BLIND_STEP_POLLS,
        forall|n: int|
            1 <= n <= polls.len() ==> s.last_action(#[trigger] polls.take(n)) == StartAction::Wait,
    ensures
        s.after_polls(polls).polls_since_comm == s.polls_since_comm + polls.len(),
        s.after_polls(polls).skip_left == if polls.len() <= s.skip_left {
            s.skip_left - polls.len()
        } else {
            0
        },
    decreases polls.len(),
{
    if polls.len() > 0 {
        let front = polls.drop_last();
        assert forall|n: int| 1 <= n <= front.len() implies s.last_action(
            #[trigger] front.take(n),
        ) == StartAction::Wait by {
            assert(front.take(n) =~= polls.take(n));
        }
        lemma_idle_polls_count(s, front);
        assert(polls.take(polls.len() as int) =~= polls);
        assert(s.last_action(polls) == StartAction::Wait);
    }
}

/// A start never stalls: from every state that it reaches, it commutates by
/// the 300th poll since its last commutation, whatever the comparator shows.
pub proof fn law_start_never_stalls(s: StartState, polls: Seq<(bool, bool, u32)>)
    requires
        s.wf(),
        s.polls_since_comm + polls.len() >= BLIND_STEP_POLLS,
    ensures
        exists|n: int|
            1 <= n <= BLIND_STEP_POLLS - s.polls_since_comm && s.last_action(
                #[trigger] polls.take(n),
            ) != StartAction::Wait,
{
    let left = BLIND_STEP_POLLS - s.polls_since_comm;
    if forall|n: int|
        1 <= n <= left ==> s.last_action(#[trigger] polls.take(n)) == StartAction::Wait {
        let front = polls.take(left - 1);
        assert forall|n: int| 1 <= n <= front.len() implies s.last_action(
            #[trigger] front.take(n),
        ) == StartAction::Wait by {
            assert(front.take(n) =~= polls.take(n));
        }
        lemma_idle_polls_count(s, front);
        assert(polls.take(left).drop_last() =~= front);
        assert(s.last_action(polls.take(left)) == StartAction::CommutateBlind);
    }
}

/// A crossing takes agreeing polls in a row: six for each of the first five,
/// three after them. A poll that disagrees starts over, and one that agrees
/// adds to the run; the skip after an early commutation is six polls.
pub proof fn law_crossing_takes_agreeing_polls(s: StartState, expected: bool, now_us: u32)
    requires
        s.wf(),
        s.skip_left == 0,
        s.polls_since_comm <= 298,
        s.agree_run <= 5,
    ensures
        ({
            let needed: int = if s.crossings <= 4 {
                6
            } else {
                3
            };
            let a = s.action(expected, expected, now_us);
            let t = s.after_poll(expected, expected, now_us);
            &&& a == StartAction::Wait <==> s.agree_run + 1 < needed
            &&& a == StartAction::Wait ==> t.agree_run == s.agree_run + 1 && t.crossings
                == s.crossings
            &&& a != StartAction::Wait ==> {
                &&& t.agree_run == 0 && t.polls_since_comm == 0
                &&& s.crossings < u16::MAX ==> t.crossings == s.crossings + 1
                &&& t.last_cross_us == now_us
                &&& t.skip_left == if s.crossings <= 3 {
                    6int
                } else {
                    0int
                }
            }
            &&& t.polls_since_comm == if a == StartAction::Wait {
                (s.polls_since_comm + 1) as int
            } else {
                0
            }
        }),
{
}

/// A crossing measures the time since the one before, if there is one. Past
/// the fifth, an interval up to 2500 µs adds to the streak and any other
/// starts it over; the fourth in a row hands off, and no earlier one does.
pub proof fn law_fast_crossings_hand_off(s: StartState, expected: bool, now_us: u32)
    requires
        s.wf(),
        s.skip_left == 0,
        s.polls_since_comm <= 298,
        s.action(expected, expected, now_us) != StartAction::Wait,
        s.crossings < u16::MAX,
        s.fast_streak < u8::MAX,
    ensures
        ({
            let t = s.after_poll(expected, expected, now_us);
            let interval = if s.last_cross_us == 0 {
                0
            } else {
                now_us.wrapping_sub(s.last_cross_us)
            };
            let fast = s.crossings >= 5 && 1 <= interval <= 2_500;
            &&& t.interval_us == interval
            &&& fast ==> t.fast_streak == s.fast_streak + 1
            &&& !fast ==> t.fast_streak == 0
            &&& s.action(expected, expected, now_us) is Handoff <==> fast && s.fast_streak >= 3
            &&& !(s.action(expected, expected, now_us) is Handoff) ==> s.action(
                expected,
                expected,
                now_us,
            ) == StartAction::Commutate
        }),
{
}

/// Polls in the skip are ignored, and count it down. At the 300th poll since
/// the last commutation the start steps blind, whatever the level.
pub proof fn law_skip_and_blind_step(s: StartState, level: bool, expected: bool, now_us: u32)
    requires
        s.wf(),
    ensures
        s.skip_left > 0 ==> {
            let t = s.after_poll(level, expected, now_us);
            &&& s.action(level, expected, now_us) == StartAction::Wait
            &&& t.skip_left == s.skip_left - 1 && t.agree_run == s.agree_run
            &&& t.crossings == s.crossings && t.fast_streak == s.fast_streak
        },
        s.action(level, expected, now_us) == StartAction::CommutateBlind <==> s.skip_left == 0
            && s.polls_since_comm == 299,
{
}

} // verus!
