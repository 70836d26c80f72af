//! The local hill-climbing search of the contact locator.
//!
//! Positions along the search are offsets from the starting abscissa,
//! counted in ticks of `1 / TICKS_PER_UNIT` horizontal units. The step starts
//! at one unit and is halved whenever the next move would not bring the
//! terrain closer; once halving leaves less than one tick (the step has
//! fallen below the tolerance `1e-4`) the search is over. A cap on the number
//! of moves bounds the search on terrain that keeps getting closer forever.
//!
//! The distances themselves are measured by the caller: each decision takes
//! whether the terrain point at one offset is strictly closer to the circle
//! center than the one at another.

use vstd::prelude::*;

verus! {

/// Ticks in one horizontal unit: the step halves from one unit down to one
/// tick, the last step size above the tolerance.
pub const TICKS_PER_UNIT: u64 = 8192;

/// At most this many moves are taken by one search.
pub const MAX_MOVES: u64 = 1_000_000;

/// The state of one search.
#[derive(Clone, Copy, Debug, PartialEq, Eq, Structural)]
pub struct Climb {
    /// Offset from the starting abscissa, in ticks.
    pub offset: i64,
    /// Current step, in ticks; zero once every halving is spent.
    pub step: u64,
    /// Whether the search moves towards larger abscissas.
    pub forward: bool,
    /// Moves taken so far.
    pub moves: u64,
}

/// Halvings left before a step of `step` ticks falls below one tick.
pub open spec fn halvings_left(step: nat) -> nat
    decreases step,
{
    if step == 0 {
        0
    } else {
        1 + halvings_left(step / 2)
    }
}

impl Climb {
    /// A state that the search can reach: the step is at most a unit, the
    /// move cap is kept, and each move changed the offset by at most a unit
    /// in the chosen direction.
    pub open spec fn wf(self) -> bool {
        &&& self.step <= TICKS_PER_UNIT
        &&& self.moves <= MAX_MOVES
        &&& if self.forward {
            0 <= self.offset <= self.moves * TICKS_PER_UNIT
        } else {
            -(self.moves * TICKS_PER_UNIT) <= self.offset <= 0
        }
    }

    pub open spec fn done_spec(self) -> bool {
        self.step == 0 || self.moves >= MAX_MOVES
    }

    /// The offset one step further on.
    pub open spec fn probe_spec(self) -> int {
        if self.forward {
            self.offset + self.step
        } else {
            self.offset - self.step
        }
    }

    /// One decision of the search: move on if the probe is closer, else halve.
    pub open spec fn next_spec(self, closer: bool) -> Climb {
        if closer {
            Climb { offset: self.probe_spec() as i64, moves: (self.moves + 1) as u64, ..self }
        } else {
            Climb { step: self.step / 2, ..self }
        }
    }

    /// Decisions left at most before the search is over.
    pub open spec fn budget(self) -> nat {
        ((MAX_MOVES - self.moves) as nat) + halvings_left(self.step as nat)
    }

    /// The fresh search in the given direction.
    pub open spec fn start_spec(forward: bool) -> Climb {
        Climb { offset: 0, step: TICKS_PER_UNIT, forward, moves: 0 }
    }

    /// A search that starts at offset zero with a one-unit step, moving
    /// forward when the point one unit ahead is at least as close as the
    /// start.
    pub fn start(forward: bool) -> (r: Climb)
        ensures
            r == Climb::start_spec(forward),
            r.wf(),
    {
        Climb { offset: 0, step: TICKS_PER_UNIT, forward, moves: 0 }
    }

    pub fn is_done(&self) -> (r: bool)
        ensures
            r == self.done_spec(),
    {
        self.step == 0 || self.moves >= MAX_MOVES
    }

    /// The offset that the next decision compares with the current one.
    pub fn probe(&self) -> (r: i64)
        requires
            self.wf(),
        ensures
            r == self.probe_spec(),
    {
        let step = self.step as i64;
        if self.forward {
            self.offset + step
        } else {
            self.offset - step
        }
    }

    /// Takes one decision: `closer` tells whether the terrain at the probe is
    /// strictly closer to the center than at the current offset.
    pub fn next(&self, closer: bool) -> (r: Climb)
        requires
            self.wf(),
            !self.done_spec(),
        ensures
            r == self.next_spec(closer),
            r.wf(),
    {
        if closer {
            Climb { offset: self.probe(), moves: self.moves + 1, ..*self }
        } else {
            Climb { step: self.step / 2, ..*self }
        }
    }
}

/// Every decision brings the search closer to its end.
pub proof fn lemma_search_bounded(s: Climb, closer: bool)
    requires
        s.wf(),
        !s.done_spec(),
    ensures
        s.next_spec(closer).budget() < s.budget(),
{
    reveal_with_fuel(halvings_left, 2);
}

/// A fresh search is over after at most `MAX_MOVES` moves and fourteen
/// halvings: the step of one unit falls below the tolerance on the
/// fourteenth halving.
pub proof fn lemma_fresh_search_budget(forward: bool)
    ensures
        (Climb { offset: 0, step: TICKS_PER_UNIT, forward, moves: 0 }).budget() == MAX_MOVES + 14,
{
    reveal_with_fuel(halvings_left, 15);
}

/// The offset one tick further on in the search's direction.
pub open spec fn tick_ahead(s: Climb) -> i64 {
    if s.forward {
        (s.offset + 1) as i64
    } else {
        (s.offset - 1) as i64
    }
}

/// Decision `i` of `trace`: state `i` is not done, `closer` answered
/// `answers[i]` for its current offset and its probe, and state `i + 1` is
/// the decision taken on that answer.
pub open spec fn decided<F: Fn(i64, i64) -> bool>(
    closer: F,
    trace: Seq<Climb>,
    answers: Seq<bool>,
    i: int,
) -> bool {
    &&& !trace[i].done_spec()
    &&& closer.ensures((trace[i].offset, trace[i].probe_spec() as i64), answers[i])
    &&& trace[i + 1] == trace[i].next_spec(answers[i])
}

/// `trace` is a run of the search: every state but the last is followed by
/// the decision taken on what `closer` answered.
pub open spec fn is_run<F: Fn(i64, i64) -> bool>(
    closer: F,
    trace: Seq<Climb>,
    answers: Seq<bool>,
) -> bool {
    &&& trace.len() == answers.len() + 1
    &&& forall|i: int| 0 <= i < answers.len() ==> #[trigger] decided(closer, trace, answers, i)
}

/// A run of the search never ends farther from the center than it started:
/// where `closer` answers by comparing a distance `dist` of the offsets, every
/// move goes to a strictly closer offset and a halving stays in place.
pub proof fn lemma_run_never_farther<F: Fn(i64, i64) -> bool>(
    closer: F,
    dist: spec_fn(i64) -> int,
    trace: Seq<Climb>,
    answers: Seq<bool>,
)
    requires
        is_run(closer, trace, answers),
        forall|a: i64, b: i64, c: bool| #[trigger] closer.ensures((a, b), c) ==> c == (dist(b) < dist(a)),
    ensures
        dist(trace.last().offset) <= dist(trace[0].offset),
    decreases answers.len(),
{
    if answers.len() > 0 {
        let k = answers.len() - 1;
        let t = trace.drop_last();
        let a = answers.drop_last();
        assert forall|i: int| 0 <= i < a.len() implies #[trigger] decided(closer, t, a, i) by {
            assert(decided(closer, trace, answers, i));
            assert(t[i] == trace[i] && t[i + 1] == trace[i + 1] && a[i] == answers[i]);
        }
        lemma_run_never_farther(closer, dist, t, a);
        assert(decided(closer, trace, answers, k));
        assert(t.last() == trace[k]);
        assert(t[0] == trace[0]);
    }
}

/// Runs one search to its end. `closer(a, b)` tells whether the terrain
/// point at offset `b` is strictly closer to the center than the one at `a`.
/// The direction is forward unless the start is strictly closer than the
/// point one unit ahead. Unless the move cap ended it, the search ends where
/// the point one tick further on was found no closer. The result is the end
/// of a run of decisions from the fresh search, each taken on what `closer`
/// answered.
pub fn climb<F: Fn(i64, i64) -> bool>(closer: F) -> (r: Climb)
    requires
        forall|a: i64, b: i64| closer.requires((a, b)),
    ensures
        r.wf(),
        r.done_spec(),
        (exists|back: bool|
            #[trigger] closer.ensures((TICKS_PER_UNIT as i64, 0i64), back) && r.forward == !back),
        r.step == 0 ==> closer.ensures((r.offset, tick_ahead(r)), false),
        (exists|trace: Seq<Climb>, answers: Seq<bool>|
            #[trigger] is_run(closer, trace, answers) && trace[0] == Climb::start_spec(r.forward)
                && trace.last() == r),
{
    let back = closer(TICKS_PER_UNIT as i64, 0);
    let mut s = Climb::start(!back);
    let ghost mut trace: Seq<Climb> = seq![s];
    let ghost mut answers: Seq<bool> = Seq::empty();
    while !s.is_done()
        invariant
            is_run(closer, trace, answers),
            trace[0] == Climb::start_spec(!back),
            trace.last() == s,
            s.wf(),
            s.forward == !back,
            forall|a: i64, b: i64| closer.requires((a, b)),
            s.step == 0 ==> closer.ensures((s.offset, tick_ahead(s)), false),
        decreases s.budget(),
    {
        let p = s.probe();
        let c = closer(s.offset, p);
        proof {
            lemma_search_bounded(s, c);
        }
        let t = s.next(c);
        assert(t.step == 0 ==> s.step == 1 && !c && t.offset == s.offset);
        proof {
            let old_trace = trace;
            let old_answers = answers;
            trace = trace.push(t);
            answers = answers.push(c);
            assert forall|i: int| 0 <= i < answers.len() implies #[trigger] decided(
                closer,
                trace,
                answers,
                i,
            ) by {
                if i < old_answers.len() {
                    assert(decided(closer, old_trace, old_answers, i));
                    assert(old_answers[i] == answers[i]);
                    assert(old_trace[i] == trace[i]);
                    assert(old_trace[i + 1] == trace[i + 1]);
                } else {
                    assert(trace[i] == s);
                    assert(p == s.probe_spec() as i64);
                    assert(answers[i] == c);
                    assert(trace[i + 1] == t);
                }
            }
        }
        s = t;
    }
    s
}

} // verus!
