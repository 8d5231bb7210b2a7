//! The stated laws of the state machine, proved once and for all.
//!
//! That exactly one phase is active at any time is carried by the type
//! itself: [`crate::models::PhaseV`] is a tagged variant, so a state holds
//! one and only one phase.  The laws below state the rest: transitions are
//! a pure function of (prior state, event); well-formedness is preserved;
//! cumulative scores never decrease; join and leave are idempotent; and
//! leaving alters nobody else's standing.

use vstd::prelude::*;
use crate::machine::{run, step, EventV};
use crate::models::{PhaseV, StateV};
use crate::scores::{
    has_key, lemma_bump_keys, lemma_bump_points_of, lemma_points_of_absent, lemma_points_of_push,
    lemma_remove_name_props, points_of, unique_names,
};

verus! {

/// The transition function is a pure function of (prior state, event):
/// equal inputs give equal transitions, so there is no hidden
/// nondeterminism in the machine.
pub proof fn lemma_step_pure(s1: StateV, s2: StateV, ev1: EventV, ev2: EventV)
    requires
        s1 == s2,
        ev1 == ev2,
    ensures
        step(s1, ev1) == step(s2, ev2),
{
}

/// Replaying the same sequence of events from the same state yields the
/// identical final state.
pub proof fn lemma_replay_deterministic(s: StateV, evs1: Seq<EventV>, evs2: Seq<EventV>)
    requires
        evs1 =~= evs2,
    ensures
        run(s, evs1) == run(s, evs2),
{
}

/// Every transition out of a well-formed state lands in a well-formed
/// state: player names stay unique, the cumulative board keeps one row per
/// name and a row for every current player, nobody scores twice in one
/// round, and the difficulty stays between its floor and its start value.
pub proof fn lemma_step_preserves_wf(s: StateV, ev: EventV)
    requires
        s.wf(),
    ensures
        step(s, ev).state.wf(),
{
    match ev {
        EventV::JoinPlayer(n) => {
            if !s.players.contains(n) {
                let s2 = step(s, ev).state;
                // the fresh name keeps the roster unique
                assert(forall|i: int| 0 <= i < s.players.len() ==> s.players[i] != n);
                assert forall|i: int, j: int|
                    0 <= i < j < s2.players.len() implies s2.players[i] != s2.players[j] by {
                    if j < s.players.len() {
                        assert(s.players[i] != s.players[j]);
                    }
                }
                if !has_key(s.total_scores, n) {
                    // the fresh zero row keeps the board keys unique
                    assert(forall|i: int|
                        0 <= i < s.total_scores.len() ==> s.total_scores[i].0 != n);
                    assert forall|i: int, j: int|
                        0 <= i < j < s2.total_scores.len() implies s2.total_scores[i].0
                        != s2.total_scores[j].0 by {
                        if j < s.total_scores.len() {
                            assert(s.total_scores[i].0 != s.total_scores[j].0);
                        }
                    }
                }
                // every player, the new one included, has a row
                assert forall|i: int|
                    0 <= i < s2.players.len() implies has_key(
                    s2.total_scores,
                    #[trigger] s2.players[i],
                ) by {
                    if i < s.players.len() {
                        assert(has_key(s.total_scores, s.players[i]));
                        let k = choose|k: int|
                            0 <= k < s.total_scores.len() && s.total_scores[k].0 == s.players[i];
                        assert(s2.total_scores[k].0 == s.players[i]);
                    } else {
                        if has_key(s.total_scores, n) {
                            let k = choose|k: int|
                                0 <= k < s.total_scores.len() && s.total_scores[k].0 == n;
                            assert(s2.total_scores[k].0 == n);
                        } else {
                            assert(s2.total_scores[s.total_scores.len() as int].0 == n);
                        }
                    }
                }
            }
        },
        EventV::LeavePlayer(n) => {
            if s.players.contains(n) {
                let s2 = step(s, ev).state;
                lemma_remove_name_props(s.players, n);
                assert forall|i: int|
                    0 <= i < s2.players.len() implies has_key(
                    s2.total_scores,
                    #[trigger] s2.players[i],
                ) by {
                    assert(s.players.contains(s2.players[i]));
                    let k = choose|k: int| 0 <= k < s.players.len() && s.players[k] == s2.players[i];
                    assert(has_key(s.total_scores, s.players[k]));
                }
            }
        },
        EventV::RequestStart => {},
        EventV::TargetSelected(_t) => {},
        EventV::NoTargetAvailable => {},
        EventV::GuessJudged(n, correct) => {
            match s.phase {
                PhaseV::Searching { target, round_scores, difficulty } => {
                    if s.players.contains(n) && !has_key(round_scores, n) && correct {
                        let award = crate::machine::award_for(
                            s.players.len(),
                            round_scores.len(),
                        );
                        lemma_bump_keys(s.total_scores, n, award);
                        let totals2 = crate::scores::bump_points(s.total_scores, n, award);
                        let s2 = step(s, ev).state;
                        assert(s2.total_scores == totals2);
                        assert forall|i: int|
                            0 <= i < s2.players.len() implies has_key(
                            s2.total_scores,
                            #[trigger] s2.players[i],
                        ) by {
                            assert(has_key(s.total_scores, s.players[i]));
                        }
                        let scored2 = round_scores.push((n, award));
                        assert(forall|i: int|
                            0 <= i < round_scores.len() ==> round_scores[i].0 != n);
                        assert forall|i: int, j: int|
                            0 <= i < j < scored2.len() implies scored2[i].0 != scored2[j].0 by {
                            if j < round_scores.len() {
                                assert(round_scores[i].0 != round_scores[j].0);
                            }
                        }
                    }
                },
                _ => {},
            }
        },
        EventV::DifficultyTick(_v) => {},
        EventV::RoundTimerElapsed => {},
    }
}

/// A whole run out of a well-formed state stays well-formed.
pub proof fn lemma_run_preserves_wf(s: StateV, evs: Seq<EventV>)
    requires
        s.wf(),
    ensures
        run(s, evs).wf(),
    decreases evs.len(),
{
    if evs.len() > 0 {
        lemma_step_preserves_wf(s, evs[0]);
        lemma_run_preserves_wf(step(s, evs[0]).state, evs.drop_first());
    }
}

/// No single transition lowers anybody's cumulative points.
pub proof fn lemma_step_scores_monotone(s: StateV, ev: EventV, m: Seq<char>)
    requires
        s.wf(),
    ensures
        points_of(step(s, ev).state.total_scores, m) >= points_of(s.total_scores, m),
{
    match ev {
        EventV::JoinPlayer(n) => {
            if !s.players.contains(n) && !has_key(s.total_scores, n) {
                lemma_points_of_push(s.total_scores, (n, 0u64), m);
                if !has_key(s.total_scores, m) {
                    lemma_points_of_absent(s.total_scores, m);
                }
            }
        },
        EventV::GuessJudged(n, correct) => {
            match s.phase {
                PhaseV::Searching { target, round_scores, difficulty } => {
                    if s.players.contains(n) && !has_key(round_scores, n) && correct {
                        let award = crate::machine::award_for(
                            s.players.len(),
                            round_scores.len(),
                        );
                        lemma_bump_points_of(s.total_scores, n, award, m);
                    }
                },
                _ => {},
            }
        },
        _ => {},
    }
}

/// Across any sequence of events, cumulative scores never decrease.
pub proof fn lemma_run_scores_monotone(s: StateV, evs: Seq<EventV>, m: Seq<char>)
    requires
        s.wf(),
    ensures
        points_of(run(s, evs).total_scores, m) >= points_of(s.total_scores, m),
    decreases evs.len(),
{
    if evs.len() > 0 {
        lemma_step_scores_monotone(s, evs[0], m);
        lemma_step_preserves_wf(s, evs[0]);
        lemma_run_scores_monotone(step(s, evs[0]).state, evs.drop_first(), m);
    }
}

/// Joining twice under one name is the same as joining once, and the name
/// stands exactly once in the roster afterwards: it is present, and the
/// roster stays free of duplicates.
pub proof fn lemma_join_idempotent(s: StateV, n: Seq<char>)
    requires
        s.wf(),
    ensures
        step(step(s, EventV::JoinPlayer(n)).state, EventV::JoinPlayer(n)).state == step(
            s,
            EventV::JoinPlayer(n),
        ).state,
        step(s, EventV::JoinPlayer(n)).state.players.contains(n),
        unique_names(step(s, EventV::JoinPlayer(n)).state.players),
{
    let s2 = step(s, EventV::JoinPlayer(n)).state;
    if !s.players.contains(n) {
        assert(s2.players[s.players.len() as int] == n);
    }
    assert(s2.players.contains(n));
    lemma_step_preserves_wf(s, EventV::JoinPlayer(n));
}

/// Leaving as a non-member changes nothing at all.
pub proof fn lemma_leave_nonmember_noop(s: StateV, n: Seq<char>)
    requires
        !s.players.contains(n),
    ensures
        step(s, EventV::LeavePlayer(n)).state == s,
        step(s, EventV::LeavePlayer(n)).outcomes == Seq::<crate::machine::OutcomeV>::empty(),
{
}

/// Removing a player touches nothing but the roster: the phase — and with
/// it the round scores of everyone still searching — the cumulative board,
/// the settings and the session identity all stand unchanged.
pub proof fn lemma_leave_preserves_rest(s: StateV, n: Seq<char>)
    ensures
        step(s, EventV::LeavePlayer(n)).state.phase == s.phase,
        step(s, EventV::LeavePlayer(n)).state.total_scores == s.total_scores,
        step(s, EventV::LeavePlayer(n)).state.settings == s.settings,
        step(s, EventV::LeavePlayer(n)).state.id == s.id,
{
}

} // verus!
