//! The session state machine.
//!
//! Every mutation of a session — human or timer driven — is one application
//! of [`step`], a total function of (prior state, event).  Combinations that
//! the transition table leaves undefined are no-ops, not errors, so late or
//! duplicate events are tolerated; a no-op yields nothing to broadcast.
//!
//! Target selection is delegated to an external catalog sampler: when a
//! countdown or a round pause elapses, the scheduler asks for a sample, and
//! its result comes back in as [`EventV::TargetSelected`] or
//! [`EventV::NoTargetAvailable`].  When the catalog is empty the session
//! returns to `WaitingForStart` rather than aborting.

use vstd::prelude::*;
use crate::models::{
    names_view, players_contain, remove_player, rows_view, GameMessage, GameMessageV, GameObject,
    GameObjectV, LobbyPhase, LobbySettings, LobbyState, PhaseV, Player, StateV,
    DIFFICULTY_FLOOR_TENTHS, DIFFICULTY_START_TENTHS, COUNTDOWN_SECS,
};
use crate::scores::{
    bump_points, copy_rows, has_key, points_of, remove_name, rows_bump, rows_has_key, rows_points,
    rows_sort_desc, sort_desc, RowV,
};

verus! {

/// An event the machine can apply, at the specification level.
pub ghost enum EventV {
    JoinPlayer(Seq<char>),
    LeavePlayer(Seq<char>),
    RequestStart,
    TargetSelected(GameObjectV),
    NoTargetAvailable,
    GuessJudged(Seq<char>, bool),
    DifficultyTick(u32),
    RoundTimerElapsed,
}

/// Something the machine emits for delivery, at the specification level:
/// either a broadcast to every subscribed reader, or a message addressed to
/// the one player it concerns (a wrong guess is never announced to others).
pub ghost enum OutcomeV {
    Broadcast(GameMessageV),
    Direct(Seq<char>, GameMessageV),
}

/// The result of one transition.
#[verifier::ext_equal]
pub ghost struct TransitionV {
    pub state: StateV,
    pub outcomes: Seq<OutcomeV>,
}

/// A transition that changes nothing and broadcasts nothing.
pub open spec fn no_op(s: StateV) -> TransitionV {
    TransitionV { state: s, outcomes: Seq::empty() }
}

/// The authoritative full-state broadcast that closes every successful
/// transition.
pub open spec fn snapshot_out(s: StateV) -> OutcomeV {
    OutcomeV::Broadcast(GameMessageV::GameState(s))
}

/// Joining is idempotent per name: a rejoin under a present name is a no-op.
/// A fresh name is appended to the roster, and gets a zero cumulative row
/// unless one survives from an earlier stay.
pub open spec fn step_join(s: StateV, n: Seq<char>) -> TransitionV {
    if s.players.contains(n) {
        no_op(s)
    } else {
        let s2 = StateV {
            players: s.players.push(n),
            total_scores: if has_key(s.total_scores, n) {
                s.total_scores
            } else {
                s.total_scores.push((n, 0))
            },
            ..s
        };
        TransitionV { state: s2, outcomes: seq![snapshot_out(s2)] }
    }
}

/// Leaving removes the player from the roster at any phase, never forces a
/// phase change, and keeps their cumulative row.  Leaving as a non-member is
/// a no-op.
pub open spec fn step_leave(s: StateV, n: Seq<char>) -> TransitionV {
    if s.players.contains(n) {
        let s2 = StateV { players: remove_name(s.players, n), ..s };
        TransitionV { state: s2, outcomes: seq![snapshot_out(s2)] }
    } else {
        no_op(s)
    }
}

/// A start request begins the countdown, but only from `WaitingForStart`
/// and only with at least one player present.
pub open spec fn step_request_start(s: StateV) -> TransitionV {
    if s.phase is WaitingForStart && s.players.len() >= 1 {
        let s2 = StateV { phase: PhaseV::Countdown { remaining: COUNTDOWN_SECS }, ..s };
        TransitionV {
            state: s2,
            outcomes: seq![
                OutcomeV::Broadcast(GameMessageV::Countdown { duration: COUNTDOWN_SECS }),
                snapshot_out(s2),
            ],
        }
    } else {
        no_op(s)
    }
}

/// A sampled target starts a round, out of a countdown or a round pause:
/// empty round scores, difficulty at its start value.
pub open spec fn step_target_selected(s: StateV, t: GameObjectV) -> TransitionV {
    if s.phase is Countdown || s.phase is RoundOver {
        let s2 = StateV {
            phase: PhaseV::Searching {
                target: t,
                round_scores: Seq::empty(),
                difficulty: DIFFICULTY_START_TENTHS,
            },
            ..s
        };
        TransitionV {
            state: s2,
            outcomes: seq![
                OutcomeV::Broadcast(GameMessageV::NewRound { target: t }),
                snapshot_out(s2),
            ],
        }
    } else {
        no_op(s)
    }
}

/// An empty catalog degrades the session to `WaitingForStart` instead of
/// crashing it; play can be restarted once objects exist.
pub open spec fn step_no_target(s: StateV) -> TransitionV {
    if s.phase is Countdown || s.phase is RoundOver {
        let s2 = StateV { phase: PhaseV::WaitingForStart, ..s };
        TransitionV { state: s2, outcomes: seq![snapshot_out(s2)] }
    } else {
        no_op(s)
    }
}

/// The points a correct guess is worth: one point per player who has not
/// scored yet, excluding the guesser — earlier finishers earn more — and
/// never negative.
pub open spec fn award_for(total_players: nat, already_scored: nat) -> u64 {
    if total_players >= already_scored + 1 && total_players - already_scored - 1 <= u64::MAX {
        (total_players - already_scored - 1) as u64
    } else {
        0
    }
}

/// A judged guess.  Only a current player who has not scored this round can
/// score; a wrong guess is answered to the submitter alone and changes
/// nothing.  A correct guess awards points, and then, in this order: a
/// cumulative total at or above `points_to_win` ends the game with a
/// leaderboard; a full scorer count ends the round; otherwise the round
/// goes on with the difficulty unchanged.
pub open spec fn step_guess_judged(s: StateV, n: Seq<char>, correct: bool) -> TransitionV {
    match s.phase {
        PhaseV::Searching { target, round_scores, difficulty } => {
            if !s.players.contains(n) || has_key(round_scores, n) {
                no_op(s)
            } else if !correct {
                TransitionV {
                    state: s,
                    outcomes: seq![
                        OutcomeV::Direct(n, GameMessageV::GuessResult { correct: false }),
                    ],
                }
            } else {
                let award = award_for(s.players.len(), round_scores.len());
                let totals2 = bump_points(s.total_scores, n, award);
                if points_of(totals2, n) >= s.settings.points_to_win {
                    let board = sort_desc(totals2);
                    let s2 = StateV {
                        phase: PhaseV::GameOver { leaderboard: board },
                        total_scores: totals2,
                        ..s
                    };
                    TransitionV {
                        state: s2,
                        outcomes: seq![
                            OutcomeV::Direct(n, GameMessageV::GuessResult { correct: true }),
                            OutcomeV::Broadcast(GameMessageV::GameOver { leaderboard: board }),
                            snapshot_out(s2),
                        ],
                    }
                } else {
                    let scored2 = round_scores.push((n, award));
                    if scored2.len() >= s.settings.scorers_per_target {
                        let s2 = StateV { phase: PhaseV::RoundOver, total_scores: totals2, ..s };
                        TransitionV {
                            state: s2,
                            outcomes: seq![
                                OutcomeV::Direct(n, GameMessageV::GuessResult { correct: true }),
                                OutcomeV::Broadcast(GameMessageV::RoundOver { scores: scored2 }),
                                snapshot_out(s2),
                            ],
                        }
                    } else {
                        let s2 = StateV {
                            phase: PhaseV::Searching { target, round_scores: scored2, difficulty },
                            total_scores: totals2,
                            ..s
                        };
                        TransitionV {
                            state: s2,
                            outcomes: seq![
                                OutcomeV::Direct(n, GameMessageV::GuessResult { correct: true }),
                                snapshot_out(s2),
                            ],
                        }
                    }
                }
            }
        },
        _ => no_op(s),
    }
}

/// A decay tick lowers the difficulty while a round runs, strictly and never
/// below the floor; anything else — a stale tick, a tick at the floor, a
/// tick outside a round — is a no-op.
pub open spec fn step_difficulty_tick(s: StateV, v: u32) -> TransitionV {
    match s.phase {
        PhaseV::Searching { target, round_scores, difficulty } => {
            if DIFFICULTY_FLOOR_TENTHS <= v < difficulty {
                let s2 = StateV {
                    phase: PhaseV::Searching { target, round_scores, difficulty: v },
                    ..s
                };
                TransitionV {
                    state: s2,
                    outcomes: seq![
                        OutcomeV::Broadcast(GameMessageV::UpdateImage { difficulty: v }),
                    ],
                }
            } else {
                no_op(s)
            }
        },
        _ => no_op(s),
    }
}

/// The round timer forces an active round to end, reporting its scores.
pub open spec fn step_round_timer(s: StateV) -> TransitionV {
    match s.phase {
        PhaseV::Searching { round_scores, .. } => {
            let s2 = StateV { phase: PhaseV::RoundOver, ..s };
            TransitionV {
                state: s2,
                outcomes: seq![
                    OutcomeV::Broadcast(GameMessageV::RoundOver { scores: round_scores }),
                    snapshot_out(s2),
                ],
            }
        },
        _ => no_op(s),
    }
}

/// The one transition function: the next state and its outcomes are a pure
/// function of (prior state, event).
pub open spec fn step(s: StateV, ev: EventV) -> TransitionV {
    match ev {
        EventV::JoinPlayer(n) => step_join(s, n),
        EventV::LeavePlayer(n) => step_leave(s, n),
        EventV::RequestStart => step_request_start(s),
        EventV::TargetSelected(t) => step_target_selected(s, t),
        EventV::NoTargetAvailable => step_no_target(s),
        EventV::GuessJudged(n, c) => step_guess_judged(s, n, c),
        EventV::DifficultyTick(v) => step_difficulty_tick(s, v),
        EventV::RoundTimerElapsed => step_round_timer(s),
    }
}

/// No transition emits more than three outcomes.
pub proof fn lemma_step_outcomes_len(s: StateV, ev: EventV)
    ensures
        step(s, ev).outcomes.len() <= 3,
{
}

/// The state after a whole sequence of events.
pub open spec fn run(s: StateV, evs: Seq<EventV>) -> StateV
    decreases evs.len(),
{
    if evs.len() == 0 {
        s
    } else {
        run(step(s, evs[0]).state, evs.drop_first())
    }
}

/// An event the machine can apply.
#[derive(Debug)]
pub enum Event {
    JoinPlayer(Player),
    LeavePlayer(Player),
    RequestStart,
    TargetSelected(GameObject),
    NoTargetAvailable,
    GuessJudged(Player, bool),
    DifficultyTick(u32),
    RoundTimerElapsed,
}

impl View for Event {
    type V = EventV;

    open spec fn view(&self) -> EventV {
        match self {
            Event::JoinPlayer(p) => EventV::JoinPlayer(p@),
            Event::LeavePlayer(p) => EventV::LeavePlayer(p@),
            Event::RequestStart => EventV::RequestStart,
            Event::TargetSelected(t) => EventV::TargetSelected(t@),
            Event::NoTargetAvailable => EventV::NoTargetAvailable,
            Event::GuessJudged(p, c) => EventV::GuessJudged(p@, *c),
            Event::DifficultyTick(v) => EventV::DifficultyTick(*v),
            Event::RoundTimerElapsed => EventV::RoundTimerElapsed,
        }
    }
}

/// Something the machine emitted for delivery.
#[derive(Debug)]
pub enum Outcome {
    /// For every subscribed reader.
    Broadcast(GameMessage),
    /// For the one player it concerns.
    Direct(Player, GameMessage),
}

impl View for Outcome {
    type V = OutcomeV;

    open spec fn view(&self) -> OutcomeV {
        match self {
            Outcome::Broadcast(m) => OutcomeV::Broadcast(m@),
            Outcome::Direct(p, m) => OutcomeV::Direct(p@, m@),
        }
    }
}

/// The views of a list of outcomes.
pub open spec fn outcomes_view(s: Seq<Outcome>) -> Seq<OutcomeV> {
    s.map_values(|o: Outcome| o@)
}

/// A fresh session: empty roster, empty cumulative board, waiting to start.
pub open spec fn init_state(id: u128, settings: LobbySettings) -> StateV {
    StateV {
        id,
        players: Seq::empty(),
        settings,
        phase: PhaseV::WaitingForStart,
        total_scores: Seq::empty(),
    }
}

impl LobbyState {
    /// Creates a fresh session state.
    pub fn new(id: u128, settings: LobbySettings) -> (r: LobbyState)
        ensures
            r@ == init_state(id, settings),
            r@.wf(),
    {
        let r = LobbyState {
            id,
            players: Vec::new(),
            settings,
            phase: LobbyPhase::WaitingForStart,
            total_scores: Vec::new(),
        };
        proof {
            assert(r@ =~= init_state(id, settings));
        }
        r
    }

    /// Applies one event: the machine's single mutation path.  The new state
    /// and the emitted outcomes are exactly those of the specification-level
    /// transition function [`step`] — a pure function of (prior state,
    /// event) — so replaying a sequence of events is deterministic.
    pub fn apply(&mut self, event: Event) -> (out: Vec<Outcome>)
        requires
            old(self)@.wf(),
        ensures
            final(self)@ == step(old(self)@, event@).state,
            outcomes_view(out@) == step(old(self)@, event@).outcomes,
            final(self)@.wf(),
    {
        let ghost s0 = self@;
        let ghost ev = event@;
        proof {
            crate::laws::lemma_step_preserves_wf(s0, ev);
        }
        match event {
            Event::JoinPlayer(p) => {
                let ghost pname = p@;
                if players_contain(&self.players, &p.name) {
                    let out: Vec<Outcome> = Vec::new();
                    proof {
                        assert(outcomes_view(out@) =~= step(s0, ev).outcomes);
                    }
                    out
                } else {
                    let ghost t0 = self.total_scores@;
                    if !rows_has_key(&self.total_scores, &p.name) {
                        self.total_scores.push((p.clone(), 0));
                        proof {
                            assert(rows_view(self.total_scores@) =~= rows_view(t0).push(
                                (pname, 0u64),
                            ));
                        }
                    }
                    let ghost pv0 = self.players@;
                    self.players.push(p);
                    let snap = self.clone();
                    let mut out: Vec<Outcome> = Vec::new();
                    out.push(Outcome::Broadcast(GameMessage::GameState(snap)));
                    proof {
                        assert(names_view(self.players@) =~= names_view(pv0).push(pname));
                        assert(self@ =~= step(s0, ev).state);
                        assert(outcomes_view(out@) =~= step(s0, ev).outcomes);
                    }
                    out
                }
            },
            Event::LeavePlayer(p) => {
                let ghost pname = p@;
                if players_contain(&self.players, &p.name) {
                    remove_player(&mut self.players, &p.name);
                    let snap = self.clone();
                    let mut out: Vec<Outcome> = Vec::new();
                    out.push(Outcome::Broadcast(GameMessage::GameState(snap)));
                    proof {
                        assert(self@ =~= step(s0, ev).state);
                        assert(outcomes_view(out@) =~= step(s0, ev).outcomes);
                    }
                    out
                } else {
                    let out: Vec<Outcome> = Vec::new();
                    proof {
                        assert(outcomes_view(out@) =~= step(s0, ev).outcomes);
                    }
                    out
                }
            },
            Event::RequestStart => {
                let waiting = match &self.phase {
                    LobbyPhase::WaitingForStart => true,
                    _ => false,
                };
                if waiting && self.players.len() >= 1 {
                    self.phase = LobbyPhase::Countdown { remaining: COUNTDOWN_SECS };
                    let snap = self.clone();
                    let mut out: Vec<Outcome> = Vec::new();
                    out.push(Outcome::Broadcast(GameMessage::Countdown {
                        duration: COUNTDOWN_SECS,
                    }));
                    out.push(Outcome::Broadcast(GameMessage::GameState(snap)));
                    proof {
                        assert(s0.players.len() >= 1);
                        assert(self@ =~= step(s0, ev).state);
                        assert(outcomes_view(out@) =~= step(s0, ev).outcomes);
                    }
                    out
                } else {
                    let out: Vec<Outcome> = Vec::new();
                    proof {
                        assert(outcomes_view(out@) =~= step(s0, ev).outcomes);
                    }
                    out
                }
            },
            Event::TargetSelected(t) => {
                let eligible = match &self.phase {
                    LobbyPhase::Countdown { .. } => true,
                    LobbyPhase::RoundOver => true,
                    _ => false,
                };
                if eligible {
                    let t2 = t.clone();
                    self.phase = LobbyPhase::Searching {
                        target: t,
                        round_scores: Vec::new(),
                        difficulty: DIFFICULTY_START_TENTHS,
                    };
                    let snap = self.clone();
                    let mut out: Vec<Outcome> = Vec::new();
                    out.push(Outcome::Broadcast(GameMessage::NewRound { target: t2 }));
                    out.push(Outcome::Broadcast(GameMessage::GameState(snap)));
                    proof {
                        assert(rows_view(Seq::<(Player, u64)>::empty()) =~= Seq::<RowV>::empty());
                        assert(self@ =~= step(s0, ev).state);
                        assert(outcomes_view(out@) =~= step(s0, ev).outcomes);
                    }
                    out
                } else {
                    let out: Vec<Outcome> = Vec::new();
                    proof {
                        assert(outcomes_view(out@) =~= step(s0, ev).outcomes);
                    }
                    out
                }
            },
            Event::NoTargetAvailable => {
                let eligible = match &self.phase {
                    LobbyPhase::Countdown { .. } => true,
                    LobbyPhase::RoundOver => true,
                    _ => false,
                };
                if eligible {
                    self.phase = LobbyPhase::WaitingForStart;
                    let snap = self.clone();
                    let mut out: Vec<Outcome> = Vec::new();
                    out.push(Outcome::Broadcast(GameMessage::GameState(snap)));
                    proof {
                        assert(self@ =~= step(s0, ev).state);
                        assert(outcomes_view(out@) =~= step(s0, ev).outcomes);
                    }
                    out
                } else {
                    let out: Vec<Outcome> = Vec::new();
                    proof {
                        assert(outcomes_view(out@) =~= step(s0, ev).outcomes);
                    }
                    out
                }
            },
            Event::GuessJudged(p, correct) => {
                let ghost pname = p@;
                let round: Option<(GameObject, Vec<(Player, u64)>, u32)> = match &self.phase {
                    LobbyPhase::Searching { target, round_scores, difficulty } => Some(
                        (target.clone(), copy_rows(round_scores), *difficulty),
                    ),
                    _ => None,
                };
                match round {
                    None => {
                        let out: Vec<Outcome> = Vec::new();
                        proof {
                            assert(outcomes_view(out@) =~= step(s0, ev).outcomes);
                        }
                        out
                    },
                    Some((target2, scored, diff)) => {
                        let ghost scored0 = rows_view(scored@);
                        if !players_contain(&self.players, &p.name) || rows_has_key(
                            &scored,
                            &p.name,
                        ) {
                            let out: Vec<Outcome> = Vec::new();
                            proof {
                                assert(outcomes_view(out@) =~= step(s0, ev).outcomes);
                            }
                            out
                        } else if !correct {
                            let mut out: Vec<Outcome> = Vec::new();
                            out.push(Outcome::Direct(p, GameMessage::GuessResult {
                                correct: false,
                            }));
                            proof {
                                assert(outcomes_view(out@) =~= step(s0, ev).outcomes);
                            }
                            out
                        } else {
                            let pl: usize = self.players.len();
                            let sc: usize = scored.len();
                            let award: u64 = if pl > sc {
                                (pl - sc - 1) as u64
                            } else {
                                0
                            };
                            proof {
                                assert(award == award_for(s0.players.len(), scored0.len()));
                            }
                            rows_bump(&mut self.total_scores, &p.name, award);
                            let newpts = rows_points(&self.total_scores, &p.name);
                            if newpts >= self.settings.points_to_win {
                                let board = rows_sort_desc(&self.total_scores);
                                let board2 = copy_rows(&board);
                                self.phase = LobbyPhase::GameOver { leaderboard: board };
                                let snap = self.clone();
                                let mut out: Vec<Outcome> = Vec::new();
                                out.push(Outcome::Direct(p, GameMessage::GuessResult {
                                    correct: true,
                                }));
                                out.push(Outcome::Broadcast(GameMessage::GameOver {
                                    leaderboard: board2,
                                }));
                                out.push(Outcome::Broadcast(GameMessage::GameState(snap)));
                                proof {
                                    assert(self@ =~= step(s0, ev).state);
                                    assert(outcomes_view(out@) =~= step(s0, ev).outcomes);
                                }
                                out
                            } else {
                                let mut scored2 = scored;
                                scored2.push((p.clone(), award));
                                proof {
                                    assert(rows_view(scored2@) =~= scored0.push((pname, award)));
                                }
                                if scored2.len() >= self.settings.scorers_per_target {
                                    let scored3 = copy_rows(&scored2);
                                    self.phase = LobbyPhase::RoundOver;
                                    let snap = self.clone();
                                    let mut out: Vec<Outcome> = Vec::new();
                                    out.push(Outcome::Direct(p, GameMessage::GuessResult {
                                        correct: true,
                                    }));
                                    out.push(Outcome::Broadcast(GameMessage::RoundOver {
                                        scores: scored3,
                                    }));
                                    out.push(Outcome::Broadcast(GameMessage::GameState(snap)));
                                    proof {
                                        assert(self@ =~= step(s0, ev).state);
                                        assert(outcomes_view(out@) =~= step(s0, ev).outcomes);
                                    }
                                    out
                                } else {
                                    self.phase = LobbyPhase::Searching {
                                        target: target2,
                                        round_scores: scored2,
                                        difficulty: diff,
                                    };
                                    let snap = self.clone();
                                    let mut out: Vec<Outcome> = Vec::new();
                                    out.push(Outcome::Direct(p, GameMessage::GuessResult {
                                        correct: true,
                                    }));
                                    out.push(Outcome::Broadcast(GameMessage::GameState(snap)));
                                    proof {
                                        assert(self@ =~= step(s0, ev).state);
                                        assert(outcomes_view(out@) =~= step(s0, ev).outcomes);
                                    }
                                    out
                                }
                            }
                        }
                    },
                }
            },
            Event::DifficultyTick(v) => {
                let round: Option<(GameObject, Vec<(Player, u64)>, u32)> = match &self.phase {
                    LobbyPhase::Searching { target, round_scores, difficulty } => Some(
                        (target.clone(), copy_rows(round_scores), *difficulty),
                    ),
                    _ => None,
                };
                match round {
                    None => {
                        let out: Vec<Outcome> = Vec::new();
                        proof {
                            assert(outcomes_view(out@) =~= step(s0, ev).outcomes);
                        }
                        out
                    },
                    Some((target2, scored, diff)) => {
                        if DIFFICULTY_FLOOR_TENTHS <= v && v < diff {
                            self.phase = LobbyPhase::Searching {
                                target: target2,
                                round_scores: scored,
                                difficulty: v,
                            };
                            let mut out: Vec<Outcome> = Vec::new();
                            out.push(Outcome::Broadcast(GameMessage::UpdateImage {
                                difficulty: v,
                            }));
                            proof {
                                assert(self@ =~= step(s0, ev).state);
                                assert(outcomes_view(out@) =~= step(s0, ev).outcomes);
                            }
                            out
                        } else {
                            let out: Vec<Outcome> = Vec::new();
                            proof {
                                assert(self@ =~= step(s0, ev).state);
                                assert(outcomes_view(out@) =~= step(s0, ev).outcomes);
                            }
                            out
                        }
                    },
                }
            },
            Event::RoundTimerElapsed => {
                let round: Option<Vec<(Player, u64)>> = match &self.phase {
                    LobbyPhase::Searching { round_scores, .. } => Some(copy_rows(round_scores)),
                    _ => None,
                };
                match round {
                    None => {
                        let out: Vec<Outcome> = Vec::new();
                        proof {
                            assert(outcomes_view(out@) =~= step(s0, ev).outcomes);
                        }
                        out
                    },
                    Some(scored) => {
                        self.phase = LobbyPhase::RoundOver;
                        let snap = self.clone();
                        let mut out: Vec<Outcome> = Vec::new();
                        out.push(Outcome::Broadcast(GameMessage::RoundOver { scores: scored }));
                        out.push(Outcome::Broadcast(GameMessage::GameState(snap)));
                        proof {
                            assert(self@ =~= step(s0, ev).state);
                            assert(outcomes_view(out@) =~= step(s0, ev).outcomes);
                        }
                        out
                    },
                }
            },
        }
    }
}

} // verus!
