//! The round scheduler's decisions.
//!
//! The scheduler owns the session's wall-clock cadence: countdown expiry,
//! round duration, the round-over pause, and the periodic difficulty decay.
//! The waits themselves are plain timers in the embedding; every decision —
//! how long to wait in a phase, what a fired timer means, what the next
//! decay value is — is a pure function here.  A timer's meaning is decided
//! against the phase current when it fires, never against the phase it was
//! scheduled in, which closes the race where a stale timer could act after
//! its round already ended; cancelled-too-late timers thereby become
//! no-ops.

use vstd::prelude::*;
use crate::machine::Event;
use crate::models::{
    LobbyPhase, LobbyState, PhaseV, DIFFICULTY_FLOOR_TENTHS, ROUND_OVER_DELAY_SECS, ROUND_SECS,
};

verus! {

/// What a fired phase timer asks the orchestrator to do.
#[derive(PartialEq, Eq, Structural, Clone, Copy, Debug)]
pub enum TimerAction {
    /// Ask the catalog sampler for a target (countdown expired, or the
    /// round-over pause ended): its answer comes back as
    /// `TargetSelected` or `NoTargetAvailable`.
    SampleTarget,
    /// Inject `RoundTimerElapsed`: the active round ran out of time.
    EndRound,
    /// The phase has no timer; a timer that still fired is stale.
    Idle,
}

/// How long the session's phase timer should wait in this phase, if the
/// phase has one.
pub fn phase_timer_secs(phase: &LobbyPhase) -> (r: Option<u64>)
    ensures
        r == match phase@ {
            PhaseV::Countdown { remaining } => Some(remaining),
            PhaseV::Searching { .. } => Some(ROUND_SECS),
            PhaseV::RoundOver => Some(ROUND_OVER_DELAY_SECS),
            _ => None::<u64>,
        },
{
    match phase {
        LobbyPhase::Countdown { remaining } => Some(*remaining),
        LobbyPhase::Searching { .. } => Some(ROUND_SECS),
        LobbyPhase::RoundOver => Some(ROUND_OVER_DELAY_SECS),
        _ => None,
    }
}

/// What a fired phase timer means under the phase current at firing time.
pub fn after_phase_timer(phase: &LobbyPhase) -> (r: TimerAction)
    ensures
        r == match phase@ {
            PhaseV::Countdown { .. } => TimerAction::SampleTarget,
            PhaseV::Searching { .. } => TimerAction::EndRound,
            PhaseV::RoundOver => TimerAction::SampleTarget,
            _ => TimerAction::Idle,
        },
{
    match phase {
        LobbyPhase::Countdown { .. } => TimerAction::SampleTarget,
        LobbyPhase::Searching { .. } => TimerAction::EndRound,
        LobbyPhase::RoundOver => TimerAction::SampleTarget,
        _ => TimerAction::Idle,
    }
}

/// The next decay value: one tenth down, never below the floor.  `None`
/// at the floor — no further decay is scheduled, and the round stays open
/// until its scorer count or its timer ends it.
pub fn next_difficulty(d: u32) -> (r: Option<u32>)
    ensures
        d > DIFFICULTY_FLOOR_TENTHS ==> r == Some((d - 1) as u32),
        d <= DIFFICULTY_FLOOR_TENTHS ==> r is None,
{
    if d > DIFFICULTY_FLOOR_TENTHS {
        Some(d - 1)
    } else {
        None
    }
}

/// What a fired decay tick means under the phase current at firing time:
/// a `DifficultyTick` one tenth down while a round is running above the
/// floor, nothing otherwise.
pub fn decay_event(phase: &LobbyPhase) -> (r: Option<Event>)
    ensures
        match phase@ {
            PhaseV::Searching { difficulty, .. } => {
                if difficulty > DIFFICULTY_FLOOR_TENTHS {
                    r matches Some(ev) && ev@ == crate::machine::EventV::DifficultyTick(
                        (difficulty - 1) as u32,
                    )
                } else {
                    r is None
                }
            },
            _ => r is None,
        },
{
    match phase {
        LobbyPhase::Searching { difficulty, .. } => {
            match next_difficulty(*difficulty) {
                Some(v) => Some(Event::DifficultyTick(v)),
                None => None,
            }
        },
        _ => None,
    }
}

/// Whether the session should be torn down: nobody is left in it.  On
/// teardown the embedding cancels the session's timers and releases its
/// hub; this is the one decision that drives it.
pub fn should_teardown(state: &LobbyState) -> (r: bool)
    ensures
        r == (state@.players.len() == 0),
{
    state.players.len() == 0
}

} // verus!
