use georacer_server::machine::Event;
use georacer_server::models::{GameObject, LobbyPhase, LobbySettings, LobbyState, Player};
use georacer_server::scheduler::{
    after_phase_timer, decay_event, next_difficulty, phase_timer_secs, should_teardown,
    TimerAction,
};

fn player(name: &str) -> Player {
    Player { name: name.to_string() }
}

fn lobby_in_round() -> LobbyState {
    let mut st = LobbyState::new(9, LobbySettings { points_to_win: 100, scorers_per_target: 2 });
    st.apply(Event::JoinPlayer(player("ana")));
    st.apply(Event::JoinPlayer(player("bo")));
    st.apply(Event::RequestStart);
    st.apply(Event::TargetSelected(GameObject {
        name: "fountain".to_string(),
        image_b64: "aW1n".to_string(),
    }));
    st
}

fn difficulty_of(st: &LobbyState) -> u32 {
    match &st.phase {
        LobbyPhase::Searching { difficulty, .. } => *difficulty,
        other => panic!("expected Searching, got {other:?}"),
    }
}

#[test]
fn decay_reaches_the_floor_in_nine_ticks_and_stops() {
    // difficulty starts at 10 tenths (1.0) and steps down one tenth a tick
    let mut st = lobby_in_round();
    assert_eq!(difficulty_of(&st), 10);
    let mut ticks: u32 = 0;
    while let Some(ev) = decay_event(&st.phase) {
        st.apply(ev);
        ticks += 1;
        assert!(ticks <= 9, "decay must stop at the floor");
    }
    assert_eq!(ticks, 9);
    // at the floor (one tenth, 0.1), no further tick is scheduled
    assert_eq!(difficulty_of(&st), 1);
    assert!(decay_event(&st.phase).is_none());
    // and the round stays open
    assert!(matches!(st.phase, LobbyPhase::Searching { .. }));
}

#[test]
fn next_difficulty_steps_down_to_the_floor_only() {
    assert_eq!(next_difficulty(10), Some(9));
    assert_eq!(next_difficulty(2), Some(1));
    assert_eq!(next_difficulty(1), None);
    assert_eq!(next_difficulty(0), None);
}

#[test]
fn a_tick_below_the_floor_is_refused() {
    let mut st = lobby_in_round();
    let out = st.apply(Event::DifficultyTick(0));
    assert!(out.is_empty());
    assert_eq!(difficulty_of(&st), 10);
}

#[test]
fn a_stale_tick_never_raises_difficulty() {
    let mut st = lobby_in_round();
    st.apply(Event::DifficultyTick(4));
    assert_eq!(difficulty_of(&st), 4);
    let out = st.apply(Event::DifficultyTick(7));
    assert!(out.is_empty());
    assert_eq!(difficulty_of(&st), 4);
}

#[test]
fn phase_timers_match_the_phase() {
    let mut st = LobbyState::new(9, LobbySettings { points_to_win: 100, scorers_per_target: 2 });
    assert_eq!(phase_timer_secs(&st.phase), None);
    assert!(matches!(after_phase_timer(&st.phase), TimerAction::Idle));

    st.apply(Event::JoinPlayer(player("ana")));
    st.apply(Event::RequestStart);
    assert_eq!(phase_timer_secs(&st.phase), Some(3));
    assert!(matches!(after_phase_timer(&st.phase), TimerAction::SampleTarget));

    st.apply(Event::TargetSelected(GameObject {
        name: "fountain".to_string(),
        image_b64: "aW1n".to_string(),
    }));
    assert_eq!(phase_timer_secs(&st.phase), Some(60));
    assert!(matches!(after_phase_timer(&st.phase), TimerAction::EndRound));

    st.apply(Event::RoundTimerElapsed);
    assert_eq!(phase_timer_secs(&st.phase), Some(2));
    assert!(matches!(after_phase_timer(&st.phase), TimerAction::SampleTarget));
}

#[test]
fn removing_the_last_player_asks_for_teardown() {
    let mut st = lobby_in_round();
    assert!(!should_teardown(&st));
    st.apply(Event::LeavePlayer(player("ana")));
    assert!(!should_teardown(&st));
    st.apply(Event::LeavePlayer(player("bo")));
    assert!(should_teardown(&st));
}
