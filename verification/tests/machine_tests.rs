use georacer_server::machine::{Event, Outcome};
use georacer_server::models::{
    GameMessage, GameObject, LobbyPhase, LobbySettings, LobbyState, Player,
};

fn player(name: &str) -> Player {
    Player { name: name.to_string() }
}

fn target(name: &str) -> GameObject {
    GameObject { name: name.to_string(), image_b64: "aW1n".to_string() }
}

fn settings(points_to_win: u64, scorers_per_target: usize) -> LobbySettings {
    LobbySettings { points_to_win, scorers_per_target }
}

/// A lobby with the given players joined, still waiting to start.
fn lobby_with_players(names: &[&str], s: LobbySettings) -> LobbyState {
    let mut st = LobbyState::new(7, s);
    for n in names {
        st.apply(Event::JoinPlayer(player(n)));
    }
    st
}

/// A lobby mid-round: started, counted down, target selected.
fn lobby_in_round(names: &[&str], s: LobbySettings) -> LobbyState {
    let mut st = lobby_with_players(names, s);
    st.apply(Event::RequestStart);
    st.apply(Event::TargetSelected(target("fountain")));
    st
}

fn total_of(st: &LobbyState, name: &str) -> u64 {
    for (p, pts) in &st.total_scores {
        if p.name == name {
            return *pts;
        }
    }
    0
}

#[test]
fn joining_twice_keeps_one_entry() {
    let mut st = lobby_with_players(&["ana"], settings(10, 2));
    st.apply(Event::JoinPlayer(player("ana")));
    assert_eq!(st.players.len(), 1);
    assert_eq!(st.players[0].name, "ana");
    // one cumulative row as well
    assert_eq!(st.total_scores.len(), 1);
}

#[test]
fn leaving_nonmember_is_noop() {
    let mut st = lobby_with_players(&["ana", "bo"], settings(10, 2));
    let out = st.apply(Event::LeavePlayer(player("zed")));
    assert!(out.is_empty());
    assert_eq!(st.players.len(), 2);
}

#[test]
fn rejoining_after_leave_keeps_score() {
    let mut st = lobby_in_round(&["ana", "bo", "cy", "dee"], settings(100, 3));
    st.apply(Event::GuessJudged(player("ana"), true));
    assert_eq!(total_of(&st, "ana"), 3);
    st.apply(Event::LeavePlayer(player("ana")));
    st.apply(Event::JoinPlayer(player("ana")));
    assert_eq!(total_of(&st, "ana"), 3);
    assert_eq!(st.players.len(), 4);
}

#[test]
fn start_needs_a_player() {
    let mut st = LobbyState::new(7, settings(10, 2));
    let out = st.apply(Event::RequestStart);
    assert!(out.is_empty());
    assert!(matches!(st.phase, LobbyPhase::WaitingForStart));
}

#[test]
fn start_with_players_counts_down() {
    let mut st = lobby_with_players(&["ana"], settings(10, 2));
    let out = st.apply(Event::RequestStart);
    assert!(matches!(st.phase, LobbyPhase::Countdown { remaining: 3 }));
    assert!(out.iter().any(|o| matches!(
        o,
        Outcome::Broadcast(GameMessage::Countdown { duration: 3 })
    )));
}

#[test]
fn target_selection_opens_a_round() {
    let mut st = lobby_with_players(&["ana"], settings(10, 2));
    st.apply(Event::RequestStart);
    let out = st.apply(Event::TargetSelected(target("fountain")));
    match &st.phase {
        LobbyPhase::Searching { target, round_scores, difficulty } => {
            assert_eq!(target.name, "fountain");
            assert!(round_scores.is_empty());
            assert_eq!(*difficulty, 10);
        }
        other => panic!("expected Searching, got {other:?}"),
    }
    assert!(out.iter().any(|o| matches!(
        o,
        Outcome::Broadcast(GameMessage::NewRound { .. })
    )));
}

#[test]
fn empty_catalog_returns_to_waiting() {
    let mut st = lobby_with_players(&["ana"], settings(10, 2));
    st.apply(Event::RequestStart);
    let out = st.apply(Event::NoTargetAvailable);
    assert!(matches!(st.phase, LobbyPhase::WaitingForStart));
    assert_eq!(out.len(), 1);
}

#[test]
fn scoring_rewards_earlier_finishers_and_fills_the_round() {
    // four players, two scorers end the round
    let mut st = lobby_in_round(&["ana", "bo", "cy", "dee"], settings(100, 2));
    let out_a = st.apply(Event::GuessJudged(player("ana"), true));
    // first correct guesser: 4 - 0 - 1 = 3 points
    assert_eq!(total_of(&st, "ana"), 3);
    assert!(matches!(st.phase, LobbyPhase::Searching { .. }));
    assert!(out_a.iter().any(|o| matches!(
        o,
        Outcome::Direct(p, GameMessage::GuessResult { correct: true }) if p.name == "ana"
    )));

    let out_b = st.apply(Event::GuessJudged(player("bo"), true));
    // second correct guesser: 4 - 1 - 1 = 2 points
    assert_eq!(total_of(&st, "bo"), 2);
    // the scorer count reached two: the round is over at once
    assert!(matches!(st.phase, LobbyPhase::RoundOver));
    assert!(out_b.iter().any(|o| matches!(
        o,
        Outcome::Broadcast(GameMessage::RoundOver { .. })
    )));
}

#[test]
fn wrong_guess_answers_only_the_guesser() {
    let mut st = lobby_in_round(&["ana", "bo"], settings(10, 2));
    let out = st.apply(Event::GuessJudged(player("ana"), false));
    assert_eq!(out.len(), 1);
    assert!(matches!(
        &out[0],
        Outcome::Direct(p, GameMessage::GuessResult { correct: false }) if p.name == "ana"
    ));
    assert!(matches!(st.phase, LobbyPhase::Searching { .. }));
    assert_eq!(total_of(&st, "ana"), 0);
}

#[test]
fn nobody_scores_twice_in_one_round() {
    let mut st = lobby_in_round(&["ana", "bo", "cy"], settings(100, 3));
    st.apply(Event::GuessJudged(player("ana"), true));
    assert_eq!(total_of(&st, "ana"), 2);
    let out = st.apply(Event::GuessJudged(player("ana"), true));
    assert!(out.is_empty());
    assert_eq!(total_of(&st, "ana"), 2);
}

#[test]
fn crossing_the_winning_total_ends_the_game() {
    // round one: ana scores 3 (of four players), cy scores 2, round over
    let mut st = lobby_in_round(&["ana", "bo", "cy", "dee"], settings(5, 2));
    st.apply(Event::GuessJudged(player("ana"), true));
    st.apply(Event::GuessJudged(player("cy"), true));
    assert!(matches!(st.phase, LobbyPhase::RoundOver));
    assert_eq!(total_of(&st, "ana"), 3);

    // round two: bo scores 3, then ana's 2 carry her from 3 to 5: game over
    st.apply(Event::TargetSelected(target("statue")));
    st.apply(Event::GuessJudged(player("bo"), true));
    let out = st.apply(Event::GuessJudged(player("ana"), true));
    assert_eq!(total_of(&st, "ana"), 5);
    match &st.phase {
        LobbyPhase::GameOver { leaderboard } => {
            let names: Vec<&str> = leaderboard.iter().map(|e| e.0.name.as_str()).collect();
            let points: Vec<u64> = leaderboard.iter().map(|e| e.1).collect();
            assert_eq!(names, ["ana", "bo", "cy", "dee"]);
            assert_eq!(points, [5, 3, 2, 0]);
        }
        other => panic!("expected GameOver, got {other:?}"),
    }
    assert!(out.iter().any(|o| matches!(
        o,
        Outcome::Broadcast(GameMessage::GameOver { .. })
    )));
}

#[test]
fn leaderboard_breaks_ties_by_join_order() {
    // ana wins at once; bo, cy and dee are tied at zero in join order
    let mut st = lobby_in_round(&["ana", "bo", "cy", "dee"], settings(3, 2));
    st.apply(Event::GuessJudged(player("ana"), true));
    match &st.phase {
        LobbyPhase::GameOver { leaderboard } => {
            let names: Vec<&str> = leaderboard.iter().map(|e| e.0.name.as_str()).collect();
            assert_eq!(names, ["ana", "bo", "cy", "dee"]);
        }
        other => panic!("expected GameOver, got {other:?}"),
    }
}

#[test]
fn game_over_accepts_no_further_play() {
    let mut st = lobby_in_round(&["ana", "bo"], settings(1, 2));
    st.apply(Event::GuessJudged(player("ana"), true));
    assert!(matches!(st.phase, LobbyPhase::GameOver { .. }));
    let out = st.apply(Event::GuessJudged(player("bo"), true));
    assert!(out.is_empty());
    let out = st.apply(Event::RequestStart);
    assert!(out.is_empty());
    assert!(matches!(st.phase, LobbyPhase::GameOver { .. }));
}

#[test]
fn round_timer_forces_round_over() {
    let mut st = lobby_in_round(&["ana", "bo"], settings(10, 2));
    st.apply(Event::GuessJudged(player("ana"), true));
    let out = st.apply(Event::RoundTimerElapsed);
    assert!(matches!(st.phase, LobbyPhase::RoundOver));
    // the round's scores ride along on the round-over broadcast
    let reported = out.iter().find_map(|o| match o {
        Outcome::Broadcast(GameMessage::RoundOver { scores }) => Some(scores),
        _ => None,
    });
    let reported = reported.expect("round-over broadcast");
    assert_eq!(reported.len(), 1);
    assert_eq!(reported[0].0.name, "ana");
    assert_eq!(reported[0].1, 1);
}

#[test]
fn stale_events_are_noops() {
    let mut st = lobby_with_players(&["ana"], settings(10, 2));
    assert!(st.apply(Event::RoundTimerElapsed).is_empty());
    assert!(st.apply(Event::DifficultyTick(5)).is_empty());
    assert!(st.apply(Event::TargetSelected(target("x"))).is_empty());
    assert!(st.apply(Event::GuessJudged(player("ana"), true)).is_empty());
    assert!(matches!(st.phase, LobbyPhase::WaitingForStart));
}

#[test]
fn guesses_from_departed_players_are_noops() {
    let mut st = lobby_in_round(&["ana", "bo"], settings(10, 2));
    st.apply(Event::LeavePlayer(player("bo")));
    let out = st.apply(Event::GuessJudged(player("bo"), true));
    assert!(out.is_empty());
    assert_eq!(total_of(&st, "bo"), 0);
}

#[test]
fn disconnect_mid_round_changes_nothing_for_the_rest() {
    let mut st = lobby_in_round(&["ana", "bo", "cy"], settings(100, 3));
    st.apply(Event::GuessJudged(player("ana"), true));
    let before = total_of(&st, "ana");
    st.apply(Event::LeavePlayer(player("cy")));
    assert!(matches!(st.phase, LobbyPhase::Searching { .. }));
    assert_eq!(total_of(&st, "ana"), before);
    assert_eq!(st.players.len(), 2);
    // the departed player's cumulative row survives for the leaderboard
    assert!(st.total_scores.iter().any(|e| e.0.name == "cy"));
}

#[test]
fn cumulative_scores_never_decrease() {
    let mut st = lobby_with_players(&["ana", "bo", "cy"], settings(100, 2));
    let events = vec![
        Event::RequestStart,
        Event::TargetSelected(target("fountain")),
        Event::GuessJudged(player("ana"), true),
        Event::GuessJudged(player("bo"), false),
        Event::LeavePlayer(player("cy")),
        Event::GuessJudged(player("bo"), true),
        Event::TargetSelected(target("statue")),
        Event::JoinPlayer(player("cy")),
        Event::RoundTimerElapsed,
    ];
    let mut floor: Vec<(String, u64)> = Vec::new();
    for ev in events {
        st.apply(ev);
        for (p, pts) in &st.total_scores {
            match floor.iter_mut().find(|e| e.0 == p.name) {
                Some(entry) => {
                    assert!(*pts >= entry.1, "{}'s total went down", p.name);
                    entry.1 = *pts;
                }
                None => floor.push((p.name.clone(), *pts)),
            }
        }
    }
}

#[test]
fn replaying_a_sequence_is_deterministic() {
    let events = || {
        vec![
            Event::JoinPlayer(player("ana")),
            Event::JoinPlayer(player("bo")),
            Event::RequestStart,
            Event::TargetSelected(target("fountain")),
            Event::GuessJudged(player("ana"), false),
            Event::DifficultyTick(9),
            Event::GuessJudged(player("bo"), true),
            Event::RoundTimerElapsed,
        ]
    };
    let mut st1 = LobbyState::new(7, settings(10, 2));
    let mut st2 = LobbyState::new(7, settings(10, 2));
    for ev in events() {
        st1.apply(ev);
    }
    for ev in events() {
        st2.apply(ev);
    }
    assert_eq!(st1.players.len(), st2.players.len());
    for (p, q) in st1.players.iter().zip(st2.players.iter()) {
        assert_eq!(p.name, q.name);
    }
    assert_eq!(st1.total_scores.len(), st2.total_scores.len());
    for (a, b) in st1.total_scores.iter().zip(st2.total_scores.iter()) {
        assert_eq!(a.0.name, b.0.name);
        assert_eq!(a.1, b.1);
    }
    assert!(matches!(st1.phase, LobbyPhase::RoundOver));
    assert!(matches!(st2.phase, LobbyPhase::RoundOver));
}
