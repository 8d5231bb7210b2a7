use georacer_server::machine::Event;
use georacer_server::models::{
    GameMessage, GameObject, LobbyPhase, LobbySettings, LobbyState, Player,
};
use georacer_server::session::{Lobby, SessionTable};

fn player(name: &str) -> Player {
    Player { name: name.to_string() }
}

fn settings() -> LobbySettings {
    LobbySettings { points_to_win: 100, scorers_per_target: 2 }
}

fn target() -> GameObject {
    GameObject { name: "fountain".to_string(), image_b64: "aW1n".to_string() }
}

#[test]
fn every_mutation_is_broadcast_through_the_hub() {
    let mut lobby = Lobby::new(LobbyState::new(1, settings()));
    let mut r = lobby.hub.subscribe();
    lobby.add_player(player("ana"));
    // a join broadcasts the authoritative snapshot
    match lobby.hub.poll(&mut r) {
        Some(GameMessage::GameState(snap)) => {
            assert_eq!(snap.players.len(), 1);
            assert_eq!(snap.players[0].name, "ana");
        }
        other => panic!("expected a snapshot, got {other:?}"),
    }
    assert!(lobby.hub.poll(&mut r).is_none());

    lobby.start_game();
    // a start broadcasts the countdown, then the snapshot
    assert!(matches!(
        lobby.hub.poll(&mut r),
        Some(GameMessage::Countdown { duration: 3 })
    ));
    assert!(matches!(lobby.hub.poll(&mut r), Some(GameMessage::GameState(_))));
    assert!(lobby.hub.poll(&mut r).is_none());
}

#[test]
fn wrong_guesses_are_delivered_directly_not_broadcast() {
    let mut lobby = Lobby::new(LobbyState::new(1, settings()));
    lobby.add_player(player("ana"));
    lobby.start_game();
    lobby.handle(Event::TargetSelected(target()));
    let mut r = lobby.hub.subscribe();
    let direct = lobby.handle(Event::GuessJudged(player("ana"), false));
    assert_eq!(direct.len(), 1);
    assert_eq!(direct[0].0.name, "ana");
    assert!(matches!(direct[0].1, GameMessage::GuessResult { correct: false }));
    // nothing went out to the room
    assert!(lobby.hub.poll(&mut r).is_none());
}

#[test]
fn guess_pending_gates_the_oracle_call() {
    let mut lobby = Lobby::new(LobbyState::new(1, settings()));
    lobby.add_player(player("ana"));
    lobby.add_player(player("bo"));
    // no round yet: nothing to judge
    assert!(!lobby.guess_pending(&"ana".to_string()));
    lobby.start_game();
    lobby.handle(Event::TargetSelected(target()));
    assert!(lobby.guess_pending(&"ana".to_string()));
    // an outsider's guess is not judged
    assert!(!lobby.guess_pending(&"zed".to_string()));
    // a player who scored this round is done judging
    lobby.handle(Event::GuessJudged(player("ana"), true));
    assert!(!lobby.guess_pending(&"ana".to_string()));
    assert!(lobby.guess_pending(&"bo".to_string()));
}

#[test]
fn sessions_are_created_found_and_torn_down() {
    let mut table = SessionTable::new();
    let id = table.create_session(settings()).expect("fresh identifier");
    let other = table.create_session(settings()).expect("fresh identifier");
    assert_ne!(id, other);
    assert!(table.find(id).is_some());
    assert!(table.find(other).is_some());

    assert!(table.remove_session(id));
    assert!(table.find(id).is_none());
    assert!(!table.remove_session(id));
    assert!(table.find(other).is_some());
}

#[test]
fn events_are_routed_to_their_session_alone() {
    let mut table = SessionTable::new();
    let a = table.create_session(settings()).unwrap();
    let b = table.create_session(settings()).unwrap();

    table.handle_event(a, Event::JoinPlayer(player("ana")));
    table.handle_event(b, Event::JoinPlayer(player("bo")));

    let ia = table.find(a).unwrap();
    let ib = table.find(b).unwrap();
    assert_eq!(table.lobbies[ia].state.players.len(), 1);
    assert_eq!(table.lobbies[ia].state.players[0].name, "ana");
    assert_eq!(table.lobbies[ib].state.players.len(), 1);
    assert_eq!(table.lobbies[ib].state.players[0].name, "bo");
}

#[test]
fn events_for_unknown_sessions_are_refused() {
    let mut table = SessionTable::new();
    let id = table.create_session(settings()).unwrap();
    assert!(table.handle_event(id.wrapping_add(1), Event::RequestStart).is_none());
    assert!(table.handle_event(id, Event::RequestStart).is_some());
}

#[test]
fn duplicate_identifiers_are_refused() {
    let mut table = SessionTable::new();
    assert!(table.create_with_id(42, settings()));
    assert!(!table.create_with_id(42, settings()));
    assert_eq!(table.lobbies.len(), 1);
}
