//! The data model of a game session: players, game objects, settings, the
//! phase of a session, the session state itself, and the wire messages.
//!
//! Scores and the reveal difficulty are fixed-point quantities: points are
//! whole `u64` units, and difficulty is counted in tenths, from
//! [`DIFFICULTY_START_TENTHS`] (fully hidden, 1.0) down to
//! [`DIFFICULTY_FLOOR_TENTHS`] (0.1), below which it never goes.

use vstd::prelude::*;
use crate::scores::{RowV, copy_rows, has_key, remove_name, unique_keys, unique_names};

verus! {

/// Seconds of pre-round countdown after a start request.
pub const COUNTDOWN_SECS: u64 = 3;

/// Seconds an active round lasts before it is forced to end.
pub const ROUND_SECS: u64 = 60;

/// Seconds between two difficulty decay ticks.
pub const DECAY_PERIOD_SECS: u64 = 3;

/// Seconds of pause in `RoundOver` before the next round is set up.
pub const ROUND_OVER_DELAY_SECS: u64 = 2;

/// Difficulty at round start, in tenths: 10 tenths = fully hidden.
pub const DIFFICULTY_START_TENTHS: u32 = 10;

/// The floor of the difficulty decay, in tenths; it never goes lower.
pub const DIFFICULTY_FLOOR_TENTHS: u32 = 1;

/// A participant, identified by a display name unique within a session.
#[derive(Debug)]
pub struct Player {
    pub name: String,
}

impl View for Player {
    type V = Seq<char>;

    open spec fn view(&self) -> Seq<char> {
        self.name@
    }
}

impl Clone for Player {
    fn clone(&self) -> (r: Self)
        ensures
            r == *self,
    {
        Player { name: self.name.clone() }
    }
}

/// A catalog object that a round can be played against.  Immutable once
/// created; sampled at random to become a round's target.
#[derive(Debug)]
pub struct GameObject {
    pub name: String,
    pub image_b64: String,
}

/// The specification-level value of a [`GameObject`].
#[verifier::ext_equal]
pub ghost struct GameObjectV {
    pub name: Seq<char>,
    pub image_b64: Seq<char>,
}

impl View for GameObject {
    type V = GameObjectV;

    open spec fn view(&self) -> GameObjectV {
        GameObjectV { name: self.name@, image_b64: self.image_b64@ }
    }
}

impl Clone for GameObject {
    fn clone(&self) -> (r: Self)
        ensures
            r == *self,
    {
        GameObject { name: self.name.clone(), image_b64: self.image_b64.clone() }
    }
}

/// A stored image, as raw bytes.
#[derive(Debug)]
pub struct GameObjectImage {
    pub image_data: Vec<u8>,
}

/// A request to add an object to the catalog.
#[derive(Debug)]
pub struct NewObject {
    pub name: String,
    pub image: String,
}

/// The per-session settings chosen at creation.
#[derive(Debug, Clone, Copy)]
pub struct LobbySettings {
    /// Cumulative points at which a player wins the game.
    pub points_to_win: u64,
    /// How many distinct correct guessers end a round early.
    pub scorers_per_target: usize,
}

/// A command a connected client can send.
#[derive(Debug)]
pub enum ClientMessage {
    StartGame,
    SubmitGuess { image_b64: String },
}

/// A guess handed in by one player.
#[derive(Debug)]
pub struct Submission {
    pub player: Player,
    pub image_b64: String,
}

/// Whether a guesser is getting closer to the target.
#[derive(Debug, Clone, Copy)]
pub enum ProximityStatus {
    Hotter,
    Colder,
}

/// The lifecycle stage of a session.  Exactly one variant is active at any
/// time, and every transition goes through the machine's single `apply` path.
#[derive(Debug)]
pub enum LobbyPhase {
    /// Initial state: no target, no timer.
    WaitingForStart,
    /// Fixed pre-round delay before target selection.
    Countdown { remaining: u64 },
    /// Active round.
    Searching {
        /// What the players are looking for.
        target: GameObject,
        /// Who has scored this round, in scoring order.
        round_scores: Vec<(Player, u64)>,
        /// Reveal difficulty in tenths; decays while the round runs.
        difficulty: u32,
    },
    /// Round scored; brief pause before the next round is set up.
    RoundOver,
    /// Terminal: the game is decided.
    GameOver {
        /// Players and cumulative points, descending, ties in join order.
        leaderboard: Vec<(Player, u64)>,
    },
}

/// The specification-level value of a [`LobbyPhase`].
#[verifier::ext_equal]
pub ghost enum PhaseV {
    WaitingForStart,
    Countdown { remaining: u64 },
    Searching { target: GameObjectV, round_scores: Seq<RowV>, difficulty: u32 },
    RoundOver,
    GameOver { leaderboard: Seq<RowV> },
}

/// The name-and-points view of a row list.
pub open spec fn rows_view(s: Seq<(Player, u64)>) -> Seq<RowV> {
    s.map_values(|e: (Player, u64)| (e.0.name@, e.1))
}

/// The names of a player list.
pub open spec fn names_view(s: Seq<Player>) -> Seq<Seq<char>> {
    s.map_values(|p: Player| p.name@)
}

impl View for LobbyPhase {
    type V = PhaseV;

    open spec fn view(&self) -> PhaseV {
        match self {
            LobbyPhase::WaitingForStart => PhaseV::WaitingForStart,
            LobbyPhase::Countdown { remaining } => PhaseV::Countdown { remaining: *remaining },
            LobbyPhase::Searching { target, round_scores, difficulty } => PhaseV::Searching {
                target: target@,
                round_scores: rows_view(round_scores@),
                difficulty: *difficulty,
            },
            LobbyPhase::RoundOver => PhaseV::RoundOver,
            LobbyPhase::GameOver { leaderboard } => PhaseV::GameOver {
                leaderboard: rows_view(leaderboard@),
            },
        }
    }
}

/// The canonical state of one session.
#[derive(Debug)]
pub struct LobbyState {
    /// Stable identity of the session.
    pub id: u128,
    /// Current participants, in join order, unique by name.
    pub players: Vec<Player>,
    /// Settings fixed at creation.
    pub settings: LobbySettings,
    /// The active lifecycle stage.
    pub phase: LobbyPhase,
    /// Cumulative points, one row per player ever joined, in join order.
    /// Rows survive a player's departure, preserving leaderboard history.
    pub total_scores: Vec<(Player, u64)>,
}

/// The specification-level value of a [`LobbyState`].
#[verifier::ext_equal]
pub ghost struct StateV {
    pub id: u128,
    pub players: Seq<Seq<char>>,
    pub settings: LobbySettings,
    pub phase: PhaseV,
    pub total_scores: Seq<RowV>,
}

impl View for LobbyState {
    type V = StateV;

    open spec fn view(&self) -> StateV {
        StateV {
            id: self.id,
            players: names_view(self.players@),
            settings: self.settings,
            phase: self.phase@,
            total_scores: rows_view(self.total_scores@),
        }
    }
}

impl StateV {
    /// Well-formedness of a session state: player names are unique, the
    /// cumulative board has one row per name, every current player has a
    /// row, at most one round-score row per player, and the difficulty
    /// stays between its floor and its start value.
    pub open spec fn wf(self) -> bool {
        &&& unique_names(self.players)
        &&& unique_keys(self.total_scores)
        &&& forall|i: int|
            0 <= i < self.players.len() ==> has_key(self.total_scores, #[trigger] self.players[i])
        &&& match self.phase {
            PhaseV::Searching { round_scores, difficulty, .. } => {
                &&& unique_keys(round_scores)
                &&& DIFFICULTY_FLOOR_TENTHS <= difficulty <= DIFFICULTY_START_TENTHS
            },
            _ => true,
        }
    }
}

/// A message pushed to clients.
#[derive(Debug)]
pub enum GameMessage {
    /// Authoritative full snapshot of the session.
    GameState(LobbyState),
    Error(String),
    /// Pre-round countdown started.
    Countdown { duration: u64 },
    /// A new round began against this target.
    NewRound { target: GameObject },
    /// The reveal difficulty decayed, in tenths.
    UpdateImage { difficulty: u32 },
    ProximityUpdate { status: ProximityStatus },
    /// Whether a submitted guess was judged correct.
    GuessResult { correct: bool },
    /// A round ended, with its scores.
    RoundOver { scores: Vec<(Player, u64)> },
    /// The game ended, with the final standings.
    GameOver { leaderboard: Vec<(Player, u64)> },
}

/// The specification-level value of a [`GameMessage`].
#[verifier::ext_equal]
pub ghost enum GameMessageV {
    GameState(StateV),
    Error(Seq<char>),
    Countdown { duration: u64 },
    NewRound { target: GameObjectV },
    UpdateImage { difficulty: u32 },
    ProximityUpdate { status: ProximityStatus },
    GuessResult { correct: bool },
    RoundOver { scores: Seq<RowV> },
    GameOver { leaderboard: Seq<RowV> },
}

impl View for GameMessage {
    type V = GameMessageV;

    open spec fn view(&self) -> GameMessageV {
        match self {
            GameMessage::GameState(s) => GameMessageV::GameState(s@),
            GameMessage::Error(e) => GameMessageV::Error(e@),
            GameMessage::Countdown { duration } => GameMessageV::Countdown {
                duration: *duration,
            },
            GameMessage::NewRound { target } => GameMessageV::NewRound { target: target@ },
            GameMessage::UpdateImage { difficulty } => GameMessageV::UpdateImage {
                difficulty: *difficulty,
            },
            GameMessage::ProximityUpdate { status } => GameMessageV::ProximityUpdate {
                status: *status,
            },
            GameMessage::GuessResult { correct } => GameMessageV::GuessResult {
                correct: *correct,
            },
            GameMessage::RoundOver { scores } => GameMessageV::RoundOver {
                scores: rows_view(scores@),
            },
            GameMessage::GameOver { leaderboard } => GameMessageV::GameOver {
                leaderboard: rows_view(leaderboard@),
            },
        }
    }
}

/// Whether some player in the list carries `name`.
pub fn players_contain(v: &Vec<Player>, name: &String) -> (r: bool)
    ensures
        r == names_view(v@).contains(name@),
{
    let ghost s = names_view(v@);
    let n: usize = v.len();
    for i in 0..n
        invariant
            n == v@.len(),
            s == names_view(v@),
            s.len() == v@.len(),
            forall|j: int| 0 <= j < i ==> s[j] != name@,
    {
        if v[i].name == *name {
            assert(s[i as int] == name@);
            return true;
        }
        assert(s[i as int] != name@);
    }
    false
}

/// Removes every player carrying `name` from the list.
pub fn remove_player(v: &mut Vec<Player>, name: &String)
    ensures
        names_view(final(v)@) == remove_name(names_view(old(v)@), name@),
{
    let ghost s = names_view(v@);
    let n: usize = v.len();
    let mut out: Vec<Player> = Vec::new();
    for i in 0..n
        invariant
            n == v@.len(),
            v@ == old(v)@,
            s == names_view(v@),
            s.len() == v@.len(),
            names_view(out@) =~= remove_name(s.take(i as int), name@),
    {
        proof {
            assert(s.take(i + 1).drop_last() =~= s.take(i as int));
            assert(s.take(i + 1).last() == s[i as int]);
        }
        if !(v[i].name == *name) {
            out.push(v[i].clone());
            proof {
                assert(s[i as int] != name@);
                assert(names_view(out@) =~= remove_name(s.take(i + 1), name@));
            }
        } else {
            proof {
                assert(s[i as int] == name@);
                assert(names_view(out@) =~= remove_name(s.take(i + 1), name@));
            }
        }
    }
    proof {
        assert(s.take(n as int) =~= s);
    }
    *v = out;
}

/// A value-equal copy of a player list.
pub fn copy_players(v: &Vec<Player>) -> (r: Vec<Player>)
    ensures
        r@ == v@,
{
    let n: usize = v.len();
    let mut out: Vec<Player> = Vec::new();
    for i in 0..n
        invariant
            n == v@.len(),
            out@ =~= v@.take(i as int),
    {
        out.push(v[i].clone());
        proof {
            assert(out@ =~= v@.take(i + 1));
        }
    }
    proof {
        assert(v@.take(n as int) =~= v@);
    }
    out
}

impl Clone for LobbyPhase {
    /// A copy with the same specification-level value; the copy is a fresh
    /// allocation, so only view equality is promised.
    fn clone(&self) -> (r: Self)
        ensures
            r@ == self@,
    {
        match self {
            LobbyPhase::WaitingForStart => LobbyPhase::WaitingForStart,
            LobbyPhase::Countdown { remaining } => LobbyPhase::Countdown {
                remaining: *remaining,
            },
            LobbyPhase::Searching { target, round_scores, difficulty } => LobbyPhase::Searching {
                target: target.clone(),
                round_scores: copy_rows(round_scores),
                difficulty: *difficulty,
            },
            LobbyPhase::RoundOver => LobbyPhase::RoundOver,
            LobbyPhase::GameOver { leaderboard } => LobbyPhase::GameOver {
                leaderboard: copy_rows(leaderboard),
            },
        }
    }
}

impl Clone for LobbyState {
    /// A copy with the same specification-level value, fit to stand in an
    /// authoritative snapshot broadcast.
    fn clone(&self) -> (r: Self)
        ensures
            r@ == self@,
    {
        LobbyState {
            id: self.id,
            players: copy_players(&self.players),
            settings: self.settings,
            phase: self.phase.clone(),
            total_scores: copy_rows(&self.total_scores),
        }
    }
}

impl Clone for GameMessage {
    /// A copy with the same specification-level value, so one published
    /// message can be handed to many readers.
    fn clone(&self) -> (r: Self)
        ensures
            r@ == self@,
    {
        match self {
            GameMessage::GameState(s) => GameMessage::GameState(s.clone()),
            GameMessage::Error(e) => GameMessage::Error(e.clone()),
            GameMessage::Countdown { duration } => GameMessage::Countdown {
                duration: *duration,
            },
            GameMessage::NewRound { target } => GameMessage::NewRound { target: target.clone() },
            GameMessage::UpdateImage { difficulty } => GameMessage::UpdateImage {
                difficulty: *difficulty,
            },
            GameMessage::ProximityUpdate { status } => GameMessage::ProximityUpdate {
                status: *status,
            },
            GameMessage::GuessResult { correct } => GameMessage::GuessResult {
                correct: *correct,
            },
            GameMessage::RoundOver { scores } => GameMessage::RoundOver {
                scores: copy_rows(scores),
            },
            GameMessage::GameOver { leaderboard } => GameMessage::GameOver {
                leaderboard: copy_rows(leaderboard),
            },
        }
    }
}

impl LobbyPhase {
    /// The current reveal difficulty, in tenths, while a round is active.
    pub fn difficulty_tenths(&self) -> (r: Option<u32>)
        ensures
            r == match self@ {
                PhaseV::Searching { difficulty, .. } => Some(difficulty),
                _ => None::<u32>,
            },
    {
        match self {
            LobbyPhase::Searching { difficulty, .. } => Some(*difficulty),
            _ => None,
        }
    }
}

} // verus!
