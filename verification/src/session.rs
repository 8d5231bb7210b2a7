//! The session orchestrator: one lobby per session, and the table of all
//! live sessions.
//!
//! A [`Lobby`] wires one session's state machine to its broadcast hub:
//! every event goes through the machine's single `apply` path under the
//! session's exclusion boundary, the broadcast outcomes are published into
//! the hub in order, and the direct outcomes are returned for delivery to
//! the one player each concerns.  The slow oracle call never happens under
//! the boundary: the embedding asks [`Lobby::guess_pending`], performs the
//! comparison outside, and hands the judged result back in as an event.
//!
//! The [`SessionTable`] is the explicit registry of sessions, keyed by a
//! fresh random identifier; sessions are created and destroyed through its
//! lifecycle calls and never live in ambient global state.

use vstd::prelude::*;
use crate::hub::{Hub, HUB_CAPACITY};
use crate::machine::{
    lemma_step_outcomes_len, outcomes_view, step, Event, Outcome, OutcomeV,
};
use crate::models::{
    players_contain, GameMessage, GameMessageV, LobbySettings, LobbyPhase, LobbyState, PhaseV,
    Player, StateV,
};
use crate::scores::{has_key, rows_has_key};

verus! {

/// The broadcast messages of an outcome list, in order.
pub open spec fn broadcasts_of(s: Seq<OutcomeV>) -> Seq<GameMessageV>
    decreases s.len(),
{
    if s.len() == 0 {
        Seq::empty()
    } else {
        let pre = broadcasts_of(s.drop_last());
        match s.last() {
            OutcomeV::Broadcast(m) => pre.push(m),
            _ => pre,
        }
    }
}

/// The direct messages of an outcome list, in order, each with the name
/// it is addressed to.
pub open spec fn directs_of(s: Seq<OutcomeV>) -> Seq<(Seq<char>, GameMessageV)>
    decreases s.len(),
{
    if s.len() == 0 {
        Seq::empty()
    } else {
        let pre = directs_of(s.drop_last());
        match s.last() {
            OutcomeV::Direct(n, m) => pre.push((n, m)),
            _ => pre,
        }
    }
}

/// The name-and-message view of a direct delivery list.
pub open spec fn directs_view(s: Seq<(Player, GameMessage)>) -> Seq<(Seq<char>, GameMessageV)> {
    s.map_values(|e: (Player, GameMessage)| (e.0@, e.1@))
}

/// There are never more broadcasts than outcomes.
pub proof fn lemma_broadcasts_len(s: Seq<OutcomeV>)
    ensures
        broadcasts_of(s).len() <= s.len(),
    decreases s.len(),
{
    if s.len() > 0 {
        lemma_broadcasts_len(s.drop_last());
    }
}

/// Whether a guess from `n` is worth judging under this state: an active
/// round, the guesser present, and no score for them yet this round.
pub open spec fn guess_pending_spec(s: StateV, n: Seq<char>) -> bool {
    match s.phase {
        PhaseV::Searching { round_scores, .. } => s.players.contains(n) && !has_key(
            round_scores,
            n,
        ),
        _ => false,
    }
}

/// One live session: its canonical state and its broadcast hub.
pub struct Lobby {
    /// The canonical session state; mutated only through [`Lobby::handle`].
    pub state: LobbyState,
    /// The fan-out of every broadcast outcome to the session's readers.
    pub hub: Hub,
}

impl Lobby {
    /// The session state is well-formed and the hub's buffer is sound.
    pub open spec fn wf(self) -> bool {
        &&& self.state@.wf()
        &&& self.hub.wf()
    }

    /// A lobby around a fresh or recovered session state, with an empty
    /// hub.
    pub fn new(state: LobbyState) -> (r: Lobby)
        requires
            state@.wf(),
        ensures
            r.wf(),
            r.state@ == state@,
            r.hub@.log == Seq::<GameMessageV>::empty(),
            r.hub@.cap == HUB_CAPACITY as nat,
    {
        Lobby { state, hub: Hub::new(HUB_CAPACITY) }
    }

    /// Applies one event under the session's exclusion boundary: the state
    /// machine steps, every broadcast outcome is published into the hub in
    /// order, and the direct outcomes come back for delivery to the one
    /// player each concerns.
    pub fn handle(&mut self, event: Event) -> (direct: Vec<(Player, GameMessage)>)
        requires
            old(self).wf(),
            old(self).hub@.log.len() + 3 <= u64::MAX,
        ensures
            final(self).wf(),
            final(self).state@ == step(old(self).state@, event@).state,
            final(self).hub@.cap == old(self).hub@.cap,
            final(self).hub@.log == old(self).hub@.log + broadcasts_of(
                step(old(self).state@, event@).outcomes,
            ),
            directs_view(direct@) == directs_of(step(old(self).state@, event@).outcomes),
    {
        let ghost s0 = self.state@;
        let ghost ev = event@;
        let ghost log0 = self.hub@.log;
        let ghost cap0 = self.hub@.cap;
        proof {
            lemma_step_outcomes_len(s0, ev);
        }
        let out = self.state.apply(event);
        let ghost outs = outcomes_view(out@);
        let mut direct: Vec<(Player, GameMessage)> = Vec::new();
        let mut rest = out;
        proof {
            assert(outcomes_view(rest@) =~= outs.skip(0));
            assert(outs.take(0) =~= Seq::<OutcomeV>::empty());
        }
        while rest.len() > 0
            invariant
                outs.len() <= 3,
                rest@.len() <= outs.len(),
                outcomes_view(rest@) == outs.skip(outs.len() - rest@.len()),
                self.state@ == step(s0, ev).state,
                self.state@.wf(),
                self.hub.wf(),
                self.hub@.cap == cap0,
                log0.len() + 3 <= u64::MAX,
                self.hub@.log == log0 + broadcasts_of(outs.take(outs.len() - rest@.len())),
                directs_view(direct@) == directs_of(outs.take(outs.len() - rest@.len())),
            decreases rest@.len(),
        {
            let ghost kb = outs.len() - rest@.len();
            proof {
                lemma_broadcasts_len(outs.take(kb));
                assert(outs.skip(kb)[0] == outs[kb]);
                assert(outs.take(kb + 1).drop_last() =~= outs.take(kb));
                assert(outs.take(kb + 1).last() == outs[kb]);
            }
            let ghost rest0 = rest@;
            let o = rest.remove(0);
            proof {
                assert(o@ == outs[kb]);
                assert(rest@ =~= rest0.drop_first());
                assert forall|x: int|
                    0 <= x < rest@.len() implies outcomes_view(rest@)[x] == outs.skip(kb + 1)[x] by {
                    assert(rest@[x] == rest0[x + 1]);
                    assert(outcomes_view(rest0)[x + 1] == outs.skip(kb)[x + 1]);
                    assert(outs.skip(kb)[x + 1] == outs[kb + 1 + x]);
                }
                assert(outcomes_view(rest@) =~= outs.skip(kb + 1));
            }
            match o {
                Outcome::Broadcast(m) => {
                    self.hub.publish(m);
                    proof {
                        assert(self.hub@.log =~= log0 + broadcasts_of(outs.take(kb + 1)));
                        assert(directs_view(direct@) =~= directs_of(outs.take(kb + 1)));
                    }
                },
                Outcome::Direct(p, m) => {
                    direct.push((p, m));
                    proof {
                        assert(self.hub@.log =~= log0 + broadcasts_of(outs.take(kb + 1)));
                        assert(directs_view(direct@) =~= directs_of(outs.take(kb + 1)));
                    }
                },
            }
        }
        proof {
            assert(outs.take(outs.len() as int) =~= outs);
        }
        direct
    }

    /// Adds a player to the session (or re-adds them idempotently), with
    /// the roster change broadcast as a fresh snapshot.
    pub fn add_player(&mut self, player: Player) -> (direct: Vec<(Player, GameMessage)>)
        requires
            old(self).wf(),
            old(self).hub@.log.len() + 3 <= u64::MAX,
        ensures
            final(self).wf(),
            final(self).state@ == step(
                old(self).state@,
                crate::machine::EventV::JoinPlayer(player@),
            ).state,
            final(self).hub@.cap == old(self).hub@.cap,
            final(self).hub@.log == old(self).hub@.log + broadcasts_of(
                step(old(self).state@, crate::machine::EventV::JoinPlayer(player@)).outcomes,
            ),
    {
        self.handle(Event::JoinPlayer(player))
    }

    /// Requests the game start: from the waiting phase with at least one
    /// player present this begins the countdown; anything else is a no-op.
    pub fn start_game(&mut self) -> (direct: Vec<(Player, GameMessage)>)
        requires
            old(self).wf(),
            old(self).hub@.log.len() + 3 <= u64::MAX,
        ensures
            final(self).wf(),
            final(self).state@ == step(old(self).state@, crate::machine::EventV::RequestStart).state,
            final(self).hub@.cap == old(self).hub@.cap,
            final(self).hub@.log == old(self).hub@.log + broadcasts_of(
                step(old(self).state@, crate::machine::EventV::RequestStart).outcomes,
            ),
    {
        self.handle(Event::RequestStart)
    }

    /// Whether a guess from this player is worth judging right now.  The
    /// embedding checks this before the slow oracle comparison, so the
    /// comparison runs outside the exclusion boundary; the judged result
    /// is re-validated against the then-current state when it comes back
    /// in as an event.
    pub fn guess_pending(&self, name: &String) -> (r: bool)
        ensures
            r == guess_pending_spec(self.state@, name@),
    {
        match &self.state.phase {
            LobbyPhase::Searching { round_scores, .. } => {
                if players_contain(&self.state.players, name) {
                    !rows_has_key(round_scores, name)
                } else {
                    false
                }
            },
            _ => false,
        }
    }
}

/// Relies on `uuid::Uuid::new_v4` for a version-4 random identifier and
/// `Uuid::as_u128` for its 128 bits.  The value is random, so nothing is
/// promised of it beyond being nonzero, which the always-set version and
/// variant bits guarantee.
#[verifier::external_body]
fn fresh_session_id() -> (r: u128)
    ensures
        r != 0,
{
    uuid::Uuid::new_v4().as_u128()
}

/// The registry of live sessions, looked up by identifier.
pub struct SessionTable {
    /// The live sessions, in creation order, unique by identifier.
    pub lobbies: Vec<Lobby>,
}

impl SessionTable {
    /// Every lobby is well-formed and no identifier repeats.
    pub open spec fn wf(self) -> bool {
        &&& forall|i: int| 0 <= i < self.lobbies@.len() ==> (#[trigger] self.lobbies@[i]).wf()
        &&& forall|i: int, j: int|
            0 <= i < j < self.lobbies@.len() ==> self.lobbies@[i].state.id
                != self.lobbies@[j].state.id
    }

    /// An empty registry.
    pub fn new() -> (r: SessionTable)
        ensures
            r.wf(),
            r.lobbies@.len() == 0,
    {
        SessionTable { lobbies: Vec::new() }
    }

    /// The position of the session with this identifier, if it is live.
    pub fn find(&self, id: u128) -> (r: Option<usize>)
        ensures
            match r {
                Some(i) => i < self.lobbies@.len() && self.lobbies@[i as int].state.id == id,
                None => forall|i: int|
                    0 <= i < self.lobbies@.len() ==> (#[trigger] self.lobbies@[i]).state.id != id,
            },
    {
        let n: usize = self.lobbies.len();
        for i in 0..n
            invariant
                n == self.lobbies@.len(),
                forall|j: int| 0 <= j < i ==> (#[trigger] self.lobbies@[j]).state.id != id,
        {
            if self.lobbies[i].state.id == id {
                return Some(i);
            }
        }
        None
    }

    /// Creates a session under the given identifier; refused when the
    /// identifier is already live.
    pub fn create_with_id(&mut self, id: u128, settings: LobbySettings) -> (r: bool)
        requires
            old(self).wf(),
        ensures
            final(self).wf(),
            r == !(exists|i: int|
                0 <= i < old(self).lobbies@.len() && (#[trigger] old(self).lobbies@[i]).state.id
                    == id),
            r ==> {
                &&& final(self).lobbies@.len() == old(self).lobbies@.len() + 1
                &&& final(self).lobbies@.drop_last() == old(self).lobbies@
                &&& final(self).lobbies@.last().state@ == crate::machine::init_state(id, settings)
                &&& final(self).lobbies@.last().hub@.log == Seq::<GameMessageV>::empty()
            },
            !r ==> final(self).lobbies@ == old(self).lobbies@,
    {
        match self.find(id) {
            Some(_i) => {
                proof {
                    assert(exists|i: int|
                        0 <= i < self.lobbies@.len() && (#[trigger] self.lobbies@[i]).state.id
                            == id);
                }
                false
            },
            None => {
                let lobby = Lobby::new(LobbyState::new(id, settings));
                self.lobbies.push(lobby);
                proof {
                    assert(final(self).lobbies@.drop_last() =~= old(self).lobbies@);
                    assert forall|i: int, j: int|
                        0 <= i < j < self.lobbies@.len() implies self.lobbies@[i].state.id
                        != self.lobbies@[j].state.id by {
                        if j < self.lobbies@.len() - 1 {
                            assert(old(self).lobbies@[i].state.id
                                != old(self).lobbies@[j].state.id);
                        } else {
                            assert(old(self).lobbies@[i].state.id != id);
                        }
                    }
                }
                true
            },
        }
    }

    /// Creates a session under a fresh random identifier and returns it;
    /// `None` on the (vanishingly rare) identifier collision, in which
    /// case nothing changed and the caller may simply try again.
    pub fn create_session(&mut self, settings: LobbySettings) -> (r: Option<u128>)
        requires
            old(self).wf(),
        ensures
            final(self).wf(),
            match r {
                Some(id) => {
                    &&& final(self).lobbies@.len() == old(self).lobbies@.len() + 1
                    &&& final(self).lobbies@.drop_last() == old(self).lobbies@
                    &&& final(self).lobbies@.last().state@ == crate::machine::init_state(
                        id,
                        settings,
                    )
                    &&& final(self).lobbies@.last().hub@.log == Seq::<GameMessageV>::empty()
                },
                None => final(self).lobbies@ == old(self).lobbies@,
            },
    {
        let id = fresh_session_id();
        if self.create_with_id(id, settings) {
            Some(id)
        } else {
            None
        }
    }

    /// Routes one event to the session with this identifier and returns
    /// its direct deliveries; `None` — and no change — when no such
    /// session is live.  Every other session stands untouched.
    pub fn handle_event(&mut self, id: u128, event: Event) -> (r: Option<
        Vec<(Player, GameMessage)>,
    >)
        requires
            old(self).wf(),
            forall|i: int|
                0 <= i < old(self).lobbies@.len() ==> (#[trigger] old(
                    self,
                ).lobbies@[i]).hub@.log.len() + 3 <= u64::MAX,
        ensures
            final(self).wf(),
            final(self).lobbies@.len() == old(self).lobbies@.len(),
            match r {
                Some(direct) => {
                    &&& forall|i: int|
                        0 <= i < old(self).lobbies@.len() && (#[trigger] old(
                            self,
                        ).lobbies@[i]).state.id != id ==> final(self).lobbies@[i] == old(
                            self,
                        ).lobbies@[i]
                    &&& forall|i: int|
                        0 <= i < old(self).lobbies@.len() && (#[trigger] old(
                            self,
                        ).lobbies@[i]).state.id == id ==> {
                            &&& final(self).lobbies@[i].state@ == step(
                                old(self).lobbies@[i].state@,
                                event@,
                            ).state
                            &&& final(self).lobbies@[i].hub@.log == old(self).lobbies@[i].hub@.log
                                + broadcasts_of(step(old(self).lobbies@[i].state@, event@).outcomes)
                            &&& directs_view(direct@) == directs_of(
                                step(old(self).lobbies@[i].state@, event@).outcomes,
                            )
                        }
                },
                None => {
                    &&& final(self).lobbies@ == old(self).lobbies@
                    &&& forall|i: int|
                        0 <= i < old(self).lobbies@.len() ==> (#[trigger] old(
                            self,
                        ).lobbies@[i]).state.id != id
                },
            },
    {
        match self.find(id) {
            None => None,
            Some(i) => {
                let ghost lobbies0 = self.lobbies@;
                let mut lobby = self.lobbies.remove(i);
                let direct = lobby.handle(event);
                self.lobbies.insert(i, lobby);
                proof {
                    assert forall|j: int|
                        0 <= j < lobbies0.len() && lobbies0[j].state.id != id implies self.lobbies@[j]
                        == lobbies0[j] by {
                        if j < i {
                            assert(self.lobbies@[j] == lobbies0[j]);
                        } else {
                            assert(j != i);
                            assert(self.lobbies@[j] == lobbies0[j]);
                        }
                    }
                    assert forall|j: int|
                        0 <= j < lobbies0.len() && lobbies0[j].state.id == id implies j == i by {
                        if j < i {
                            assert(lobbies0[j].state.id != lobbies0[i as int].state.id);
                        } else if j > i {
                            assert(lobbies0[i as int].state.id != lobbies0[j].state.id);
                        }
                    }
                    assert(self.lobbies@[i as int].state@ == step(
                        lobbies0[i as int].state@,
                        event@,
                    ).state);
                    assert forall|x: int, y: int|
                        0 <= x < y < self.lobbies@.len() implies self.lobbies@[x].state.id
                        != self.lobbies@[y].state.id by {
                        assert(self.lobbies@[x].state.id == lobbies0[x].state.id);
                        assert(self.lobbies@[y].state.id == lobbies0[y].state.id);
                    }
                    assert forall|x: int| 0 <= x < self.lobbies@.len() implies (#[trigger] self
                        .lobbies@[x]).wf() by {
                        if x != i {
                            assert(self.lobbies@[x] == lobbies0[x]);
                            assert(lobbies0[x].wf());
                        }
                    }
                }
                Some(direct)
            },
        }
    }

    /// Tears the session with this identifier down, dropping its state and
    /// hub; `false` — and no change — when no such session is live.
    pub fn remove_session(&mut self, id: u128) -> (r: bool)
        requires
            old(self).wf(),
        ensures
            final(self).wf(),
            r ==> exists|i: int|
                0 <= i < old(self).lobbies@.len() && (#[trigger] old(self).lobbies@[i]).state.id
                    == id && final(self).lobbies@ == old(self).lobbies@.remove(i),
            !r ==> final(self).lobbies@ == old(self).lobbies@ && forall|i: int|
                0 <= i < old(self).lobbies@.len() ==> (#[trigger] old(self).lobbies@[i]).state.id
                    != id,
    {
        match self.find(id) {
            None => false,
            Some(i) => {
                let ghost lobbies0 = self.lobbies@;
                let _lobby = self.lobbies.remove(i);
                proof {
                    assert forall|x: int, y: int|
                        0 <= x < y < self.lobbies@.len() implies self.lobbies@[x].state.id
                        != self.lobbies@[y].state.id by {
                        let x0 = if x < i {
                            x
                        } else {
                            x + 1
                        };
                        let y0 = if y < i {
                            y
                        } else {
                            y + 1
                        };
                        assert(self.lobbies@[x] == lobbies0[x0]);
                        assert(self.lobbies@[y] == lobbies0[y0]);
                    }
                    assert forall|x: int| 0 <= x < self.lobbies@.len() implies (#[trigger] self
                        .lobbies@[x]).wf() by {
                        let x0 = if x < i {
                            x
                        } else {
                            x + 1
                        };
                        assert(self.lobbies@[x] == lobbies0[x0]);
                        assert(lobbies0[x0].wf());
                    }
                }
                true
            },
        }
    }
}

} // verus!
