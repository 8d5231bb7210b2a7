//! The broadcast hub: a bounded fan-out buffer with drop-oldest semantics.
//!
//! Every broadcast outcome is published into the hub; readers subscribe and
//! unsubscribe at arbitrary times and each polls at its own pace.  The
//! publisher never blocks and never errors, whether or not any reader
//! exists.  A reader that falls behind the bounded window misses the oldest
//! messages, never the newest, and what it does receive comes in publish
//! order; the authoritative recovery from a missed message is always the
//! next full state snapshot.
//!
//! Specification-wise a hub is its whole publish history (a ghost log) and
//! its capacity; the buffer holds exactly the newest `cap` entries of the
//! log, and a reader is a cursor into the log.

use vstd::prelude::*;
use crate::models::{GameMessage, GameMessageV};

verus! {

/// How many messages a session's hub buffers before dropping the oldest.
pub const HUB_CAPACITY: usize = 100;

/// The specification-level value of a [`Hub`]: everything ever published,
/// and the buffer bound.
#[verifier::ext_equal]
pub ghost struct HubV {
    pub log: Seq<GameMessageV>,
    pub cap: nat,
}

/// The log position from which a hub can still deliver: all of history
/// while it fits the buffer, else only the newest `cap` entries.
pub open spec fn window_start(h: HubV) -> int {
    if h.log.len() <= h.cap {
        0
    } else {
        h.log.len() - h.cap
    }
}

/// A fan-out channel for one session's outcome stream.
pub struct Hub {
    /// The newest messages, oldest first.
    buf: Vec<GameMessage>,
    /// How many messages were ever published.
    published: u64,
    /// Buffer bound; beyond it the oldest buffered message is dropped.
    cap: usize,
    /// The whole publish history.
    hist: Ghost<Seq<GameMessageV>>,
}

impl View for Hub {
    type V = HubV;

    closed spec fn view(&self) -> HubV {
        HubV { log: self.hist@, cap: self.cap as nat }
    }
}

/// One reader's handle: a cursor into the hub's log.
pub struct HubReader {
    cursor: u64,
}

impl HubReader {
    /// The log position this reader will read next.
    pub closed spec fn position(self) -> int {
        self.cursor as int
    }
}

impl Hub {
    /// The buffer mirrors the newest window of the log.
    pub closed spec fn wf(self) -> bool {
        &&& self.hist@.len() == self.published as nat
        &&& self.cap >= 1
        &&& self.buf@.len() == if self.published as nat <= self.cap as nat {
            self.published as nat
        } else {
            self.cap as nat
        }
        &&& forall|i: int|
            0 <= i < self.buf@.len() ==> (#[trigger] self.buf@[i])@ == self.hist@[
                self.hist@.len() - self.buf@.len() + i
            ]
    }

    /// An empty hub with the given buffer bound.
    pub fn new(cap: usize) -> (r: Hub)
        requires
            cap >= 1,
        ensures
            r.wf(),
            r@.log == Seq::<GameMessageV>::empty(),
            r@.cap == cap as nat,
    {
        Hub { buf: Vec::new(), published: 0, cap, hist: Ghost(Seq::empty()) }
    }

    /// How many messages were ever published.
    pub fn published_count(&self) -> (r: u64)
        requires
            self.wf(),
        ensures
            r as int == self@.log.len(),
    {
        self.published
    }

    /// Publishes one message: fire and forget.  It never blocks and never
    /// fails; with the buffer full, the oldest buffered message is dropped.
    pub fn publish(&mut self, m: GameMessage)
        requires
            old(self).wf(),
            old(self)@.log.len() < u64::MAX,
        ensures
            final(self).wf(),
            final(self)@.log == old(self)@.log.push(m@),
            final(self)@.cap == old(self)@.cap,
    {
        let ghost mv = m@;
        let ghost buf0 = self.buf@;
        if self.buf.len() == self.cap {
            let _dropped = self.buf.remove(0);
        }
        self.buf.push(m);
        self.published = self.published + 1;
        proof {
            self.hist@ = self.hist@.push(mv);
        }
        proof {
            assert forall|i: int|
                0 <= i < self.buf@.len() implies (#[trigger] self.buf@[i])@ == self.hist@[
                self.hist@.len() - self.buf@.len() + i
            ] by {
                if i < self.buf@.len() - 1 {
                    if buf0.len() == self.cap {
                        assert(self.buf@[i] == buf0[i + 1]);
                    } else {
                        assert(self.buf@[i] == buf0[i]);
                    }
                }
            }
            assert(self@.log =~= old(self)@.log.push(mv));
        }
    }

    /// A fresh subscription, positioned at the head of the stream: it sees
    /// exactly what is published from now on, as long as it keeps up.
    pub fn subscribe(&self) -> (r: HubReader)
        requires
            self.wf(),
        ensures
            r.position() == self@.log.len(),
    {
        HubReader { cursor: self.published }
    }

    /// Hands the reader the next message it has not seen, in publish order.
    /// A reader that lagged behind the buffered window is moved forward to
    /// the oldest message still buffered — it misses the oldest messages,
    /// never the newest.  `None` means the reader is fully caught up.
    pub fn poll(&self, r: &mut HubReader) -> (msg: Option<GameMessage>)
        requires
            self.wf(),
            0 <= old(r).position() <= self@.log.len(),
        ensures
            match msg {
                Some(m) => {
                    let idx = if old(r).position() >= window_start(self@) {
                        old(r).position()
                    } else {
                        window_start(self@)
                    };
                    &&& old(r).position() < self@.log.len()
                    &&& m@ == self@.log[idx]
                    &&& final(r).position() == idx + 1
                    &&& final(r).position() <= self@.log.len()
                },
                None => {
                    &&& old(r).position() == self@.log.len()
                    &&& *final(r) == *old(r)
                },
            },
    {
        let total = self.published;
        let window: u64 = self.buf.len() as u64;
        let start = total - window;
        let mut cur = r.cursor;
        if cur < start {
            cur = start;
        }
        if cur == total {
            None
        } else {
            let off = (cur - start) as usize;
            let m = self.buf[off].clone();
            r.cursor = cur + 1;
            proof {
                assert(self.buf@[off as int]@ == self@.log[cur as int]);
            }
            Some(m)
        }
    }
}

} // verus!
