use vstd::prelude::*;
use crate::mailbox::{newest, Mailbox, SendOutcome};

verus! {

/// The state owned by the simulation loop: the authoritative world, the pause
/// flag, and whether every peer is still there to receive what the loop
/// publishes.
pub struct SimLoop<C> {
    pub world: C,
    pub paused: bool,
    pub running: bool,
}

/// The world after an inbound edit: the edit replaces it wholesale.
pub open spec fn adopt<C>(world: C, edit: Option<C>) -> C {
    match edit {
        Some(w) => w,
        None => world,
    }
}

/// The pause flag after an inbound pause message.
pub open spec fn next_paused(paused: bool, msg: Option<bool>) -> bool {
    match msg {
        Some(p) => p,
        None => paused,
    }
}

impl<C> SimLoop<C> {
    /// A running, unpaused loop over `world`.
    pub fn new(world: C) -> (r: Self)
        ensures
            r.world == world,
            !r.paused,
            r.running,
    {
        SimLoop { world, paused: false, running: true }
    }

    /// One tick of the loop, up to publishing: the newest pending edit (if any)
    /// replaces the world and every older edit is discarded; the newest pending
    /// pause message (if any) sets the pause flag; then, unless paused, the
    /// world is stepped once. Returns the new state and whether it stepped, in
    /// which case the caller publishes a copy of the world.
    pub fn tick<F: Fn(C) -> C>(self, edits: &mut Mailbox<C>, pauses: &mut Mailbox<bool>, step: F) -> (r: (Self, bool))
        requires
            forall|c: C| #[trigger] step.requires((c,)),
        ensures
            final(edits).pending() == Seq::<C>::empty(),
            final(pauses).pending() == Seq::<bool>::empty(),
            final(edits).is_closed_spec() == old(edits).is_closed_spec(),
            final(pauses).is_closed_spec() == old(pauses).is_closed_spec(),
            r.0.paused == next_paused(self.paused, newest(old(pauses).pending())),
            r.0.running == self.running,
            r.1 == !r.0.paused,
            r.0.paused ==> r.0.world == adopt(self.world, newest(old(edits).pending())),
            !r.0.paused ==> step.ensures((adopt(self.world, newest(old(edits).pending())),), r.0.world),
    {
        let mut world = self.world;
        if let Some(w) = edits.take_latest() {
            world = w;
        }
        let mut paused = self.paused;
        if let Some(p) = pauses.take_latest() {
            paused = p;
        }
        if paused {
            (SimLoop { world, paused, running: self.running }, false)
        } else {
            let stepped = step(world);
            (SimLoop { world: stepped, paused, running: self.running }, true)
        }
    }

    /// Records what became of a publication: the loop keeps running only while
    /// every message it publishes is delivered.
    pub fn published(&mut self, outcome: SendOutcome)
        ensures
            final(self).running == (old(self).running && outcome == SendOutcome::Delivered),
            final(self).world == old(self).world,
            final(self).paused == old(self).paused,
    {
        if outcome == SendOutcome::PeerGone {
            self.running = false;
        }
    }
}

/// Latest-wins: of several edits sent before a tick, only the last one counts.
/// Whatever was pending before, after `a`, `b` and `c` are sent to an open
/// mailbox the newest pending edit is `c`, and the world that a tick adopts
/// from it is `c` itself, not a mix or a queue of the three.
pub proof fn lemma_latest_edit_wins<C>(pending: Seq<C>, world: C, a: C, b: C, c: C)
    ensures
        newest(pending.push(a).push(b).push(c)) == Some(c),
        adopt(world, newest(pending.push(a).push(b).push(c))) == c,
{
}

} // verus!
