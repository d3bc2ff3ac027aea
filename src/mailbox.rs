use vstd::prelude::*;

verus! {

/// What became of a message handed to a mailbox.
#[derive(Clone, Copy, Debug, PartialEq, Eq, Structural)]
pub enum SendOutcome {
    /// The message now waits for the receiver.
    Delivered,
    /// The other end has gone; the message was dropped.
    PeerGone,
}

/// The newest of a sequence of messages, if there is any.
pub open spec fn newest<T>(msgs: Seq<T>) -> Option<T> {
    if msgs.len() == 0 {
        None
    } else {
        Some(msgs.last())
    }
}

/// A one-directional mailbox read with latest-wins semantics: messages queue up
/// in the order they were sent, and a read takes the newest one and discards
/// every older one.
pub struct Mailbox<T> {
    pending: Vec<T>,
    closed: bool,
}

impl<T> Mailbox<T> {
    /// The messages waiting to be read, oldest first.
    pub closed spec fn pending(&self) -> Seq<T> {
        self.pending@
    }

    /// Whether one end of the mailbox has gone.
    pub closed spec fn is_closed_spec(&self) -> bool {
        self.closed
    }

    /// An open mailbox with nothing pending.
    pub fn new() -> (r: Self)
        ensures
            r.pending() == Seq::<T>::empty(),
            !r.is_closed_spec(),
    {
        Mailbox { pending: Vec::new(), closed: false }
    }

    /// Queues `msg` behind every pending message; a closed mailbox drops it.
    pub fn send(&mut self, msg: T) -> (r: SendOutcome)
        ensures
            final(self).is_closed_spec() == old(self).is_closed_spec(),
            old(self).is_closed_spec() ==> r == SendOutcome::PeerGone
                && final(self).pending() == old(self).pending(),
            !old(self).is_closed_spec() ==> r == SendOutcome::Delivered
                && final(self).pending() == old(self).pending().push(msg),
    {
        if self.closed {
            SendOutcome::PeerGone
        } else {
            self.pending.push(msg);
            SendOutcome::Delivered
        }
    }

    /// Marks the mailbox closed because one of its ends has gone: later sends are
    /// dropped, and what is pending stays readable.
    pub fn close(&mut self)
        ensures
            final(self).is_closed_spec(),
            final(self).pending() == old(self).pending(),
    {
        self.closed = true;
    }

    pub fn is_closed(&self) -> (r: bool)
        ensures
            r == self.is_closed_spec(),
    {
        self.closed
    }

    /// Drains the mailbox: returns the newest pending message, if any, and
    /// discards all older ones.
    pub fn take_latest(&mut self) -> (r: Option<T>)
        ensures
            r == newest(old(self).pending()),
            final(self).pending() == Seq::<T>::empty(),
            final(self).is_closed_spec() == old(self).is_closed_spec(),
    {
        let r = self.pending.pop();
        self.pending = Vec::new();
        r
    }
}

} // verus!
