//! Messages that wait to be written to a connection.

use vstd::prelude::*;

verus! {

/// A message was given to a connection that is closed.
#[derive(Clone, Copy, Debug, PartialEq, Eq, Structural)]
pub struct ChannelClosed;

impl ChannelClosed {
    pub fn message(&self) -> (out: &'static str)
        ensures
            out@ == "channel closed"@,
    {
        "channel closed"
    }
}

/// The messages in the order in which they were given. A closed one takes no more.
#[derive(Debug)]
pub struct Outbox<T> {
    pub queue: Vec<T>,
    pub open: bool,
}

impl<T> Outbox<T> {
    pub fn new() -> (out: Self)
        ensures
            out.queue@ == Seq::<T>::empty(),
            out.open,
    {
        Outbox { queue: Vec::new(), open: true }
    }

    /// Gives a message to the connection.
    pub fn send(&mut self, message: T) -> (out: Result<(), ChannelClosed>)
        ensures
            final(self).open == old(self).open,
            old(self).open ==> out is Ok && final(self).queue@ == old(self).queue@.push(message),
            !old(self).open ==> out is Err && final(self).queue@ == old(self).queue@,
    {
        if self.open {
            self.queue.push(message);
            Ok(())
        } else {
            Err(ChannelClosed)
        }
    }

    /// Takes out all that waits.
    pub fn drain(&mut self) -> (out: Vec<T>)
        ensures
            out@ == old(self).queue@,
            final(self).queue@ == Seq::<T>::empty(),
            final(self).open == old(self).open,
    {
        let mut out: Vec<T> = Vec::new();
        std::mem::swap(&mut self.queue, &mut out);
        out
    }

    /// The other end of the connection is gone.
    pub fn close(&mut self)
        ensures
            !final(self).open,
            final(self).queue == old(self).queue,
    {
        self.open = false;
    }
}

} // verus!
