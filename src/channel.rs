//! The unbounded queue of update commands between handles and the registry.
use vstd::prelude::*;

use crate::object::ObjUpdateCmd;

verus! {

#[verifier::external_type_specification]
#[verifier::external_body]
#[verifier::reject_recursive_types(T)]
pub struct ExSender<T>(async_channel::Sender<T>);

#[verifier::external_type_specification]
#[verifier::external_body]
#[verifier::reject_recursive_types(T)]
pub struct ExReceiver<T>(async_channel::Receiver<T>);

/// The commands waiting in a channel, oldest first.
pub uninterp spec fn queued_commands(rx: async_channel::Receiver<ObjUpdateCmd>) -> Seq<ObjUpdateCmd>;

/// Both ends of one unbounded channel, made together by `CommandQueue::new`.
/// The ends are private to this crate, which never separates, clones or
/// swaps them, so the channel is never closed and holds exactly what was
/// sent through this value and not yet received.
pub struct CommandQueue {
    pub(crate) tx: async_channel::Sender<ObjUpdateCmd>,
    pub(crate) rx: async_channel::Receiver<ObjUpdateCmd>,
}

impl CommandQueue {
    /// The commands waiting, oldest first.
    pub open(crate) spec fn pending(&self) -> Seq<ObjUpdateCmd> {
        queued_commands(self.rx)
    }

    /// Relies on `async_channel::unbounded`: a new channel is empty.
    #[verifier::external_body]
    pub(crate) fn new() -> (r: CommandQueue)
        ensures
            queued_commands(r.rx) == Seq::<ObjUpdateCmd>::empty(),
    {
        let (tx, rx) = async_channel::unbounded();
        CommandQueue { tx, rx }
    }

    /// Relies on `async_channel::Sender::try_send`: on an unbounded channel
    /// whose receiver is alive it pushes the message at the back.
    #[verifier::external_body]
    pub(crate) fn send(&mut self, cmd: ObjUpdateCmd)
        ensures
            queued_commands(final(self).rx) == queued_commands(old(self).rx).push(cmd),
    {
        self.tx.try_send(cmd).unwrap()
    }

    /// Relies on `async_channel::Receiver::try_recv`: it pops the message at
    /// the front, or fails when the channel is empty.
    #[verifier::external_body]
    pub(crate) fn try_recv(&mut self) -> (r: Option<ObjUpdateCmd>)
        ensures
            queued_commands(old(self).rx).len() == 0 ==> r.is_none() && queued_commands(
                final(self).rx,
            ) == queued_commands(old(self).rx),
            queued_commands(old(self).rx).len() > 0 ==> r == Some(queued_commands(old(self).rx)[0])
                && queued_commands(final(self).rx) == queued_commands(old(self).rx).drop_first(),
    {
        self.rx.try_recv().ok()
    }
}

} // verus!
