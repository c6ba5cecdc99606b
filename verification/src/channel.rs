//! The channel end on which the broker reaches a connected client, and the
//! record of the sends made on such channels.

use vstd::prelude::*;
use tokio::sync::mpsc::UnboundedSender;

verus! {

/// tokio's unbounded channel sender, carried through the broker unopened.
#[verifier::external_type_specification]
#[verifier::external_body]
#[verifier::reject_recursive_types(T)]
pub struct ExUnboundedSender<T>(UnboundedSender<T>);

/// The sends made so far, in order: each message with the channel it was
/// handed to. The record is ghost; outside this module a log can only be
/// started empty and grown by `send_on`, so its contents are the sends that
/// were made.
#[verifier::reject_recursive_types(T)]
pub struct SendLog<T> {
    sends: Ghost<Seq<(UnboundedSender<T>, T)>>,
}

impl<T> View for SendLog<T> {
    type V = Seq<(UnboundedSender<T>, T)>;

    closed spec fn view(&self) -> Seq<(UnboundedSender<T>, T)> {
        self.sends@
    }
}

impl<T> SendLog<T> {
    /// A log of no send.
    pub fn new() -> (log: SendLog<T>)
        ensures
            log@ == Seq::<(UnboundedSender<T>, T)>::empty(),
    {
        SendLog { sends: Ghost(Seq::empty()) }
    }
}

/// Calls `tokio::sync::mpsc::UnboundedSender::send`, which hands `msg` to the
/// channel without blocking and fails only when the receiving half has been
/// closed or dropped. What is claimed is ghost bookkeeping of this library,
/// not of tokio: the log gains one entry, this call's channel and message.
/// Whether the receiving half is still there is outside what this library
/// sees, so nothing is claimed of the result.
#[verifier::external_body]
#[allow(unused_variables)]
pub(crate) fn send_on<T>(ch: &UnboundedSender<T>, msg: T, log: &mut SendLog<T>) -> (accepted: bool)
    ensures
        final(log)@ == old(log)@.push((*ch, msg)),
{
    ch.send(msg).is_ok()
}

/// `Clone::clone` of tokio's unbounded sender: another handle to the same
/// channel. The handle is opaque here, so nothing is claimed of it.
pub assume_specification<T>[ <UnboundedSender<T> as Clone>::clone ](s: &UnboundedSender<T>) -> (r: UnboundedSender<T>);

} // verus!
