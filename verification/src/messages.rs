//! The queue through which messages produced outside the user interface
//! (by the futures that its commands start) reach the application.
use vstd::prelude::*;
use crossbeam_channel::{Receiver, Sender};

use crate::channel::{clone_sender, receive_ready, unbounded_channel};

verus! {

/// `crossbeam_channel::Sender`, carried opaque.
#[verifier::external_type_specification]
#[verifier::external_body]
#[verifier::reject_recursive_types(T)]
pub struct ExSender<T>(Sender<T>);

/// `crossbeam_channel::Receiver`, carried opaque.
#[verifier::external_type_specification]
#[verifier::external_body]
#[verifier::reject_recursive_types(T)]
pub struct ExReceiver<T>(Receiver<T>);

/// Both ends of one unbounded message channel for an application.
#[verifier::reject_recursive_types(T)]
pub struct IcedUiMessages<T> {
    pub tx: Sender<T>,
    pub rx: Receiver<T>,
}

impl<T> Default for IcedUiMessages<T> {
    /// The two ends of a new channel, as `unbounded_channel` gives them.
    fn default() -> (res: Self)
        ensures
            call_ensures(unbounded_channel::<T>, (), (res.tx, res.rx)),
    {
        let (tx, rx) = unbounded_channel();
        IcedUiMessages { tx, rx }
    }
}

impl<T> IcedUiMessages<T> {
    /// The messages that have arrived and can be taken without waiting, in
    /// arrival order: exactly what one draining receive on `rx` gives.
    pub fn pending_messages(&self) -> (messages: Vec<T>)
        ensures
            call_ensures(receive_ready::<T>, (&self.rx,), messages),
    {
        receive_ready(&self.rx)
    }

    /// A sending end for a task that will deliver messages later: a clone of
    /// `tx`.
    pub fn clone_tx(&self) -> (sender: Sender<T>)
        ensures
            call_ensures(clone_sender::<T>, (&self.tx,), sender),
    {
        clone_sender(&self.tx)
    }
}

/// Taking the pending messages hands back exactly what one draining receive
/// on the channel's receiving end gives: nothing is dropped, reordered or
/// added on the way.
pub proof fn lemma_pending_messages_are_one_receive<T>(channel: IcedUiMessages<T>, messages: Vec<T>)
    requires
        call_ensures(IcedUiMessages::<T>::pending_messages, (&channel,), messages),
    ensures
        call_ensures(receive_ready::<T>, (&channel.rx,), messages),
{
}

/// A cloned sender is exactly what cloning the channel's sending end gives.
pub proof fn lemma_cloned_sender_is_a_clone<T>(channel: IcedUiMessages<T>, sender: Sender<T>)
    requires
        call_ensures(IcedUiMessages::<T>::clone_tx, (&channel,), sender),
    ensures
        call_ensures(clone_sender::<T>, (&channel.tx,), sender),
{
}

} // verus!
