//! The three calls into `crossbeam_channel` that the library makes. The
//! module is private to the crate; its functions are `pub` only so that the
//! public contracts of the library can speak of their results through
//! `call_ensures`.
use vstd::prelude::*;
use crossbeam_channel::{Receiver, Sender};

verus! {

/// `crossbeam_channel::unbounded`: the two ends of a new channel without a
/// capacity limit. That the two ends belong to one channel is not stated.
#[verifier::external_body]
pub fn unbounded_channel<T>() -> (Sender<T>, Receiver<T>) {
    crossbeam_channel::unbounded()
}

/// `crossbeam_channel::Receiver::try_iter`, collected: the messages that can be
/// received without blocking. What they are depends on what other threads sent
/// and when, so nothing is stated of the result.
#[verifier::external_body]
pub fn receive_ready<T>(rx: &Receiver<T>) -> Vec<T> {
    rx.try_iter().collect()
}

/// `Clone::clone` on a `crossbeam_channel::Sender`: another sending end of the
/// same channel. Nothing is stated of it.
#[verifier::external_body]
pub fn clone_sender<T>(tx: &Sender<T>) -> Sender<T> {
    tx.clone()
}

} // verus!
