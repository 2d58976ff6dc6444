//! The outbound queue of a connection: an unbounded channel of the
//! `futures` crate. Nothing in this file is proved; it tells the verifier
//! which outside types and functions the hub uses.

use vstd::prelude::*;
use futures::channel::mpsc::{TrySendError, UnboundedReceiver, UnboundedSender};

verus! {

/// The sending half of an unbounded channel. Opaque to the verifier.
#[verifier::external_type_specification]
#[verifier::external_body]
#[verifier::reject_recursive_types(T)]
pub struct ExUnboundedSender<T>(UnboundedSender<T>);

/// The receiving half of an unbounded channel. Opaque to the verifier.
#[verifier::external_type_specification]
#[verifier::external_body]
#[verifier::reject_recursive_types(T)]
pub struct ExUnboundedReceiver<T>(UnboundedReceiver<T>);

/// The error of a send on a channel whose receiving half is gone. Opaque to
/// the verifier.
#[verifier::external_type_specification]
#[verifier::external_body]
#[verifier::reject_recursive_types(T)]
pub struct ExTrySendError<T>(TrySendError<T>);

/// `futures::channel::mpsc::unbounded` makes a new channel and returns its
/// two halves. Nothing is claimed of them.
pub assume_specification<T>[ futures::channel::mpsc::unbounded::<T> ]() -> (halves: (
    UnboundedSender<T>,
    UnboundedReceiver<T>,
));

/// `UnboundedSender::unbounded_send` puts the message on the queue and
/// returns `Ok` while the receiving half is open, and returns the error
/// otherwise. It never waits. Which of the two happens depends on the
/// receiving task, so nothing is claimed of the result.
///
/// The call panics where the queue already holds `usize::MAX >> 1` messages.
/// No memory holds that many, so the hub takes the call as one that returns.
pub assume_specification<T>[ UnboundedSender::<T>::unbounded_send ](
    sender: &UnboundedSender<T>,
    msg: T,
) -> (sent: Result<(), TrySendError<T>>);

/// `UnboundedSender::clone` returns one more handle for the same channel.
/// Nothing is claimed of it.
///
/// The call panics where the channel already has `usize::MAX >> 2` handles.
/// No memory holds that many, so the hub takes the call as one that returns.
pub assume_specification<T>[ <UnboundedSender<T> as Clone>::clone ](
    sender: &UnboundedSender<T>,
) -> (handle: UnboundedSender<T>);

} // verus!
