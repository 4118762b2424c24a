//! What makes a process of a session give up, and what a session answers to
//! an event that it did not ask for.
//!
//! A receive that fails is not among the failures: it ends the exchange, and
//! the process then shuts down as usual.

use vstd::prelude::*;

verus! {

/// Why a process gives up.
#[derive(Clone, Copy, Debug, PartialEq, Eq, Structural)]
pub enum Failure {
    /// A channel or the rendezvous could not be made or reached, or the child
    /// could not be started.
    Setup,
    /// The child's startup parameters hold no rendezvous token.
    MissingToken,
    /// A text could not be sent.
    Send,
}

/// An event that does not answer the action that the session is waiting on.
#[derive(Clone, Copy, Debug, PartialEq, Eq, Structural)]
pub struct OutOfTurn;

} // verus!
