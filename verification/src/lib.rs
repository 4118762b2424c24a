//! Decision logic of a two-process request/reply session that is bootstrapped
//! through a one-shot rendezvous.

pub mod child;
pub mod failure;
pub mod loopback;
pub mod message;
pub mod parent;
pub mod startup;
pub mod text;
