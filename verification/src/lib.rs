//! The relay core of an anonymous messaging service.
//!
//! Users address each other through opaque handles, and the service brokers
//! conversations ("threads") between them. Every user has an actor of its
//! own, which alone changes that user's state; actors reach each other only
//! by actions. Every fact that changes a state is an event of an append-only
//! log, from which the whole population is rebuilt after a restart.
//!
//! Nothing in this crate waits, sends or writes. An actor is a state machine:
//! a command or an action yields a [`plan::Step`], which is either the reply
//! or one piece of work for the outside world together with the plan of what
//! follows; the caller does the work and hands the outcome back. What the
//! machine does is defined, as mathematics, in [`model`], and the executable
//! code is proved to do exactly that. [`protocol`] holds what follows from
//! it for every state.

pub mod command;
pub mod command_dispatcher;
pub mod data;
pub mod error;
pub mod event_log;
pub mod handler;
pub mod model;
pub mod plan;
pub mod protocol;
pub mod string_map;
pub mod text;
pub mod util;
