//! Session daemon library: backend contracts and the River object, input,
//! response and render bookkeeping, snapshot validation and persistence,
//! status modules, the worker owner, poll-loop decisions, fixed consumers
//! and the theme template catalogue.
use vstd::prelude::*;

pub mod backend;
pub mod consumer;
pub mod identities;
pub mod lifecycle;
pub mod modules;
pub mod persistence;
pub mod policy;
pub mod runtime;
pub mod session;
pub mod template;
pub mod text;
pub mod timers;
pub mod worker;

verus! {

} // verus!
