//! Verified core of a service that mirrors which members of a community hold
//! a monitored role: single-flight task admission, a self-healing scheduler
//! supervisor, a paginated full resync with batched writes, and the
//! incremental per-event reconciler.
use vstd::prelude::*;

pub mod aiode;
pub mod error;
pub mod event_handler;
pub mod model;
pub mod resync;
pub mod scheduler;
pub mod task;
pub mod util;

verus! {

} // verus!
