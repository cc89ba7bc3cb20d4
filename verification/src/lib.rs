//! Verified core of a web-push delivery server.
//!
//! The crate covers the per-connection client state machine that mediates
//! between direct notifications, stored notifications and acknowledgements;
//! the process-wide router that maps a user to the connection owning it; an
//! in-memory model of the row store the state machine pages messages from;
//! and the decision logic of the storage connection pool.

use vstd::prelude::*;

pub mod client;
pub mod db_error;
pub mod laws;
pub mod endpoint_error;
pub mod notification;
pub mod pool;
pub mod protocol;
pub mod router;
pub mod row;
pub mod storage;

verus! {

} // verus!
