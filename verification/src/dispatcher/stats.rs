//! How much state the server holds.
use vstd::prelude::*;

verus! {

#[derive(Debug, Clone)]
pub struct ServerStats {
    pub active_clients: usize,
    pub active_sessions: usize,
    pub active_stateids: usize,
    pub open_stateids: usize,
    pub lock_stateids: usize,
}

} // verus!
