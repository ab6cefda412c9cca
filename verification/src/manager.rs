//! The central-role facade: enumerates the local adapters. This host model
//! exposes a single adapter; each call builds it fresh, and a platform
//! wrapper owns it from there.

use vstd::prelude::*;
use crate::adapter::Adapter;

verus! {

/// The entry point application code starts from.
#[derive(Debug, Clone, Copy, PartialEq, Eq, Structural)]
pub struct Manager;

impl Manager {
    /// A manager for this host.
    pub fn new() -> (r: Manager)
        ensures
            r == Manager,
    {
        Manager
    }

    /// The local adapters: exactly one on this platform, fresh and empty.
    pub fn adapters(&self) -> (r: Vec<Adapter>)
        ensures
            r@.len() == 1,
            r@[0].wf(),
            r@[0].registry@ == Seq::<crate::peripheral::Peripheral>::empty(),
            r@[0].events() == Seq::<crate::bus::CentralEvent>::empty(),
            r@[0].subscriber_count() == 0,
    {
        let mut r: Vec<Adapter> = Vec::new();
        r.push(Adapter::new());
        r
    }
}

} // verus!
