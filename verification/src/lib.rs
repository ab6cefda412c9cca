//! Core of a cross-platform Bluetooth Low Energy central role: an
//! address-keyed peripheral registry, a broadcast bus for lifecycle events,
//! and the per-peripheral state model (cached advertisement properties,
//! connection state machine, characteristic cache).
//!
//! Platform backends perform the actual radio work and report results into
//! this core as plain values; the registry, the event fan-out, the property
//! merge rules and the connection state machine are verified here.

use vstd::prelude::*;

pub mod adapter;
pub mod addr;
pub mod assoc;
pub mod bus;
pub mod gatt;
pub mod manager;
pub mod peripheral;
pub mod props;

verus! {

/// The error taxonomy every bridged operation resolves into. A native
/// failure this layer cannot classify is carried as `Other` with its cause,
/// never silently discarded.
#[derive(Debug, Clone, PartialEq, Eq)]
pub enum Error {
    /// The address has no registry entry.
    DeviceNotFound,
    /// The operation requires an active connection that is absent.
    NotConnected,
    /// The native layer rejected the operation on authorization grounds.
    PermissionDenied,
    /// The operation has no native equivalent on this platform; carries the
    /// reason.
    NotSupported(String),
    /// Any native failure not classified above; carries the underlying
    /// cause for diagnosis.
    Other(String),
}

/// An element-wise copy of a vector of plain values.
pub(crate) fn copy_vec<T: Copy>(v: &Vec<T>) -> (r: Vec<T>)
    ensures
        r@ == v@,
{
    let mut r: Vec<T> = Vec::new();
    let mut i: usize = 0;
    while i < v.len()
        invariant
            i <= v.len(),
            r@ == v@.take(i as int),
        decreases v.len() - i,
    {
        r.push(v[i]);
        assert(v@.take(i + 1) =~= v@.take(i as int).push(v@[i as int]));
        i = i + 1;
    }
    assert(v@.take(v.len() as int) =~= v@);
    r
}

} // verus!
