//! The ways in which placing an order can fail.

use vstd::prelude::*;

verus! {

/// Why an order could not be placed, or what went wrong while it was.
#[derive(Debug, Clone, Copy, PartialEq, Eq, Structural)]
pub enum OrderError {
    /// The user or a requested product does not exist.
    NotFound,
    /// A requested product has too little stock left.
    InsufficientStock,
    /// The cached campaign list cannot be read back. Recovered from by
    /// loading the campaigns from the store, so no order fails with it.
    CacheCorrupt,
    /// The store failed; nothing of the order was kept.
    PersistenceFailure,
    /// The order is stored but its creation could not be announced. Meant for
    /// operators; the caller still receives the order.
    NotificationFailure,
    /// A total of the order is too large to be stored.
    AmountOutOfRange,
}

} // verus!
