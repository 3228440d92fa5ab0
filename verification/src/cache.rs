//! The campaign cache: a cache-aside copy of the campaign list.
//!
//! The store is authoritative. The cache holds the serialized list under one
//! key for a short time; a read that finds nothing usable falls back to the
//! store and fills the cache again.

use crate::error::OrderError;
use crate::models::Campaign;
use vstd::prelude::*;

verus! {

/// The key under which the campaign list is cached.
pub const CAMPAIGNS_KEY: &'static str = "campaigns";

/// How long a cached campaign list lives, in seconds.
pub const CAMPAIGNS_TTL_SECONDS: u64 = 30;

/// What a read of the cache found.
#[derive(Debug, Clone, PartialEq, Eq)]
pub enum CacheRead {
    /// No entry, or the entry has expired.
    Miss,
    /// An entry that decodes to a campaign list.
    Hit(Vec<Campaign>),
    /// An entry that does not decode.
    Corrupt,
    /// The cache did not answer.
    Unavailable,
}

/// What to do after a read of the cache.
#[derive(Debug, Clone, PartialEq, Eq)]
pub enum CachePlan {
    /// Use the cached campaigns.
    Use(Vec<Campaign>),
    /// Load the campaigns from the store and cache them. `recovering` names
    /// the error that made this necessary, if there was one.
    Reload { recovering: Option<OrderError> },
}

/// The plan that follows a read: a hit is used; a miss, an entry that does
/// not decode and a cache that does not answer all lead to the store. An
/// entry that does not decode is an error, recovered from by the reload.
pub open spec fn plan_of(read: CacheRead) -> CachePlan {
    match read {
        CacheRead::Hit(campaigns) => CachePlan::Use(campaigns),
        CacheRead::Miss => CachePlan::Reload { recovering: None },
        CacheRead::Corrupt => CachePlan::Reload { recovering: Some(OrderError::CacheCorrupt) },
        CacheRead::Unavailable => CachePlan::Reload { recovering: None },
    }
}

/// Decides what to do after a read of the cache.
pub fn plan_after_read(read: CacheRead) -> (plan: CachePlan)
    ensures
        plan == plan_of(read),
{
    match read {
        CacheRead::Hit(campaigns) => CachePlan::Use(campaigns),
        CacheRead::Miss => CachePlan::Reload { recovering: None },
        CacheRead::Corrupt => CachePlan::Reload { recovering: Some(OrderError::CacheCorrupt) },
        CacheRead::Unavailable => CachePlan::Reload { recovering: None },
    }
}

} // verus!
