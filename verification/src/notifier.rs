//! The order-created notification and how often sending it is tried.

use crate::models::Order;
use vstd::prelude::*;

verus! {

/// The event that announces a stored order.
#[derive(Debug, Clone, Copy, PartialEq, Eq)]
pub struct QueryOrder {
    pub id: i32,
    pub price_without_discount: i64,
    pub discounted_price: i64,
    pub campaign_id: Option<i32>,
    pub user_id: i32,
}

/// How many times sending a notification is tried before giving up.
pub const MAX_NOTIFY_ATTEMPTS: u32 = 3;

/// The event that announces the order.
pub open spec fn event_of(order: Order) -> QueryOrder {
    QueryOrder {
        id: order.id,
        price_without_discount: order.price_without_discount,
        discounted_price: order.discounted_price,
        campaign_id: order.campaign_id,
        user_id: order.user_id,
    }
}

/// Builds the event that announces the order.
pub fn order_created(order: &Order) -> (event: QueryOrder)
    ensures
        event == event_of(*order),
{
    QueryOrder {
        id: order.id,
        price_without_discount: order.price_without_discount,
        discounted_price: order.discounted_price,
        campaign_id: order.campaign_id,
        user_id: order.user_id,
    }
}

/// Tells whether sending may be tried again after `attempts` failed attempts.
pub fn may_retry(attempts: u32) -> (again: bool)
    ensures
        again == (attempts < MAX_NOTIFY_ATTEMPTS),
{
    attempts < MAX_NOTIFY_ATTEMPTS
}

} // verus!
