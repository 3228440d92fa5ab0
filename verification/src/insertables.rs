//! Rows about to be stored: what a caller supplies before the store assigns an identity.
//!
//! Amounts are micro-units of currency (see `crate::money`).

use vstd::prelude::*;

verus! {

/// A user about to be stored.
#[derive(Debug, Clone, PartialEq, Eq)]
pub struct NewUser {
    pub username: String,
}

/// A product about to be stored.
#[derive(Debug, Clone, PartialEq, Eq)]
pub struct NewProduct {
    pub title: String,
    pub category_id: i32,
    pub author: String,
    pub list_price: i64,
    pub stock_quantity: i32,
}

/// A campaign about to be stored, with every condition and both discounts given.
#[derive(Debug, Clone, PartialEq, Eq)]
pub struct NewCampaign {
    pub description: String,
    pub min_purchase_price: i64,
    pub min_purchase_quantity: i32,
    pub discount_quantity: i32,
    pub discount_percent: i32,
    pub rule_author: String,
    pub rule_category: String,
}

/// An order as priced, before it is stored. Both totals are whole thousandths of a unit.
#[derive(Debug, Clone, Copy, PartialEq, Eq)]
pub struct NewOrder {
    pub price_without_discount: i64,
    pub discounted_price: i64,
    pub campaign_id: Option<i32>,
    pub user_id: i32,
}

} // verus!
