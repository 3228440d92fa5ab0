//! The stored entities: users, categories, products, campaigns, orders and order lines.
//!
//! Amounts are micro-units of currency (see `crate::money`).

use vstd::prelude::*;

verus! {

/// A customer.
#[derive(Debug, Clone, PartialEq, Eq)]
pub struct User {
    pub id: i32,
    pub username: String,
}

/// A category of products.
#[derive(Debug, Clone, PartialEq, Eq)]
pub struct Category {
    pub id: i32,
    pub title: String,
}

/// A product of the catalogue, with its list price and the units in stock.
#[derive(Debug, Clone, PartialEq, Eq)]
pub struct Product {
    pub id: i32,
    pub title: String,
    pub category_id: i32,
    pub author: String,
    pub list_price: i64,
    pub stock_quantity: i32,
}

/// A promotional rule. Every condition and both discount modes are optional;
/// `crate::controllers::functions` gives the combinations their meaning.
#[derive(Debug, Clone, PartialEq, Eq)]
pub struct Campaign {
    pub id: i32,
    pub description: String,
    pub min_purchase_price: Option<i64>,
    pub min_purchase_quantity: Option<i32>,
    pub discount_quantity: Option<i32>,
    pub discount_percent: Option<i32>,
    pub rule_author: Option<String>,
    pub rule_category: Option<String>,
}

/// A stored order: its total before discount, what is charged, and the
/// campaign that gave the discount, if any.
#[derive(Debug, Clone, PartialEq, Eq)]
pub struct Order {
    pub id: i32,
    pub price_without_discount: i64,
    pub discounted_price: i64,
    pub campaign_id: Option<i32>,
    pub user_id: i32,
}

/// A line of an order: the order and one of its products.
#[derive(Debug, Clone, Copy, PartialEq, Eq)]
pub struct OrderToProduct {
    pub order_id: i32,
    pub product_id: i32,
}

impl Product {
    /// A product is well formed when neither its price nor its stock is negative.
    pub open spec fn wf(self) -> bool {
        self.list_price >= 0 && self.stock_quantity >= 0
    }

    /// Tells whether the product is well formed.
    pub fn is_well_formed(&self) -> (ok: bool)
        ensures
            ok == self.wf(),
    {
        self.list_price >= 0 && self.stock_quantity >= 0
    }
}

impl Campaign {
    /// A campaign is well formed when its thresholds and discount quantity are
    /// not negative and its percentage lies between 0 and 100.
    pub open spec fn wf(self) -> bool {
        &&& self.min_purchase_price matches Some(p) ==> p >= 0
        &&& self.min_purchase_quantity matches Some(q) ==> q >= 0
        &&& self.discount_quantity matches Some(q) ==> q >= 0
        &&& self.discount_percent matches Some(p) ==> 0 <= p <= 100
    }

    /// Tells whether the campaign is well formed.
    pub fn is_well_formed(&self) -> (ok: bool)
        ensures
            ok == self.wf(),
    {
        let price_ok = match self.min_purchase_price {
            Some(p) => p >= 0,
            None => true,
        };
        let min_quantity_ok = match self.min_purchase_quantity {
            Some(q) => q >= 0,
            None => true,
        };
        let quantity_ok = match self.discount_quantity {
            Some(q) => q >= 0,
            None => true,
        };
        let percent_ok = match self.discount_percent {
            Some(p) => 0 <= p && p <= 100,
            None => true,
        };
        price_ok && min_quantity_ok && quantity_ok && percent_ok
    }
}

} // verus!
