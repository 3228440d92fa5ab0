//! Campaigns as an administrator enters them.

use crate::insertables::NewCampaign;
use vstd::prelude::*;

verus! {

/// Prepares the row for a new campaign.
pub fn insert_new_campaign(
    _description: &str,
    _min_purchase_price: i64,
    _min_purchase_quantity: i32,
    _discount_quantity: i32,
    _discount_percent: i32,
    _rule_author: &str,
    _rule_category: &str,
) -> (new_campaign: NewCampaign)
    ensures
        new_campaign.description@ == _description@,
        new_campaign.min_purchase_price == _min_purchase_price,
        new_campaign.min_purchase_quantity == _min_purchase_quantity,
        new_campaign.discount_quantity == _discount_quantity,
        new_campaign.discount_percent == _discount_percent,
        new_campaign.rule_author@ == _rule_author@,
        new_campaign.rule_category@ == _rule_category@,
{
    NewCampaign {
        description: _description.to_owned(),
        min_purchase_price: _min_purchase_price,
        min_purchase_quantity: _min_purchase_quantity,
        discount_quantity: _discount_quantity,
        discount_percent: _discount_percent,
        rule_author: _rule_author.to_owned(),
        rule_category: _rule_category.to_owned(),
    }
}

} // verus!
