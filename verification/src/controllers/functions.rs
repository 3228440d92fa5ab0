//! Campaign rules: which campaigns a cart qualifies for, and what each one
//! leaves of the total.

use crate::controllers::orders::ProductWithCategory;
use crate::models::Campaign;
use crate::money::{
    apply_percent, ascending, insert_ascending, lemma_ascending_is_total,
    lemma_percent_discounted, lemma_sum_bounds, lemma_sum_permutation,
    lemma_sum_take_monotone, lemma_sum_take_next, percent_discounted, sum, sum_prefix,
};
use crate::sequences::{lemma_filter_all, lemma_filter_take_next};
use vstd::prelude::*;
use vstd::relations::sorted_by;

verus! {

/// The campaign's author condition admits the line. A campaign without an
/// author condition admits every line.
pub open spec fn author_in_scope(campaign: Campaign, line: ProductWithCategory) -> bool {
    campaign.rule_author matches Some(author) ==> line.product.author@ == author@
}

/// The campaign's category condition admits the line. A campaign without a
/// category condition admits every line.
pub open spec fn category_in_scope(campaign: Campaign, line: ProductWithCategory) -> bool {
    campaign.rule_category matches Some(category) ==> line.category_title@ == category@
}

/// The line counts towards the campaign.
pub open spec fn in_scope(campaign: Campaign, line: ProductWithCategory) -> bool {
    author_in_scope(campaign, line) && category_in_scope(campaign, line)
}

/// The lines of the cart that count towards the campaign, in cart order.
pub open spec fn scoped_lines(campaign: Campaign, cart: Seq<ProductWithCategory>) -> Seq<
    ProductWithCategory,
> {
    cart.filter(|line: ProductWithCategory| in_scope(campaign, line))
}

/// The list prices of the lines, in order.
pub open spec fn line_prices(cart: Seq<ProductWithCategory>) -> Seq<i64> {
    cart.map_values(|line: ProductWithCategory| line.product.list_price)
}

/// The sum of the list prices of the cart's lines.
pub open spec fn subtotal(cart: Seq<ProductWithCategory>) -> int {
    sum(line_prices(cart))
}

/// The campaign names a discount, by percentage or by quantity.
pub open spec fn carries_discount(campaign: Campaign) -> bool {
    campaign.discount_percent is Some || campaign.discount_quantity is Some
}

/// The quantity rule: the campaign sets a minimum quantity and a discount, and
/// at least that many lines of the cart count towards it.
pub open spec fn quantity_rule_met(campaign: Campaign, cart: Seq<ProductWithCategory>) -> bool {
    &&& campaign.min_purchase_quantity matches Some(min)
    &&& carries_discount(campaign)
    &&& scoped_lines(campaign, cart).len() >= min
}

/// The price rule: the campaign sets a minimum purchase price and the cart's
/// subtotal reaches it, whatever the quantity and whichever lines are in scope.
pub open spec fn price_rule_met(campaign: Campaign, cart: Seq<ProductWithCategory>) -> bool {
    campaign.min_purchase_price matches Some(min) && subtotal(cart) >= min
}

/// The cart satisfies the campaign's conditions.
pub open spec fn eligible(campaign: Campaign, cart: Seq<ProductWithCategory>) -> bool {
    quantity_rule_met(campaign, cart) || price_rule_met(campaign, cart)
}

/// The campaign applies to the cart: its conditions are satisfied and it names a discount.
pub open spec fn available(campaign: Campaign, cart: Seq<ProductWithCategory>) -> bool {
    eligible(campaign, cart) && carries_discount(campaign)
}

/// The campaigns that apply to the cart, in their given order.
pub open spec fn available_campaigns(
    campaigns: Seq<Campaign>,
    cart: Seq<ProductWithCategory>,
) -> Seq<Campaign> {
    campaigns.filter(|campaign: Campaign| available(campaign, cart))
}

/// The list prices of the lines that count towards the campaign, in cart order.
pub open spec fn scoped_prices(campaign: Campaign, cart: Seq<ProductWithCategory>) -> Seq<i64> {
    line_prices(scoped_lines(campaign, cart))
}

/// How many lines a quantity discount covers: `quantity` of the `lines` lines
/// in scope, or all of them when there are no more than that. A negative
/// quantity sets no limit.
pub open spec fn covered_count(quantity: int, lines: nat) -> nat {
    if 0 <= quantity < lines {
        quantity as nat
    } else {
        lines
    }
}

/// The sum of the `count` lowest of the prices.
pub open spec fn cheapest_total(prices: Seq<i64>, count: nat) -> int {
    sum(prices.sort_by(ascending()).take(count as int))
}

/// What the campaign leaves of `total` for this cart. A percentage takes
/// precedence over a quantity; a quantity discount takes off the cheapest
/// lines in scope; a campaign that names neither yields zero.
pub open spec fn discounted_total(
    campaign: Campaign,
    cart: Seq<ProductWithCategory>,
    total: int,
) -> int {
    match (campaign.discount_percent, campaign.discount_quantity) {
        (Some(percent), _) => percent_discounted(total, percent as int),
        (None, Some(quantity)) => {
            let prices = scoped_prices(campaign, cart);
            total - cheapest_total(prices, covered_count(quantity as int, prices.len()))
        },
        (None, None) => 0,
    }
}

/// What each of the campaigns leaves of `total`, in the campaigns' order.
pub open spec fn discounted_totals(
    campaigns: Seq<Campaign>,
    cart: Seq<ProductWithCategory>,
    total: int,
) -> Seq<int> {
    campaigns.map_values(|campaign: Campaign| discounted_total(campaign, cart, total))
}

/// The position of the lowest value; of several equal lowest values, the first.
pub open spec fn first_lowest(values: Seq<int>) -> int
    decreases values.len(),
{
    if values.len() <= 1 {
        0
    } else {
        let earlier = first_lowest(values.drop_last());
        if values.last() < values[earlier] {
            values.len() - 1
        } else {
            earlier
        }
    }
}

/// The best price for the cart and the campaign that gives it: the lowest
/// discounted total among the campaigns that apply, the earliest campaign
/// winning a tie; the undiscounted total and no campaign when none applies.
pub open spec fn best_offer(
    campaigns: Seq<Campaign>,
    cart: Seq<ProductWithCategory>,
    total: int,
) -> (int, Option<i32>) {
    let offers = available_campaigns(campaigns, cart);
    if offers.len() == 0 {
        (total, None)
    } else {
        let prices = discounted_totals(offers, cart, total);
        let winner = first_lowest(prices);
        (prices[winner], Some(offers[winner].id))
    }
}

proof fn lemma_subtotal_take_next(cart: Seq<ProductWithCategory>, n: int)
    requires
        0 <= n < cart.len(),
    ensures
        subtotal(cart.take(n + 1)) == subtotal(cart.take(n)) + cart[n].product.list_price,
{
    assert(line_prices(cart.take(n + 1)).drop_last() =~= line_prices(cart.take(n)));
}

/// Tells whether a cart line counts towards a campaign.
pub fn line_in_scope(campaign: &Campaign, line: &ProductWithCategory) -> (scoped: bool)
    ensures
        scoped == in_scope(*campaign, *line),
{
    let author_ok = match &campaign.rule_author {
        Some(author) => line.product.author == *author,
        None => true,
    };
    let category_ok = match &campaign.rule_category {
        Some(category) => line.category_title == *category,
        None => true,
    };
    author_ok && category_ok
}

/// Counts the cart lines that count towards a campaign.
pub fn count_in_scope(campaign: &Campaign, products: &Vec<ProductWithCategory>) -> (count: usize)
    ensures
        count == scoped_lines(*campaign, products@).len(),
{
    let ghost keep = |line: ProductWithCategory| in_scope(*campaign, line);
    let mut count: usize = 0;
    let mut i: usize = 0;
    proof {
        reveal(Seq::filter);
        assert(products@.take(0) =~= Seq::<ProductWithCategory>::empty());
    }
    while i < products.len()
        invariant
            i <= products.len(),
            count <= i,
            keep == |line: ProductWithCategory| in_scope(*campaign, line),
            count == products@.take(i as int).filter(keep).len(),
        decreases products.len() - i,
    {
        proof {
            lemma_filter_take_next(products@, keep, i as int);
        }
        if line_in_scope(campaign, &products[i]) {
            count = count + 1;
        }
        i = i + 1;
    }
    proof {
        assert(products@.take(products.len() as int) =~= products@);
    }
    count
}

/// Adds up the list prices of the cart's lines.
pub fn cart_subtotal(products: &Vec<ProductWithCategory>) -> (total: i128)
    ensures
        total == subtotal(products@),
{
    let mut total: i128 = 0;
    let mut i: usize = 0;
    proof {
        assert(line_prices(products@.take(0)) =~= Seq::<i64>::empty());
    }
    while i < products.len()
        invariant
            i <= products.len(),
            total == subtotal(products@.take(i as int)),
            i * i64::MIN <= total <= i * i64::MAX,
        decreases products.len() - i,
    {
        proof {
            lemma_subtotal_take_next(products@, i as int);
        }
        total = total + products[i].product.list_price as i128;
        i = i + 1;
    }
    proof {
        assert(products@.take(products.len() as int) =~= products@);
    }
    total
}

/// Decides whether the cart satisfies the campaign's conditions.
pub fn is_eligible(campaign: &Campaign, products: &Vec<ProductWithCategory>) -> (ok: bool)
    ensures
        ok == eligible(*campaign, products@),
{
    let by_quantity = match campaign.min_purchase_quantity {
        Some(min) => {
            (campaign.discount_percent.is_some() || campaign.discount_quantity.is_some()) && (min
                < 0 || count_in_scope(campaign, products) as u64 >= min as u64)
        },
        None => false,
    };
    let by_price = match campaign.min_purchase_price {
        Some(min) => cart_subtotal(products) >= min as i128,
        None => false,
    };
    by_quantity || by_price
}

/// Decides whether the campaign applies to the cart.
pub fn is_available(campaign: &Campaign, products: &Vec<ProductWithCategory>) -> (ok: bool)
    ensures
        ok == available(*campaign, products@),
{
    (campaign.discount_percent.is_some() || campaign.discount_quantity.is_some()) && is_eligible(
        campaign,
        products,
    )
}

/// Keeps, in order, the campaigns that apply to the cart: those whose
/// conditions the cart satisfies and that name a discount.
pub fn get_available_campaigns(
    campaigns: Vec<Campaign>,
    products: &mut Vec<ProductWithCategory>,
) -> (kept: Vec<Campaign>)
    ensures
        kept@ == available_campaigns(campaigns@, old(products)@),
        *final(products) == *old(products),
{
    let ghost keep = |campaign: Campaign| available(campaign, products@);
    let mut kept: Vec<Campaign> = Vec::new();
    proof {
        reveal(Seq::filter);
        assert(campaigns@.take(0) =~= Seq::<Campaign>::empty());
    }
    for campaign in it: campaigns
        invariant
            *products == *old(products),
            it.seq() == campaigns@,
            keep == |campaign: Campaign| available(campaign, products@),
            kept@ == campaigns@.take(it.index() as int).filter(keep),
    {
        proof {
            lemma_filter_take_next(campaigns@, keep, it.index() as int);
        }
        if is_available(&campaign, products) {
            kept.push(campaign);
        }
    }
    proof {
        assert(campaigns@.take(campaigns@.len() as int) =~= campaigns@);
    }
    kept
}

proof fn lemma_scoped_prices_take_next(campaign: Campaign, cart: Seq<ProductWithCategory>, n: int)
    requires
        0 <= n < cart.len(),
    ensures
        scoped_prices(campaign, cart.take(n + 1)) == if in_scope(campaign, cart[n]) {
            scoped_prices(campaign, cart.take(n)).push(cart[n].product.list_price)
        } else {
            scoped_prices(campaign, cart.take(n))
        },
{
    let keep = |line: ProductWithCategory| in_scope(campaign, line);
    lemma_filter_take_next(cart, keep, n);
    if in_scope(campaign, cart[n]) {
        assert(line_prices(cart.take(n).filter(keep).push(cart[n])) =~= line_prices(
            cart.take(n).filter(keep),
        ).push(cart[n].product.list_price));
    }
}

/// Lists the prices of the lines that count towards the campaign, cheapest first.
pub fn scoped_prices_ascending(campaign: &Campaign, products: &Vec<ProductWithCategory>) -> (prices:
    Vec<i64>)
    ensures
        prices@ == scoped_prices(*campaign, products@).sort_by(ascending()),
{
    let mut prices: Vec<i64> = Vec::new();
    let mut i: usize = 0;
    proof {
        reveal(Seq::filter);
        assert(products@.take(0) =~= Seq::<ProductWithCategory>::empty());
        assert(scoped_prices(*campaign, products@.take(0)) =~= Seq::<i64>::empty());
    }
    while i < products.len()
        invariant
            i <= products.len(),
            sorted_by(prices@, ascending()),
            prices@.to_multiset() == scoped_prices(
                *campaign,
                products@.take(i as int),
            ).to_multiset(),
        decreases products.len() - i,
    {
        proof {
            lemma_scoped_prices_take_next(*campaign, products@, i as int);
            vstd::seq_lib::to_multiset_build(
                scoped_prices(*campaign, products@.take(i as int)),
                products@[i as int].product.list_price,
            );
        }
        if line_in_scope(campaign, &products[i]) {
            insert_ascending(&mut prices, products[i].product.list_price);
        }
        i = i + 1;
    }
    proof {
        assert(products@.take(products.len() as int) =~= products@);
        lemma_cheapest_total_of_sorted(scoped_prices(*campaign, products@), prices@, 0);
    }
    prices
}

/// Computes what the campaign leaves of `total_price` for this cart: the
/// total less the percentage, if the campaign names one; else the total less
/// the cheapest lines in scope, as many as the campaign's quantity says; else
/// zero.
pub fn get_discounted_total_price(
    campaign: &Campaign,
    products: &mut Vec<ProductWithCategory>,
    total_price: i64,
) -> (discounted_price: i128)
    ensures
        discounted_price == discounted_total(*campaign, old(products)@, total_price as int),
        *final(products) == *old(products),
{
    if let Some(percent) = campaign.discount_percent {
        apply_percent(total_price, percent)
    } else if let Some(quantity) = campaign.discount_quantity {
        let prices = scoped_prices_ascending(campaign, products);
        let covered: usize = if 0 <= quantity && (quantity as u64) < prices.len() as u64 {
            quantity as usize
        } else {
            prices.len()
        };
        let cheapest: i128 = sum_prefix(&prices, covered);
        proof {
            let unsorted = scoped_prices(*campaign, products@);
            lemma_ascending_is_total();
            unsorted.lemma_sort_by_ensures(ascending());
            vstd::seq_lib::to_multiset_len(unsorted);
            vstd::seq_lib::to_multiset_len(prices@);
            lemma_sum_bounds(prices@.take(covered as int));
        }
        total_price as i128 - cheapest
    } else {
        0
    }
}

/// `first_lowest` names a position that holds the lowest value, and no earlier
/// position holds a value as low.
pub proof fn lemma_first_lowest(values: Seq<int>)
    requires
        values.len() > 0,
    ensures
        0 <= first_lowest(values) < values.len(),
        forall|i: int|
            0 <= i < values.len() ==> values[first_lowest(values)] <= #[trigger] values[i],
        forall|i: int|
            0 <= i < first_lowest(values) ==> values[first_lowest(values)] < #[trigger] values[i],
    decreases values.len(),
{
    if values.len() > 1 {
        let front = values.drop_last();
        lemma_first_lowest(front);
        assert forall|i: int| 0 <= i < values.len() implies values[first_lowest(values)]
            <= #[trigger] values[i] by {
            if i < front.len() {
                assert(front[i] == values[i]);
            }
        }
        assert forall|i: int| 0 <= i < first_lowest(values) implies values[first_lowest(values)]
            < #[trigger] values[i] by {
            assert(front[i] == values[i]);
        }
    }
}

proof fn lemma_discounted_totals_push(
    campaigns: Seq<Campaign>,
    campaign: Campaign,
    cart: Seq<ProductWithCategory>,
    total: int,
)
    ensures
        discounted_totals(campaigns.push(campaign), cart, total) == discounted_totals(
            campaigns,
            cart,
            total,
        ).push(discounted_total(campaign, cart, total)),
{
    assert(discounted_totals(campaigns.push(campaign), cart, total) =~= discounted_totals(
        campaigns,
        cart,
        total,
    ).push(discounted_total(campaign, cart, total)));
}

/// Picks the best offer for the cart: the lowest discounted total among the
/// campaigns that apply and the identity of the first campaign that yields
/// it, or the undiscounted total and no campaign when none applies.
pub fn select_best(
    campaigns: &Vec<Campaign>,
    products: &mut Vec<ProductWithCategory>,
    total_price: i64,
) -> (best: (i128, Option<i32>))
    ensures
        (best.0 as int, best.1) == best_offer(campaigns@, old(products)@, total_price as int),
        *final(products) == *old(products),
{
    let ghost keep = |campaign: Campaign| available(campaign, products@);
    let ghost mut offers: Seq<Campaign> = Seq::empty();
    let ghost mut winner: int = 0;
    let mut best_price: i128 = total_price as i128;
    let mut best_id: Option<i32> = None;
    let mut i: usize = 0;
    proof {
        reveal(Seq::filter);
        assert(campaigns@.take(0) =~= Seq::<Campaign>::empty());
    }
    while i < campaigns.len()
        invariant
            i <= campaigns.len(),
            *products == *old(products),
            keep == |campaign: Campaign| available(campaign, products@),
            offers == campaigns@.take(i as int).filter(keep),
            offers.len() == 0 ==> best_price == total_price && best_id is None,
            offers.len() > 0 ==> {
                let prices = discounted_totals(offers, products@, total_price as int);
                &&& winner == first_lowest(prices)
                &&& 0 <= winner < offers.len()
                &&& best_price == prices[winner]
                &&& best_id == Some(offers[winner].id)
            },
        decreases campaigns.len() - i,
    {
        proof {
            lemma_filter_take_next(campaigns@, keep, i as int);
        }
        if is_available(&campaigns[i], products) {
            let price: i128 = get_discounted_total_price(&campaigns[i], products, total_price);
            proof {
                let prices = discounted_totals(offers, products@, total_price as int);
                lemma_discounted_totals_push(
                    offers,
                    campaigns@[i as int],
                    products@,
                    total_price as int,
                );
                assert(prices.push(price as int).drop_last() =~= prices);
            }
            if best_id.is_none() || price < best_price {
                best_price = price;
                best_id = Some(campaigns[i].id);
                proof {
                    winner = offers.len() as int;
                }
            }
            proof {
                offers = offers.push(campaigns@[i as int]);
            }
        }
        i = i + 1;
    }
    proof {
        assert(campaigns@.take(campaigns.len() as int) =~= campaigns@);
    }
    (best_price, best_id)
}

/// A campaign scoped to an author and a category applies by quantity when
/// enough lines carry both that author and that category.
pub open spec fn author_and_category_rule_met(
    campaign: Campaign,
    cart: Seq<ProductWithCategory>,
) -> bool {
    &&& campaign.rule_author matches Some(author)
    &&& campaign.rule_category matches Some(category)
    &&& campaign.min_purchase_quantity matches Some(min)
    &&& carries_discount(campaign)
    &&& cart.filter(
        |line: ProductWithCategory|
            line.product.author@ == author@ && line.category_title@ == category@,
    ).len() >= min
}

/// A campaign scoped to a category alone applies by quantity when enough
/// lines carry that category.
pub open spec fn category_rule_met(campaign: Campaign, cart: Seq<ProductWithCategory>) -> bool {
    &&& campaign.rule_author is None
    &&& campaign.rule_category matches Some(category)
    &&& campaign.min_purchase_quantity matches Some(min)
    &&& carries_discount(campaign)
    &&& cart.filter(|line: ProductWithCategory| line.category_title@ == category@).len() >= min
}

/// A campaign scoped to an author alone applies by quantity when enough lines
/// carry that author.
pub open spec fn author_rule_met(campaign: Campaign, cart: Seq<ProductWithCategory>) -> bool {
    &&& campaign.rule_author matches Some(author)
    &&& campaign.rule_category is None
    &&& campaign.min_purchase_quantity matches Some(min)
    &&& carries_discount(campaign)
    &&& cart.filter(|line: ProductWithCategory| line.product.author@ == author@).len() >= min
}

/// A campaign without scope applies by quantity when the cart has enough lines.
pub open spec fn unscoped_rule_met(campaign: Campaign, cart: Seq<ProductWithCategory>) -> bool {
    &&& campaign.rule_author is None
    &&& campaign.rule_category is None
    &&& campaign.min_purchase_quantity matches Some(min)
    &&& carries_discount(campaign)
    &&& cart.len() >= min
}

/// The conditions of a campaign come in five shapes, by which of its fields
/// are set: scoped to an author and a category, to a category, to an author,
/// or to nothing, each by quantity; and by price. A cart is eligible exactly
/// when it satisfies at least one of them.
pub proof fn lemma_eligible_by_shape(campaign: Campaign, cart: Seq<ProductWithCategory>)
    ensures
        eligible(campaign, cart) <==> {
            ||| author_and_category_rule_met(campaign, cart)
            ||| category_rule_met(campaign, cart)
            ||| author_rule_met(campaign, cart)
            ||| unscoped_rule_met(campaign, cart)
            ||| price_rule_met(campaign, cart)
        },
{
    let scoped = |line: ProductWithCategory| in_scope(campaign, line);
    match (campaign.rule_author, campaign.rule_category) {
        (Some(author), Some(category)) => {
            assert(scoped =~= (|line: ProductWithCategory|
                line.product.author@ == author@ && line.category_title@ == category@));
        },
        (None, Some(category)) => {
            assert(scoped =~= (|line: ProductWithCategory| line.category_title@ == category@));
        },
        (Some(author), None) => {
            assert(scoped =~= (|line: ProductWithCategory| line.product.author@ == author@));
        },
        (None, None) => {
            lemma_filter_all(cart, scoped);
        },
    }
}

/// A campaign that names a percentage leaves `total * (1 - percent / 100)`,
/// whatever else it names and whatever the cart holds: to within less than
/// one micro-unit always, and exactly whenever that value is a whole number
/// of micro-units. For a percentage between 0 and 100 and a total that is
/// not negative, the result lies between zero and the total.
pub proof fn lemma_percent_discount(campaign: Campaign, cart: Seq<ProductWithCategory>, total: int)
    requires
        campaign.discount_percent is Some,
    ensures
        ({
            let percent = campaign.discount_percent->0 as int;
            let discounted = discounted_total(campaign, cart, total);
            &&& discounted == percent_discounted(total, percent)
            &&& -100 < 100 * discounted - total * (100 - percent) < 100
            &&& (total * percent) % 100 == 0 ==> 100 * discounted == total * (100 - percent)
            &&& 0 <= percent <= 100 && 0 <= total ==> 0 <= discounted <= total
        }),
{
    lemma_percent_discounted(total, campaign.discount_percent->0 as int);
}

proof fn lemma_scoped_prices_not_negative(campaign: Campaign, cart: Seq<ProductWithCategory>)
    requires
        forall|i: int| 0 <= i < cart.len() ==> (#[trigger] cart[i]).product.wf(),
    ensures
        forall|i: int|
            0 <= i < scoped_prices(campaign, cart).len() ==> #[trigger] scoped_prices(
                campaign,
                cart,
            )[i] >= 0,
{
    let keep = |line: ProductWithCategory| in_scope(campaign, line);
    let lines = cart.filter(keep);
    let prices = scoped_prices(campaign, cart);
    assert forall|i: int| 0 <= i < prices.len() implies #[trigger] prices[i] >= 0 by {
        assert(lines.contains(lines[i]));
        cart.lemma_filter_contains_rev(keep, lines[i]);
        let j = choose|j: int| 0 <= j < cart.len() && cart[j] == lines[i];
        assert(cart[j].product.wf());
    }
}

proof fn lemma_sorted_not_negative(prices: Seq<i64>)
    requires
        forall|i: int| 0 <= i < prices.len() ==> #[trigger] prices[i] >= 0,
    ensures
        forall|i: int|
            0 <= i < prices.sort_by(ascending()).len() ==> #[trigger] prices.sort_by(
                ascending(),
            )[i] >= 0,
        prices.sort_by(ascending()).len() == prices.len(),
        sum(prices.sort_by(ascending())) == sum(prices),
        sorted_by(prices.sort_by(ascending()), ascending()),
{
    let sorted = prices.sort_by(ascending());
    lemma_ascending_is_total();
    prices.lemma_sort_by_ensures(ascending());
    vstd::seq_lib::to_multiset_len(prices);
    vstd::seq_lib::to_multiset_len(sorted);
    lemma_sum_permutation(prices, sorted);
    assert forall|i: int| 0 <= i < sorted.len() implies #[trigger] sorted[i] >= 0 by {
        assert(sorted.contains(sorted[i]));
        assert(prices.contains(sorted[i]));
        let j = choose|j: int| 0 <= j < prices.len() && prices[j] == sorted[i];
        assert(prices[j] >= 0);
    }
}

/// The cheapest prices can be read off any ascending arrangement of the
/// prices: their total is the sum of its first `count` entries.
pub proof fn lemma_cheapest_total_of_sorted(prices: Seq<i64>, sorted: Seq<i64>, count: nat)
    requires
        sorted_by(sorted, ascending()),
        sorted.to_multiset() == prices.to_multiset(),
    ensures
        prices.sort_by(ascending()) == sorted,
        cheapest_total(prices, count) == sum(sorted.take(count as int)),
{
    lemma_ascending_is_total();
    prices.lemma_sort_by_ensures(ascending());
    vstd::seq_lib::lemma_sorted_unique(sorted, prices.sort_by(ascending()), ascending());
}

/// The sum of the single lowest price is the lowest price: it is one of the
/// prices, and none of them is below it.
pub proof fn lemma_cheapest_single(prices: Seq<i64>)
    requires
        prices.len() > 0,
    ensures
        exists|i: int| 0 <= i < prices.len() && #[trigger] prices[i] == cheapest_total(prices, 1),
        forall|i: int| 0 <= i < prices.len() ==> cheapest_total(prices, 1) <= #[trigger] prices[i],
{
    let sorted = prices.sort_by(ascending());
    lemma_ascending_is_total();
    prices.lemma_sort_by_ensures(ascending());
    vstd::seq_lib::to_multiset_len(prices);
    vstd::seq_lib::to_multiset_len(sorted);
    broadcast use vstd::seq_lib::to_multiset_contains;

    assert(sorted.take(0) =~= Seq::<i64>::empty());
    lemma_sum_take_next(sorted, 0);
    assert(sum(sorted.take(1)) == sorted[0]);
    assert(sorted.contains(sorted[0]));
    assert(prices.contains(sorted[0]));
    let at = choose|j: int| 0 <= j < prices.len() && prices[j] == sorted[0];
    assert(prices[at] == cheapest_total(prices, 1));
    assert forall|i: int| 0 <= i < prices.len() implies cheapest_total(prices, 1)
        <= #[trigger] prices[i] by {
        assert(prices.contains(prices[i]));
        assert(prices.to_multiset().count(prices[i]) > 0);
        assert(sorted.contains(prices[i]));
        let j = choose|j: int| 0 <= j < sorted.len() && sorted[j] == prices[i];
        if j > 0 {
            assert(ascending()(sorted[0], sorted[j]));
        }
    }
}

/// A quantity discount on well-formed products takes off at least the price
/// of the cheapest line in scope, when there is one and the quantity is not
/// zero, and never more than all the lines in scope together.
pub proof fn lemma_quantity_discount_bounds(
    campaign: Campaign,
    cart: Seq<ProductWithCategory>,
    total: int,
)
    requires
        campaign.discount_percent is None,
        campaign.discount_quantity is Some,
        forall|i: int| 0 <= i < cart.len() ==> (#[trigger] cart[i]).product.wf(),
    ensures
        ({
            let prices = scoped_prices(campaign, cart);
            let discounted = discounted_total(campaign, cart, total);
            &&& total - sum(prices) <= discounted <= total
            &&& prices.len() > 0 && campaign.discount_quantity->0 != 0 ==> discounted <= total
                - cheapest_total(prices, 1)
        }),
{
    let prices = scoped_prices(campaign, cart);
    let sorted = prices.sort_by(ascending());
    let covered = covered_count(campaign.discount_quantity->0 as int, prices.len());
    lemma_scoped_prices_not_negative(campaign, cart);
    lemma_sorted_not_negative(prices);
    lemma_sum_take_monotone(sorted, covered as int, sorted.len() as int);
    assert(sorted.take(sorted.len() as int) =~= sorted);
    if prices.len() > 0 && campaign.discount_quantity->0 != 0 {
        lemma_sum_take_monotone(sorted, 1, covered as int);
    }
}

/// The best offer is the lowest of the discounted totals of the campaigns
/// that apply, and it names the first campaign that yields it.
pub proof fn lemma_best_offer_is_lowest(
    campaigns: Seq<Campaign>,
    cart: Seq<ProductWithCategory>,
    total: int,
)
    requires
        available_campaigns(campaigns, cart).len() > 0,
    ensures
        ({
            let offers = available_campaigns(campaigns, cart);
            let best = best_offer(campaigns, cart, total);
            &&& forall|i: int|
                0 <= i < offers.len() ==> best.0 <= discounted_total(
                    #[trigger] offers[i],
                    cart,
                    total,
                )
            &&& exists|i: int|
                0 <= i < offers.len() && best.0 == discounted_total(
                    #[trigger] offers[i],
                    cart,
                    total,
                ) && best.1 == Some(offers[i].id) && forall|j: int|
                    0 <= j < i ==> best.0 < discounted_total(#[trigger] offers[j], cart, total)
        }),
{
    let offers = available_campaigns(campaigns, cart);
    let prices = discounted_totals(offers, cart, total);
    lemma_first_lowest(prices);
    let winner = first_lowest(prices);
    assert forall|i: int| 0 <= i < offers.len() implies prices[winner] <= discounted_total(
        #[trigger] offers[i],
        cart,
        total,
    ) by {
        assert(prices[i] == discounted_total(offers[i], cart, total));
    }
    assert forall|j: int| 0 <= j < winner implies prices[winner] < discounted_total(
        #[trigger] offers[j],
        cart,
        total,
    ) by {
        assert(prices[j] == discounted_total(offers[j], cart, total));
    }
    assert(prices[winner] == discounted_total(offers[winner], cart, total));
}

/// With well-formed campaigns and products and a total that is not negative,
/// the best offer is never above the total.
pub proof fn lemma_best_offer_not_above_total(
    campaigns: Seq<Campaign>,
    cart: Seq<ProductWithCategory>,
    total: int,
)
    requires
        forall|i: int| 0 <= i < campaigns.len() ==> (#[trigger] campaigns[i]).wf(),
        forall|i: int| 0 <= i < cart.len() ==> (#[trigger] cart[i]).product.wf(),
        0 <= total,
    ensures
        best_offer(campaigns, cart, total).0 <= total,
{
    let keep = |campaign: Campaign| available(campaign, cart);
    let offers = campaigns.filter(keep);
    if offers.len() > 0 {
        let prices = discounted_totals(offers, cart, total);
        lemma_first_lowest(prices);
        let winner = first_lowest(prices);
        let campaign = offers[winner];
        assert(offers.contains(campaign));
        campaigns.lemma_filter_contains_rev(keep, campaign);
        let at = choose|j: int| 0 <= j < campaigns.len() && campaigns[j] == campaign;
        assert(campaigns[at].wf());
        if campaign.discount_percent is Some {
            lemma_percent_discount(campaign, cart, total);
        } else if campaign.discount_quantity is Some {
            lemma_quantity_discount_bounds(campaign, cart, total);
        }
    }
}

/// Evaluation has no hidden state: what applies and what it leaves depend on
/// the campaigns, the cart and the total alone, so two evaluations agree; and
/// evaluating the campaigns that apply once more keeps them all.
pub proof fn lemma_evaluation_repeatable(
    campaigns: Seq<Campaign>,
    cart: Seq<ProductWithCategory>,
    total: int,
    first: (Seq<Campaign>, Seq<int>),
    second: (Seq<Campaign>, Seq<int>),
)
    requires
        first.0 == available_campaigns(campaigns, cart),
        first.1 == discounted_totals(first.0, cart, total),
        second.0 == available_campaigns(campaigns, cart),
        second.1 == discounted_totals(second.0, cart, total),
    ensures
        first == second,
        available_campaigns(first.0, cart) == first.0,
{
    let keep = |campaign: Campaign| available(campaign, cart);
    broadcast use vstd::seq_lib::group_filter_ensures;

    assert forall|i: int| 0 <= i < first.0.len() implies keep(#[trigger] first.0[i]) by {}
    lemma_filter_all(first.0, keep);
}

} // verus!
