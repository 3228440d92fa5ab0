//! Orders: the cart lines an order is priced from, and the pricing itself.

use crate::controllers::functions::{
    available_campaigns, best_offer, cart_subtotal, lemma_best_offer_not_above_total,
    line_prices, select_best, subtotal,
};
use crate::controllers::products::CategoryTitle;
use crate::insertables::NewOrder;
use crate::models::{Campaign, Product};
use crate::money::{
    add_shipping, lemma_round_to_millis_monotone, lemma_round_to_millis_nearest, round_to_millis,
    round_to_three_decimals, with_shipping,
};
use crate::sequences::lemma_filter_take_next;
use vstd::prelude::*;

verus! {

/// A cart line: a product together with the title of its category.
#[derive(Debug, Clone, PartialEq, Eq)]
pub struct ProductWithCategory {
    pub product: Product,
    pub category_title: String,
}

/// An order joined with the name of its user and the description of its campaign.
#[derive(Debug, Clone, PartialEq, Eq)]
pub struct OrderWithFields {
    pub id: i32,
    pub price_without_discount: i64,
    pub discounted_price: i64,
    pub campaign_id: Option<i32>,
    pub user_id: i32,
    pub username: String,
    pub campaign_description: Option<String>,
}

/// The user of an order, as the order shows it.
#[derive(Debug, Clone, PartialEq, Eq)]
pub struct UserName {
    pub username: String,
}

/// The campaign of an order, as the order shows it.
#[derive(Debug, Clone, PartialEq, Eq)]
pub struct CampaignDescription {
    pub description: String,
}

/// A product as an order shows it.
#[derive(Debug, Clone, PartialEq, Eq)]
pub struct ProductDetails {
    pub id: i32,
    pub title: String,
    pub author: String,
    pub list_price: i64,
    pub stock_quantity: i32,
    pub category: CategoryTitle,
}

/// An order as it is shown to the caller: its own fields, its user, its
/// campaign if it has one, and its products.
#[derive(Debug, Clone, PartialEq, Eq)]
pub struct OrderDetails {
    pub id: i32,
    pub price_without_discount: i64,
    pub discounted_price: i64,
    pub campaign_id: Option<i32>,
    pub user_id: i32,
    pub user: UserName,
    pub campaign: Option<CampaignDescription>,
    pub products: Vec<ProductDetails>,
}

/// A line of an order as the store returns it: the order's identity, the
/// product, and the title of the product's category.
pub type OrderLineRow = (i32, Product, String);

/// How an order shows a product with the given category title.
pub open spec fn product_details(product: Product, category_title: String) -> ProductDetails {
    ProductDetails {
        id: product.id,
        title: product.title,
        author: product.author,
        list_price: product.list_price,
        stock_quantity: product.stock_quantity,
        category: CategoryTitle { title: category_title },
    }
}

/// How an order shows each of the cart lines, in order.
pub open spec fn cart_details(cart: Seq<ProductWithCategory>) -> Seq<ProductDetails> {
    cart.map_values(|line: ProductWithCategory| product_details(line.product, line.category_title))
}

/// The test that a row belongs to the order.
pub open spec fn belongs_to(order_id: i32) -> spec_fn(OrderLineRow) -> bool {
    |row: OrderLineRow| row.0 == order_id
}

/// The rows that belong to the order, in order.
pub open spec fn rows_of_order(rows: Seq<OrderLineRow>, order_id: i32) -> Seq<OrderLineRow> {
    rows.filter(belongs_to(order_id))
}

/// How an order shows each of the rows, in order.
pub open spec fn row_details(rows: Seq<OrderLineRow>) -> Seq<ProductDetails> {
    rows.map_values(|row: OrderLineRow| product_details(row.1, row.2))
}

/// `details` shows the order `fields` with exactly the products `products`.
pub open spec fn shows(
    details: OrderDetails,
    fields: OrderWithFields,
    products: Seq<ProductDetails>,
) -> bool {
    &&& details.id == fields.id
    &&& details.price_without_discount == fields.price_without_discount
    &&& details.discounted_price == fields.discounted_price
    &&& details.campaign_id == fields.campaign_id
    &&& details.user_id == fields.user_id
    &&& details.user == UserName { username: fields.username }
    &&& details.campaign == match fields.campaign_description {
        Some(description) => Some(CampaignDescription { description }),
        None => None,
    }
    &&& details.products@ == products
}

/// The total before any campaign: the cart's subtotal, plus shipping when the
/// subtotal is below the free-shipping threshold.
pub open spec fn pre_discount_total(cart: Seq<ProductWithCategory>) -> int {
    with_shipping(subtotal(cart))
}

/// The amount can be stored in an `i64`.
pub open spec fn storable(amount: int) -> bool {
    i64::MIN <= amount <= i64::MAX
}

/// The order that a cart prices to: the total before any campaign and the
/// best offer for it, each rounded to three decimals, with the winning
/// campaign. There is none when a rounded total cannot be stored.
pub open spec fn priced_order(
    campaigns: Seq<Campaign>,
    cart: Seq<ProductWithCategory>,
    user_id: i32,
) -> Option<NewOrder> {
    let total = pre_discount_total(cart);
    let best = best_offer(campaigns, cart, total);
    if storable(round_to_millis(total)) && storable(round_to_millis(best.0)) {
        Some(
            NewOrder {
                price_without_discount: round_to_millis(total) as i64,
                discounted_price: round_to_millis(best.0) as i64,
                campaign_id: best.1,
                user_id,
            },
        )
    } else {
        None
    }
}

/// Computes the total before any campaign.
pub fn cart_total(products: &Vec<ProductWithCategory>) -> (total: i128)
    ensures
        total == pre_discount_total(products@),
{
    add_shipping(cart_subtotal(products))
}

/// Prices a cart for a user: totals the cart, picks the best offer among the
/// campaigns and rounds both totals for storage.
pub fn price_order(
    campaigns: &Vec<Campaign>,
    products: &mut Vec<ProductWithCategory>,
    user_id: i32,
) -> (order: Option<NewOrder>)
    ensures
        order == priced_order(campaigns@, old(products)@, user_id),
        *final(products) == *old(products),
{
    let total: i128 = cart_total(products);
    if total < i64::MIN as i128 || total > i64::MAX as i128 {
        return None;
    }
    let total: i64 = total as i64;
    let best = select_best(campaigns, products, total);
    if best.0 < i64::MIN as i128 || best.0 > i64::MAX as i128 {
        return None;
    }
    let rounded_total: i128 = round_to_three_decimals(total);
    let rounded_best: i128 = round_to_three_decimals(best.0 as i64);
    if rounded_total < i64::MIN as i128 || rounded_total > i64::MAX as i128 || rounded_best
        < i64::MIN as i128 || rounded_best > i64::MAX as i128 {
        return None;
    }
    Some(
        NewOrder {
            price_without_discount: rounded_total as i64,
            discounted_price: rounded_best as i64,
            campaign_id: best.1,
            user_id,
        },
    )
}

fn details_of(product: &Product, category_title: &String) -> (details: ProductDetails)
    ensures
        details == product_details(*product, *category_title),
{
    ProductDetails {
        id: product.id,
        title: product.title.clone(),
        author: product.author.clone(),
        list_price: product.list_price,
        stock_quantity: product.stock_quantity,
        category: CategoryTitle { title: category_title.clone() },
    }
}

fn with_products(order_with_fields: OrderWithFields, products: Vec<ProductDetails>) -> (order:
    OrderDetails)
    ensures
        shows(order, order_with_fields, products@),
{
    let campaign = match order_with_fields.campaign_description {
        Some(description) => Some(CampaignDescription { description }),
        None => None,
    };
    OrderDetails {
        id: order_with_fields.id,
        price_without_discount: order_with_fields.price_without_discount,
        discounted_price: order_with_fields.discounted_price,
        campaign_id: order_with_fields.campaign_id,
        user_id: order_with_fields.user_id,
        user: UserName { username: order_with_fields.username },
        campaign,
        products,
    }
}

/// Shows one order with the cart lines that were loaded for it.
pub fn get_order_by_id(
    order_with_fields: OrderWithFields,
    all_products: &Vec<ProductWithCategory>,
) -> (order: OrderDetails)
    ensures
        shows(order, order_with_fields, cart_details(all_products@)),
{
    let mut products: Vec<ProductDetails> = Vec::new();
    let mut i: usize = 0;
    while i < all_products.len()
        invariant
            i <= all_products.len(),
            products@ == cart_details(all_products@.take(i as int)),
        decreases all_products.len() - i,
    {
        products.push(details_of(&all_products[i].product, &all_products[i].category_title));
        proof {
            let line = all_products@[i as int];
            assert(cart_details(all_products@.take(i + 1)) =~= cart_details(
                all_products@.take(i as int),
            ).push(product_details(line.product, line.category_title)));
        }
        i = i + 1;
    }
    proof {
        assert(all_products@.take(all_products.len() as int) =~= all_products@);
    }
    with_products(order_with_fields, products)
}

proof fn lemma_row_details_take_next(rows: Seq<OrderLineRow>, order_id: i32, n: int)
    requires
        0 <= n < rows.len(),
    ensures
        row_details(rows_of_order(rows.take(n + 1), order_id)) == if rows[n].0 == order_id {
            row_details(rows_of_order(rows.take(n), order_id)).push(
                product_details(rows[n].1, rows[n].2),
            )
        } else {
            row_details(rows_of_order(rows.take(n), order_id))
        },
{
    let keep = belongs_to(order_id);
    lemma_filter_take_next(rows, keep, n);
    if rows[n].0 == order_id {
        assert(row_details(rows.take(n).filter(keep).push(rows[n])) =~= row_details(
            rows.take(n).filter(keep),
        ).push(product_details(rows[n].1, rows[n].2)));
    }
}

/// Collects what an order shows of its products from the rows of all orders.
pub fn products_of_order(product_rows: &Vec<OrderLineRow>, order_id: i32) -> (products: Vec<
    ProductDetails,
>)
    ensures
        products@ == row_details(rows_of_order(product_rows@, order_id)),
{
    let mut products: Vec<ProductDetails> = Vec::new();
    let mut i: usize = 0;
    proof {
        reveal(Seq::filter);
        assert(product_rows@.take(0) =~= Seq::<OrderLineRow>::empty());
        assert(row_details(rows_of_order(product_rows@.take(0), order_id)) =~= Seq::<
            ProductDetails,
        >::empty());
    }
    while i < product_rows.len()
        invariant
            i <= product_rows.len(),
            products@ == row_details(rows_of_order(product_rows@.take(i as int), order_id)),
        decreases product_rows.len() - i,
    {
        proof {
            lemma_row_details_take_next(product_rows@, order_id, i as int);
        }
        if product_rows[i].0 == order_id {
            products.push(details_of(&product_rows[i].1, &product_rows[i].2));
        }
        i = i + 1;
    }
    proof {
        assert(product_rows@.take(product_rows.len() as int) =~= product_rows@);
    }
    products
}

/// Shows every order, in the order given, each with the rows that belong to it.
pub fn get_all_orders(
    order_with_fields: Vec<OrderWithFields>,
    product_rows: &Vec<OrderLineRow>,
) -> (orders: Vec<OrderDetails>)
    ensures
        orders@.len() == order_with_fields@.len(),
        forall|i: int|
            0 <= i < orders@.len() ==> shows(
                #[trigger] orders@[i],
                order_with_fields@[i],
                row_details(rows_of_order(product_rows@, order_with_fields@[i].id)),
            ),
{
    let mut orders: Vec<OrderDetails> = Vec::new();
    for order in it: order_with_fields
        invariant
            it.seq() == order_with_fields@,
            orders@.len() == it.index(),
            forall|i: int|
                0 <= i < orders@.len() ==> shows(
                    #[trigger] orders@[i],
                    order_with_fields@[i],
                    row_details(rows_of_order(product_rows@, order_with_fields@[i].id)),
                ),
    {
        let products = products_of_order(product_rows, order.id);
        orders.push(with_products(order, products));
    }
    orders
}

/// A cart of well-formed products has a total that is not negative.
pub proof fn lemma_total_not_negative(cart: Seq<ProductWithCategory>)
    requires
        forall|i: int| 0 <= i < cart.len() ==> (#[trigger] cart[i]).product.wf(),
    ensures
        0 <= subtotal(cart) <= pre_discount_total(cart),
    decreases cart.len(),
{
    if cart.len() > 0 {
        lemma_total_not_negative(cart.drop_last());
        assert(cart[cart.len() - 1].product.wf());
        assert(line_prices(cart).drop_last() =~= line_prices(cart.drop_last()));
    }
}

/// With well-formed campaigns and products, an order is never charged more
/// than its total before discount, and neither total is negative.
pub proof fn lemma_order_not_above_total(
    campaigns: Seq<Campaign>,
    cart: Seq<ProductWithCategory>,
    user_id: i32,
)
    requires
        forall|i: int| 0 <= i < campaigns.len() ==> (#[trigger] campaigns[i]).wf(),
        forall|i: int| 0 <= i < cart.len() ==> (#[trigger] cart[i]).product.wf(),
    ensures
        best_offer(campaigns, cart, pre_discount_total(cart)).0 <= pre_discount_total(cart),
        priced_order(campaigns, cart, user_id) matches Some(order) ==> order.discounted_price
            <= order.price_without_discount && 0 <= order.price_without_discount,
{
    let total = pre_discount_total(cart);
    lemma_total_not_negative(cart);
    lemma_best_offer_not_above_total(campaigns, cart, total);
    lemma_round_to_millis_monotone(best_offer(campaigns, cart, total).0, total);
}

/// When no campaign applies, the order is charged its total before discount
/// and names no campaign.
pub proof fn lemma_order_without_campaign(
    campaigns: Seq<Campaign>,
    cart: Seq<ProductWithCategory>,
    user_id: i32,
)
    requires
        available_campaigns(campaigns, cart).len() == 0,
    ensures
        best_offer(campaigns, cart, pre_discount_total(cart)) == (
            pre_discount_total(cart),
            None::<i32>,
        ),
        priced_order(campaigns, cart, user_id) matches Some(order) ==> order.discounted_price
            == order.price_without_discount && order.campaign_id is None,
{
}

/// The totals of a priced order are whole thousandths of a unit, the nearest
/// to the exact totals.
pub proof fn lemma_order_totals_rounded(
    campaigns: Seq<Campaign>,
    cart: Seq<ProductWithCategory>,
    user_id: i32,
)
    ensures
        priced_order(campaigns, cart, user_id) matches Some(order) ==> {
            let total = pre_discount_total(cart);
            let best = best_offer(campaigns, cart, total);
            &&& order.price_without_discount % 1000 == 0
            &&& order.discounted_price % 1000 == 0
            &&& -500 <= order.price_without_discount - total <= 500
            &&& -500 <= order.discounted_price - best.0 <= 500
            &&& order.campaign_id == best.1
            &&& order.user_id == user_id
        },
{
    let total = pre_discount_total(cart);
    lemma_round_to_millis_nearest(total);
    lemma_round_to_millis_nearest(best_offer(campaigns, cart, total).0);
}

} // verus!
