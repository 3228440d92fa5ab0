//! Users with the orders they placed.

use crate::controllers::orders::{
    products_of_order, row_details, rows_of_order, CampaignDescription, OrderLineRow,
    ProductDetails,
};
use crate::insertables::NewUser;
use crate::models::User;
use crate::sequences::lemma_filter_take_next;
use vstd::prelude::*;

verus! {

/// An order joined with the description of its campaign.
#[derive(Debug, Clone, PartialEq, Eq)]
pub struct OrderWithFields {
    pub id: i32,
    pub price_without_discount: i64,
    pub discounted_price: i64,
    pub campaign_id: Option<i32>,
    pub user_id: i32,
    pub campaign_description: Option<String>,
}

/// An order as it is shown under its user.
#[derive(Debug, Clone, PartialEq, Eq)]
pub struct UserOrder {
    pub id: i32,
    pub price_without_discount: i64,
    pub discounted_price: i64,
    pub campaign_id: Option<i32>,
    pub user_id: i32,
    pub campaign: Option<CampaignDescription>,
    pub products: Vec<ProductDetails>,
}

/// A user with the orders that the user placed.
#[derive(Debug, Clone, PartialEq, Eq)]
pub struct UserWithOrders {
    pub id: i32,
    pub username: String,
    pub orders: Vec<UserOrder>,
}

/// `order` shows the order `fields` with exactly the products `products`.
pub open spec fn shows_order(
    order: UserOrder,
    fields: OrderWithFields,
    products: Seq<ProductDetails>,
) -> bool {
    &&& order.id == fields.id
    &&& order.price_without_discount == fields.price_without_discount
    &&& order.discounted_price == fields.discounted_price
    &&& order.campaign_id == fields.campaign_id
    &&& order.user_id == fields.user_id
    &&& order.campaign == match fields.campaign_description {
        Some(description) => Some(CampaignDescription { description }),
        None => None,
    }
    &&& order.products@ == products
}

/// The two orders show the same.
pub open spec fn same_order(left: UserOrder, right: UserOrder) -> bool {
    &&& left.id == right.id
    &&& left.price_without_discount == right.price_without_discount
    &&& left.discounted_price == right.discounted_price
    &&& left.campaign_id == right.campaign_id
    &&& left.user_id == right.user_id
    &&& left.campaign == right.campaign
    &&& left.products@ == right.products@
}

/// The test that an order was placed by the user.
pub open spec fn placed_by(user_id: i32) -> spec_fn(UserOrder) -> bool {
    |order: UserOrder| order.user_id == user_id
}

/// The orders that the user placed, in order.
pub open spec fn orders_of_user(orders: Seq<UserOrder>, user_id: i32) -> Seq<UserOrder> {
    orders.filter(placed_by(user_id))
}

/// `listed` shows the same orders as `orders`, in the same order.
pub open spec fn same_orders(listed: Seq<UserOrder>, orders: Seq<UserOrder>) -> bool {
    &&& listed.len() == orders.len()
    &&& forall|i: int| 0 <= i < listed.len() ==> same_order(#[trigger] listed[i], orders[i])
}

/// `shown` is the user with exactly the orders the user placed.
pub open spec fn shows_user(shown: UserWithOrders, user: User, orders: Seq<UserOrder>) -> bool {
    &&& shown.id == user.id
    &&& shown.username == user.username
    &&& same_orders(shown.orders@, orders_of_user(orders, user.id))
}

/// Prepares the row for a new user.
pub fn insert_new_user(_username: &str) -> (new_user: NewUser)
    ensures
        new_user.username@ == _username@,
{
    NewUser { username: _username.to_owned() }
}

/// Shows every order, in the order given, each with the rows that belong to it.
pub fn get_all_orders(
    order_with_fields: Vec<OrderWithFields>,
    product_rows: &Vec<OrderLineRow>,
) -> (orders: Vec<UserOrder>)
    ensures
        orders@.len() == order_with_fields@.len(),
        forall|i: int|
            0 <= i < orders@.len() ==> shows_order(
                #[trigger] orders@[i],
                order_with_fields@[i],
                row_details(rows_of_order(product_rows@, order_with_fields@[i].id)),
            ),
{
    let mut orders: Vec<UserOrder> = Vec::new();
    for order in it: order_with_fields
        invariant
            it.seq() == order_with_fields@,
            orders@.len() == it.index(),
            forall|i: int|
                0 <= i < orders@.len() ==> shows_order(
                    #[trigger] orders@[i],
                    order_with_fields@[i],
                    row_details(rows_of_order(product_rows@, order_with_fields@[i].id)),
                ),
    {
        let products = products_of_order(product_rows, order.id);
        let campaign = match order.campaign_description {
            Some(description) => Some(CampaignDescription { description }),
            None => None,
        };
        orders.push(
            UserOrder {
                id: order.id,
                price_without_discount: order.price_without_discount,
                discounted_price: order.discounted_price,
                campaign_id: order.campaign_id,
                user_id: order.user_id,
                campaign,
                products,
            },
        );
    }
    orders
}

fn copy_product(product: &ProductDetails) -> (copy: ProductDetails)
    ensures
        copy == *product,
{
    ProductDetails {
        id: product.id,
        title: product.title.clone(),
        author: product.author.clone(),
        list_price: product.list_price,
        stock_quantity: product.stock_quantity,
        category: crate::controllers::products::CategoryTitle {
            title: product.category.title.clone(),
        },
    }
}

fn copy_order(order: &UserOrder) -> (copy: UserOrder)
    ensures
        same_order(copy, *order),
{
    let mut products: Vec<ProductDetails> = Vec::new();
    let mut i: usize = 0;
    while i < order.products.len()
        invariant
            i <= order.products.len(),
            products@ == order.products@.take(i as int),
        decreases order.products.len() - i,
    {
        products.push(copy_product(&order.products[i]));
        proof {
            assert(order.products@.take(i + 1) =~= order.products@.take(i as int).push(
                order.products@[i as int],
            ));
        }
        i = i + 1;
    }
    proof {
        assert(order.products@.take(order.products.len() as int) =~= order.products@);
    }
    let campaign = match &order.campaign {
        Some(campaign) => Some(CampaignDescription { description: campaign.description.clone() }),
        None => None,
    };
    UserOrder {
        id: order.id,
        price_without_discount: order.price_without_discount,
        discounted_price: order.discounted_price,
        campaign_id: order.campaign_id,
        user_id: order.user_id,
        campaign,
        products,
    }
}

/// Shows a user with the orders that the user placed, picked from all orders.
pub fn get_user_by_id_with_orders(user: User, orders: &Vec<UserOrder>) -> (user_with_orders:
    UserWithOrders)
    ensures
        shows_user(user_with_orders, user, orders@),
{
    let ghost keep = placed_by(user.id);
    let mut user_orders: Vec<UserOrder> = Vec::new();
    let mut i: usize = 0;
    proof {
        reveal(Seq::filter);
        assert(orders@.take(0) =~= Seq::<UserOrder>::empty());
    }
    while i < orders.len()
        invariant
            i <= orders.len(),
            keep == placed_by(user.id),
            same_orders(user_orders@, orders@.take(i as int).filter(keep)),
        decreases orders.len() - i,
    {
        proof {
            lemma_filter_take_next(orders@, keep, i as int);
        }
        if orders[i].user_id == user.id {
            user_orders.push(copy_order(&orders[i]));
        }
        i = i + 1;
    }
    proof {
        assert(orders@.take(orders.len() as int) =~= orders@);
    }
    UserWithOrders { id: user.id, username: user.username, orders: user_orders }
}

/// Shows every user, in the order given, each with the orders that the user placed.
pub fn get_all_users_with_orders(
    all_users: Vec<User>,
    orders: &Vec<UserOrder>,
) -> (users_with_orders: Vec<UserWithOrders>)
    ensures
        users_with_orders@.len() == all_users@.len(),
        forall|i: int|
            0 <= i < users_with_orders@.len() ==> shows_user(
                #[trigger] users_with_orders@[i],
                all_users@[i],
                orders@,
            ),
{
    let mut users_with_orders: Vec<UserWithOrders> = Vec::new();
    for user in it: all_users
        invariant
            it.seq() == all_users@,
            users_with_orders@.len() == it.index(),
            forall|i: int|
                0 <= i < users_with_orders@.len() ==> shows_user(
                    #[trigger] users_with_orders@[i],
                    all_users@[i],
                    orders@,
                ),
    {
        users_with_orders.push(get_user_by_id_with_orders(user, orders));
    }
    users_with_orders
}

} // verus!
