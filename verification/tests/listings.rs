use rust_order_api::controllers::campaigns::insert_new_campaign;
use rust_order_api::controllers::orders::{
    get_all_orders, get_order_by_id, products_of_order, CampaignDescription, OrderDetails,
    OrderWithFields, ProductDetails, ProductWithCategory, UserName,
};
use rust_order_api::controllers::products::{
    get_all_products, get_product_by_id, insert_new_product, CategoryTitle,
};
use rust_order_api::controllers::users;
use rust_order_api::insertables::{NewCampaign, NewProduct, NewUser};
use rust_order_api::models::{Category, OrderToProduct, Product, User};

fn product(id: i32, title: &str, list_price: i64) -> Product {
    Product {
        id,
        title: title.to_string(),
        category_id: 2,
        author: "author".to_string(),
        list_price,
        stock_quantity: 3,
    }
}

fn details(id: i32, title: &str, list_price: i64, category: &str) -> ProductDetails {
    ProductDetails {
        id,
        title: title.to_string(),
        author: "author".to_string(),
        list_price,
        stock_quantity: 3,
        category: CategoryTitle { title: category.to_string() },
    }
}

fn fields(id: i32, user_id: i32, campaign: Option<&str>) -> OrderWithFields {
    OrderWithFields {
        id,
        price_without_discount: 65_000_000,
        discounted_price: 58_500_000,
        campaign_id: campaign.map(|_| 9),
        user_id,
        username: format!("user {user_id}"),
        campaign_description: campaign.map(|text| text.to_string()),
    }
}

fn rows() -> Vec<(i32, Product, String)> {
    vec![
        (1, product(10, "first", 1_000_000), "Books".to_string()),
        (2, product(11, "second", 2_000_000), "Films".to_string()),
        (1, product(12, "third", 3_000_000), "Games".to_string()),
    ]
}

#[test]
fn order_is_shown_with_its_cart() {
    let cart = vec![
        ProductWithCategory {
            product: product(10, "first", 1_000_000),
            category_title: "Books".to_string(),
        },
        ProductWithCategory {
            product: product(12, "third", 3_000_000),
            category_title: "Games".to_string(),
        },
    ];
    assert_eq!(
        get_order_by_id(fields(1, 4, Some("spring")), &cart),
        OrderDetails {
            id: 1,
            price_without_discount: 65_000_000,
            discounted_price: 58_500_000,
            campaign_id: Some(9),
            user_id: 4,
            user: UserName { username: "user 4".to_string() },
            campaign: Some(CampaignDescription { description: "spring".to_string() }),
            products: vec![
                details(10, "first", 1_000_000, "Books"),
                details(12, "third", 3_000_000, "Games"),
            ],
        }
    );
    let bare = get_order_by_id(fields(1, 4, None), &Vec::new());
    assert_eq!(bare.campaign, None);
    assert_eq!(bare.campaign_id, None);
    assert_eq!(bare.products, Vec::new());
}

#[test]
fn rows_are_grouped_by_order() {
    let rows = rows();
    assert_eq!(
        products_of_order(&rows, 1),
        vec![details(10, "first", 1_000_000, "Books"), details(12, "third", 3_000_000, "Games")]
    );
    assert_eq!(products_of_order(&rows, 2), vec![details(11, "second", 2_000_000, "Films")]);
    assert_eq!(products_of_order(&rows, 3), Vec::new());
}

#[test]
fn all_orders_are_shown_in_order() {
    let orders = get_all_orders(
        vec![fields(2, 5, None), fields(3, 5, None), fields(1, 4, Some("spring"))],
        &rows(),
    );
    assert_eq!(orders.len(), 3);
    assert_eq!(orders[0].id, 2);
    assert_eq!(orders[0].products, vec![details(11, "second", 2_000_000, "Films")]);
    assert_eq!(orders[0].user, UserName { username: "user 5".to_string() });
    assert_eq!(orders[1].id, 3);
    assert_eq!(orders[1].products, Vec::new());
    assert_eq!(orders[2].id, 1);
    assert_eq!(orders[2].products.len(), 2);
    assert_eq!(orders[2].campaign, Some(CampaignDescription { description: "spring".to_string() }));
    assert_eq!(get_all_orders(Vec::new(), &rows()), Vec::new());
}

#[test]
fn products_are_listed_with_their_category() {
    let row = (1, "title".to_string(), 2, "author".to_string(), 5_000_000, 3, "Books".to_string());
    let listed = get_product_by_id(row.clone());
    assert_eq!(
        listed,
        rust_order_api::controllers::products::ProductWithCategory {
            id: 1,
            title: "title".to_string(),
            category_id: 2,
            author: "author".to_string(),
            list_price: 5_000_000,
            stock_quantity: 3,
            category: CategoryTitle { title: "Books".to_string() },
        }
    );
    let other = (2, "other".to_string(), 3, "writer".to_string(), 1, 0, "Films".to_string());
    let all = get_all_products(vec![row.clone(), other.clone()]);
    assert_eq!(all, vec![get_product_by_id(row), get_product_by_id(other)]);
    assert_eq!(get_all_products(Vec::new()), Vec::new());
}

fn user_fields(id: i32, user_id: i32) -> users::OrderWithFields {
    users::OrderWithFields {
        id,
        price_without_discount: 1_000,
        discounted_price: 1_000,
        campaign_id: None,
        user_id,
        campaign_description: None,
    }
}

#[test]
fn users_are_shown_with_their_orders() {
    let orders = users::get_all_orders(
        vec![user_fields(1, 4), user_fields(2, 5), user_fields(3, 4)],
        &rows(),
    );
    assert_eq!(orders.len(), 3);
    assert_eq!(orders[0].products.len(), 2);
    assert_eq!(orders[2].products, Vec::new());
    let ada = User { id: 4, username: "ada".to_string() };
    let bob = User { id: 5, username: "bob".to_string() };
    let eve = User { id: 6, username: "eve".to_string() };
    let shown = users::get_user_by_id_with_orders(ada.clone(), &orders);
    assert_eq!(shown.id, 4);
    assert_eq!(shown.username, "ada");
    assert_eq!(shown.orders, vec![orders[0].clone(), orders[2].clone()]);
    let all = users::get_all_users_with_orders(vec![bob, eve, ada], &orders);
    assert_eq!(all.len(), 3);
    assert_eq!(all[0].orders, vec![orders[1].clone()]);
    assert_eq!(all[1].orders, Vec::new());
    assert_eq!(all[1].username, "eve");
    assert_eq!(all[2], shown);
}

#[test]
fn new_rows_are_prepared_from_their_parts() {
    assert_eq!(users::insert_new_user("ada"), NewUser { username: "ada".to_string() });
    assert_eq!(
        insert_new_product("title", 2, "author", 5_000_000, 3),
        NewProduct {
            title: "title".to_string(),
            category_id: 2,
            author: "author".to_string(),
            list_price: 5_000_000,
            stock_quantity: 3,
        }
    );
    assert_eq!(
        insert_new_campaign("spring", 1, 2, 3, 4, "author", "Books"),
        NewCampaign {
            description: "spring".to_string(),
            min_purchase_price: 1,
            min_purchase_quantity: 2,
            discount_quantity: 3,
            discount_percent: 4,
            rule_author: "author".to_string(),
            rule_category: "Books".to_string(),
        }
    );
}

#[test]
fn stored_rows_hold_their_fields() {
    let category = Category { id: 2, title: "Books".to_string() };
    assert_eq!(category.clone(), category);
    let line = OrderToProduct { order_id: 1, product_id: 10 };
    assert_eq!(line.order_id, 1);
    assert_eq!(line.product_id, 10);
}
