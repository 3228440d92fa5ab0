//! Products as they are listed: each with the title of its category.

use crate::insertables::NewProduct;
use vstd::prelude::*;

verus! {

/// The category of a product, as listings show it.
#[derive(Debug, Clone, PartialEq, Eq)]
pub struct CategoryTitle {
    pub title: String,
}

/// A product as it is listed.
#[derive(Debug, Clone, PartialEq, Eq)]
pub struct ProductWithCategory {
    pub id: i32,
    pub title: String,
    pub category_id: i32,
    pub author: String,
    pub list_price: i64,
    pub stock_quantity: i32,
    pub category: CategoryTitle,
}

/// A product joined with its category, as the store returns it: identity,
/// title, category identity, author, list price, stock, category title.
pub type ProductRow = (i32, String, i32, String, i64, i32, String);

/// The listed product that a row stands for.
pub open spec fn listed(row: ProductRow) -> ProductWithCategory {
    ProductWithCategory {
        id: row.0,
        title: row.1,
        category_id: row.2,
        author: row.3,
        list_price: row.4,
        stock_quantity: row.5,
        category: CategoryTitle { title: row.6 },
    }
}

/// Turns the row of a product into the listed product.
pub fn get_product_by_id(product_with_category: ProductRow) -> (product: ProductWithCategory)
    ensures
        product == listed(product_with_category),
{
    let (id, title, category_id, author, list_price, stock_quantity, category_info) =
        product_with_category;
    ProductWithCategory {
        id,
        title,
        category_id,
        author,
        list_price,
        stock_quantity,
        category: CategoryTitle { title: category_info },
    }
}

/// Turns the rows of all products into the listed products, in the same order.
pub fn get_all_products(rows: Vec<ProductRow>) -> (all_products: Vec<ProductWithCategory>)
    ensures
        all_products@ == rows@.map_values(|row: ProductRow| listed(row)),
{
    let mut all_products: Vec<ProductWithCategory> = Vec::new();
    for row in it: rows
        invariant
            it.seq() == rows@,
            all_products@ == rows@.take(it.index() as int).map_values(
                |row: ProductRow| listed(row),
            ),
    {
        all_products.push(get_product_by_id(row));
        proof {
            let n = it.index() as int;
            assert(rows@.take(n + 1).map_values(|row: ProductRow| listed(row)) =~= rows@.take(
                n,
            ).map_values(|row: ProductRow| listed(row)).push(listed(rows@[n])));
        }
    }
    proof {
        assert(rows@.take(rows@.len() as int) =~= rows@);
    }
    all_products
}

/// Prepares the row for a new product.
pub fn insert_new_product(
    _title: &str,
    _category_id: i32,
    _author: &str,
    _list_price: i64,
    _stock_quantity: i32,
) -> (new_product: NewProduct)
    ensures
        new_product.title@ == _title@,
        new_product.category_id == _category_id,
        new_product.author@ == _author@,
        new_product.list_price == _list_price,
        new_product.stock_quantity == _stock_quantity,
{
    NewProduct {
        title: _title.to_owned(),
        category_id: _category_id,
        author: _author.to_owned(),
        list_price: _list_price,
        stock_quantity: _stock_quantity,
    }
}

} // verus!
