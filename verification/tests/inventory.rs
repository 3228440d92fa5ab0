use rust_order_api::error::OrderError;
use rust_order_api::inventory::{find_stock, reserve, reserve_cart, StockLevel};

fn level(product_id: i32, quantity: i32) -> StockLevel {
    StockLevel { product_id, quantity }
}

#[test]
fn reserve_takes_units_that_are_there() {
    assert_eq!(reserve(5, 1), Ok(4));
    assert_eq!(reserve(5, 5), Ok(0));
    assert_eq!(reserve(5, 0), Ok(5));
    assert_eq!(reserve(0, 0), Ok(0));
    assert_eq!(reserve(i32::MAX, i32::MAX as u32), Ok(0));
}

#[test]
fn reserve_refuses_more_than_is_there() {
    assert_eq!(reserve(5, 6), Err(OrderError::InsufficientStock));
    assert_eq!(reserve(0, 1), Err(OrderError::InsufficientStock));
    assert_eq!(reserve(-1, 0), Err(OrderError::InsufficientStock));
    assert_eq!(reserve(5, u32::MAX), Err(OrderError::InsufficientStock));
}

fn place(stock: i32, requests: u32) -> (i32, u32, u32) {
    let mut left = stock;
    let mut served = 0;
    let mut refused = 0;
    for _ in 0..requests {
        match reserve(left, 1) {
            Ok(rest) => {
                left = rest;
                served += 1;
            }
            Err(error) => {
                assert_eq!(error, OrderError::InsufficientStock);
                refused += 1;
            }
        }
    }
    (left, served, refused)
}

#[test]
fn requests_within_stock_are_all_served() {
    assert_eq!(place(5, 3), (2, 3, 0));
    assert_eq!(place(5, 5), (0, 5, 0));
    assert_eq!(place(5, 0), (5, 0, 0));
}

#[test]
fn requests_beyond_stock_are_refused() {
    assert_eq!(place(5, 8), (0, 5, 3));
    assert_eq!(place(0, 2), (0, 0, 2));
}

#[test]
fn stock_is_found_by_product() {
    let stocks = vec![level(7, 1), level(3, 2), level(7, 9)];
    assert_eq!(find_stock(&stocks, 7), Some(0));
    assert_eq!(find_stock(&stocks, 3), Some(1));
    assert_eq!(find_stock(&stocks, 4), None);
    assert_eq!(find_stock(&Vec::new(), 4), None);
}

#[test]
fn cart_reservation_takes_one_unit_per_request() {
    let stocks = vec![level(1, 2), level(2, 1), level(3, 5)];
    assert_eq!(
        reserve_cart(&stocks, &vec![1, 2, 1]),
        Ok(vec![level(1, 0), level(2, 0), level(3, 5)])
    );
    assert_eq!(reserve_cart(&stocks, &Vec::new()), Ok(stocks.clone()));
    assert_eq!(stocks, vec![level(1, 2), level(2, 1), level(3, 5)]);
}

#[test]
fn cart_reservation_fails_for_an_unknown_product() {
    let stocks = vec![level(1, 2), level(2, 1)];
    assert_eq!(reserve_cart(&stocks, &vec![1, 9]), Err(OrderError::NotFound));
    assert_eq!(reserve_cart(&Vec::new(), &vec![1]), Err(OrderError::NotFound));
}

#[test]
fn cart_reservation_fails_when_stock_runs_out() {
    let stocks = vec![level(1, 2), level(2, 0)];
    assert_eq!(reserve_cart(&stocks, &vec![1, 2]), Err(OrderError::InsufficientStock));
    assert_eq!(reserve_cart(&stocks, &vec![1, 1, 1]), Err(OrderError::InsufficientStock));
}

#[test]
fn first_request_that_fails_decides_the_error() {
    let stocks = vec![level(1, 0)];
    assert_eq!(reserve_cart(&stocks, &vec![1, 9]), Err(OrderError::InsufficientStock));
    assert_eq!(reserve_cart(&stocks, &vec![9, 1]), Err(OrderError::NotFound));
}

fn place_orders(stock: i32, orders: u32) -> (Vec<StockLevel>, u32, u32) {
    let mut stocks = vec![level(1, stock), level(2, 7)];
    let mut served = 0;
    let mut refused = 0;
    for _ in 0..orders {
        match reserve_cart(&stocks, &vec![1]) {
            Ok(levels) => {
                stocks = levels;
                served += 1;
            }
            Err(error) => {
                assert_eq!(error, OrderError::InsufficientStock);
                refused += 1;
            }
        }
    }
    (stocks, served, refused)
}

#[test]
fn orders_within_stock_are_all_served() {
    assert_eq!(place_orders(4, 3), (vec![level(1, 1), level(2, 7)], 3, 0));
    assert_eq!(place_orders(4, 4), (vec![level(1, 0), level(2, 7)], 4, 0));
}

#[test]
fn orders_beyond_stock_are_refused() {
    assert_eq!(place_orders(4, 6), (vec![level(1, 0), level(2, 7)], 4, 2));
    assert_eq!(place_orders(0, 1), (vec![level(1, 0), level(2, 7)], 0, 1));
}

#[test]
fn refused_order_takes_nothing() {
    let stocks = vec![level(1, 3), level(2, 0)];
    assert_eq!(reserve_cart(&stocks, &vec![1, 1, 2]), Err(OrderError::InsufficientStock));
    assert_eq!(stocks, vec![level(1, 3), level(2, 0)]);
}
