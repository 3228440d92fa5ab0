//! Stock reservation: the conditional decrement that keeps stock from going negative.

use crate::error::OrderError;
use vstd::prelude::*;

verus! {

/// How many units of a product are in stock.
#[derive(Debug, Clone, Copy, PartialEq, Eq)]
pub struct StockLevel {
    pub product_id: i32,
    pub quantity: i32,
}

/// The stock left after taking `units` from `stock`, when that many are there.
pub open spec fn stock_after(stock: int, units: int) -> Option<int> {
    if 0 <= units <= stock {
        Some(stock - units)
    } else {
        None
    }
}

/// The stock left after `requests` requests for one unit each, made one after
/// the other, each served only while stock remains.
pub open spec fn stock_after_requests(stock: int, requests: nat) -> int
    decreases requests,
{
    if requests == 0 {
        stock
    } else {
        let before = stock_after_requests(stock, (requests - 1) as nat);
        match stock_after(before, 1) {
            Some(left) => left,
            None => before,
        }
    }
}

/// How many of `requests` requests for one unit each are served.
pub open spec fn served_requests(stock: int, requests: nat) -> nat
    decreases requests,
{
    if requests == 0 {
        0
    } else {
        let earlier = served_requests(stock, (requests - 1) as nat);
        if stock_after(stock_after_requests(stock, (requests - 1) as nat), 1) is Some {
            earlier + 1
        } else {
            earlier
        }
    }
}

/// Every stock level names another product.
pub open spec fn distinct_products(stocks: Seq<StockLevel>) -> bool {
    forall|i: int, j: int|
        0 <= i < j < stocks.len() ==> (#[trigger] stocks[i]).product_id != (
        #[trigger] stocks[j]).product_id
}

/// No stock level is negative.
pub open spec fn none_negative(stocks: Seq<StockLevel>) -> bool {
    forall|i: int| 0 <= i < stocks.len() ==> (#[trigger] stocks[i]).quantity >= 0
}

/// `at` is the first position among the stock levels that names the product.
pub open spec fn is_position_of(stocks: Seq<StockLevel>, product_id: i32, at: int) -> bool {
    &&& 0 <= at < stocks.len()
    &&& stocks[at].product_id == product_id
    &&& forall|i: int| 0 <= i < at ==> (#[trigger] stocks[i]).product_id != product_id
}

/// The product has a stock level.
pub open spec fn known(stocks: Seq<StockLevel>, product_id: i32) -> bool {
    exists|at: int| is_position_of(stocks, product_id, at)
}

/// The first position among the stock levels that names the product.
pub open spec fn position_of(stocks: Seq<StockLevel>, product_id: i32) -> int {
    choose|at: int| is_position_of(stocks, product_id, at)
}

/// The stock levels after one unit of the product is taken: an unknown
/// product is not found, and a product out of stock has insufficient stock.
pub open spec fn reserve_one(stocks: Seq<StockLevel>, product_id: i32) -> Result<
    Seq<StockLevel>,
    OrderError,
> {
    if !known(stocks, product_id) {
        Err(OrderError::NotFound)
    } else {
        let at = position_of(stocks, product_id);
        match stock_after(stocks[at].quantity as int, 1) {
            Some(left) => Ok(stocks.update(at, StockLevel { product_id, quantity: left as i32 })),
            None => Err(OrderError::InsufficientStock),
        }
    }
}

/// The stock levels after one unit is taken for each requested product, in
/// the order of the requests; the first request that cannot be served decides
/// the error.
pub open spec fn reserve_each(stocks: Seq<StockLevel>, product_ids: Seq<i32>) -> Result<
    Seq<StockLevel>,
    OrderError,
>
    decreases product_ids.len(),
{
    if product_ids.len() == 0 {
        Ok(stocks)
    } else {
        match reserve_each(stocks, product_ids.drop_last()) {
            Ok(levels) => reserve_one(levels, product_ids.last()),
            Err(error) => Err(error),
        }
    }
}

/// How often the product is requested.
pub open spec fn occurrences(product_ids: Seq<i32>, product_id: i32) -> nat
    decreases product_ids.len(),
{
    if product_ids.len() == 0 {
        0
    } else {
        let earlier = occurrences(product_ids.drop_last(), product_id);
        if product_ids.last() == product_id {
            earlier + 1
        } else {
            earlier
        }
    }
}

/// The stock levels after a series of orders, each asking for one unit of
/// each of its products. An order that cannot be served in full leaves the
/// levels as they were.
pub open spec fn stocks_after_orders(stocks: Seq<StockLevel>, orders: Seq<Seq<i32>>) -> Seq<
    StockLevel,
>
    decreases orders.len(),
{
    if orders.len() == 0 {
        stocks
    } else {
        let before = stocks_after_orders(stocks, orders.drop_last());
        match reserve_each(before, orders.last()) {
            Ok(levels) => levels,
            Err(_) => before,
        }
    }
}

/// How many of a series of orders are served.
pub open spec fn orders_served(stocks: Seq<StockLevel>, orders: Seq<Seq<i32>>) -> nat
    decreases orders.len(),
{
    if orders.len() == 0 {
        0
    } else {
        let earlier = orders_served(stocks, orders.drop_last());
        if reserve_each(stocks_after_orders(stocks, orders.drop_last()), orders.last()) is Ok {
            earlier + 1
        } else {
            earlier
        }
    }
}

/// Takes `units` from `stock` if that many are there.
pub fn reserve(stock: i32, units: u32) -> (left: Result<i32, OrderError>)
    ensures
        left == match stock_after(stock as int, units as int) {
            Some(left) => Ok::<i32, OrderError>(left as i32),
            None => Err(OrderError::InsufficientStock),
        },
{
    if stock >= 0 && units <= stock as u32 {
        Ok(stock - units as i32)
    } else {
        Err(OrderError::InsufficientStock)
    }
}

/// Finds the first stock level that names the product.
pub fn find_stock(stocks: &Vec<StockLevel>, product_id: i32) -> (found: Option<usize>)
    ensures
        match found {
            Some(at) => is_position_of(stocks@, product_id, at as int) && position_of(
                stocks@,
                product_id,
            ) == at,
            None => !known(stocks@, product_id),
        },
{
    let mut at: usize = 0;
    while at < stocks.len()
        invariant
            at <= stocks.len(),
            forall|i: int| 0 <= i < at ==> (#[trigger] stocks@[i]).product_id != product_id,
        decreases stocks.len() - at,
    {
        if stocks[at].product_id == product_id {
            proof {
                lemma_position_unique(stocks@, product_id, at as int);
            }
            return Some(at);
        }
        at = at + 1;
    }
    None
}

/// A product has at most one first position.
pub proof fn lemma_position_unique(stocks: Seq<StockLevel>, product_id: i32, at: int)
    requires
        is_position_of(stocks, product_id, at),
    ensures
        known(stocks, product_id),
        position_of(stocks, product_id) == at,
{
    let chosen = position_of(stocks, product_id);
    assert(is_position_of(stocks, product_id, chosen));
    if chosen < at {
        assert(stocks[chosen].product_id != product_id);
    }
    if at < chosen {
        assert(stocks[at].product_id != product_id);
    }
}

/// Takes one unit of each requested product from the stock levels, all or
/// nothing: the new levels when every request can be served, else the error
/// of the first request that cannot.
pub fn reserve_cart(stocks: &Vec<StockLevel>, product_ids: &Vec<i32>) -> (reserved: Result<
    Vec<StockLevel>,
    OrderError,
>)
    ensures
        match reserved {
            Ok(levels) => reserve_each(stocks@, product_ids@) == Ok::<Seq<StockLevel>, OrderError>(
                levels@,
            ),
            Err(error) => reserve_each(stocks@, product_ids@) == Err::<Seq<StockLevel>, OrderError>(
                error,
            ),
        },
{
    let mut levels: Vec<StockLevel> = Vec::new();
    let mut k: usize = 0;
    while k < stocks.len()
        invariant
            k <= stocks.len(),
            levels@ == stocks@.take(k as int),
        decreases stocks.len() - k,
    {
        levels.push(stocks[k]);
        proof {
            assert(stocks@.take(k + 1) =~= stocks@.take(k as int).push(stocks@[k as int]));
        }
        k = k + 1;
    }
    proof {
        assert(stocks@.take(stocks.len() as int) =~= stocks@);
        assert(product_ids@.take(0) =~= Seq::<i32>::empty());
    }
    let mut i: usize = 0;
    while i < product_ids.len()
        invariant
            i <= product_ids.len(),
            reserve_each(stocks@, product_ids@.take(i as int)) == Ok::<Seq<StockLevel>, OrderError>(
                levels@,
            ),
        decreases product_ids.len() - i,
    {
        let product_id: i32 = product_ids[i];
        proof {
            assert(product_ids@.take(i + 1).drop_last() =~= product_ids@.take(i as int));
        }
        match find_stock(&levels, product_id) {
            None => {
                proof {
                    lemma_reserve_each_stops(stocks@, product_ids@, i as int + 1);
                }
                return Err(OrderError::NotFound);
            },
            Some(at) => {
                match reserve(levels[at].quantity, 1) {
                    Ok(left) => {
                        levels.set(at, StockLevel { product_id, quantity: left });
                    },
                    Err(error) => {
                        proof {
                            lemma_reserve_each_stops(stocks@, product_ids@, i as int + 1);
                        }
                        return Err(error);
                    },
                }
            },
        }
        i = i + 1;
    }
    proof {
        assert(product_ids@.take(product_ids.len() as int) =~= product_ids@);
    }
    Ok(levels)
}

/// Once a request has failed, the later requests change nothing.
pub proof fn lemma_reserve_each_stops(stocks: Seq<StockLevel>, product_ids: Seq<i32>, n: int)
    requires
        0 <= n <= product_ids.len(),
        reserve_each(stocks, product_ids.take(n)) is Err,
    ensures
        reserve_each(stocks, product_ids) == reserve_each(stocks, product_ids.take(n)),
    decreases product_ids.len() - n,
{
    if n < product_ids.len() {
        assert(product_ids.take(n + 1).drop_last() =~= product_ids.take(n));
        lemma_reserve_each_stops(stocks, product_ids, n + 1);
    } else {
        assert(product_ids.take(n) =~= product_ids);
    }
}

/// Requests for one unit each, served one after the other from a stock of
/// `stock`, are all served while they do not exceed the stock and leave the
/// stock reduced by their number; beyond that exactly `stock` of them are
/// served, the stock ends at zero and every further request is refused. The
/// stock never goes below zero.
pub proof fn lemma_unit_requests(stock: int, requests: nat)
    requires
        0 <= stock,
    ensures
        requests <= stock ==> stock_after_requests(stock, requests) == stock - requests
            && served_requests(stock, requests) == requests,
        requests > stock ==> stock_after_requests(stock, requests) == 0 && served_requests(
            stock,
            requests,
        ) == stock,
        0 <= stock_after_requests(stock, requests),
        stock_after(stock_after_requests(stock, requests), 1) is Some <==> requests < stock,
    decreases requests,
{
    if requests > 0 {
        lemma_unit_requests(stock, (requests - 1) as nat);
    }
}

proof fn lemma_known_by_products(before: Seq<StockLevel>, after: Seq<StockLevel>, product_id: i32)
    requires
        before.len() == after.len(),
        forall|j: int|
            0 <= j < before.len() ==> (#[trigger] after[j]).product_id == before[j].product_id,
    ensures
        known(after, product_id) == known(before, product_id),
        known(before, product_id) ==> position_of(after, product_id) == position_of(
            before,
            product_id,
        ),
{
    if known(before, product_id) {
        let at = position_of(before, product_id);
        assert(is_position_of(after, product_id, at)) by {
            assert forall|i: int| 0 <= i < at implies (#[trigger] after[i]).product_id
                != product_id by {
                assert(before[i].product_id != product_id);
            }
        }
        lemma_position_unique(after, product_id, at);
    }
    if known(after, product_id) {
        let at = position_of(after, product_id);
        assert(is_position_of(before, product_id, at)) by {
            assert(after[at].product_id == before[at].product_id);
            assert forall|i: int| 0 <= i < at implies (#[trigger] before[i]).product_id
                != product_id by {
                assert(after[i].product_id != product_id);
            }
        }
    }
}

/// What a reservation amounts to, for stock levels that name distinct
/// products and are not negative. When it succeeds, every requested product
/// is known and each level has gone down by the number of times its product
/// was requested, none below zero. It fails as not found only when some
/// requested product is unknown, and for insufficient stock only when some
/// product is requested more often than it is in stock.
pub proof fn lemma_reserve_each(stocks: Seq<StockLevel>, product_ids: Seq<i32>)
    requires
        distinct_products(stocks),
        none_negative(stocks),
    ensures
        match reserve_each(stocks, product_ids) {
            Ok(levels) => {
                &&& levels.len() == stocks.len()
                &&& forall|j: int|
                    0 <= j < stocks.len() ==> (#[trigger] levels[j]).product_id
                        == stocks[j].product_id && levels[j].quantity == stocks[j].quantity
                        - occurrences(product_ids, stocks[j].product_id) && levels[j].quantity >= 0
                &&& forall|k: int|
                    0 <= k < product_ids.len() ==> known(stocks, #[trigger] product_ids[k])
            },
            Err(OrderError::NotFound) => exists|k: int|
                0 <= k < product_ids.len() && !known(stocks, #[trigger] product_ids[k]),
            Err(OrderError::InsufficientStock) => exists|j: int|
                0 <= j < stocks.len() && occurrences(product_ids, (#[trigger] stocks[j]).product_id)
                    > stocks[j].quantity,
            Err(_) => false,
        },
    decreases product_ids.len(),
{
    if product_ids.len() > 0 {
        let earlier = product_ids.drop_last();
        let product_id = product_ids.last();
        lemma_reserve_each(stocks, earlier);
        match reserve_each(stocks, earlier) {
            Ok(levels) => {
                lemma_known_by_products(stocks, levels, product_id);
                if known(stocks, product_id) {
                    let at = position_of(stocks, product_id);
                    assert(is_position_of(stocks, product_id, at));
                    assert(levels[at].quantity == stocks[at].quantity - occurrences(
                        earlier,
                        stocks[at].product_id,
                    ));
                    match stock_after(levels[at].quantity as int, 1) {
                        Some(left) => {
                            let updated = levels.update(
                                at,
                                StockLevel { product_id, quantity: left as i32 },
                            );
                            assert forall|j: int| 0 <= j < stocks.len() implies (
                            #[trigger] updated[j]).product_id == stocks[j].product_id
                                && updated[j].quantity == stocks[j].quantity - occurrences(
                                product_ids,
                                stocks[j].product_id,
                            ) && updated[j].quantity >= 0 by {
                                assert(levels[j].product_id == stocks[j].product_id);
                                if j < at {
                                    assert(stocks[j].product_id != stocks[at].product_id);
                                } else if j > at {
                                    assert(stocks[at].product_id != stocks[j].product_id);
                                }
                            }
                            assert forall|k: int| 0 <= k < product_ids.len() implies known(
                                stocks,
                                #[trigger] product_ids[k],
                            ) by {
                                if k < earlier.len() {
                                    assert(earlier[k] == product_ids[k]);
                                }
                            }
                        },
                        None => {
                            assert(occurrences(product_ids, stocks[at].product_id)
                                > stocks[at].quantity);
                        },
                    }
                } else {
                    assert(!known(stocks, product_ids[product_ids.len() - 1]));
                }
            },
            Err(OrderError::NotFound) => {
                let k = choose|k: int|
                    0 <= k < earlier.len() && !known(stocks, #[trigger] earlier[k]);
                assert(!known(stocks, product_ids[k]));
            },
            Err(OrderError::InsufficientStock) => {
                let j = choose|j: int|
                    0 <= j < stocks.len() && occurrences(earlier, (#[trigger] stocks[j]).product_id)
                        > stocks[j].quantity;
                assert(occurrences(product_ids, stocks[j].product_id) > stocks[j].quantity);
            },
            Err(_) => {},
        }
    }
}

/// Whatever orders arrive, and in whatever order they are served, the stock
/// levels stay those of the same distinct products and none goes below zero.
pub proof fn lemma_stock_never_negative(stocks: Seq<StockLevel>, orders: Seq<Seq<i32>>)
    requires
        distinct_products(stocks),
        none_negative(stocks),
    ensures
        ({
            let after = stocks_after_orders(stocks, orders);
            &&& after.len() == stocks.len()
            &&& forall|j: int|
                0 <= j < stocks.len() ==> (#[trigger] after[j]).product_id == stocks[j].product_id
                    && 0 <= after[j].quantity <= stocks[j].quantity
            &&& distinct_products(after)
            &&& none_negative(after)
            &&& orders_served(stocks, orders) <= orders.len()
        }),
    decreases orders.len(),
{
    if orders.len() > 0 {
        let before = stocks_after_orders(stocks, orders.drop_last());
        lemma_stock_never_negative(stocks, orders.drop_last());
        lemma_reserve_each(before, orders.last());
        let after = stocks_after_orders(stocks, orders);
        assert forall|j: int| 0 <= j < stocks.len() implies (#[trigger] after[j]).product_id
            == stocks[j].product_id && 0 <= after[j].quantity <= stocks[j].quantity by {
            assert(before[j].product_id == stocks[j].product_id);
        }
        assert forall|i: int, j: int| 0 <= i < j < after.len() implies (
        #[trigger] after[i]).product_id != (#[trigger] after[j]).product_id by {
            assert(stocks[i].product_id != stocks[j].product_id);
        }
    }
}

proof fn lemma_single_order(product_id: i32, quantity: i32)
    requires
        0 <= quantity,
    ensures
        reserve_each(seq![StockLevel { product_id, quantity }], seq![product_id]) == if quantity
            >= 1 {
            Ok::<Seq<StockLevel>, OrderError>(
                seq![StockLevel { product_id, quantity: (quantity - 1) as i32 }],
            )
        } else {
            Err::<Seq<StockLevel>, OrderError>(OrderError::InsufficientStock)
        },
{
    let stocks = seq![StockLevel { product_id, quantity }];
    let one = seq![product_id];
    assert(is_position_of(stocks, product_id, 0));
    lemma_position_unique(stocks, product_id, 0);
    assert(one.drop_last() =~= Seq::<i32>::empty());
    assert(reserve_each(stocks, one) == reserve_one(stocks, product_id)) by {
        reveal_with_fuel(reserve_each, 2);
    }
    if quantity >= 1 {
        assert(stocks.update(0, StockLevel { product_id, quantity: (quantity - 1) as i32 })
            =~= seq![StockLevel { product_id, quantity: (quantity - 1) as i32 }]);
    }
}

/// `count` orders for one unit of a product with `stock` units in stock: while
/// the orders do not exceed the stock all are served and the stock goes down
/// by their number; beyond that exactly `stock` are served, the stock ends at
/// zero, and every further order fails for insufficient stock.
pub proof fn lemma_orders_for_one_product(product_id: i32, stock: i32, count: nat)
    requires
        0 <= stock,
    ensures
        ({
            let stocks = seq![StockLevel { product_id, quantity: stock }];
            let orders = Seq::new(count, |i: int| seq![product_id]);
            let left = if count <= stock {
                stock - count
            } else {
                0
            };
            &&& stocks_after_orders(stocks, orders) == seq![
                StockLevel { product_id, quantity: left as i32 },
            ]
            &&& orders_served(stocks, orders) == stock - left
            &&& reserve_each(stocks_after_orders(stocks, orders), seq![product_id]) is Ok <==> count
                < stock
            &&& count >= stock ==> reserve_each(
                stocks_after_orders(stocks, orders),
                seq![product_id],
            ) == Err::<Seq<StockLevel>, OrderError>(OrderError::InsufficientStock)
        }),
    decreases count,
{
    let stocks = seq![StockLevel { product_id, quantity: stock }];
    let orders = Seq::new(count, |i: int| seq![product_id]);
    let left = if count <= stock {
        stock - count
    } else {
        0
    };
    if count > 0 {
        let earlier = Seq::new((count - 1) as nat, |i: int| seq![product_id]);
        assert(orders.drop_last() =~= earlier);
        assert(orders.last() == seq![product_id]);
        lemma_orders_for_one_product(product_id, stock, (count - 1) as nat);
        let left_before = if count - 1 <= stock {
            stock - (count - 1)
        } else {
            0
        };
        lemma_single_order(product_id, left_before as i32);
    }
    lemma_single_order(product_id, left as i32);
}

} // verus!
