//! Fixed-point currency arithmetic.
//!
//! Every amount in this crate is a signed count of micro-units: one unit of
//! currency is `MICROS_PER_UNIT` micro-units. Catalogue prices and thresholds
//! are `i64`; values derived from them are computed exactly in `i128`, so no
//! operation here can overflow.

use vstd::prelude::*;

verus! {

/// Micro-units in one unit of currency.
pub const MICROS_PER_UNIT: i64 = 1_000_000;

/// Micro-units in one thousandth of a unit, the precision at which order totals are stored.
pub const MICROS_PER_MILLI: i64 = 1_000;

/// Flat shipping surcharge: 35.00 units.
pub const SHIPPING_COST: i64 = 35_000_000;

/// Subtotal from which shipping is free: 150.00 units.
pub const FREE_SHIPPING_THRESHOLD: i64 = 150_000_000;

/// The sum of a sequence of amounts.
pub open spec fn sum(amounts: Seq<i64>) -> int
    decreases amounts.len(),
{
    if amounts.len() == 0 {
        0
    } else {
        sum(amounts.drop_last()) + amounts.last()
    }
}

/// The ascending order on amounts, as a relation.
pub open spec fn ascending() -> spec_fn(i64, i64) -> bool {
    |a: i64, b: i64| a <= b
}

/// Integer division that rounds toward zero.
pub open spec fn div_toward_zero(n: int, d: int) -> int
    recommends
        d > 0,
{
    if n >= 0 {
        n / d
    } else {
        -((-n) / d)
    }
}

/// A subtotal with the shipping surcharge applied when it is below the free-shipping threshold.
pub open spec fn with_shipping(subtotal: int) -> int {
    if subtotal < FREE_SHIPPING_THRESHOLD {
        subtotal + SHIPPING_COST
    } else {
        subtotal
    }
}

/// `total` reduced by `percent` hundredths of itself, the reduction rounded toward zero
/// to a whole micro-unit.
pub open spec fn percent_discounted(total: int, percent: int) -> int {
    total - div_toward_zero(total * percent, 100)
}

/// The multiple of one thousandth of a unit nearest to `amount`; a tie goes away from zero.
pub open spec fn round_to_millis(amount: int) -> int {
    let milli = MICROS_PER_MILLI as int;
    if amount >= 0 {
        (amount + milli / 2) / milli * milli
    } else {
        -((-amount + milli / 2) / milli * milli)
    }
}

/// Taking one amount more adds that amount to the sum.
pub proof fn lemma_sum_take_next(amounts: Seq<i64>, n: int)
    requires
        0 <= n < amounts.len(),
    ensures
        sum(amounts.take(n + 1)) == sum(amounts.take(n)) + amounts[n],
{
    assert(amounts.take(n + 1).drop_last() =~= amounts.take(n));
}

/// A sum of `i64` amounts is bounded by the number of amounts times the bounds of `i64`.
pub proof fn lemma_sum_bounds(amounts: Seq<i64>)
    ensures
        amounts.len() * i64::MIN <= sum(amounts) <= amounts.len() * i64::MAX,
    decreases amounts.len(),
{
    if amounts.len() > 0 {
        lemma_sum_bounds(amounts.drop_last());
    }
}

/// A sum of non-negative amounts does not shrink when more of them are added.
pub proof fn lemma_sum_take_monotone(amounts: Seq<i64>, m: int, n: int)
    requires
        0 <= m <= n <= amounts.len(),
        forall|i: int| 0 <= i < amounts.len() ==> amounts[i] >= 0,
    ensures
        0 <= sum(amounts.take(m)) <= sum(amounts.take(n)),
    decreases n,
{
    if n == 0 {
        assert(amounts.take(0) =~= Seq::<i64>::empty());
    } else if m == n {
        lemma_sum_take_monotone(amounts, m - 1, n - 1);
        lemma_sum_take_next(amounts, n - 1);
    } else {
        lemma_sum_take_monotone(amounts, m, n - 1);
        lemma_sum_take_next(amounts, n - 1);
    }
}

proof fn lemma_sum_is_fold(amounts: Seq<i64>)
    ensures
        sum(amounts) == amounts.fold_left(0int, |acc: int, a: i64| acc + a),
    decreases amounts.len(),
{
    if amounts.len() > 0 {
        lemma_sum_is_fold(amounts.drop_last());
    }
}

/// Two sequences that hold the same amounts, in whatever order, have the same sum.
pub proof fn lemma_sum_permutation(a: Seq<i64>, b: Seq<i64>)
    requires
        a.to_multiset() == b.to_multiset(),
    ensures
        sum(a) == sum(b),
{
    let f = |acc: int, x: i64| acc + x;
    lemma_sum_is_fold(a);
    lemma_sum_is_fold(b);
    assert(vstd::seq_lib::commutative_foldl(f));
    vstd::seq_lib::lemma_fold_left_permutation(a, b, f, 0int);
}

/// The ascending order on amounts is a total order.
pub proof fn lemma_ascending_is_total()
    ensures
        vstd::relations::total_ordering(ascending()),
{
}

/// Adds up the first `count` amounts, or all of them if there are fewer.
pub fn sum_prefix(amounts: &Vec<i64>, count: usize) -> (total: i128)
    ensures
        total == sum(
            amounts@.take(
                if count <= amounts.len() {
                    count as int
                } else {
                    amounts.len() as int
                },
            ),
        ),
{
    let count: usize = if count <= amounts.len() {
        count
    } else {
        amounts.len()
    };
    let mut total: i128 = 0;
    let mut i: usize = 0;
    while i < count
        invariant
            i <= count <= amounts.len(),
            total == sum(amounts@.take(i as int)),
            i * i64::MIN <= total <= i * i64::MAX,
        decreases count - i,
    {
        proof {
            lemma_sum_take_next(amounts@, i as int);
        }
        total = total + amounts[i] as i128;
        i = i + 1;
    }
    total
}

/// `at` is where `amount` goes into `amounts`: before the first amount above
/// it, or at the end when none is above it.
pub open spec fn is_insertion_point(amounts: Seq<i64>, amount: i64, at: int) -> bool {
    &&& 0 <= at <= amounts.len()
    &&& forall|i: int| 0 <= i < at ==> amounts[i] <= amount
    &&& at < amounts.len() ==> amounts[at] > amount
}

/// Puts `amount` into the vector before the first amount above it. The vector
/// then holds the amount once more than before, and if it was ascending it
/// still is.
pub fn insert_ascending(amounts: &mut Vec<i64>, amount: i64)
    ensures
        exists|at: int|
            is_insertion_point(old(amounts)@, amount, at) && final(amounts)@ == old(
                amounts,
            )@.insert(at, amount),
        final(amounts)@.to_multiset() == old(amounts)@.to_multiset().insert(amount),
        final(amounts)@.len() == old(amounts)@.len() + 1,
        vstd::relations::sorted_by(old(amounts)@, ascending()) ==> vstd::relations::sorted_by(
            final(amounts)@,
            ascending(),
        ),
{
    let mut at: usize = 0;
    while at < amounts.len() && amounts[at] <= amount
        invariant
            at <= amounts.len(),
            *amounts == *old(amounts),
            forall|i: int| 0 <= i < at ==> amounts@[i] <= amount,
        decreases amounts.len() - at,
    {
        at = at + 1;
    }
    proof {
        let before = amounts@;
        let after = before.insert(at as int, amount);
        vstd::seq_lib::to_multiset_insert(before, at as int, amount);
        assert forall|i: int, j: int|
            vstd::relations::sorted_by(before, ascending()) && 0 <= i < j
                < after.len() implies #[trigger] ascending()(after[i], after[j]) by {
            if j < at {
                assert(ascending()(before[i], before[j]));
            } else if j > at {
                if i < at {
                    assert(ascending()(before[i], before[j - 1]));
                } else if i == at {
                    if at < j - 1 {
                        assert(ascending()(before[at as int], before[j - 1]));
                    }
                } else {
                    assert(ascending()(before[i - 1], before[j - 1]));
                }
            }
        }
    }
    amounts.insert(at, amount);
    assert(is_insertion_point(old(amounts)@, amount, at as int));
}

/// Adds the shipping surcharge to a subtotal below the free-shipping threshold.
pub fn add_shipping(subtotal: i128) -> (total: i128)
    ensures
        total == with_shipping(subtotal as int),
{
    if subtotal < FREE_SHIPPING_THRESHOLD as i128 {
        subtotal + SHIPPING_COST as i128
    } else {
        subtotal
    }
}

/// Applies a percentage discount to `total`.
pub fn apply_percent(total: i64, percent: i32) -> (discounted: i128)
    ensures
        discounted == percent_discounted(total as int, percent as int),
{
    assert(-0x4000_0000_0000_0000_0000_0000 <= total * percent <= 0x4000_0000_0000_0000_0000_0000)
        by (nonlinear_arith)
        requires
            -0x8000_0000_0000_0000 <= total <= 0x8000_0000_0000_0000,
            -0x8000_0000 <= percent <= 0x8000_0000,
    ;
    let share: i128 = total as i128 * percent as i128;
    total as i128 - share / 100
}

/// Rounds an amount to three decimal places of a unit, ties away from zero.
pub fn round_to_three_decimals(amount: i64) -> (rounded: i128)
    ensures
        rounded == round_to_millis(amount as int),
{
    let wide: i128 = amount as i128;
    let milli: i128 = MICROS_PER_MILLI as i128;
    if wide >= 0 {
        (wide + milli / 2) / milli * milli
    } else {
        -((-wide + milli / 2) / milli * milli)
    }
}

/// What rounding to three decimals means: the result is a whole number of
/// thousandths, lies within half a thousandth of the amount, and when the
/// amount is exactly halfway between two thousandths the one farther from
/// zero is taken.
pub proof fn lemma_round_to_millis_nearest(amount: int)
    ensures
        round_to_millis(amount) % 1000 == 0,
        -500 <= round_to_millis(amount) - amount <= 500,
        amount >= 0 ==> round_to_millis(amount) - amount > -500,
        amount <= 0 ==> round_to_millis(amount) - amount < 500,
        round_to_millis(-amount) == -round_to_millis(amount),
        amount % 1000 == 0 ==> round_to_millis(amount) == amount,
{
}

/// What a percentage leaves of a total is `total * (1 - percent / 100)`: to
/// within less than one micro-unit always, and exactly whenever that value is
/// a whole number of micro-units. For a percentage between 0 and 100 and a
/// total that is not negative, the result lies between zero and the total.
pub proof fn lemma_percent_discounted(total: int, percent: int)
    ensures
        -100 < 100 * percent_discounted(total, percent) - total * (100 - percent) < 100,
        (total * percent) % 100 == 0 ==> 100 * percent_discounted(total, percent) == total * (100
            - percent),
        0 <= percent <= 100 && 0 <= total ==> 0 <= percent_discounted(total, percent) <= total,
{
    let share = total * percent;
    assert(total * (100 - percent) == total * 100 - share) by (nonlinear_arith)
        requires
            share == total * percent,
    ;
    if 0 <= percent <= 100 && 0 <= total {
        assert(0 <= share <= total * 100) by (nonlinear_arith)
            requires
                share == total * percent,
                0 <= percent <= 100,
                0 <= total,
        ;
    }
}

/// Rounding to three decimals keeps the order of amounts.
pub proof fn lemma_round_to_millis_monotone(lower: int, upper: int)
    requires
        lower <= upper,
    ensures
        round_to_millis(lower) <= round_to_millis(upper),
{
}

} // verus!
