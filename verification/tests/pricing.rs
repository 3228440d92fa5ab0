use rust_order_api::controllers::functions::{
    cart_subtotal, count_in_scope, get_available_campaigns, get_discounted_total_price,
    is_available, is_eligible, line_in_scope, scoped_prices_ascending, select_best,
};
use rust_order_api::controllers::orders::{cart_total, price_order, ProductWithCategory};
use rust_order_api::insertables::NewOrder;
use rust_order_api::models::{Campaign, Product};
use rust_order_api::money::{
    add_shipping, apply_percent, insert_ascending, round_to_three_decimals, sum_prefix,
    FREE_SHIPPING_THRESHOLD, MICROS_PER_MILLI, MICROS_PER_UNIT, SHIPPING_COST,
};

fn line(id: i32, author: &str, category: &str, list_price: i64) -> ProductWithCategory {
    ProductWithCategory {
        product: Product {
            id,
            title: format!("title {id}"),
            category_id: 1,
            author: author.to_string(),
            list_price,
            stock_quantity: 10,
        },
        category_title: category.to_string(),
    }
}

fn blank_campaign(id: i32) -> Campaign {
    Campaign {
        id,
        description: format!("campaign {id}"),
        min_purchase_price: None,
        min_purchase_quantity: None,
        discount_quantity: None,
        discount_percent: None,
        rule_author: None,
        rule_category: None,
    }
}

fn units(amount: i64) -> i64 {
    amount * MICROS_PER_UNIT
}

fn mixed_cart() -> Vec<ProductWithCategory> {
    vec![
        line(1, "Tolkien", "Books", units(30)),
        line(2, "Tolkien", "Films", units(20)),
        line(3, "Rowling", "Books", units(10)),
        line(4, "Tolkien", "Books", units(40)),
    ]
}

#[test]
fn constants_are_in_micro_units() {
    assert_eq!(MICROS_PER_UNIT, 1_000_000);
    assert_eq!(MICROS_PER_MILLI, 1_000);
    assert_eq!(SHIPPING_COST, 35 * MICROS_PER_UNIT);
    assert_eq!(FREE_SHIPPING_THRESHOLD, 150 * MICROS_PER_UNIT);
}

#[test]
fn shipping_is_added_below_the_threshold() {
    assert_eq!(add_shipping(120_000_000), 155_000_000);
    assert_eq!(add_shipping(149_999_999), 184_999_999);
    assert_eq!(add_shipping(150_000_000), 150_000_000);
    assert_eq!(add_shipping(0), 35_000_000);
}

#[test]
fn cart_of_120_totals_155_before_discount() {
    let cart = vec![line(1, "a", "Books", units(70)), line(2, "b", "Books", units(50))];
    assert_eq!(cart_subtotal(&cart), 120_000_000);
    assert_eq!(cart_total(&cart), 155_000_000);
}

#[test]
fn cart_at_the_threshold_ships_free() {
    let cart = vec![line(1, "a", "Books", units(100)), line(2, "b", "Books", units(50))];
    assert_eq!(cart_total(&cart), 150_000_000);
    assert_eq!(cart_total(&Vec::new()), 35_000_000);
}

#[test]
fn rounding_goes_half_away_from_zero() {
    assert_eq!(round_to_three_decimals(100_000_500), 100_001_000);
    assert_eq!(round_to_three_decimals(99_999_400), 99_999_000);
    assert_eq!(round_to_three_decimals(100_000_499), 100_000_000);
    assert_eq!(round_to_three_decimals(-100_000_500), -100_001_000);
    assert_eq!(round_to_three_decimals(-99_999_400), -99_999_000);
    assert_eq!(round_to_three_decimals(58_500_000), 58_500_000);
    assert_eq!(round_to_three_decimals(0), 0);
}

#[test]
fn rounding_the_largest_amount_leaves_the_i64_range() {
    assert_eq!(round_to_three_decimals(i64::MAX), 9_223_372_036_854_776_000);
    assert_eq!(round_to_three_decimals(i64::MIN), -9_223_372_036_854_776_000);
}

#[test]
fn percent_is_taken_exactly() {
    assert_eq!(apply_percent(65_000_000, 10), 58_500_000);
    assert_eq!(apply_percent(30_000_000, 10), 27_000_000);
    assert_eq!(apply_percent(200_001_000, 50), 100_000_500);
    assert_eq!(apply_percent(65_000_000, 0), 65_000_000);
    assert_eq!(apply_percent(65_000_000, 100), 0);
}

#[test]
fn percent_reduction_is_rounded_toward_zero() {
    assert_eq!(apply_percent(1, 50), 1);
    assert_eq!(apply_percent(199, 50), 100);
    assert_eq!(apply_percent(-199, 50), -100);
    assert_eq!(apply_percent(100, -50), 150);
    assert_eq!(apply_percent(100, 150), -50);
}

#[test]
fn percent_of_extreme_values_does_not_overflow() {
    let total = i64::MAX as i128;
    assert_eq!(apply_percent(i64::MAX, i32::MAX), total - total * (i32::MAX as i128) / 100);
    let lowest = i64::MIN as i128;
    assert_eq!(apply_percent(i64::MIN, i32::MIN), lowest - lowest * (i32::MIN as i128) / 100);
}

#[test]
fn amounts_are_kept_ascending() {
    let mut amounts = Vec::new();
    for amount in [5, 1, 4, 1, 3] {
        insert_ascending(&mut amounts, amount);
    }
    assert_eq!(amounts, vec![1, 1, 3, 4, 5]);
    assert_eq!(sum_prefix(&amounts, 3), 5);
    assert_eq!(sum_prefix(&amounts, 0), 0);
    assert_eq!(sum_prefix(&amounts, 5), 14);
    assert_eq!(sum_prefix(&amounts, 99), 14);
    assert_eq!(sum_prefix(&Vec::new(), 1), 0);
}

#[test]
fn amount_goes_before_the_first_amount_above_it() {
    let mut amounts = vec![3, 9, 1];
    insert_ascending(&mut amounts, 5);
    assert_eq!(amounts, vec![3, 5, 9, 1]);
    insert_ascending(&mut amounts, 9);
    assert_eq!(amounts, vec![3, 5, 9, 1, 9]);
    insert_ascending(&mut amounts, 0);
    assert_eq!(amounts, vec![0, 3, 5, 9, 1, 9]);
}

#[test]
fn scope_is_author_and_category() {
    let both = Campaign {
        rule_author: Some("Tolkien".to_string()),
        rule_category: Some("Books".to_string()),
        ..blank_campaign(1)
    };
    let cart = mixed_cart();
    assert!(line_in_scope(&both, &cart[0]));
    assert!(!line_in_scope(&both, &cart[1]));
    assert!(!line_in_scope(&both, &cart[2]));
    assert_eq!(count_in_scope(&both, &cart), 2);
    assert_eq!(count_in_scope(&blank_campaign(2), &cart), 4);
    assert_eq!(scoped_prices_ascending(&both, &cart), vec![units(30), units(40)]);
    assert_eq!(
        scoped_prices_ascending(&blank_campaign(2), &cart),
        vec![units(10), units(20), units(30), units(40)]
    );
}

#[test]
fn author_and_category_rule_counts_lines_with_both() {
    let campaign = Campaign {
        rule_author: Some("Tolkien".to_string()),
        rule_category: Some("Books".to_string()),
        min_purchase_quantity: Some(2),
        discount_quantity: Some(1),
        ..blank_campaign(1)
    };
    let cart = mixed_cart();
    assert!(is_eligible(&campaign, &cart));
    let stricter = Campaign { min_purchase_quantity: Some(3), ..campaign };
    assert!(!is_eligible(&stricter, &cart));
}

#[test]
fn category_rule_counts_lines_of_the_category() {
    let campaign = Campaign {
        rule_category: Some("Books".to_string()),
        min_purchase_quantity: Some(3),
        discount_percent: Some(5),
        ..blank_campaign(1)
    };
    let cart = mixed_cart();
    assert!(is_eligible(&campaign, &cart));
    let stricter = Campaign { min_purchase_quantity: Some(4), ..campaign };
    assert!(!is_eligible(&stricter, &cart));
}

#[test]
fn author_rule_counts_lines_of_the_author() {
    let campaign = Campaign {
        rule_author: Some("Rowling".to_string()),
        min_purchase_quantity: Some(1),
        discount_percent: Some(5),
        ..blank_campaign(1)
    };
    let cart = mixed_cart();
    assert!(is_eligible(&campaign, &cart));
    let stricter = Campaign { min_purchase_quantity: Some(2), ..campaign };
    assert!(!is_eligible(&stricter, &cart));
}

#[test]
fn unscoped_rule_counts_every_line() {
    let campaign = Campaign {
        min_purchase_quantity: Some(4),
        discount_quantity: Some(1),
        ..blank_campaign(1)
    };
    let cart = mixed_cart();
    assert!(is_eligible(&campaign, &cart));
    let stricter = Campaign { min_purchase_quantity: Some(5), ..campaign };
    assert!(!is_eligible(&stricter, &cart));
}

#[test]
fn quantity_rule_needs_a_discount() {
    let campaign = Campaign { min_purchase_quantity: Some(1), ..blank_campaign(1) };
    assert!(!is_eligible(&campaign, &mixed_cart()));
}

#[test]
fn negative_minimum_quantity_is_always_reached() {
    let campaign = Campaign {
        min_purchase_quantity: Some(-1),
        discount_percent: Some(5),
        ..blank_campaign(1)
    };
    assert!(is_eligible(&campaign, &Vec::new()));
}

#[test]
fn price_rule_compares_the_subtotal() {
    let campaign = Campaign { min_purchase_price: Some(units(100)), ..blank_campaign(1) };
    let cart = mixed_cart();
    assert!(is_eligible(&campaign, &cart));
    let stricter = Campaign { min_purchase_price: Some(units(100) + 1), ..blank_campaign(1) };
    assert!(!is_eligible(&stricter, &cart));
    let scoped = Campaign {
        min_purchase_price: Some(units(100)),
        rule_author: Some("Nobody".to_string()),
        min_purchase_quantity: Some(9),
        ..blank_campaign(1)
    };
    assert!(is_eligible(&scoped, &cart));
}

#[test]
fn campaign_without_discount_is_not_available() {
    let no_discount = Campaign { min_purchase_price: Some(0), ..blank_campaign(1) };
    let percent = Campaign {
        min_purchase_price: Some(0),
        discount_percent: Some(5),
        ..blank_campaign(2)
    };
    let too_dear = Campaign {
        min_purchase_price: Some(units(1000)),
        discount_percent: Some(50),
        ..blank_campaign(3)
    };
    let quantity = Campaign {
        min_purchase_quantity: Some(1),
        discount_quantity: Some(1),
        ..blank_campaign(4)
    };
    let mut cart = mixed_cart();
    assert!(is_eligible(&no_discount, &cart));
    assert!(!is_available(&no_discount, &cart));
    assert!(is_available(&percent, &cart));
    let available = get_available_campaigns(
        vec![no_discount, percent.clone(), too_dear, quantity.clone()],
        &mut cart,
    );
    assert_eq!(available, vec![percent, quantity]);
    assert_eq!(cart, mixed_cart());
}

#[test]
fn books_campaign_takes_ten_percent() {
    let campaign = Campaign {
        rule_category: Some("Books".to_string()),
        min_purchase_quantity: Some(2),
        discount_percent: Some(10),
        ..blank_campaign(1)
    };
    let mut cart = vec![
        line(1, "a", "Books", units(10)),
        line(2, "b", "Books", units(10)),
        line(3, "c", "Books", units(10)),
    ];
    let available = get_available_campaigns(vec![campaign.clone()], &mut cart);
    assert_eq!(available, vec![campaign.clone()]);
    assert_eq!(get_discounted_total_price(&campaign, &mut cart, 30_000_000), 27_000_000);
    assert_eq!(cart_total(&cart), 65_000_000);
    assert_eq!(get_discounted_total_price(&campaign, &mut cart, 65_000_000), 58_500_000);
    assert_eq!(
        price_order(&vec![campaign], &mut cart, 7),
        Some(NewOrder {
            price_without_discount: 65_000_000,
            discounted_price: 58_500_000,
            campaign_id: Some(1),
            user_id: 7,
        })
    );
}

#[test]
fn quantity_discount_takes_off_the_cheapest_lines() {
    let mut cart = mixed_cart();
    let two = Campaign { discount_quantity: Some(2), ..blank_campaign(1) };
    assert_eq!(get_discounted_total_price(&two, &mut cart, units(100)), units(70) as i128);
    let scoped = Campaign {
        discount_quantity: Some(1),
        rule_author: Some("Tolkien".to_string()),
        ..blank_campaign(2)
    };
    assert_eq!(get_discounted_total_price(&scoped, &mut cart, units(100)), units(80) as i128);
    let both = Campaign {
        discount_quantity: Some(5),
        rule_author: Some("Tolkien".to_string()),
        rule_category: Some("Books".to_string()),
        ..blank_campaign(3)
    };
    assert_eq!(get_discounted_total_price(&both, &mut cart, units(100)), units(30) as i128);
    assert_eq!(cart, mixed_cart());
}

#[test]
fn quantity_discount_with_fewer_lines_takes_off_all_of_them() {
    let mut cart = mixed_cart();
    let many = Campaign { discount_quantity: Some(9), ..blank_campaign(1) };
    assert_eq!(get_discounted_total_price(&many, &mut cart, units(135)), units(35) as i128);
    let exact = Campaign { discount_quantity: Some(4), ..blank_campaign(1) };
    assert_eq!(get_discounted_total_price(&exact, &mut cart, units(135)), units(35) as i128);
    let unlimited = Campaign { discount_quantity: Some(-1), ..blank_campaign(1) };
    assert_eq!(get_discounted_total_price(&unlimited, &mut cart, units(135)), units(35) as i128);
    let nothing_in_scope = Campaign {
        discount_quantity: Some(2),
        rule_category: Some("Games".to_string()),
        ..blank_campaign(1)
    };
    assert_eq!(
        get_discounted_total_price(&nothing_in_scope, &mut cart, units(135)),
        units(135) as i128
    );
}

#[test]
fn quantity_discount_of_zero_takes_off_nothing() {
    let mut cart = mixed_cart();
    let none = Campaign { discount_quantity: Some(0), ..blank_campaign(1) };
    assert_eq!(get_discounted_total_price(&none, &mut cart, units(135)), units(135) as i128);
}

#[test]
fn quantity_discount_stays_within_its_bounds() {
    let mut cart = mixed_cart();
    let total = units(135);
    for quantity in [1, 2, 3, 4, 5, -3] {
        let campaign = Campaign { discount_quantity: Some(quantity), ..blank_campaign(1) };
        let discounted = get_discounted_total_price(&campaign, &mut cart, total);
        assert!(discounted <= (total - units(10)) as i128);
        assert!(discounted >= (total - units(100)) as i128);
    }
}

#[test]
fn percentage_takes_precedence_over_quantity() {
    let mut cart = mixed_cart();
    let campaign = Campaign {
        discount_percent: Some(10),
        discount_quantity: Some(4),
        ..blank_campaign(1)
    };
    assert_eq!(get_discounted_total_price(&campaign, &mut cart, units(100)), units(90) as i128);
}

#[test]
fn campaign_without_discount_yields_zero() {
    let mut cart = mixed_cart();
    assert_eq!(get_discounted_total_price(&blank_campaign(1), &mut cart, units(100)), 0);
}

#[test]
fn quantity_discount_of_extreme_prices_does_not_overflow() {
    let mut cart = vec![line(1, "a", "b", i64::MAX), line(2, "a", "b", i64::MAX)];
    let campaign = Campaign { discount_quantity: Some(2), ..blank_campaign(1) };
    assert_eq!(
        get_discounted_total_price(&campaign, &mut cart, i64::MIN),
        i64::MIN as i128 - 2 * (i64::MAX as i128)
    );
    assert_eq!(cart_subtotal(&cart), 2 * (i64::MAX as i128));
}

#[test]
fn best_offer_is_the_lowest_total() {
    let mut cart = mixed_cart();
    let ten = Campaign {
        min_purchase_quantity: Some(1),
        discount_percent: Some(10),
        ..blank_campaign(1)
    };
    let cheapest_two = Campaign {
        min_purchase_quantity: Some(1),
        discount_quantity: Some(2),
        ..blank_campaign(2)
    };
    let not_eligible = Campaign {
        min_purchase_quantity: Some(9),
        discount_percent: Some(90),
        ..blank_campaign(3)
    };
    let campaigns = vec![ten, cheapest_two, not_eligible];
    assert_eq!(select_best(&campaigns, &mut cart, units(100)), (units(70) as i128, Some(2)));
    assert_eq!(cart, mixed_cart());
}

#[test]
fn first_campaign_wins_a_tie() {
    let mut cart = mixed_cart();
    let first = Campaign {
        min_purchase_quantity: Some(1),
        discount_percent: Some(30),
        ..blank_campaign(8)
    };
    let second = Campaign {
        min_purchase_quantity: Some(1),
        discount_quantity: Some(2),
        ..blank_campaign(3)
    };
    let third = Campaign {
        min_purchase_quantity: Some(1),
        discount_percent: Some(30),
        ..blank_campaign(1)
    };
    let campaigns = vec![first, second, third];
    assert_eq!(select_best(&campaigns, &mut cart, units(100)), (units(70) as i128, Some(8)));
}

#[test]
fn without_eligible_campaign_the_total_stands() {
    let mut cart = mixed_cart();
    let campaigns = vec![
        Campaign {
            min_purchase_quantity: Some(9),
            discount_percent: Some(10),
            ..blank_campaign(1)
        },
        Campaign { min_purchase_price: Some(units(1)), ..blank_campaign(2) },
    ];
    assert_eq!(select_best(&campaigns, &mut cart, units(100)), (units(100) as i128, None));
    assert_eq!(select_best(&Vec::new(), &mut cart, units(100)), (units(100) as i128, None));
    assert_eq!(
        price_order(&campaigns, &mut cart, 3),
        Some(NewOrder {
            price_without_discount: units(135),
            discounted_price: units(135),
            campaign_id: None,
            user_id: 3,
        })
    );
}

#[test]
fn best_offer_is_not_above_the_total() {
    let mut cart = mixed_cart();
    let campaigns = vec![
        Campaign { min_purchase_quantity: Some(1), discount_percent: Some(0), ..blank_campaign(1) },
        Campaign {
            min_purchase_quantity: Some(1),
            discount_quantity: Some(0),
            ..blank_campaign(2)
        },
        Campaign { min_purchase_price: Some(0), discount_percent: Some(100), ..blank_campaign(3) },
    ];
    for total in [0, 1, units(135), i64::MAX] {
        let best = select_best(&campaigns, &mut cart, total);
        assert!(best.0 <= total as i128);
    }
    assert_eq!(select_best(&campaigns, &mut cart, units(135)), (0, Some(3)));
}

#[test]
fn evaluating_twice_gives_the_same_result() {
    let campaigns = vec![
        Campaign {
            min_purchase_quantity: Some(1),
            discount_percent: Some(10),
            ..blank_campaign(1)
        },
        Campaign {
            min_purchase_quantity: Some(9),
            discount_percent: Some(10),
            ..blank_campaign(2)
        },
        Campaign { min_purchase_price: Some(0), discount_quantity: Some(1), ..blank_campaign(3) },
    ];
    let mut cart = mixed_cart();
    let first = get_available_campaigns(campaigns.clone(), &mut cart);
    let second = get_available_campaigns(campaigns.clone(), &mut cart);
    assert_eq!(first, second);
    let again = get_available_campaigns(first.clone(), &mut cart);
    assert_eq!(again, first);
    for campaign in &first {
        let once = get_discounted_total_price(campaign, &mut cart, units(135));
        let twice = get_discounted_total_price(campaign, &mut cart, units(135));
        assert_eq!(once, twice);
    }
    assert_eq!(cart, mixed_cart());
}

#[test]
fn order_totals_are_rounded_to_three_decimals() {
    let mut cart = vec![line(1, "a", "Books", 200_001_000)];
    let half = Campaign {
        min_purchase_quantity: Some(1),
        discount_percent: Some(50),
        ..blank_campaign(4)
    };
    assert_eq!(
        price_order(&vec![half], &mut cart, 1),
        Some(NewOrder {
            price_without_discount: 200_001_000,
            discounted_price: 100_001_000,
            campaign_id: Some(4),
            user_id: 1,
        })
    );
    let mut odd = vec![line(1, "a", "Books", 99_999_400 - 35_000_000)];
    assert_eq!(
        price_order(&Vec::new(), &mut odd, 1),
        Some(NewOrder {
            price_without_discount: 99_999_000,
            discounted_price: 99_999_000,
            campaign_id: None,
            user_id: 1,
        })
    );
}

#[test]
fn order_with_totals_out_of_range_is_not_priced() {
    let mut cart = vec![line(1, "a", "Books", i64::MAX), line(2, "a", "Books", 1)];
    assert_eq!(price_order(&Vec::new(), &mut cart, 1), None);
    let mut edge = vec![line(1, "a", "Books", i64::MAX)];
    assert_eq!(price_order(&Vec::new(), &mut edge, 1), None);
    let mut large = vec![line(1, "a", "Books", 9_223_372_036_854_775_000)];
    let surcharge = Campaign {
        min_purchase_quantity: Some(1),
        discount_percent: Some(-1),
        ..blank_campaign(1)
    };
    assert_eq!(
        price_order(&Vec::new(), &mut large, 1),
        Some(NewOrder {
            price_without_discount: 9_223_372_036_854_775_000,
            discounted_price: 9_223_372_036_854_775_000,
            campaign_id: None,
            user_id: 1,
        })
    );
    assert_eq!(price_order(&vec![surcharge], &mut large, 1), None);
}

#[test]
fn well_formedness_is_checked() {
    assert!(blank_campaign(1).is_well_formed());
    assert!(Campaign { discount_percent: Some(100), ..blank_campaign(1) }.is_well_formed());
    assert!(!Campaign { discount_percent: Some(101), ..blank_campaign(1) }.is_well_formed());
    assert!(!Campaign { discount_percent: Some(-1), ..blank_campaign(1) }.is_well_formed());
    assert!(!Campaign { discount_quantity: Some(-1), ..blank_campaign(1) }.is_well_formed());
    assert!(!Campaign { min_purchase_quantity: Some(-1), ..blank_campaign(1) }.is_well_formed());
    assert!(!Campaign { min_purchase_price: Some(-1), ..blank_campaign(1) }.is_well_formed());
    assert!(line(1, "a", "b", 0).product.is_well_formed());
    assert!(!line(1, "a", "b", -1).product.is_well_formed());
    let mut out_of_stock = line(1, "a", "b", 1).product;
    out_of_stock.stock_quantity = -1;
    assert!(!out_of_stock.is_well_formed());
}
