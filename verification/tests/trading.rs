use solarance::trade::{
    plan_purchase, plan_sale, settle_purchase, settle_sale, trade_limits, InventoryListing, TradeError,
};

fn ore(quantity: u32, max_quantity: u32, price: u32) -> InventoryListing {
    InventoryListing { resource_item_id: 42, quantity, max_quantity, cached_price: price }
}

#[test]
fn purchase_is_priced_at_the_cached_price() {
    let listings = [ore(10, 100, 7)];
    assert_eq!(plan_purchase(1, 1, 3, 3, false, &listings, 42, 4, 1000), Ok(28));
}

#[test]
fn purchase_errors_in_order() {
    let listings = [ore(10, 100, 7)];
    assert_eq!(
        plan_purchase(1, 2, 3, 3, false, &listings, 42, 4, 1000),
        Err(TradeError::WrongStation { ship_station_id: 1, module_station_id: 2 })
    );
    assert_eq!(plan_purchase(1, 1, 3, 4, true, &listings, 42, 4, 1000), Err(TradeError::HostileFaction));
    // hostility only matters between different factions
    assert_eq!(plan_purchase(1, 1, 3, 3, true, &listings, 42, 4, 1000), Ok(28));
    assert_eq!(plan_purchase(1, 1, 3, 3, false, &listings, 41, 4, 1000), Err(TradeError::ItemNotListed { item_id: 41 }));
    assert_eq!(
        plan_purchase(1, 1, 3, 3, false, &listings, 42, 11, 1000),
        Err(TradeError::NotEnoughStock { available: 10, requested: 11 })
    );
    assert_eq!(
        plan_purchase(1, 1, 3, 3, false, &listings, 42, 4, 27),
        Err(TradeError::NotEnoughCredits { credits: 27, price: 28 })
    );
}

#[test]
fn first_listing_of_an_item_is_used() {
    let listings = [ore(10, 100, 7), ore(50, 100, 1)];
    assert_eq!(plan_purchase(1, 1, 3, 3, false, &listings, 42, 4, 1000), Ok(28));
}

#[test]
fn sale_checks_module_room() {
    let listings = [ore(95, 100, 3)];
    assert_eq!(plan_sale(1, 1, 3, 3, false, &listings, 42, 5), Ok(15));
    assert_eq!(plan_sale(1, 1, 3, 3, false, &listings, 42, 6), Err(TradeError::NotEnoughRoom { room: 5 }));
    assert_eq!(plan_sale(1, 1, 3, 3, false, &listings, 7, 1), Err(TradeError::ItemNotListed { item_id: 7 }));
}

#[test]
fn selling_then_buying_back_restores_balances() {
    let (credits, stock) = settle_sale(500, 20, 5, 35);
    assert_eq!((credits, stock), (535, 25));
    assert_eq!(settle_purchase(credits, stock, 5, 35), (500, 20));
}

#[test]
fn slider_limits_follow_cargo_space_and_stock() {
    let limits = trade_limits(&[3, 4], Some((100, 40)), 20, 50);
    assert_eq!(limits.max_sell, 7);
    assert_eq!(limits.space_available, 3);
    assert_eq!(limits.max_buy, 3);
    let roomy = trade_limits(&[], Some((100, 0)), 1, 50);
    assert_eq!((roomy.max_sell, roomy.max_buy), (0, 50));
    let weightless = trade_limits(&[], Some((100, 0)), 0, 50);
    assert_eq!(weightless.max_buy, 0);
    assert_eq!(trade_limits(&[], None, 5, 50).space_available, 0);
}

#[test]
fn large_orders_are_priced_without_overflow() {
    let listings = [ore(60_000, 100_000, 100_000)];
    assert_eq!(plan_purchase(1, 1, 3, 3, false, &listings, 42, 50_000, 10_000_000_000), Ok(5_000_000_000));
    assert_eq!(
        plan_purchase(1, 1, 3, 3, false, &listings, 42, 50_000, 4_999_999_999),
        Err(TradeError::NotEnoughCredits { credits: 4_999_999_999, price: 5_000_000_000 })
    );
    assert_eq!(settle_purchase(10_000_000_000, 60_000, 50_000, 5_000_000_000), (5_000_000_000, 10_000));
    assert_eq!(plan_sale(1, 1, 3, 3, false, &listings, 42, 40_000), Ok(4_000_000_000));
    let top = [ore(0, u32::MAX, u32::MAX)];
    assert_eq!(plan_sale(1, 1, 3, 3, false, &top, 42, u32::MAX), Ok(u32::MAX as u64 * u32::MAX as u64));
}

#[test]
fn overfull_cargo_leaves_no_space_to_buy() {
    let limits = trade_limits(&[], Some((10, 12)), 1, 50);
    assert_eq!(limits.space_available, 0);
    assert_eq!(limits.max_buy, 0);
}
