use solarance::identity::Identity;
use solarance::market::{module_can_buy_from_player, module_can_sell_to_player};
use solarance::tables::{ClientDb, ManufacturingModule, ProductionRecipe, RefineryModule, StationModule};

fn db() -> ClientDb {
    ClientDb {
        identity: Identity::default(),
        ships: vec![],
        sectors: vec![],
        star_systems: vec![],
        trading_port_ids: vec![1],
        refineries: vec![RefineryModule { id: 2, input_ore_resource_id: 100, output_ingot_resource_id: 200, waste_resource_id: Some(300) }],
        manufacturing: vec![
            ManufacturingModule { id: 3, current_recipe_id: Some(9) },
            ManufacturingModule { id: 4, current_recipe_id: None },
            ManufacturingModule { id: 5, current_recipe_id: Some(77) },
        ],
        recipes: vec![ProductionRecipe { id: 9, input_resource_ids: vec![200, 400], output_resource_id: 500 }],
    }
}

fn module(id: u64) -> StationModule {
    StationModule { id, station_id: 1, blueprint_id: 0 }
}

#[test]
fn trading_ports_trade_everything() {
    let d = db();
    assert!(module_can_buy_from_player(&d, &module(1), 12345));
    assert!(module_can_sell_to_player(&d, &module(1), 12345));
}

#[test]
fn refineries_buy_ore_and_sell_ingots_and_waste() {
    let d = db();
    assert!(module_can_buy_from_player(&d, &module(2), 100));
    assert!(!module_can_buy_from_player(&d, &module(2), 200));
    assert!(module_can_sell_to_player(&d, &module(2), 200));
    assert!(module_can_sell_to_player(&d, &module(2), 300));
    assert!(!module_can_sell_to_player(&d, &module(2), 100));
}

#[test]
fn factories_follow_their_current_recipe() {
    let d = db();
    assert!(module_can_buy_from_player(&d, &module(3), 400));
    assert!(!module_can_buy_from_player(&d, &module(3), 500));
    assert!(module_can_sell_to_player(&d, &module(3), 500));
    assert!(!module_can_buy_from_player(&d, &module(4), 400));
    assert!(!module_can_sell_to_player(&d, &module(5), 500));
    assert!(!module_can_buy_from_player(&d, &module(6), 400));
}
