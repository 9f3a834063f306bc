use solarance::items::{ItemCategory, ItemDefinition, OreType, ResourceCategory, ShipModuleType};

fn iron_ore() -> ItemDefinition {
    ItemDefinition {
        id: 1,
        category: ItemCategory::Resource(ResourceCategory::RawOre),
        base_value: 10,
        margin_percentage: 10,
        volume_per_unit: 4,
        units_per_stack: 1,
    }
}

#[test]
fn item_fits_only_with_a_full_unit_of_space() {
    let ore = iron_ore();
    assert!(ore.can_any_of_this_fit_inside_this_ship(4));
    assert!(ore.can_any_of_this_fit_inside_this_ship(400));
    assert!(!ore.can_any_of_this_fit_inside_this_ship(3));
    assert!(!ore.can_any_of_this_fit_inside_this_ship(0));
}

#[test]
fn categories_tell_modules_from_resources() {
    let laser = ItemCategory::ShipModule(ShipModuleType::MiningLaserBasic);
    assert_ne!(laser, iron_ore().category);
    assert_eq!(iron_ore().category, ItemCategory::Resource(ResourceCategory::RawOre));
    assert_ne!(OreType::Ice, OreType::Silicon);
}
