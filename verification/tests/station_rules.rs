use solarance::factions::{create_mutual_standing, faction_color, faction_standings, FactionColor};
use solarance::identity::Identity;
use solarance::stations::{
    check_docking, dock_to_station, plan_mining_start, plan_production_tick, plan_undock, polygon_points_per_kind, split_mining_yield,
    undock_from_station, verify, BlueprintCategory, DockError, EquipmentSlotType, MiningError, MiningStart,
    MinedYield, StationError, StationModuleCategory, UndockAction, UndockError,
};
use solarance::tables::{Ship, ShipLocation, StationModule, StellarObjectKind};

#[test]
fn module_count_is_bounded_by_size() {
    assert_eq!(verify(3, 3), Ok(()));
    assert_eq!(verify(4, 3), Err(StationError::TooManyModules { found: 4, max: 3 }));
}

#[test]
fn production_tick_skips_unknown_blueprints() {
    let modules = [
        StationModule { id: 1, station_id: 9, blueprint_id: 10 },
        StationModule { id: 2, station_id: 9, blueprint_id: 11 },
        StationModule { id: 3, station_id: 9, blueprint_id: 12 },
    ];
    let blueprints = [
        BlueprintCategory { blueprint_id: 12, category: StationModuleCategory::ManufacturingAndAssembly },
        BlueprintCategory { blueprint_id: 10, category: StationModuleCategory::LogisticsAndStorage },
    ];
    assert_eq!(
        plan_production_tick(&modules, &blueprints),
        vec![(1, StationModuleCategory::LogisticsAndStorage), (3, StationModuleCategory::ManufacturingAndAssembly)]
    );
}

#[test]
fn docking_checks_range_construction_and_standing() {
    assert_eq!(check_docking(false, None, 1, 2, true), Err(DockError::TooFar));
    assert_eq!(check_docking(true, Some(false), 1, 1, false), Err(DockError::UnderConstruction));
    assert_eq!(check_docking(true, Some(true), 1, 2, true), Err(DockError::HostileFaction));
    assert_eq!(check_docking(true, None, 1, 1, true), Ok(()));
}

fn flying(owner: u8) -> Ship {
    let mut b = [0u8; 32];
    b[0] = owner;
    Ship {
        id: 4,
        shiptype_id: 1001,
        location: ShipLocation::Sector,
        sobj_id: 77,
        station_id: 0,
        sector_id: 3,
        player_id: Identity::from_be_byte_array(b),
        faction_id: 1,
    }
}

#[test]
fn undocking_restores_a_docked_ship() {
    let s = flying(1);
    let docked = dock_to_station(s, 12);
    assert_eq!((docked.sobj_id, docked.station_id, docked.location), (0, 12, ShipLocation::Station));
    let back = undock_from_station(docked, 77, 3);
    assert_eq!((back.sobj_id, back.station_id, back.sector_id, back.location), (77, 0, 3, ShipLocation::Sector));
    assert_eq!(back.id, s.id);
}

#[test]
fn undock_is_refused_while_flying_another_ship() {
    let me = flying(1).player_id;
    let docked = dock_to_station(flying(1), 12);
    assert_eq!(plan_undock(&[flying(1)], me, &docked), Err(UndockError::AlreadyControllingShip));
    assert_eq!(plan_undock(&[docked, flying(2)], me, &docked), Ok(UndockAction::Undock));
    assert_eq!(plan_undock(&[], me, &flying(1)), Ok(UndockAction::AlreadyUndocked));
}

#[test]
fn mining_needs_a_laser_and_range() {
    let laser = [EquipmentSlotType::Weapon, EquipmentSlotType::MiningLaser];
    assert_eq!(plan_mining_start(&[EquipmentSlotType::Weapon], true, &[], 5, true), Err(MiningError::NoMiningLaser));
    assert_eq!(plan_mining_start(&laser, false, &[], 5, true), Err(MiningError::OutOfRange));
    assert_eq!(plan_mining_start(&laser, true, &[4, 5], 5, true), Ok(MiningStart::AlreadyMining));
    assert_eq!(plan_mining_start(&laser, true, &[4, 5], 5, false), Ok(MiningStart::AlreadyMining));
    assert_eq!(plan_mining_start(&laser, true, &[4], 5, true), Ok(MiningStart::StartTimer));
    assert_eq!(plan_mining_start(&laser, true, &[4], 5, false), Err(MiningError::DifferentSectors));
}

#[test]
fn standings_are_mutual() {
    let pair = create_mutual_standing(1, 5, -75);
    assert_eq!((pair[0].from, pair[0].to, pair[0].reputation), (1, 5, -75));
    assert_eq!((pair[1].from, pair[1].to, pair[1].reputation), (5, 1, -75));
    let all = faction_standings();
    assert_eq!(all.len(), 30);
    for s in &all {
        assert!(all.iter().any(|t| t.from == s.to && t.to == s.from && t.reputation == s.reputation));
    }
}

#[test]
fn faction_colors_and_polygons() {
    assert_eq!(faction_color(1), FactionColor::Rgb(230, 90, 90));
    assert_eq!(faction_color(3), FactionColor::Orange);
    assert_eq!(faction_color(0), FactionColor::LightGray);
    assert_eq!(polygon_points_per_kind(StellarObjectKind::Asteroid), 7);
    assert_eq!(polygon_points_per_kind(StellarObjectKind::Ship), 3);
}

#[test]
fn mining_never_takes_more_than_the_asteroid_holds() {
    assert_eq!(split_mining_yield(4, 10), MinedYield { loaded: 4, remaining: 6 });
    assert_eq!(split_mining_yield(10, 10), MinedYield { loaded: 10, remaining: 0 });
    assert_eq!(split_mining_yield(70_000, 3), MinedYield { loaded: 3, remaining: 0 });
    assert_eq!(split_mining_yield(0, 0), MinedYield { loaded: 0, remaining: 0 });
}

#[test]
fn iwa_and_rediar_are_neutral_and_vancellan_hostile_to_all() {
    let all = faction_standings();
    let rep = |a: u32, b: u32| all.iter().find(|s| s.from == a && s.to == b).map(|s| s.reputation);
    assert_eq!(rep(2, 4), Some(0));
    assert_eq!(rep(4, 2), Some(0));
    for f in [0u32, 1, 2, 3, 4] {
        assert_eq!(rep(5, f), Some(-75));
        assert_eq!(rep(f, 5), Some(-75));
    }
}
