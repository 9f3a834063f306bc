use solarance::factions::{faction_definitions, FactionRow, FactionTier};
use solarance::identity::Identity;
use solarance::players::{
    active_players_after_connect, active_players_after_disconnect, can_create_player, capital_spawn_for_faction,
    check_ship_creation, faction_choices, get_player_ship, global_config_any_active_players, init_global_config, register_playername, Player,
    player_after_connect, player_after_disconnect, starting_loadout, FactionChoice, RegistrationError, StarterEquipment, StarterItem, ShipCreationError, SpawnSite, StationLocation,
};
use solarance::stations::EquipmentSlotType;
use solarance::tables::{Ship, ShipLocation};

fn ident(n: u8) -> Identity {
    let mut b = [0u8; 32];
    b[0] = n;
    Identity::from_be_byte_array(b)
}

fn factions() -> Vec<FactionRow> {
    let mut rows = faction_definitions();
    rows[1].capital_station_id = Some(500);
    rows
}

fn existing() -> Vec<Player> {
    vec![Player { id: ident(1), username: "kirra".to_string(), credits: 5, logged_in: false, faction_id: 1, last_login: None }]
}

#[test]
fn registration_creates_a_logged_in_player() {
    let p = register_playername(&existing(), &factions(), ident(2), "nova", 1).unwrap();
    assert_eq!(p.username, "nova");
    assert_eq!(p.credits, 1000);
    assert!(p.logged_in);
    assert_eq!(p.faction_id, 1);
    assert_eq!(p.last_login, None);
}

#[test]
fn registration_errors_in_order() {
    let f = factions();
    let players = existing();
    assert_eq!(register_playername(&players, &f, ident(1), "x", 1).unwrap_err(), RegistrationError::AlreadyRegistered);
    let long = "abcdefghijklmnopqrstuvwxyz0123456";
    assert_eq!(register_playername(&players, &f, ident(2), long, 1).unwrap_err(), RegistrationError::UsernameTooLong);
    assert!(register_playername(&players, &f, ident(2), &long[..32], 1).is_ok());
    assert_eq!(register_playername(&players, &f, ident(2), "kirra", 1).unwrap_err(), RegistrationError::UsernameTaken);
    assert_eq!(register_playername(&players, &f, ident(2), "nova", 42).unwrap_err(), RegistrationError::UnknownFaction { faction_id: 42 });
    assert_eq!(register_playername(&players, &f, ident(2), "nova", 0).unwrap_err(), RegistrationError::NotJoinable { faction_id: 0 });
    assert_eq!(register_playername(&players, &f, ident(2), "nova", 4).unwrap_err(), RegistrationError::NoCapital { faction_id: 4 });
}

#[test]
fn active_player_count_round_trips() {
    assert_eq!(active_players_after_disconnect(active_players_after_connect(7)), 7);
    assert_eq!(active_players_after_disconnect(0), 0);
    assert!(!global_config_any_active_players(Some(0)));
    assert!(global_config_any_active_players(Some(3)));
    assert!(!global_config_any_active_players(None));
}

#[test]
fn init_keeps_a_stored_server_identity() {
    let fresh = init_global_config(None, ident(9));
    assert!(fresh.create);
    assert_eq!(fresh.server_identity.to_be_byte_array(), ident(9).to_be_byte_array());
    let unset = init_global_config(Some(Identity::default()), ident(9));
    assert!(!unset.create);
    assert_eq!(unset.server_identity.to_be_byte_array(), ident(9).to_be_byte_array());
    let kept = init_global_config(Some(ident(3)), ident(9));
    assert_eq!(kept.server_identity.to_be_byte_array(), ident(3).to_be_byte_array());
    assert_eq!(kept.active_players, 0);
}

fn ship(id: u64, owner: u8, location: ShipLocation, sobj_id: u64) -> Ship {
    Ship { id, shiptype_id: 1001, location, sobj_id, station_id: 0, sector_id: 1, player_id: ident(owner), faction_id: 1 }
}

#[test]
fn controlled_ship_is_the_first_in_sector() {
    let ships = [ship(1, 1, ShipLocation::Station, 0), ship(2, 2, ShipLocation::Sector, 20), ship(3, 1, ShipLocation::Sector, 30)];
    assert_eq!(get_player_ship(&ships, ident(1)).map(|s| s.id), Some(3));
    assert!(get_player_ship(&ships, ident(4)).is_none());
    let me = Player { id: ident(1), username: "k".to_string(), credits: 0, logged_in: true, faction_id: 1, last_login: Some(7) };
    assert_eq!(me.get_ship_id(&ships), Some(30));
}

#[test]
fn one_ship_per_player() {
    let ships = [ship(1, 1, ShipLocation::Station, 0)];
    assert_eq!(check_ship_creation(false, &ships, ident(2)), Err(ShipCreationError::NotRegistered));
    assert_eq!(check_ship_creation(true, &ships, ident(1)), Err(ShipCreationError::AlreadyOwnsShip));
    assert_eq!(check_ship_creation(true, &ships, ident(2)), Ok(()));
}

#[test]
fn new_ships_spawn_beside_the_capital() {
    let f = factions();
    let stations = [StationLocation { station_id: 500, sector_id: 6 }];
    assert_eq!(capital_spawn_for_faction(&f, &stations, 1), SpawnSite { sector_id: 6, beside_station_id: Some(500) });
    assert_eq!(capital_spawn_for_faction(&f, &stations, 4), SpawnSite { sector_id: 0, beside_station_id: None });
    assert_eq!(capital_spawn_for_faction(&f, &[], 1), SpawnSite { sector_id: 0, beside_station_id: None });
    assert_eq!(capital_spawn_for_faction(&f, &stations, 77), SpawnSite { sector_id: 0, beside_station_id: None });
    assert_eq!(f[6].tier, FactionTier::Alliance);
}

#[test]
fn creation_screen_offers_joinable_factions_pickable_with_a_capital() {
    let mut factions = faction_definitions();
    assert_eq!(
        faction_choices(&factions),
        vec![FactionChoice { faction_id: 1, pickable: false }, FactionChoice { faction_id: 4, pickable: false }]
    );
    factions[4].capital_station_id = Some(77);
    assert_eq!(
        faction_choices(&factions),
        vec![FactionChoice { faction_id: 1, pickable: false }, FactionChoice { faction_id: 4, pickable: true }]
    );
}

#[test]
fn creation_form_needs_a_name_and_a_faction() {
    assert!(can_create_player("Ada", Some(1)));
    assert!(!can_create_player("", Some(1)));
    assert!(!can_create_player("Ada", None));
}

#[test]
fn new_ships_get_the_starter_loadout() {
    let l = starting_loadout();
    assert_eq!(l.ship_type_id, 1001);
    assert_eq!(l.cargo, vec![(StarterItem::FoodRations, 3), (StarterItem::EnergyCell, 5)]);
    assert_eq!(
        l.equipment,
        vec![
            StarterEquipment { slot_type: EquipmentSlotType::MiningLaser, slot_index: 0, item: StarterItem::BasicMiningLaser },
            StarterEquipment { slot_type: EquipmentSlotType::Weapon, slot_index: 0, item: StarterItem::IonicBlaster },
        ]
    );
}

#[test]
fn connecting_stamps_last_login_and_disconnecting_keeps_it() {
    let p = Player { id: ident(3), username: "vex".to_string(), credits: 40, logged_in: false, faction_id: 4, last_login: None };
    let on = player_after_connect(p, 1_700_000_000_000_000);
    assert!(on.logged_in);
    assert_eq!(on.last_login, Some(1_700_000_000_000_000));
    assert_eq!((on.username.as_str(), on.credits, on.faction_id), ("vex", 40, 4));
    let off = player_after_disconnect(on);
    assert!(!off.logged_in);
    assert_eq!(off.last_login, Some(1_700_000_000_000_000));
}
