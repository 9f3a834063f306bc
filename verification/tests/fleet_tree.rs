use solarance::fleet::{collect_ships_per_sector, prepare_ships_for_system_tree, ships_by_sector_then_id, gate_edges, labels_by_id, ShipSelection, ShipTreeHandler};
use solarance::identity::Identity;
use solarance::tables::{ClientDb, Sector, Ship, ShipLocation, StarSystem};

fn who(n: u8) -> Identity {
    let mut b = [0u8; 32];
    b[31] = n;
    Identity::from_be_byte_array(b)
}

fn ship(id: u64, owner: u8, sector_id: u64) -> Ship {
    Ship {
        id,
        shiptype_id: 1001,
        location: ShipLocation::Station,
        sobj_id: 0,
        station_id: 1,
        sector_id,
        player_id: who(owner),
        faction_id: 1,
    }
}

fn galaxy(ships: Vec<Ship>) -> ClientDb {
    ClientDb {
        identity: who(1),
        ships,
        sectors: vec![
            Sector { id: 20, system_id: 2, name: "Beta".to_string() },
            Sector { id: 10, system_id: 2, name: "Alpha".to_string() },
            Sector { id: 30, system_id: 3, name: "Gamma".to_string() },
            Sector { id: 40, system_id: 99, name: "Lost".to_string() },
        ],
        star_systems: vec![
            StarSystem { id: 2, name: "Procyon".to_string() },
            StarSystem { id: 3, name: "Sol".to_string() },
        ],
        trading_port_ids: vec![],
        refineries: vec![],
        manufacturing: vec![],
        recipes: vec![],
    }
}

#[test]
fn ships_are_grouped_by_sector_for_the_owner_only() {
    let db = galaxy(vec![ship(5, 1, 20), ship(6, 2, 20), ship(3, 1, 20), ship(7, 1, 30)]);
    let map = collect_ships_per_sector(&db);
    assert_eq!(map.len(), 2);
    let ids: Vec<u64> = map[&20].iter().map(|s| s.id).collect();
    assert_eq!(ids, vec![5, 3]);
    assert_eq!(map[&30].len(), 1);
}

#[test]
fn tree_sorts_sectors_and_ships_by_id() {
    let db = galaxy(vec![ship(5, 1, 20), ship(3, 1, 20), ship(8, 1, 10), ship(7, 1, 30), ship(9, 1, 40), ship(4, 2, 10)]);
    let tree = prepare_ships_for_system_tree(&db);
    // sector 40 belongs to a system that does not exist
    assert_eq!(tree.len(), 2);
    let (system, sectors) = &tree[&2];
    assert_eq!(system.name, "Procyon");
    let sector_ids: Vec<u64> = sectors.iter().map(|(s, _)| s.id).collect();
    assert_eq!(sector_ids, vec![10, 20]);
    let ships_in_20: Vec<u64> = sectors[1].1.iter().map(|s| s.id).collect();
    assert_eq!(ships_in_20, vec![3, 5]);
    let ships_in_10: Vec<u64> = sectors[0].1.iter().map(|s| s.id).collect();
    assert_eq!(ships_in_10, vec![8]);
    assert_eq!(tree[&3].1.len(), 1);
}

#[test]
fn tree_is_empty_without_own_ships() {
    let db = galaxy(vec![ship(1, 2, 10)]);
    assert!(prepare_ships_for_system_tree(&db).is_empty());
    assert!(collect_ships_per_sector(&db).is_empty());
}

#[test]
fn selection_follows_select_and_deselect() {
    let mut sel = ShipSelection::new();
    let s = ship(12, 1, 10);
    assert!(!sel.is_ship_selected(&s));
    sel.currently_selected_module = Some((1, 77));
    sel.select_ship(&s);
    assert!(sel.is_ship_selected(&s));
    assert!(!sel.is_ship_selected(&ship(13, 1, 10)));
    assert_eq!(sel.currently_selected_module, Some((1, 77)));
    sel.deselect_ship();
    assert_eq!(sel.selected_ship_id, None);
    assert_eq!(sel.currently_selected_module, None);
}

#[test]
fn admin_overview_orders_ships_by_sector_then_id() {
    let ordered = ships_by_sector_then_id(&[ship(7, 1, 20), ship(3, 2, 10), ship(5, 1, 20), ship(9, 3, 10)]);
    let keys: Vec<(u64, u64)> = ordered.iter().map(|s| (s.sector_id, s.id)).collect();
    assert_eq!(keys, vec![(10, 3), (10, 9), (20, 5), (20, 7)]);
    assert!(ships_by_sector_then_id(&[]).is_empty());
}

#[test]
fn map_draws_one_edge_per_connected_pair() {
    let known = [1, 2, 3, 5];
    assert_eq!(gate_edges(&[(1, 2), (2, 1), (3, 2), (2, 3), (1, 2)], &known), vec![(1, 2), (2, 3)]);
    assert_eq!(gate_edges(&[(5, 5)], &known), vec![(5, 5)]);
    assert!(gate_edges(&[], &known).is_empty());
}

#[test]
fn map_skips_links_to_sectors_it_does_not_show() {
    assert_eq!(gate_edges(&[(1, 9), (9, 1), (2, 1)], &[1, 2]), vec![(1, 2)]);
    assert!(gate_edges(&[(1, 2)], &[]).is_empty());
}

#[test]
fn admin_labels_are_listed_by_id() {
    let rows = vec![(30, "Gamma".to_string()), (10, "Alpha".to_string()), (20, "Beta".to_string())];
    let ids: Vec<u64> = labels_by_id(rows).iter().map(|r| r.0).collect();
    assert_eq!(ids, vec![10, 20, 30]);
    assert_eq!(labels_by_id(vec![(4, "x".to_string())]), vec![(4, "x".to_string())]);
}
