//! The player's own ships, grouped by sector and star system for the asset
//! tree, and the selection state of that tree; the admin overview's ship
//! order and the jumpgate edges of the system map.

use crate::tables::{find_by_key, sector_key, star_system_key, ClientDb, Sector, Ship, StarSystem};
use std::collections::HashMap;
use vstd::prelude::*;

verus! {

broadcast use vstd::std_specs::hash::group_hash_axioms, vstd::seq_lib::group_to_multiset_ensures;

/// The ships of `owner` in sector `sector_id`, in table order.
pub open spec fn owned_ships_in_sector(ships: Seq<Ship>, owner: Seq<u8>, sector_id: u64) -> Seq<Ship>
    decreases ships.len(),
{
    if ships.len() == 0 {
        Seq::empty()
    } else {
        let prev = owned_ships_in_sector(ships.drop_last(), owner, sector_id);
        let s = ships.last();
        if s.player_id@ == owner && s.sector_id == sector_id {
            prev.push(s)
        } else {
            prev
        }
    }
}

/// Ships in non-decreasing order of id.
pub open spec fn ships_sorted_by_id(ships: Seq<Ship>) -> bool {
    forall|i: int, j: int| 0 <= i < j < ships.len() ==> (#[trigger] ships[i]).id <= (#[trigger] ships[j]).id
}

proof fn lemma_owned_ships_push(ships: Seq<Ship>, s: Ship, owner: Seq<u8>, sector_id: u64)
    ensures
        owned_ships_in_sector(ships.push(s), owner, sector_id) == if s.player_id@ == owner && s.sector_id == sector_id {
            owned_ships_in_sector(ships, owner, sector_id).push(s)
        } else {
            owned_ships_in_sector(ships, owner, sector_id)
        },
{
    assert(ships.push(s).drop_last() =~= ships);
}

proof fn lemma_owned_ships_members(ships: Seq<Ship>, owner: Seq<u8>, sector_id: u64)
    ensures
        forall|k: int| 0 <= k < owned_ships_in_sector(ships, owner, sector_id).len() ==> {
            let s = #[trigger] owned_ships_in_sector(ships, owner, sector_id)[k];
            s.player_id@ == owner && s.sector_id == sector_id
        },
    decreases ships.len(),
{
    if ships.len() > 0 {
        lemma_owned_ships_members(ships.drop_last(), owner, sector_id);
    }
}

/// The player's own ships grouped by the sector they are in: one entry per
/// sector holding at least one of them, with that sector's ships in table
/// order.
pub fn collect_ships_per_sector(db: &ClientDb) -> (map: HashMap<u64, Vec<Ship>>)
    ensures
        forall|sector_id: u64| #[trigger] map@.contains_key(sector_id) <==> owned_ships_in_sector(db.ships@, db.identity@, sector_id).len() > 0,
        forall|sector_id: u64| #[trigger] map@.contains_key(sector_id) ==> map@[sector_id]@ == owned_ships_in_sector(db.ships@, db.identity@, sector_id),
{
    let mut map: HashMap<u64, Vec<Ship>> = HashMap::new();
    let mut i: usize = 0;
    while i < db.ships.len()
        invariant
            0 <= i <= db.ships@.len(),
            forall|sector_id: u64| #[trigger] map@.contains_key(sector_id) <==> owned_ships_in_sector(db.ships@.take(i as int), db.identity@, sector_id).len() > 0,
            forall|sector_id: u64| #[trigger] map@.contains_key(sector_id) ==> map@[sector_id]@ == owned_ships_in_sector(db.ships@.take(i as int), db.identity@, sector_id),
        decreases db.ships@.len() - i,
    {
        let ship = db.ships[i];
        proof {
            assert(db.ships@.take(i + 1) =~= db.ships@.take(i as int).push(ship));
            assert forall|sector_id: u64| #[trigger] owned_ships_in_sector(db.ships@.take(i + 1), db.identity@, sector_id) == if ship.player_id@ == db.identity@ && ship.sector_id == sector_id {
                owned_ships_in_sector(db.ships@.take(i as int), db.identity@, sector_id).push(ship)
            } else {
                owned_ships_in_sector(db.ships@.take(i as int), db.identity@, sector_id)
            } by {
                lemma_owned_ships_push(db.ships@.take(i as int), ship, db.identity@, sector_id);
            }
        }
        if ship.player_id.same_as(&db.identity) {
            let sector_id = ship.sector_id;
            let mut ships_here = match map.remove(&sector_id) {
                Some(v) => v,
                None => Vec::new(),
            };
            ships_here.push(ship);
            map.insert(sector_id, ships_here);
        }
        i = i + 1;
    }
    assert(db.ships@.take(db.ships@.len() as int) =~= db.ships@);
    map
}

/// Sorts ships by id (stable).
fn sort_ships_by_id(ships: &Vec<Ship>) -> (out: Vec<Ship>)
    ensures
        ships_sorted_by_id(out@),
        out@.to_multiset() == ships@.to_multiset(),
{
    let mut out: Vec<Ship> = Vec::new();
    let mut i: usize = 0;
    while i < ships.len()
        invariant
            0 <= i <= ships@.len(),
            ships_sorted_by_id(out@),
            out@.to_multiset() == ships@.take(i as int).to_multiset(),
        decreases ships@.len() - i,
    {
        let x = ships[i];
        let mut p: usize = 0;
        while p < out.len() && out[p].id <= x.id
            invariant
                0 <= p <= out@.len(),
                forall|q: int| 0 <= q < p ==> (#[trigger] out@[q]).id <= x.id,
            decreases out@.len() - p,
        {
            p = p + 1;
        }
        let ghost before = out@;
        out.insert(p, x);
        proof {
            assert(ships@.take(i + 1) =~= ships@.take(i as int).push(x));
            assert forall|a: int, b: int| 0 <= a < b < out@.len() implies (#[trigger] out@[a]).id <= (#[trigger] out@[b]).id by {
                if p < before.len() {
                    assert(before[p as int].id > x.id);
                }
                if a < p && b == p {
                } else if a < p && b > p {
                    assert(out@[b] == before[b - 1]);
                } else if a == p && b > p {
                    assert(out@[b] == before[b - 1]);
                    assert(before[p as int].id <= before[b - 1].id);
                } else if a > p {
                    assert(out@[a] == before[a - 1] && out@[b] == before[b - 1]);
                }
            }
        }
        i = i + 1;
    }
    assert(ships@.take(ships@.len() as int) =~= ships@);
    out
}

/// Does ship `a` come no later than ship `b` when ordered by sector, then
/// by id?
pub open spec fn sector_then_id_le(a: Ship, b: Ship) -> bool {
    a.sector_id < b.sector_id || (a.sector_id == b.sector_id && a.id <= b.id)
}

/// Ships in non-decreasing order of sector, then of id.
pub open spec fn ships_sorted_by_sector_then_id(ships: Seq<Ship>) -> bool {
    forall|i: int, j: int| 0 <= i < j < ships.len() ==> sector_then_id_le(#[trigger] ships[i], #[trigger] ships[j])
}

/// Orders all ships by sector, then by id, as the admin overview lists them.
pub fn ships_by_sector_then_id(ships: &[Ship]) -> (out: Vec<Ship>)
    ensures
        ships_sorted_by_sector_then_id(out@),
        out@.to_multiset() == ships@.to_multiset(),
{
    let mut out: Vec<Ship> = Vec::new();
    let mut i: usize = 0;
    while i < ships.len()
        invariant
            0 <= i <= ships@.len(),
            ships_sorted_by_sector_then_id(out@),
            out@.to_multiset() == ships@.take(i as int).to_multiset(),
        decreases ships@.len() - i,
    {
        let x = ships[i];
        let mut p: usize = 0;
        while p < out.len() && (out[p].sector_id < x.sector_id || (out[p].sector_id == x.sector_id && out[p].id <= x.id))
            invariant
                0 <= p <= out@.len(),
                forall|q: int| 0 <= q < p ==> sector_then_id_le(#[trigger] out@[q], x),
            decreases out@.len() - p,
        {
            p = p + 1;
        }
        let ghost before = out@;
        out.insert(p, x);
        proof {
            assert(ships@.take(i + 1) =~= ships@.take(i as int).push(x));
            assert forall|a: int, b: int| 0 <= a < b < out@.len() implies sector_then_id_le(#[trigger] out@[a], #[trigger] out@[b]) by {
                if p < before.len() {
                    assert(!sector_then_id_le(before[p as int], x));
                }
                if a < p && b == p {
                } else if a < p && b > p {
                    assert(out@[b] == before[b - 1]);
                } else if a == p && b > p {
                    assert(out@[b] == before[b - 1]);
                    assert(sector_then_id_le(before[p as int], before[b - 1]));
                } else if a > p {
                    assert(out@[a] == before[a - 1] && out@[b] == before[b - 1]);
                }
            }
        }
        i = i + 1;
    }
    assert(ships@.take(ships@.len() as int) =~= ships@);
    out
}

/// The unordered key of a jumpgate link between two sectors, lower id first.
pub open spec fn gate_key(link: (u64, u64)) -> (u64, u64) {
    if link.0 <= link.1 { link } else { (link.1, link.0) }
}

/// The edges drawn on the system map for jumpgate links
/// `(current_sector_id, target_sector_id)`: one per connected sector pair,
/// whichever direction its gates point, in order of first appearance, and
/// only where both sectors are among the map's sector rows `sector_ids`.
pub open spec fn gate_edges_of(links: Seq<(u64, u64)>, sector_ids: Seq<u64>) -> Seq<(u64, u64)>
    decreases links.len(),
{
    if links.len() == 0 {
        Seq::empty()
    } else {
        let prev = gate_edges_of(links.drop_last(), sector_ids);
        let link = links.last();
        let key = gate_key(link);
        if prev.contains(key) || !(sector_ids.contains(link.0) && sector_ids.contains(link.1)) {
            prev
        } else {
            prev.push(key)
        }
    }
}

fn contains_id(ids: &[u64], id: u64) -> (r: bool)
    ensures
        r == ids@.contains(id),
{
    let mut k: usize = 0;
    while k < ids.len()
        invariant
            0 <= k <= ids@.len(),
            forall|j: int| 0 <= j < k ==> ids@[j] != id,
        decreases ids@.len() - k,
    {
        if ids[k] == id {
            assert(ids@[k as int] == id);
            return true;
        }
        k = k + 1;
    }
    false
}

/// Lists the jumpgate edges of the system map: one per connected pair of
/// sectors that both have a row on the map.
pub fn gate_edges(links: &[(u64, u64)], sector_ids: &[u64]) -> (edges: Vec<(u64, u64)>)
    ensures
        edges@ == gate_edges_of(links@, sector_ids@),
{
    let mut edges: Vec<(u64, u64)> = Vec::new();
    let mut i: usize = 0;
    while i < links.len()
        invariant
            0 <= i <= links@.len(),
            edges@ == gate_edges_of(links@.take(i as int), sector_ids@),
        decreases links@.len() - i,
    {
        let (a, b) = links[i];
        let key = if a <= b { (a, b) } else { (b, a) };
        proof {
            assert(links@.take(i + 1).drop_last() =~= links@.take(i as int));
        }
        let mut seen = false;
        let mut k: usize = 0;
        while k < edges.len()
            invariant
                0 <= k <= edges@.len(),
                seen <==> exists|j: int| 0 <= j < k && edges@[j] == key,
            decreases edges@.len() - k,
        {
            if edges[k].0 == key.0 && edges[k].1 == key.1 {
                seen = true;
            }
            k = k + 1;
        }
        assert(seen <==> edges@.contains(key));
        if !seen && contains_id(sector_ids, a) && contains_id(sector_ids, b) {
            edges.push(key);
        }
        i = i + 1;
        assert(edges@ =~= gate_edges_of(links@.take(i as int), sector_ids@));
    }
    assert(links@.take(links@.len() as int) =~= links@);
    edges
}

/// Labelled rows in non-decreasing order of id.
pub open spec fn labels_sorted_by_id(rows: Seq<(u64, String)>) -> bool {
    forall|i: int, j: int| 0 <= i < j < rows.len() ==> (#[trigger] rows[i]).0 <= (#[trigger] rows[j]).0
}

/// Orders `(id, label)` rows by id, as the admin overview lists systems,
/// sectors, factions, items and stations.
pub fn labels_by_id(rows: Vec<(u64, String)>) -> (out: Vec<(u64, String)>)
    ensures
        labels_sorted_by_id(out@),
        out@.to_multiset() == rows@.to_multiset(),
{
    let ghost original = rows@;
    let mut rest = rows;
    let mut out: Vec<(u64, String)> = Vec::new();
    while rest.len() > 0
        invariant
            labels_sorted_by_id(out@),
            out@.to_multiset().add(rest@.to_multiset()) == original.to_multiset(),
        decreases rest@.len(),
    {
        let ghost rest_before = rest@;
        let x = rest.remove(0);
        proof {
            assert(rest_before =~= seq![x] + rest@);
            vstd::seq_lib::lemma_multiset_commutative(seq![x], rest@);
            assert(seq![x] =~= Seq::<(u64, String)>::empty().push(x));
        }
        let mut p: usize = 0;
        while p < out.len() && out[p].0 <= x.0
            invariant
                0 <= p <= out@.len(),
                forall|q: int| 0 <= q < p ==> (#[trigger] out@[q]).0 <= x.0,
            decreases out@.len() - p,
        {
            p = p + 1;
        }
        let ghost before = out@;
        out.insert(p, x);
        proof {
            assert forall|a: int, b: int| 0 <= a < b < out@.len() implies (#[trigger] out@[a]).0 <= (#[trigger] out@[b]).0 by {
                if p < before.len() {
                    assert(before[p as int].0 > x.0);
                }
                if a < p && b == p {
                } else if a < p && b > p {
                    assert(out@[b] == before[b - 1]);
                } else if a == p && b > p {
                    assert(out@[b] == before[b - 1]);
                    assert(before[p as int].0 <= before[b - 1].0);
                } else if a > p {
                    assert(out@[a] == before[a - 1] && out@[b] == before[b - 1]);
                }
            }
            assert(out@.to_multiset() =~= before.to_multiset().insert(x));
            assert(out@.to_multiset().add(rest@.to_multiset()) =~= original.to_multiset());
        }
    }
    proof {
        assert(rest@.to_multiset() =~= vstd::multiset::Multiset::empty());
        assert(out@.to_multiset() =~= original.to_multiset());
    }
    out
}

/// The sector row with the given id, if any.
pub open spec fn sector_row(db: &ClientDb, id: u64) -> Option<Sector> {
    find_by_key(db.sectors@, sector_key(), id as int)
}

/// The star system row with the given id, if any.
pub open spec fn star_system_row(db: &ClientDb, id: u32) -> Option<StarSystem> {
    find_by_key(db.star_systems@, star_system_key(), id as int)
}

/// A sector appears in the tree under `system_id` when the player has a ship
/// in it, the sector row exists and belongs to that system, and the system
/// row exists.
pub open spec fn sector_in_tree(db: &ClientDb, sector_id: u64, system_id: u32) -> bool {
    &&& owned_ships_in_sector(db.ships@, db.identity@, sector_id).len() > 0
    &&& sector_row(db, sector_id) matches Some(sector) && sector.system_id == system_id
    &&& star_system_row(db, system_id) is Some
}

/// One sector of the tree: its row and the player's ships in it, by id.
pub open spec fn tree_entry_ok(db: &ClientDb, system_id: u32, entry: (Sector, Vec<Ship>)) -> bool {
    &&& sector_in_tree(db, entry.0.id, system_id)
    &&& sector_row(db, entry.0.id) == Some(entry.0)
    &&& ships_sorted_by_id(entry.1@)
    &&& entry.1@.to_multiset() == owned_ships_in_sector(db.ships@, db.identity@, entry.0.id).to_multiset()
}

/// Sector entries in strictly increasing order of sector id.
pub open spec fn sectors_strictly_sorted(entries: Seq<(Sector, Vec<Ship>)>) -> bool {
    forall|i: int, j: int| 0 <= i < j < entries.len() ==> (#[trigger] entries[i]).0.id < (#[trigger] entries[j]).0.id
}

/// The sector ids of a list of tree entries.
pub open spec fn sector_ids_of(entries: Seq<(Sector, Vec<Ship>)>) -> Seq<u64> {
    entries.map_values(|e: (Sector, Vec<Ship>)| e.0.id)
}

/// One star system of the tree: its row and every sector of it that holds a
/// ship of the player, ordered by sector id.
pub open spec fn system_tree_ok(db: &ClientDb, system_id: u32, value: (StarSystem, Vec<(Sector, Vec<Ship>)>)) -> bool {
    &&& star_system_row(db, system_id) == Some(value.0)
    &&& forall|entry: (Sector, Vec<Ship>)| #[trigger] value.1@.contains(entry) ==> tree_entry_ok(db, system_id, entry)
    &&& forall|sector_id: u64| #[trigger] sector_in_tree(db, sector_id, system_id) ==> sector_ids_of(value.1@).contains(sector_id)
    &&& sectors_strictly_sorted(value.1@)
}

/// The tree after the first `k` sector ids of `ids` have been placed.
spec fn partial_tree_ok(db: &ClientDb, ids: Seq<u64>, k: int, tree: Map<u32, (StarSystem, Vec<(Sector, Vec<Ship>)>)>) -> bool {
    &&& forall|system_id: u32| #[trigger] tree.contains_key(system_id) <==> exists|sector_id: u64| ids.take(k).contains(sector_id) && #[trigger] sector_in_tree(db, sector_id, system_id)
    &&& forall|system_id: u32| #[trigger] tree.contains_key(system_id) ==> {
        let value = tree[system_id];
        &&& star_system_row(db, system_id) == Some(value.0)
        &&& forall|entry: (Sector, Vec<Ship>)| #[trigger] value.1@.contains(entry) ==> tree_entry_ok(db, system_id, entry) && ids.take(k).contains(entry.0.id)
        &&& forall|sector_id: u64| ids.take(k).contains(sector_id) && #[trigger] sector_in_tree(db, sector_id, system_id) ==> sector_ids_of(value.1@).contains(sector_id)
        &&& sectors_strictly_sorted(value.1@)
    }
}

/// The per-sector ship lists not yet placed in the tree.
spec fn remaining_sectors_ok(db: &ClientDb, ids: Seq<u64>, k: int, per_sector: Map<u64, Vec<Ship>>) -> bool {
    forall|j: int| k <= j < ids.len() ==> #[trigger] per_sector.contains_key(ids[j]) && per_sector[ids[j]]@
        == owned_ships_in_sector(db.ships@, db.identity@, ids[j])
}

proof fn lemma_sector_ids_of_contains(entries: Seq<(Sector, Vec<Ship>)>, sector_id: u64)
    ensures
        sector_ids_of(entries).contains(sector_id) <==> exists|e: int| 0 <= e < entries.len() && (#[trigger] entries[e]).0.id == sector_id,
{
    if sector_ids_of(entries).contains(sector_id) {
        let e = choose|e: int| 0 <= e < sector_ids_of(entries).len() && sector_ids_of(entries)[e] == sector_id;
        assert(entries[e].0.id == sector_id);
    }
    if exists|e: int| 0 <= e < entries.len() && (#[trigger] entries[e]).0.id == sector_id {
        let e = choose|e: int| 0 <= e < entries.len() && (#[trigger] entries[e]).0.id == sector_id;
        assert(sector_ids_of(entries)[e] == sector_id);
    }
}

/// Inserts an entry for a new sector at its place by sector id.
fn insert_sector_entry(entries: &mut Vec<(Sector, Vec<Ship>)>, entry: (Sector, Vec<Ship>))
    requires
        sectors_strictly_sorted(old(entries)@),
        !sector_ids_of(old(entries)@).contains(entry.0.id),
    ensures
        sectors_strictly_sorted(final(entries)@),
        forall|x: (Sector, Vec<Ship>)| #[trigger] final(entries)@.contains(x) <==> old(entries)@.contains(x) || x == entry,
        forall|sector_id: u64| #[trigger] sector_ids_of(final(entries)@).contains(sector_id) <==> sector_ids_of(old(entries)@).contains(sector_id) || sector_id == entry.0.id,
{
    let ghost before = entries@;
    let id = entry.0.id;
    let mut p: usize = 0;
    while p < entries.len() && entries[p].0.id <= id
        invariant
            0 <= p <= entries@.len(),
            entries@ == before,
            forall|q: int| 0 <= q < p ==> (#[trigger] entries@[q]).0.id <= id,
        decreases entries@.len() - p,
    {
        p = p + 1;
    }
    proof {
        assert forall|e: int| 0 <= e < before.len() implies (#[trigger] before[e]).0.id != id by {
            lemma_sector_ids_of_contains(before, id);
        }
    }
    entries.insert(p, entry);
    proof {
        let after = entries@;
        assert forall|a: int, b: int| 0 <= a < b < after.len() implies (#[trigger] after[a]).0.id < (#[trigger] after[b]).0.id by {
            if p < before.len() {
                assert(before[p as int].0.id > id);
            }
            if a < p && b == p {
                assert(after[a] == before[a]);
            } else if a < p && b > p {
                assert(after[a] == before[a]);
                assert(after[b] == before[b - 1]);
            } else if a == p && b > p {
                assert(after[b] == before[b - 1]);
                if b - 1 > p {
                    assert(before[p as int].0.id < before[b - 1].0.id);
                }
            } else if a > p {
                assert(after[a] == before[a - 1] && after[b] == before[b - 1]);
            } else {
                assert(after[a] == before[a] && after[b] == before[b]);
            }
        }
        assert forall|x: (Sector, Vec<Ship>)| #[trigger] after.contains(x) <==> before.contains(x) || x == entry by {
            if after.contains(x) {
                let e = choose|e: int| 0 <= e < after.len() && after[e] == x;
                if e < p {
                    assert(before[e] == x);
                } else if e > p {
                    assert(before[e - 1] == x);
                }
            }
            if before.contains(x) {
                let e = choose|e: int| 0 <= e < before.len() && before[e] == x;
                if e < p {
                    assert(after[e] == x);
                } else {
                    assert(after[e + 1] == x);
                }
            }
            if x == entry {
                assert(after[p as int] == x);
            }
        }
        assert forall|sector_id: u64| #[trigger] sector_ids_of(after).contains(sector_id) <==> sector_ids_of(before).contains(sector_id) || sector_id == id by {
            lemma_sector_ids_of_contains(after, sector_id);
            lemma_sector_ids_of_contains(before, sector_id);
            if exists|e: int| 0 <= e < after.len() && (#[trigger] after[e]).0.id == sector_id {
                let e = choose|e: int| 0 <= e < after.len() && (#[trigger] after[e]).0.id == sector_id;
                if e < p {
                    assert(before[e] == after[e]);
                } else if e > p {
                    assert(before[e - 1] == after[e]);
                }
            }
            if exists|e: int| 0 <= e < before.len() && (#[trigger] before[e]).0.id == sector_id {
                let e = choose|e: int| 0 <= e < before.len() && (#[trigger] before[e]).0.id == sector_id;
                if e < p {
                    assert(after[e] == before[e]);
                } else {
                    assert(after[e + 1] == before[e]);
                }
            }
            if sector_id == id {
                assert(after[p as int].0.id == id);
            }
        }
    }
}

proof fn lemma_find_by_key<T>(rows: Seq<T>, key: spec_fn(T) -> int, id: int)
    ensures
        find_by_key(rows, key, id) matches Some(r) ==> key(r) == id,
    decreases rows.len(),
{
    if rows.len() > 0 && key(rows[0]) != id {
        lemma_find_by_key(rows.skip(1), key, id);
    }
}

fn find_sector_index(rows: &Vec<Sector>, id: u64) -> (r: Option<usize>)
    ensures
        match r {
            Some(i) => i < rows@.len() && find_by_key(rows@, sector_key(), id as int) == Some(rows@[i as int]),
            None => find_by_key(rows@, sector_key(), id as int) is None,
        },
{
    let mut i: usize = 0;
    assert(rows@.skip(0) =~= rows@);
    while i < rows.len()
        invariant
            0 <= i <= rows@.len(),
            find_by_key(rows@, sector_key(), id as int) == find_by_key(rows@.skip(i as int), sector_key(), id as int),
        decreases rows@.len() - i,
    {
        assert(rows@.skip(i as int).skip(1) =~= rows@.skip(i + 1));
        if rows[i].id == id {
            return Some(i);
        }
        i = i + 1;
    }
    None
}

fn find_star_system_index(rows: &Vec<StarSystem>, id: u32) -> (r: Option<usize>)
    ensures
        match r {
            Some(i) => i < rows@.len() && find_by_key(rows@, star_system_key(), id as int) == Some(rows@[i as int]),
            None => find_by_key(rows@, star_system_key(), id as int) is None,
        },
{
    let mut i: usize = 0;
    assert(rows@.skip(0) =~= rows@);
    while i < rows.len()
        invariant
            0 <= i <= rows@.len(),
            find_by_key(rows@, star_system_key(), id as int) == find_by_key(
                rows@.skip(i as int),
                star_system_key(),
                id as int,
            ),
        decreases rows@.len() - i,
    {
        assert(rows@.skip(i as int).skip(1) =~= rows@.skip(i + 1));
        if rows[i].id == id {
            return Some(i);
        }
        i = i + 1;
    }
    None
}

/// The distinct sectors that hold at least one of the player's ships.
fn owned_sector_ids(db: &ClientDb) -> (ids: Vec<u64>)
    ensures
        ids@.no_duplicates(),
        forall|sector_id: u64| #[trigger] ids@.contains(sector_id) <==> owned_ships_in_sector(db.ships@, db.identity@, sector_id).len() > 0,
{
    let mut ids: Vec<u64> = Vec::new();
    let mut i: usize = 0;
    while i < db.ships.len()
        invariant
            0 <= i <= db.ships@.len(),
            ids@.no_duplicates(),
            forall|sector_id: u64| #[trigger] ids@.contains(sector_id) <==> owned_ships_in_sector(db.ships@.take(i as int), db.identity@, sector_id).len() > 0,
        decreases db.ships@.len() - i,
    {
        let ship = db.ships[i];
        proof {
            assert(db.ships@.take(i + 1) =~= db.ships@.take(i as int).push(ship));
            assert forall|sector_id: u64| #[trigger] owned_ships_in_sector(db.ships@.take(i + 1), db.identity@, sector_id) == if ship.player_id@ == db.identity@ && ship.sector_id == sector_id {
                owned_ships_in_sector(db.ships@.take(i as int), db.identity@, sector_id).push(ship)
            } else {
                owned_ships_in_sector(db.ships@.take(i as int), db.identity@, sector_id)
            } by {
                lemma_owned_ships_push(db.ships@.take(i as int), ship, db.identity@, sector_id);
            }
        }
        if ship.player_id.same_as(&db.identity) {
            let mut k: usize = 0;
            while k < ids.len() && ids[k] != ship.sector_id
                invariant
                    0 <= k <= ids@.len(),
                    forall|q: int| 0 <= q < k ==> ids@[q] != ship.sector_id,
                decreases ids@.len() - k,
            {
                k = k + 1;
            }
            if k == ids.len() {
                let ghost before = ids@;
                ids.push(ship.sector_id);
                proof {
                    assert forall|a: int, b: int| 0 <= a < ids@.len() && 0 <= b < ids@.len() && a != b implies ids@[a] != ids@[b] by {
                        if a < before.len() && b < before.len() {
                            assert(ids@[a] == before[a] && ids@[b] == before[b]);
                        }
                    }
                    assert forall|sector_id: u64| #[trigger] ids@.contains(sector_id) <==> before.contains(sector_id) || sector_id == ship.sector_id by {
                        if ids@.contains(sector_id) && sector_id != ship.sector_id {
                            let a = choose|a: int| 0 <= a < ids@.len() && ids@[a] == sector_id;
                            assert(before[a] == sector_id);
                        }
                        if before.contains(sector_id) {
                            let a = choose|a: int| 0 <= a < before.len() && before[a] == sector_id;
                            assert(ids@[a] == sector_id);
                        }
                        if sector_id == ship.sector_id {
                            assert(ids@[before.len() as int] == sector_id);
                        }
                    }
                }
            } else {
                assert(ids@.contains(ship.sector_id));
            }
        }
        i = i + 1;
    }
    assert(db.ships@.take(db.ships@.len() as int) =~= db.ships@);
    ids
}

/// Places the ships of sector `ids[k]` into the tree.
fn add_sector_to_tree(
    db: &ClientDb,
    ids: &Vec<u64>,
    k: usize,
    per_sector: &mut HashMap<u64, Vec<Ship>>,
    systems: &mut HashMap<u32, (StarSystem, Vec<(Sector, Vec<Ship>)>)>,
)
    requires
        k < ids@.len(),
        ids@.no_duplicates(),
        forall|sector_id: u64| #[trigger] ids@.contains(sector_id) <==> owned_ships_in_sector(db.ships@, db.identity@, sector_id).len() > 0,
        remaining_sectors_ok(db, ids@, k as int, old(per_sector)@),
        partial_tree_ok(db, ids@, k as int, old(systems)@),
    ensures
        remaining_sectors_ok(db, ids@, k + 1, final(per_sector)@),
        partial_tree_ok(db, ids@, k + 1, final(systems)@),
{
    let sector_id = ids[k];
    let ghost old_systems = systems@;
    let ghost done = ids@.take(k as int);
    let ghost done_next = ids@.take(k + 1);
    proof {
        assert(done_next =~= done.push(sector_id));
        assert(!done.contains(sector_id)) by {
            if done.contains(sector_id) {
                let j = choose|j: int| 0 <= j < done.len() && done[j] == sector_id;
                assert(ids@[j] == ids@[k as int]);
            }
        }
        assert forall|x: u64| #[trigger] done_next.contains(x) <==> done.contains(x) || x == sector_id by {
            if done_next.contains(x) && x != sector_id {
                let j = choose|j: int| 0 <= j < done_next.len() && done_next[j] == x;
                assert(done[j] == x);
            }
            if done.contains(x) {
                let j = choose|j: int| 0 <= j < done.len() && done[j] == x;
                assert(done_next[j] == x);
            }
            if x == sector_id {
                assert(done_next[k as int] == x);
            }
        }
        assert(per_sector@.contains_key(ids@[k as int]));
    }
    let ships_here = match per_sector.remove(&sector_id) {
        Some(v) => v,
        None => Vec::new(),
    };
    proof {
        assert forall|j: int| k + 1 <= j < ids@.len() implies #[trigger] per_sector@.contains_key(ids@[j]) && per_sector@[ids@[j]]@
            == owned_ships_in_sector(db.ships@, db.identity@, ids@[j]) by {
            assert(ids@[j] != ids@[k as int]);
        }
        assert(ids@.contains(sector_id));
        lemma_find_by_key(db.sectors@, sector_key(), sector_id as int);
    }
    let sorted_ships = sort_ships_by_id(&ships_here);
    match find_sector_index(&db.sectors, sector_id) {
        None => {
            assert forall|system_id: u32| !#[trigger] sector_in_tree(db, sector_id, system_id) by {}
        },
        Some(si) => {
            let sector = db.sectors[si].clone();
            let system_id = sector.system_id;
            proof {
                lemma_find_by_key(db.star_systems@, star_system_key(), system_id as int);
            }
            match find_star_system_index(&db.star_systems, system_id) {
                None => {
                    assert forall|y: u32| !#[trigger] sector_in_tree(db, sector_id, y) by {}
                },
                Some(yi) => {
                    assert(sector_in_tree(db, sector_id, system_id));
                    assert forall|y: u32| #[trigger] sector_in_tree(db, sector_id, y) implies y == system_id by {}
                    let (system_row, mut entries) = match systems.remove(&system_id) {
                        Some(v) => v,
                        None => (db.star_systems[yi].clone(), Vec::new()),
                    };
                    let ghost before = entries@;
                    proof {
                        if old_systems.contains_key(system_id) {
                            assert(before == old_systems[system_id].1@);
                        } else {
                            assert(before.len() == 0);
                            assert(sector_ids_of(before) =~= Seq::<u64>::empty());
                        }
                        assert(!sector_ids_of(before).contains(sector_id)) by {
                            if sector_ids_of(before).contains(sector_id) {
                                lemma_sector_ids_of_contains(before, sector_id);
                                let e = choose|e: int| 0 <= e < before.len() && (#[trigger] before[e]).0.id == sector_id;
                                assert(before.contains(before[e]));
                            }
                        }
                    }
                    let entry = (sector, sorted_ships);
                    let ghost new_entry = entry;
                    proof {
                        assert(tree_entry_ok(db, system_id, new_entry));
                    }
                    insert_sector_entry(&mut entries, entry);
                    systems.insert(system_id, (system_row, entries));
                },
            }
        },
    }
    proof {
        let tree = systems@;
        assert forall|y: u32| #[trigger] tree.contains_key(y) <==> exists|sid: u64| done_next.contains(sid) && #[trigger] sector_in_tree(db, sid, y) by {
            if tree.contains_key(y) && !old_systems.contains_key(y) {
                assert(done_next.contains(sector_id) && sector_in_tree(db, sector_id, y));
            }
            if old_systems.contains_key(y) {
                let sid = choose|sid: u64| done.contains(sid) && #[trigger] sector_in_tree(db, sid, y);
                assert(done_next.contains(sid) && sector_in_tree(db, sid, y));
            }
            if exists|sid: u64| done_next.contains(sid) && #[trigger] sector_in_tree(db, sid, y) {
                let sid = choose|sid: u64| done_next.contains(sid) && #[trigger] sector_in_tree(db, sid, y);
                if sid != sector_id {
                    assert(done.contains(sid));
                }
            }
        }
    }
}

/// The player's own ships arranged for the asset tree: per star system, its
/// row and the sectors of it that hold the player's ships, by sector id, each
/// with those ships by ship id. Sectors or systems whose rows are missing are
/// left out.
pub fn prepare_ships_for_system_tree(db: &ClientDb) -> (tree: HashMap<u32, (StarSystem, Vec<(Sector, Vec<Ship>)>)>)
    ensures
        forall|system_id: u32| #[trigger] tree@.contains_key(system_id) <==> exists|sector_id: u64| #[trigger] sector_in_tree(db, sector_id, system_id),
        forall|system_id: u32| #[trigger] tree@.contains_key(system_id) ==> system_tree_ok(db, system_id, tree@[system_id]),
{
    let mut per_sector = collect_ships_per_sector(db);
    let ids = owned_sector_ids(db);
    let mut systems: HashMap<u32, (StarSystem, Vec<(Sector, Vec<Ship>)>)> = HashMap::new();
    let mut k: usize = 0;
    proof {
        assert(ids@.take(0) =~= Seq::<u64>::empty());
        assert forall|j: int| 0 <= j < ids@.len() implies #[trigger] per_sector@.contains_key(ids@[j]) && per_sector@[ids@[j]]@
            == owned_ships_in_sector(db.ships@, db.identity@, ids@[j]) by {
            let sid = ids@[j];
            assert(ids@.contains(sid));
            assert(owned_ships_in_sector(db.ships@, db.identity@, sid).len() > 0);
            assert(per_sector@.contains_key(sid));
        }
    }
    while k < ids.len()
        invariant
            0 <= k <= ids@.len(),
            ids@.no_duplicates(),
            forall|sector_id: u64| #[trigger] ids@.contains(sector_id) <==> owned_ships_in_sector(db.ships@, db.identity@, sector_id).len() > 0,
            remaining_sectors_ok(db, ids@, k as int, per_sector@),
            partial_tree_ok(db, ids@, k as int, systems@),
        decreases ids@.len() - k,
    {
        add_sector_to_tree(db, &ids, k, &mut per_sector, &mut systems);
        k = k + 1;
    }
    proof {
        assert(ids@.take(ids@.len() as int) =~= ids@);
    }
    systems
}

/// Ship selection in an asset tree: each window that shows the tree keeps
/// its own selection logic.
pub trait ShipTreeHandler {
    /// Is this ship currently selected?
    fn is_ship_selected(&self, ship: &Ship) -> bool;

    /// Selects this ship.
    fn select_ship(&mut self, ship: &Ship);

    /// Clears the selection (when undocking or other actions).
    fn deselect_ship(&mut self);
}

/// The selection state of the out-of-play screen: the selected ship and the
/// selected station module (tab index and module id), both by id.
pub struct ShipSelection {
    pub currently_selected_module: Option<(u8, u64)>,
    pub selected_ship_id: Option<u64>,
}

impl ShipSelection {
    /// Nothing selected.
    pub fn new() -> (s: ShipSelection)
        ensures
            s.currently_selected_module is None,
            s.selected_ship_id is None,
    {
        ShipSelection { currently_selected_module: None, selected_ship_id: None }
    }
}

impl ShipTreeHandler for ShipSelection {
    fn is_ship_selected(&self, ship: &Ship) -> (r: bool)
        ensures
            r == (self.selected_ship_id == Some(ship.id)),
    {
        match self.selected_ship_id {
            Some(id) => id == ship.id,
            None => false,
        }
    }

    fn select_ship(&mut self, ship: &Ship)
        ensures
            final(self).selected_ship_id == Some(ship.id),
            final(self).currently_selected_module == old(self).currently_selected_module,
    {
        self.selected_ship_id = Some(ship.id);
    }

    fn deselect_ship(&mut self)
        ensures
            final(self).selected_ship_id is None,
            final(self).currently_selected_module is None,
    {
        self.selected_ship_id = None;
        self.currently_selected_module = None;
    }
}


/// The ships grouped under a sector are exactly the player's ships in that
/// sector, in table order: the table filtered by owner and sector.
pub proof fn law_owned_ships_are_a_filter(ships: Seq<Ship>, owner: Seq<u8>, sector_id: u64)
    ensures
        owned_ships_in_sector(ships, owner, sector_id) == ships.filter(|s: Ship| s.player_id@ == owner && s.sector_id == sector_id),
    decreases ships.len(),
{
    reveal(Seq::filter);
    if ships.len() > 0 {
        law_owned_ships_are_a_filter(ships.drop_last(), owner, sector_id);
    }
}


/// Link `k` joins the sectors of `e` (lower id first), and both are on the
/// map.
pub open spec fn shows_pair(links: Seq<(u64, u64)>, sector_ids: Seq<u64>, k: int, e: (u64, u64)) -> bool {
    &&& 0 <= k < links.len()
    &&& e == (if links[k].0 <= links[k].1 { links[k] } else { (links[k].1, links[k].0) })
    &&& sector_ids.contains(links[k].0)
    &&& sector_ids.contains(links[k].1)
}

/// The map's jumpgate edges: no pair twice, and a pair appears exactly when
/// some link joins its two sectors (in either direction) and both sectors
/// are on the map.
pub proof fn law_gate_edges_are_the_shown_pairs(links: Seq<(u64, u64)>, sector_ids: Seq<u64>)
    ensures
        forall|i: int, j: int|
            0 <= i < j < gate_edges_of(links, sector_ids).len() ==> #[trigger] gate_edges_of(links, sector_ids)[i]
                != #[trigger] gate_edges_of(links, sector_ids)[j],
        forall|e: (u64, u64)|
            #[trigger] gate_edges_of(links, sector_ids).contains(e) <==> exists|k: int| #[trigger] shows_pair(links, sector_ids, k, e),
    decreases links.len(),
{
    if links.len() > 0 {
        let rest = links.drop_last();
        law_gate_edges_are_the_shown_pairs(rest, sector_ids);
        let n = rest.len() as int;
        let prev = gate_edges_of(rest, sector_ids);
        let cur = gate_edges_of(links, sector_ids);
        let key = gate_key(links.last());
        if !(prev.contains(key) || !(sector_ids.contains(links.last().0) && sector_ids.contains(links.last().1))) {
            assert(cur == prev.push(key));
            assert forall|i: int, j: int| 0 <= i < j < cur.len() implies #[trigger] cur[i] != #[trigger] cur[j] by {
                if j == prev.len() {
                    assert(cur[i] == prev[i]);
                    assert(prev.contains(prev[i]));
                } else {
                    assert(cur[i] == prev[i] && cur[j] == prev[j]);
                }
            }
        } else {
            assert(cur == prev);
        }
        assert forall|e: (u64, u64)|
            #[trigger] gate_edges_of(links, sector_ids).contains(e) <==> exists|k: int| #[trigger] shows_pair(links, sector_ids, k, e) by {
            assert forall|k: int| 0 <= k < n implies shows_pair(rest, sector_ids, k, e) == shows_pair(links, sector_ids, k, e) by {
                assert(rest[k] == links[k]);
            }
            if exists|k: int| #[trigger] shows_pair(links, sector_ids, k, e) {
                let k = choose|k: int| #[trigger] shows_pair(links, sector_ids, k, e);
                if k < n {
                    assert(shows_pair(rest, sector_ids, k, e));
                }
            }
            if exists|k: int| #[trigger] shows_pair(rest, sector_ids, k, e) {
                let k = choose|k: int| #[trigger] shows_pair(rest, sector_ids, k, e);
                assert(shows_pair(links, sector_ids, k, e));
            }
            let prev = gate_edges_of(rest, sector_ids);
            let cur = gate_edges_of(links, sector_ids);
            let link = links.last();
            let key = gate_key(link);
            let shown = sector_ids.contains(link.0) && sector_ids.contains(link.1);
            assert(links.drop_last() == rest);
            assert(link == links[n]);
            assert(shows_pair(links, sector_ids, n, e) == (shown && e == key));
            if !(prev.contains(key) || !shown) {
                assert(cur == prev.push(key));
                if cur.contains(e) {
                    let i = choose|i: int| 0 <= i < cur.len() && cur[i] == e;
                    if i < prev.len() {
                        assert(prev[i] == e);
                        assert(prev.contains(e));
                    }
                }
                if prev.contains(e) {
                    let i = choose|i: int| 0 <= i < prev.len() && prev[i] == e;
                    assert(cur[i] == e);
                }
                if e == key {
                    assert(cur[prev.len() as int] == e);
                }
            } else {
                assert(cur == prev);
            }
        }
    }
}

} // verus!
