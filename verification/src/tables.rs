//! The rows of the game database that the rules read, held as plain values.

use crate::identity::Identity;
use vstd::prelude::*;

verus! {

/// Where a ship currently is.
#[derive(Clone, Copy, Debug, PartialEq, Eq, Structural)]
pub enum ShipLocation {
    /// Flying in a sector as a stellar object.
    Sector,
    /// Docked at a station.
    Station,
}

/// A ship row.
#[derive(Clone, Copy, Debug)]
pub struct Ship {
    pub id: u64,
    pub shiptype_id: u32,
    pub location: ShipLocation,
    /// The ship's stellar object while in a sector (0 while docked).
    pub sobj_id: u64,
    /// The station it is docked at (0 while in a sector).
    pub station_id: u64,
    pub sector_id: u64,
    pub player_id: Identity,
    pub faction_id: u32,
}

/// The kinds of stellar object in a sector.
#[derive(Clone, Copy, Debug, PartialEq, Eq, Structural)]
pub enum StellarObjectKind {
    Ship,
    Asteroid,
    CargoCrate,
    Station,
    JumpGate,
}

/// A sector row.
#[derive(Debug)]
pub struct Sector {
    pub id: u64,
    pub system_id: u32,
    pub name: String,
}

impl Clone for Sector {
    fn clone(&self) -> (r: Sector)
        ensures
            r == *self,
    {
        Sector { id: self.id, system_id: self.system_id, name: self.name.clone() }
    }
}

/// A star system row.
#[derive(Debug)]
pub struct StarSystem {
    pub id: u32,
    pub name: String,
}

impl Clone for StarSystem {
    fn clone(&self) -> (r: StarSystem)
        ensures
            r == *self,
    {
        StarSystem { id: self.id, name: self.name.clone() }
    }
}

/// A station module row.
#[derive(Clone, Copy, Debug)]
pub struct StationModule {
    pub id: u64,
    pub station_id: u64,
    pub blueprint_id: u32,
}

/// A refinery module row: which ore it takes and what it yields.
#[derive(Clone, Copy, Debug)]
pub struct RefineryModule {
    pub id: u64,
    pub input_ore_resource_id: u32,
    pub output_ingot_resource_id: u32,
    pub waste_resource_id: Option<u32>,
}

/// A manufacturing module row.
#[derive(Clone, Copy, Debug)]
pub struct ManufacturingModule {
    pub id: u64,
    pub current_recipe_id: Option<u32>,
}

/// A production recipe row: the item ids it consumes and the one it makes.
#[derive(Debug)]
pub struct ProductionRecipe {
    pub id: u32,
    pub input_resource_ids: Vec<u32>,
    pub output_resource_id: u32,
}

/// What a client sees of the database: the connection's own identity and the
/// rows of the tables it is subscribed to.
pub struct ClientDb {
    pub identity: Identity,
    pub ships: Vec<Ship>,
    pub sectors: Vec<Sector>,
    pub star_systems: Vec<StarSystem>,
    /// Ids of the station modules that are trading ports.
    pub trading_port_ids: Vec<u64>,
    pub refineries: Vec<RefineryModule>,
    pub manufacturing: Vec<ManufacturingModule>,
    pub recipes: Vec<ProductionRecipe>,
}

/// The first element of `rows` whose key (under `key`) is `id`.
pub open spec fn find_by_key<T>(rows: Seq<T>, key: spec_fn(T) -> int, id: int) -> Option<T>
    decreases rows.len(),
{
    if rows.len() == 0 {
        None
    } else if key(rows[0]) == id {
        Some(rows[0])
    } else {
        find_by_key(rows.skip(1), key, id)
    }
}

/// `k` is the position of the first row whose key is `id`.
pub open spec fn first_key_at<T>(rows: Seq<T>, key: spec_fn(T) -> int, id: int, k: int) -> bool {
    &&& 0 <= k < rows.len()
    &&& key(rows[k]) == id
    &&& forall|j: int| 0 <= j < k ==> key(rows[j]) != id
}

/// A lookup by key finds the first row with that key, and nothing when no
/// row has it.
pub proof fn law_find_by_key_first_match<T>(rows: Seq<T>, key: spec_fn(T) -> int, id: int, k: int)
    ensures
        first_key_at(rows, key, id, k) ==> find_by_key(rows, key, id) == Some(rows[k]),
        (forall|i: int| 0 <= i < rows.len() ==> key(rows[i]) != id) ==> find_by_key(rows, key, id) is None,
    decreases rows.len(),
{
    if rows.len() > 0 {
        let rest = rows.skip(1);
        if first_key_at(rows, key, id, k) && k > 0 {
            assert forall|j: int| 0 <= j < k - 1 implies key(rest[j]) != id by {
                assert(rest[j] == rows[j + 1]);
            }
            assert(rest[k - 1] == rows[k]);
            assert(first_key_at(rest, key, id, k - 1));
        }
        if forall|i: int| 0 <= i < rows.len() ==> key(rows[i]) != id {
            assert forall|i: int| 0 <= i < rest.len() implies key(rest[i]) != id by {
                assert(rest[i] == rows[i + 1]);
            }
        }
        law_find_by_key_first_match(rest, key, id, k - 1);
    }
}

/// Primary key of a sector row.
pub open spec fn sector_key() -> spec_fn(Sector) -> int {
    |s: Sector| s.id as int
}

/// Primary key of a star system row.
pub open spec fn star_system_key() -> spec_fn(StarSystem) -> int {
    |s: StarSystem| s.id as int
}

/// Primary key of a refinery module row.
pub open spec fn refinery_key() -> spec_fn(RefineryModule) -> int {
    |r: RefineryModule| r.id as int
}

/// Primary key of a manufacturing module row.
pub open spec fn manufacturing_key() -> spec_fn(ManufacturingModule) -> int {
    |m: ManufacturingModule| m.id as int
}

/// Primary key of a production recipe row.
pub open spec fn recipe_key() -> spec_fn(ProductionRecipe) -> int {
    |r: ProductionRecipe| r.id as int
}

} // verus!
