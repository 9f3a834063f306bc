//! Station rules: module limits, the production tick, docking and mining.

use crate::identity::Identity;
use crate::tables::{Ship, ShipLocation, StationModule, StellarObjectKind};
use vstd::prelude::*;

verus! {

/// Why a station breaks its invariants.
#[derive(Clone, Copy, Debug, PartialEq, Eq, Structural)]
pub enum StationError {
    /// More modules are attached than the station's size allows.
    TooManyModules { found: usize, max: usize },
}

/// Checks the invariant the database cannot enforce: a station has no more
/// modules than its size allows.
pub fn verify(module_count: usize, max_modules: u8) -> (r: Result<(), StationError>)
    ensures
        r is Ok <==> module_count <= max_modules,
        r is Err ==> r == Err::<(), StationError>(StationError::TooManyModules { found: module_count, max: max_modules as usize }),
{
    let max = max_modules as usize;
    if module_count > max {
        return Err(StationError::TooManyModules { found: module_count, max });
    }
    Ok(())
}

/// The category of a station module blueprint, which decides how the
/// production tick updates the module.
#[derive(Clone, Copy, Debug, PartialEq, Eq, Structural)]
pub enum StationModuleCategory {
    LogisticsAndStorage,
    ResourceProductionAndRefining,
    ManufacturingAndAssembly,
    ResearchAndDevelopment,
    CivilianAndSupportServices,
    DiplomacyAndFaction,
    DefenseAndMilitary,
}

/// A blueprint row: its id and category.
#[derive(Clone, Copy, Debug, PartialEq, Eq, Structural)]
pub struct BlueprintCategory {
    pub blueprint_id: u32,
    pub category: StationModuleCategory,
}

/// The category of the first blueprint row with the given id.
pub open spec fn blueprint_category(blueprints: Seq<BlueprintCategory>, blueprint_id: u32) -> Option<StationModuleCategory>
    decreases blueprints.len(),
{
    if blueprints.len() == 0 {
        None
    } else if blueprints[0].blueprint_id == blueprint_id {
        Some(blueprints[0].category)
    } else {
        blueprint_category(blueprints.skip(1), blueprint_id)
    }
}

/// The modules a production tick updates, in order, each with the category
/// that selects its update; modules whose blueprint is missing are skipped.
pub open spec fn production_plan(modules: Seq<StationModule>, blueprints: Seq<BlueprintCategory>) -> Seq<(u64, StationModuleCategory)>
    decreases modules.len(),
{
    if modules.len() == 0 {
        Seq::empty()
    } else {
        let prev = production_plan(modules.drop_last(), blueprints);
        match blueprint_category(blueprints, modules.last().blueprint_id) {
            Some(c) => prev.push((modules.last().id, c)),
            None => prev,
        }
    }
}

fn find_blueprint_category(blueprints: &[BlueprintCategory], blueprint_id: u32) -> (r: Option<StationModuleCategory>)
    ensures
        r == blueprint_category(blueprints@, blueprint_id),
{
    let mut i: usize = 0;
    assert(blueprints@.skip(0) =~= blueprints@);
    while i < blueprints.len()
        invariant
            0 <= i <= blueprints@.len(),
            blueprint_category(blueprints@, blueprint_id) == blueprint_category(blueprints@.skip(i as int), blueprint_id),
        decreases blueprints@.len() - i,
    {
        assert(blueprints@.skip(i as int).skip(1) =~= blueprints@.skip(i + 1));
        if blueprints[i].blueprint_id == blueprint_id {
            return Some(blueprints[i].category);
        }
        i = i + 1;
    }
    None
}

/// Plans one production tick of a station: which of its modules to update,
/// and by which category's update.
pub fn plan_production_tick(modules: &[StationModule], blueprints: &[BlueprintCategory]) -> (plan: Vec<(u64, StationModuleCategory)>)
    ensures
        plan@ == production_plan(modules@, blueprints@),
{
    let mut plan: Vec<(u64, StationModuleCategory)> = Vec::new();
    let mut i: usize = 0;
    while i < modules.len()
        invariant
            0 <= i <= modules@.len(),
            plan@ == production_plan(modules@.take(i as int), blueprints@),
        decreases modules@.len() - i,
    {
        let module = modules[i];
        proof {
            assert(modules@.take(i + 1).drop_last() =~= modules@.take(i as int));
        }
        match find_blueprint_category(blueprints, module.blueprint_id) {
            Some(c) => plan.push((module.id, c)),
            None => {},
        }
        i = i + 1;
    }
    assert(modules@.take(modules@.len() as int) =~= modules@);
    plan
}

/// Why a docking request was refused.
#[derive(Clone, Copy, Debug, PartialEq, Eq, Structural)]
pub enum DockError {
    /// The ship is farther from the station than the docking range.
    TooFar,
    /// The station is a construction site that is not operational yet.
    UnderConstruction,
    /// The ship's and the station's factions are hostile.
    HostileFaction,
}

/// Checks a docking request, in order: range, construction state (a station
/// with no construction row counts as operational), faction standing.
pub fn check_docking(
    within_range: bool,
    site_operational: Option<bool>,
    ship_faction_id: u32,
    station_faction_id: u32,
    factions_hostile: bool,
) -> (r: Result<(), DockError>)
    ensures
        r == if !within_range {
            Err(DockError::TooFar)
        } else if site_operational == Some(false) {
            Err(DockError::UnderConstruction)
        } else if ship_faction_id != station_faction_id && factions_hostile {
            Err(DockError::HostileFaction)
        } else {
            Ok::<(), DockError>(())
        },
{
    if !within_range {
        return Err(DockError::TooFar);
    }
    if let Some(false) = site_operational {
        return Err(DockError::UnderConstruction);
    }
    if ship_faction_id != station_faction_id && factions_hostile {
        return Err(DockError::HostileFaction);
    }
    Ok(())
}

/// The ship row after docking at a station: no stellar object, docked at the
/// station; everything else kept.
pub fn dock_to_station(ship: Ship, station_id: u64) -> (docked: Ship)
    ensures
        docked == (Ship { sobj_id: 0, station_id, location: ShipLocation::Station, ..ship }),
{
    Ship { sobj_id: 0, station_id, location: ShipLocation::Station, ..ship }
}

/// The ship row after undocking: a fresh stellar object in the station's
/// sector, no station; everything else kept.
pub fn undock_from_station(docked: Ship, sobj_id: u64, station_sector_id: u64) -> (ship: Ship)
    ensures
        ship == (Ship { sobj_id, sector_id: station_sector_id, station_id: 0, location: ShipLocation::Sector, ..docked }),
{
    Ship { sobj_id, sector_id: station_sector_id, station_id: 0, location: ShipLocation::Sector, ..docked }
}

/// Docking a flying ship and undocking it again, with the same stellar
/// object in the same sector, gives back the ship.
pub proof fn law_undock_undoes_dock(ship: Ship, station_id: u64)
    requires
        ship.location == ShipLocation::Sector,
        ship.station_id == 0,
    ensures
        ({
            let docked = Ship { sobj_id: 0, station_id, location: ShipLocation::Station, ..ship };
            Ship { sobj_id: ship.sobj_id, sector_id: ship.sector_id, station_id: 0, location: ShipLocation::Sector, ..docked } == ship
        }),
{
}

/// What an undock request does.
#[derive(Clone, Copy, Debug, PartialEq, Eq, Structural)]
pub enum UndockAction {
    /// Undock the ship from its station.
    Undock,
    /// The ship is not docked; nothing to do.
    AlreadyUndocked,
}

/// Why an undock request was refused.
#[derive(Clone, Copy, Debug, PartialEq, Eq, Structural)]
pub enum UndockError {
    /// The player already controls a ship in a sector.
    AlreadyControllingShip,
}

/// Does `player` control a ship in a sector?
pub open spec fn controls_ship_in_sector(ships: Seq<Ship>, player: Seq<u8>) -> bool {
    exists|i: int| 0 <= i < ships.len() && (#[trigger] ships[i]).player_id@ == player && ships[i].location == ShipLocation::Sector
}

/// Decides an undock request of `player` for `ship`: refused while the
/// player already controls an in-sector ship; otherwise the ship undocks
/// if it is docked.
pub fn plan_undock(ships: &[Ship], player: Identity, ship: &Ship) -> (r: Result<UndockAction, UndockError>)
    ensures
        r == if controls_ship_in_sector(ships@, player@) {
            Err(UndockError::AlreadyControllingShip)
        } else if ship.location == ShipLocation::Station {
            Ok(UndockAction::Undock)
        } else {
            Ok::<UndockAction, UndockError>(UndockAction::AlreadyUndocked)
        },
{
    let mut i: usize = 0;
    while i < ships.len()
        invariant
            0 <= i <= ships@.len(),
            forall|j: int| 0 <= j < i ==> !((#[trigger] ships@[j]).player_id@ == player@ && ships@[j].location == ShipLocation::Sector),
        decreases ships@.len() - i,
    {
        if ships[i].player_id.same_as(&player) && ships[i].location == ShipLocation::Sector {
            assert(controls_ship_in_sector(ships@, player@)) by {
                assert(ships@[i as int].player_id@ == player@);
            }
            return Err(UndockError::AlreadyControllingShip);
        }
        i = i + 1;
    }
    if ship.location == ShipLocation::Station {
        Ok(UndockAction::Undock)
    } else {
        Ok(UndockAction::AlreadyUndocked)
    }
}

/// The kind of an equipment slot.
#[derive(Clone, Copy, Debug, PartialEq, Eq, Structural)]
pub enum EquipmentSlotType {
    Weapon,
    MiningLaser,
    Shield,
    Engine,
    Special,
}

/// What a request to start mining does.
#[derive(Clone, Copy, Debug, PartialEq, Eq, Structural)]
pub enum MiningStart {
    /// Start a mining timer for this asteroid (replacing the ship's others).
    StartTimer,
    /// The ship is already mining this asteroid; nothing to do.
    AlreadyMining,
}

/// Why mining could not start.
#[derive(Clone, Copy, Debug, PartialEq, Eq, Structural)]
pub enum MiningError {
    /// The ship has no mining laser equipped.
    NoMiningLaser,
    /// The asteroid is outside mining range.
    OutOfRange,
    /// The ship and the asteroid are in different sectors.
    DifferentSectors,
}

/// Decides a request to start mining an asteroid, in order: the ship needs a
/// mining laser among its equipment slots and must be in range; if one of
/// its mining timers already targets the asteroid, nothing changes;
/// otherwise a timer starts only when the ship and the asteroid share a
/// sector (`same_sector`).
pub fn plan_mining_start(
    equipment_slots: &[EquipmentSlotType],
    within_range: bool,
    timer_asteroid_ids: &[u64],
    asteroid_sobj_id: u64,
    same_sector: bool,
) -> (r: Result<MiningStart, MiningError>)
    ensures
        r == if !equipment_slots@.contains(EquipmentSlotType::MiningLaser) {
            Err(MiningError::NoMiningLaser)
        } else if !within_range {
            Err(MiningError::OutOfRange)
        } else if timer_asteroid_ids@.contains(asteroid_sobj_id) {
            Ok(MiningStart::AlreadyMining)
        } else if !same_sector {
            Err(MiningError::DifferentSectors)
        } else {
            Ok::<MiningStart, MiningError>(MiningStart::StartTimer)
        },
{
    let mut has_laser = false;
    let mut i: usize = 0;
    while i < equipment_slots.len()
        invariant
            0 <= i <= equipment_slots@.len(),
            has_laser == exists|j: int| 0 <= j < i && equipment_slots@[j] == EquipmentSlotType::MiningLaser,
        decreases equipment_slots@.len() - i,
    {
        if equipment_slots[i] == EquipmentSlotType::MiningLaser {
            has_laser = true;
        }
        i = i + 1;
    }
    if !has_laser {
        return Err(MiningError::NoMiningLaser);
    }
    if !within_range {
        return Err(MiningError::OutOfRange);
    }
    let mut k: usize = 0;
    while k < timer_asteroid_ids.len()
        invariant
            0 <= k <= timer_asteroid_ids@.len(),
            equipment_slots@.contains(EquipmentSlotType::MiningLaser),
            within_range,
            forall|j: int| 0 <= j < k ==> timer_asteroid_ids@[j] != asteroid_sobj_id,
        decreases timer_asteroid_ids@.len() - k,
    {
        if timer_asteroid_ids[k] == asteroid_sobj_id {
            assert(timer_asteroid_ids@.contains(asteroid_sobj_id)) by {
                assert(timer_asteroid_ids@[k as int] == asteroid_sobj_id);
            }
            return Ok(MiningStart::AlreadyMining);
        }
        k = k + 1;
    }
    if !same_sector {
        return Err(MiningError::DifferentSectors);
    }
    Ok(MiningStart::StartTimer)
}

/// How a haul of mined units is shared out between a ship and an asteroid.
#[derive(Clone, Copy, Debug, PartialEq, Eq, Structural)]
pub struct MinedYield {
    /// Units loaded into the ship's cargo.
    pub loaded: u16,
    /// Resources left in the asteroid.
    pub remaining: u16,
}

/// Shares out the whole units extracted in a mining tick: the ship receives
/// them, but never more than the asteroid still holds; what it receives is
/// taken from the asteroid.
pub fn split_mining_yield(whole_units: u32, current_resources: u16) -> (r: MinedYield)
    ensures
        r.loaded == if whole_units > current_resources { current_resources as u32 } else { whole_units },
        r.remaining == current_resources - r.loaded,
        r.loaded + r.remaining == current_resources,
{
    if whole_units > current_resources as u32 {
        MinedYield { loaded: current_resources, remaining: 0 }
    } else {
        let loaded = whole_units as u16;
        MinedYield { loaded, remaining: current_resources - loaded }
    }
}

/// The number of polygon points drawn for each kind of stellar object.
pub fn polygon_points_per_kind(kind: StellarObjectKind) -> (n: u8)
    ensures
        n == match kind {
            StellarObjectKind::Ship => 3u8,
            StellarObjectKind::Asteroid => 7,
            StellarObjectKind::CargoCrate => 4,
            StellarObjectKind::Station => 6,
            StellarObjectKind::JumpGate => 5,
        },
{
    match kind {
        StellarObjectKind::Ship => 3,
        StellarObjectKind::Asteroid => 7,
        StellarObjectKind::CargoCrate => 4,
        StellarObjectKind::Station => 6,
        StellarObjectKind::JumpGate => 5,
    }
}


/// A blueprint's category is read from its first row; a blueprint with no
/// row has none.
pub proof fn law_blueprint_is_first_match(blueprints: Seq<BlueprintCategory>, blueprint_id: u32, k: int)
    ensures
        (0 <= k < blueprints.len() && blueprints[k].blueprint_id == blueprint_id && forall|j: int|
            0 <= j < k ==> blueprints[j].blueprint_id != blueprint_id) ==> blueprint_category(blueprints, blueprint_id)
            == Some(blueprints[k].category),
        (forall|i: int| 0 <= i < blueprints.len() ==> blueprints[i].blueprint_id != blueprint_id) ==> blueprint_category(
            blueprints,
            blueprint_id,
        ) is None,
    decreases blueprints.len(),
{
    if blueprints.len() > 0 {
        let rest = blueprints.skip(1);
        if 0 < k < blueprints.len() && blueprints[k].blueprint_id == blueprint_id && forall|j: int|
            0 <= j < k ==> blueprints[j].blueprint_id != blueprint_id {
            assert forall|j: int| 0 <= j < k - 1 implies rest[j].blueprint_id != blueprint_id by {
                assert(rest[j] == blueprints[j + 1]);
            }
            assert(rest[k - 1] == blueprints[k]);
        }
        if forall|i: int| 0 <= i < blueprints.len() ==> blueprints[i].blueprint_id != blueprint_id {
            assert forall|i: int| 0 <= i < rest.len() implies rest[i].blueprint_id != blueprint_id by {
                assert(rest[i] == blueprints[i + 1]);
            }
        }
        law_blueprint_is_first_match(rest, blueprint_id, k - 1);
    }
}

/// A production tick visits the station's modules in order, skips those
/// whose blueprint has no row, and pairs every other module with its
/// blueprint's category.
pub proof fn law_production_plan_visits_modules_in_order(modules: Seq<StationModule>, blueprints: Seq<BlueprintCategory>)
    ensures
        production_plan(modules, blueprints) == modules.filter_map(
            |m: StationModule|
                match blueprint_category(blueprints, m.blueprint_id) {
                    Some(c) => Some((m.id, c)),
                    None => None,
                },
        ),
    decreases modules.len(),
{
    if modules.len() > 0 {
        law_production_plan_visits_modules_in_order(modules.drop_last(), blueprints);
        let prev = production_plan(modules.drop_last(), blueprints);
        match blueprint_category(blueprints, modules.last().blueprint_id) {
            Some(c) => {
                assert(prev.push((modules.last().id, c)) =~= prev + seq![(modules.last().id, c)]);
            },
            None => {},
        }
    }
}

} // verus!
