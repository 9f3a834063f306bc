//! Item definitions: what an item is and how much cargo space it takes.

use vstd::prelude::*;

verus! {

/// The broad kind of a resource.
#[derive(Clone, Copy, Debug, PartialEq, Eq, Hash, Structural)]
pub enum ResourceCategory {
    RawOre,
    RefinedIngot,
    StoredEnergy,
    ManufacturedComponentBasic,
    ManufacturedComponentAdvanced,
    BiomatterRaw,
    /// Basic food.
    BiomatterProcessedFood,
    /// Luxury food.
    BiomatterProcessedLuxury,
    ConsumableShipAmmo,
    ConsumableShipFuel,
    /// For high-tier research and construction.
    ExoticMatter,
    /// Gathered from anomalies and ruins.
    ResearchDataFragments,
    /// For trade.
    FinishedGoods,
}

/// The kinds of ore an asteroid can hold.
#[derive(Clone, Copy, Debug, PartialEq, Eq, Hash, Structural)]
pub enum OreType {
    NickelIron,
    Silicon,
    Ice,
    Platinum,
    Tungsten,
    Carbon,
}

/// The kinds of module a ship can be fitted with.
#[derive(Clone, Copy, Debug, PartialEq, Eq, Hash, Structural)]
pub enum ShipModuleType {
    Engine,
    ShieldGenerator,
    WeaponKinetic,
    WeaponEnergy,
    WeaponMissile,
    MiningLaserBasic,
    MiningLaserAdvanced,
    CargoExpander,
    ScannerBasic,
    ScannerAdvanced,
    TractorBeam,
    CloakingDevice,
    RepairSystem,
    WarpDrive,
    /// For travel between star systems.
    JumpDrive,
}

/// What an item is: a ship module or a resource.
#[derive(Clone, Copy, Debug, PartialEq, Eq, Hash, Structural)]
pub enum ItemCategory {
    ShipModule(ShipModuleType),
    Resource(ResourceCategory),
}

/// The trading- and cargo-relevant fields of an item definition.
#[derive(Clone, Copy, Debug, PartialEq, Eq, Structural)]
pub struct ItemDefinition {
    pub id: u32,
    pub category: ItemCategory,
    /// Base monetary value.
    pub base_value: u32,
    /// Default margin, in percent.
    pub margin_percentage: u8,
    /// Cargo space taken by one unit.
    pub volume_per_unit: u16,
    /// Units per cargo stack.
    pub units_per_stack: u8,
}

impl ItemDefinition {
    /// Can at least one unit of this item fit in a ship with
    /// `remaining_cargo_space` free?
    pub fn can_any_of_this_fit_inside_this_ship(&self, remaining_cargo_space: u16) -> (r: bool)
        requires
            self.volume_per_unit > 0,
        ensures
            r == (remaining_cargo_space >= self.volume_per_unit),
    {
        let volume = self.volume_per_unit;
        let units = remaining_cargo_space / volume;
        assert((units > 0) == (remaining_cargo_space >= volume)) by (nonlinear_arith)
            requires
                volume > 0,
                units == remaining_cargo_space / volume,
        ;
        units > 0
    }
}

} // verus!
