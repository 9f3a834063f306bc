//! What a station module trades with a player, as seen from the client.

use crate::tables::{
    find_by_key, first_key_at, law_find_by_key_first_match, manufacturing_key, recipe_key, refinery_key, ClientDb, ManufacturingModule, ProductionRecipe,
    RefineryModule, StationModule,
};
use vstd::prelude::*;

verus! {

/// The refinery row with the given id, if any.
pub open spec fn refinery_of(db: &ClientDb, module_id: u64) -> Option<RefineryModule> {
    find_by_key(db.refineries@, refinery_key(), module_id as int)
}

/// The manufacturing row with the given id, if any.
pub open spec fn manufacturing_of(db: &ClientDb, module_id: u64) -> Option<ManufacturingModule> {
    find_by_key(db.manufacturing@, manufacturing_key(), module_id as int)
}

/// The recipe that a module currently runs, if it is a manufacturing module
/// with a recipe that exists.
pub open spec fn current_recipe_of(db: &ClientDb, module_id: u64) -> Option<ProductionRecipe> {
    match manufacturing_of(db, module_id) {
        Some(m) => match m.current_recipe_id {
            Some(rid) => find_by_key(db.recipes@, recipe_key(), rid as int),
            None => None,
        },
        None => None,
    }
}

/// A module buys `item_id` from players when it is a trading port, a refinery
/// taking that item as its ore, or a manufacturing module whose current
/// recipe consumes it.
pub open spec fn module_buys(db: &ClientDb, module_id: u64, item_id: u32) -> bool {
    ||| db.trading_port_ids@.contains(module_id)
    ||| (refinery_of(db, module_id) matches Some(r) && r.input_ore_resource_id == item_id)
    ||| (current_recipe_of(db, module_id) matches Some(rec) && rec.input_resource_ids@.contains(item_id))
}

/// A module sells `item_id` to players when it is a trading port, a refinery
/// producing that item as its ingot or its waste, or a manufacturing module
/// whose current recipe makes it.
pub open spec fn module_sells(db: &ClientDb, module_id: u64, item_id: u32) -> bool {
    ||| db.trading_port_ids@.contains(module_id)
    ||| (refinery_of(db, module_id) matches Some(r) && (r.output_ingot_resource_id == item_id || r.waste_resource_id
        == Some(item_id)))
    ||| (current_recipe_of(db, module_id) matches Some(rec) && rec.output_resource_id == item_id)
}

fn contains_u64(ids: &Vec<u64>, id: u64) -> (r: bool)
    ensures
        r == ids@.contains(id),
{
    let mut i: usize = 0;
    while i < ids.len()
        invariant
            0 <= i <= ids@.len(),
            forall|j: int| 0 <= j < i ==> ids@[j] != id,
        decreases ids@.len() - i,
    {
        if ids[i] == id {
            return true;
        }
        i = i + 1;
    }
    false
}

fn contains_u32(ids: &Vec<u32>, id: u32) -> (r: bool)
    ensures
        r == ids@.contains(id),
{
    let mut i: usize = 0;
    while i < ids.len()
        invariant
            0 <= i <= ids@.len(),
            forall|j: int| 0 <= j < i ==> ids@[j] != id,
        decreases ids@.len() - i,
    {
        if ids[i] == id {
            return true;
        }
        i = i + 1;
    }
    false
}

fn find_refinery(rows: &Vec<RefineryModule>, id: u64) -> (r: Option<RefineryModule>)
    ensures
        r == find_by_key(rows@, refinery_key(), id as int),
{
    let mut i: usize = 0;
    assert(rows@.skip(0) =~= rows@);
    while i < rows.len()
        invariant
            0 <= i <= rows@.len(),
            find_by_key(rows@, refinery_key(), id as int) == find_by_key(rows@.skip(i as int), refinery_key(), id as int),
        decreases rows@.len() - i,
    {
        assert(rows@.skip(i as int).skip(1) =~= rows@.skip(i + 1));
        if rows[i].id == id {
            return Some(rows[i]);
        }
        i = i + 1;
    }
    None
}

fn find_manufacturing(rows: &Vec<ManufacturingModule>, id: u64) -> (r: Option<ManufacturingModule>)
    ensures
        r == find_by_key(rows@, manufacturing_key(), id as int),
{
    let mut i: usize = 0;
    assert(rows@.skip(0) =~= rows@);
    while i < rows.len()
        invariant
            0 <= i <= rows@.len(),
            find_by_key(rows@, manufacturing_key(), id as int) == find_by_key(
                rows@.skip(i as int),
                manufacturing_key(),
                id as int,
            ),
        decreases rows@.len() - i,
    {
        assert(rows@.skip(i as int).skip(1) =~= rows@.skip(i + 1));
        if rows[i].id == id {
            return Some(rows[i]);
        }
        i = i + 1;
    }
    None
}

fn find_recipe_index(rows: &Vec<ProductionRecipe>, id: u32) -> (r: Option<usize>)
    ensures
        match r {
            Some(i) => i < rows@.len() && find_by_key(rows@, recipe_key(), id as int) == Some(rows@[i as int]),
            None => find_by_key(rows@, recipe_key(), id as int) is None,
        },
{
    let mut i: usize = 0;
    assert(rows@.skip(0) =~= rows@);
    while i < rows.len()
        invariant
            0 <= i <= rows@.len(),
            find_by_key(rows@, recipe_key(), id as int) == find_by_key(rows@.skip(i as int), recipe_key(), id as int),
        decreases rows@.len() - i,
    {
        assert(rows@.skip(i as int).skip(1) =~= rows@.skip(i + 1));
        if rows[i].id == id {
            return Some(i);
        }
        i = i + 1;
    }
    None
}

/// The recipe currently run by a module, as an index into `db.recipes`.
fn current_recipe_index(db: &ClientDb, module_id: u64) -> (r: Option<usize>)
    ensures
        match r {
            Some(i) => i < db.recipes@.len() && current_recipe_of(db, module_id) == Some(db.recipes@[i as int]),
            None => current_recipe_of(db, module_id) is None,
        },
{
    match find_manufacturing(&db.manufacturing, module_id) {
        Some(m) => match m.current_recipe_id {
            Some(rid) => find_recipe_index(&db.recipes, rid),
            None => None,
        },
        None => None,
    }
}

/// Check if a module can buy items from the player: trading ports, refineries
/// (for their input ore) and manufacturing modules (for recipe inputs).
pub fn module_can_buy_from_player(db: &ClientDb, module: &StationModule, item_id: u32) -> (r: bool)
    ensures
        r == module_buys(db, module.id, item_id),
{
    if contains_u64(&db.trading_port_ids, module.id) {
        return true;
    }
    if let Some(refinery) = find_refinery(&db.refineries, module.id) {
        if refinery.input_ore_resource_id == item_id {
            return true;
        }
    }
    if let Some(i) = current_recipe_index(db, module.id) {
        if contains_u32(&db.recipes[i].input_resource_ids, item_id) {
            return true;
        }
    }
    false
}

/// Check if a module can sell items to the player: trading ports, refineries
/// (for their output and waste) and manufacturing modules (for recipe
/// outputs).
pub fn module_can_sell_to_player(db: &ClientDb, module: &StationModule, item_id: u32) -> (r: bool)
    ensures
        r == module_sells(db, module.id, item_id),
{
    if contains_u64(&db.trading_port_ids, module.id) {
        return true;
    }
    if let Some(refinery) = find_refinery(&db.refineries, module.id) {
        if refinery.output_ingot_resource_id == item_id {
            return true;
        }
        if let Some(waste_id) = refinery.waste_resource_id {
            if waste_id == item_id {
                return true;
            }
        }
    }
    if let Some(i) = current_recipe_index(db, module.id) {
        if db.recipes[i].output_resource_id == item_id {
            return true;
        }
    }
    false
}


/// A trading port buys and sells every item.
pub proof fn law_trading_port_trades_everything(db: &ClientDb, module_id: u64, item_id: u32)
    requires
        db.trading_port_ids@.contains(module_id),
    ensures
        module_buys(db, module_id, item_id),
        module_sells(db, module_id, item_id),
{
}

/// Either no row of `rows` has key `id` (`k == -1`), or `k` is the first that
/// has.
pub open spec fn located<T>(rows: Seq<T>, key: spec_fn(T) -> int, id: int, k: int) -> bool {
    ||| (k == -1 && forall|i: int| 0 <= i < rows.len() ==> key(rows[i]) != id)
    ||| first_key_at(rows, key, id, k)
}

/// What a module that is not a trading port trades, read off the rows that
/// describe it: `kr` locates its refinery row, `km` its manufacturing row and
/// `kc` the row of that module's current recipe. It buys the refinery's ore
/// and every input of the current recipe, whatever its position among the
/// inputs; it sells the refinery's ingot and waste and the recipe's output;
/// nothing else.
pub proof fn law_module_trade_from_its_rows(db: &ClientDb, module_id: u64, item_id: u32, kr: int, km: int, kc: int)
    requires
        !db.trading_port_ids@.contains(module_id),
        located(db.refineries@, refinery_key(), module_id as int, kr),
        located(db.manufacturing@, manufacturing_key(), module_id as int, km),
        km >= 0 ==> (db.manufacturing@[km].current_recipe_id matches Some(rid) ==> located(
            db.recipes@,
            recipe_key(),
            rid as int,
            kc,
        )),
    ensures
        ({
            let has_recipe = km >= 0 && db.manufacturing@[km].current_recipe_id is Some && kc >= 0;
            &&& module_buys(db, module_id, item_id) == ((kr >= 0 && db.refineries@[kr].input_ore_resource_id == item_id)
                || (has_recipe && exists|j: int|
                0 <= j < db.recipes@[kc].input_resource_ids@.len() && db.recipes@[kc].input_resource_ids@[j] == item_id))
            &&& module_sells(db, module_id, item_id) == ((kr >= 0 && (db.refineries@[kr].output_ingot_resource_id == item_id
                || db.refineries@[kr].waste_resource_id == Some(item_id))) || (has_recipe
                && db.recipes@[kc].output_resource_id == item_id))
        }),
{
    law_find_by_key_first_match(db.refineries@, refinery_key(), module_id as int, kr);
    law_find_by_key_first_match(db.manufacturing@, manufacturing_key(), module_id as int, km);
    if km >= 0 {
        if let Some(rid) = db.manufacturing@[km].current_recipe_id {
            law_find_by_key_first_match(db.recipes@, recipe_key(), rid as int, kc);
        }
    }
}

} // verus!
