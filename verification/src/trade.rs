//! Buying from and selling to station modules.

use vstd::prelude::*;

verus! {

/// One item listed in a station module's inventory.
#[derive(Clone, Copy, Debug, PartialEq, Eq, Structural)]
pub struct InventoryListing {
    pub resource_item_id: u32,
    pub quantity: u32,
    pub max_quantity: u32,
    /// The unit price last computed for this listing.
    pub cached_price: u32,
}

/// Why a trade with a station module was refused.
#[derive(Clone, Copy, Debug, PartialEq, Eq, Structural)]
pub enum TradeError {
    /// The ship is docked at another station than the module's.
    WrongStation { ship_station_id: u64, module_station_id: u64 },
    /// The ship's faction and the station's faction are hostile.
    HostileFaction,
    /// The module does not list this item.
    ItemNotListed { item_id: u32 },
    /// The module holds fewer items than requested.
    NotEnoughStock { available: u32, requested: u32 },
    /// The player cannot pay for the purchase.
    NotEnoughCredits { credits: u64, price: u64 },
    /// The module cannot take that many more items.
    NotEnoughRoom { room: u32 },
}

/// The first listing of `item_id`, as an index, if any.
pub open spec fn listing_index(listings: Seq<InventoryListing>, item_id: u32) -> Option<int> {
    if exists|i: int| 0 <= i < listings.len() && listings[i].resource_item_id == item_id {
        Some(choose|i: int| 0 <= i < listings.len() && listings[i].resource_item_id == item_id && forall|j: int| 0 <= j < i ==> listings[j].resource_item_id != item_id)
    } else {
        None
    }
}

/// The first listing of `item_id` in the module's inventory.
pub open spec fn listing_for(listings: Seq<InventoryListing>, item_id: u32) -> Option<InventoryListing> {
    match listing_index(listings, item_id) {
        Some(i) => Some(listings[i]),
        None => None,
    }
}

fn find_listing(listings: &[InventoryListing], item_id: u32) -> (r: Option<InventoryListing>)
    ensures
        r == listing_for(listings@, item_id),
{
    let mut i: usize = 0;
    while i < listings.len()
        invariant
            0 <= i <= listings@.len(),
            forall|j: int| 0 <= j < i ==> listings@[j].resource_item_id != item_id,
        decreases listings@.len() - i,
    {
        if listings[i].resource_item_id == item_id {
            proof {
                let k = choose|k: int| 0 <= k < listings@.len() && listings@[k].resource_item_id == item_id && forall|j: int| 0 <= j < k ==> listings@[j].resource_item_id != item_id;
                assert(k == i) by {
                    if k < i {
                    } else if k > i {
                        assert(listings@[i as int].resource_item_id == item_id);
                    }
                }
            }
            return Some(listings[i]);
        }
        i = i + 1;
    }
    None
}

/// The station and faction checks shared by buying and selling, in order.
pub open spec fn trade_access(
    ship_station_id: u64,
    module_station_id: u64,
    ship_faction_id: u32,
    station_faction_id: u32,
    factions_hostile: bool,
) -> Option<TradeError> {
    if ship_station_id != module_station_id {
        Some(TradeError::WrongStation { ship_station_id, module_station_id })
    } else if ship_faction_id != station_faction_id && factions_hostile {
        Some(TradeError::HostileFaction)
    } else {
        None
    }
}

/// The outcome of a purchase request: the total price, or the reason for
/// refusal, checked in this order.
pub open spec fn purchase_outcome(
    ship_station_id: u64,
    module_station_id: u64,
    ship_faction_id: u32,
    station_faction_id: u32,
    factions_hostile: bool,
    listings: Seq<InventoryListing>,
    item_id: u32,
    quantity: u32,
    credits: u64,
) -> Result<u64, TradeError> {
    if let Some(e) = trade_access(ship_station_id, module_station_id, ship_faction_id, station_faction_id, factions_hostile) {
        Err(e)
    } else if listing_for(listings, item_id) is None {
        Err(TradeError::ItemNotListed { item_id })
    } else {
        let listing = listing_for(listings, item_id)->0;
        if listing.quantity < quantity {
            Err(TradeError::NotEnoughStock { available: listing.quantity, requested: quantity })
        } else if listing.cached_price * quantity > credits {
            Err(TradeError::NotEnoughCredits { credits, price: (listing.cached_price * quantity) as u64 })
        } else {
            Ok((listing.cached_price * quantity) as u64)
        }
    }
}

/// Validates a purchase of `quantity` units of `item_id` from a station
/// module by a docked ship and prices it at the listing's cached price.
///
/// `factions_hostile` is the standing check between the ship's and the
/// station's factions; `listings` is the module's inventory; `credits` the
/// buying player's balance. Loading the cargo comes after this check.
pub fn plan_purchase(
    ship_station_id: u64,
    module_station_id: u64,
    ship_faction_id: u32,
    station_faction_id: u32,
    factions_hostile: bool,
    listings: &[InventoryListing],
    item_id: u32,
    quantity: u32,
    credits: u64,
) -> (r: Result<u64, TradeError>)
    ensures
        r == purchase_outcome(
            ship_station_id,
            module_station_id,
            ship_faction_id,
            station_faction_id,
            factions_hostile,
            listings@,
            item_id,
            quantity,
            credits,
        ),
{
    if ship_station_id != module_station_id {
        return Err(TradeError::WrongStation { ship_station_id, module_station_id });
    }
    if ship_faction_id != station_faction_id && factions_hostile {
        return Err(TradeError::HostileFaction);
    }
    let listing = match find_listing(listings, item_id) {
        Some(l) => l,
        None => {
            return Err(TradeError::ItemNotListed { item_id });
        },
    };
    if listing.quantity < quantity {
        return Err(TradeError::NotEnoughStock { available: listing.quantity, requested: quantity });
    }
    let price = listing.cached_price;
    assert(price as u64 * quantity as u64 <= u64::MAX) by (nonlinear_arith)
        requires
            price <= u32::MAX,
            quantity <= u32::MAX,
    ;
    let total_price = price as u64 * quantity as u64;
    if total_price > credits {
        return Err(TradeError::NotEnoughCredits { credits, price: total_price });
    }
    Ok(total_price)
}

/// Balances after a purchase of `quantity` units for `total_price`: the
/// player's credits and the listing's stock.
pub fn settle_purchase(credits: u64, stock: u32, quantity: u32, total_price: u64) -> (r: (u64, u32))
    requires
        total_price <= credits,
        quantity <= stock,
    ensures
        r.0 == credits - total_price,
        r.1 == stock - quantity,
{
    (credits - total_price, stock - quantity)
}

/// The outcome of a sale request: the total price paid to the player, or the
/// reason for refusal, checked in this order.
pub open spec fn sale_outcome(
    ship_station_id: u64,
    module_station_id: u64,
    ship_faction_id: u32,
    station_faction_id: u32,
    factions_hostile: bool,
    listings: Seq<InventoryListing>,
    item_id: u32,
    quantity: u32,
) -> Result<u64, TradeError> {
    if let Some(e) = trade_access(ship_station_id, module_station_id, ship_faction_id, station_faction_id, factions_hostile) {
        Err(e)
    } else if listing_for(listings, item_id) is None {
        Err(TradeError::ItemNotListed { item_id })
    } else {
        let listing = listing_for(listings, item_id)->0;
        if listing.quantity + quantity > listing.max_quantity {
            Err(TradeError::NotEnoughRoom { room: (listing.max_quantity - listing.quantity) as u32 })
        } else {
            Ok((listing.cached_price * quantity) as u64)
        }
    }
}

/// Validates a sale of `quantity` units of `item_id` from a docked ship to a
/// station module and prices it at the listing's cached price. Removing the
/// cargo from the ship comes after this check.
pub fn plan_sale(
    ship_station_id: u64,
    module_station_id: u64,
    ship_faction_id: u32,
    station_faction_id: u32,
    factions_hostile: bool,
    listings: &[InventoryListing],
    item_id: u32,
    quantity: u32,
) -> (r: Result<u64, TradeError>)
    requires
        listing_for(listings@, item_id) matches Some(l) ==> {
            &&& l.quantity + quantity <= u32::MAX
            &&& l.quantity <= l.max_quantity
        },
    ensures
        r == sale_outcome(
            ship_station_id,
            module_station_id,
            ship_faction_id,
            station_faction_id,
            factions_hostile,
            listings@,
            item_id,
            quantity,
        ),
{
    if ship_station_id != module_station_id {
        return Err(TradeError::WrongStation { ship_station_id, module_station_id });
    }
    if ship_faction_id != station_faction_id && factions_hostile {
        return Err(TradeError::HostileFaction);
    }
    let listing = match find_listing(listings, item_id) {
        Some(l) => l,
        None => {
            return Err(TradeError::ItemNotListed { item_id });
        },
    };
    if listing.quantity + quantity > listing.max_quantity {
        return Err(TradeError::NotEnoughRoom { room: listing.max_quantity - listing.quantity });
    }
    let price = listing.cached_price;
    assert(price as u64 * quantity as u64 <= u64::MAX) by (nonlinear_arith)
        requires
            price <= u32::MAX,
            quantity <= u32::MAX,
    ;
    Ok(price as u64 * quantity as u64)
}

/// Balances after a sale of `quantity` units for `total_price`: the player's
/// credits and the listing's stock.
pub fn settle_sale(credits: u64, stock: u32, quantity: u32, total_price: u64) -> (r: (u64, u32))
    requires
        credits + total_price <= u64::MAX,
        stock + quantity <= u32::MAX,
    ensures
        r.0 == credits + total_price,
        r.1 == stock + quantity,
{
    (credits + total_price, stock + quantity)
}

/// Selling items and buying the same items back at the same total price
/// restores both the player's credits and the module's stock.
pub proof fn law_sale_then_purchase_restores(credits: u64, stock: u32, quantity: u32, total_price: u64)
    requires
        credits + total_price <= u64::MAX,
        stock + quantity <= u32::MAX,
    ensures
        ({
            let after_sale = ((credits + total_price) as u64, (stock + quantity) as u32);
            &&& total_price <= after_sale.0
            &&& quantity <= after_sale.1
            &&& after_sale.0 - total_price == credits
            &&& after_sale.1 - quantity == stock
        }),
{
}

/// A purchase that passes the checks is affordable and in stock, so settling
/// it never overdraws the player nor the listing.
pub proof fn law_purchase_never_overdraws(
    ship_station_id: u64,
    module_station_id: u64,
    ship_faction_id: u32,
    station_faction_id: u32,
    factions_hostile: bool,
    listings: Seq<InventoryListing>,
    item_id: u32,
    quantity: u32,
    credits: u64,
)
    requires
        purchase_outcome(
            ship_station_id,
            module_station_id,
            ship_faction_id,
            station_faction_id,
            factions_hostile,
            listings,
            item_id,
            quantity,
            credits,
        ) is Ok,
    ensures
        ({
            let price = purchase_outcome(
                ship_station_id,
                module_station_id,
                ship_faction_id,
                station_faction_id,
                factions_hostile,
                listings,
                item_id,
                quantity,
                credits,
            )->Ok_0;
            let listing = listing_for(listings, item_id)->0;
            &&& price <= credits
            &&& quantity <= listing.quantity
            &&& price == listing.cached_price * quantity
        }),
{
}

/// The bounds of the client's trade sliders for one listed item.
pub struct TradeLimits {
    /// How many units the player can sell: what the ship carries.
    pub max_sell: u32,
    /// How many units the player can buy: the listing's stock, limited by the
    /// units that fit in the ship's free cargo space.
    pub max_buy: u32,
    /// How many units fit in the free cargo space.
    pub space_available: u16,
}

/// Total quantity over cargo rows of the item in question.
pub open spec fn quantity_total(quantities: Seq<u16>) -> nat
    decreases quantities.len(),
{
    if quantities.len() == 0 {
        0
    } else {
        quantity_total(quantities.drop_last()) + quantities.last() as nat
    }
}

/// Free cargo space: capacity minus what is used, or none when the used
/// space exceeds the capacity.
pub open spec fn free_space(max: u16, used: u16) -> int {
    if used <= max { max - used } else { 0 }
}

/// Computes the trade slider bounds shown for a listed item.
///
/// `cargo_quantities` are the quantities of the ship's cargo rows holding the
/// item; `ship_capacity` is `(max_cargo_capacity, used_cargo_capacity)` when
/// the ship's status row exists.
pub fn trade_limits(cargo_quantities: &[u16], ship_capacity: Option<(u16, u16)>, volume_per_unit: u16, stock: u32) -> (r: TradeLimits)
    requires
        quantity_total(cargo_quantities@) <= u32::MAX,
    ensures
        r.max_sell == quantity_total(cargo_quantities@),
        r.space_available == match ship_capacity {
            Some(c) => if volume_per_unit > 0 {
                free_space(c.0, c.1) / volume_per_unit as int
            } else {
                0
            },
            None => 0,
        },
        r.max_buy == if r.space_available as u32 > stock { stock } else { r.space_available as u32 },
{
    let mut held: u32 = 0;
    let mut i: usize = 0;
    while i < cargo_quantities.len()
        invariant
            0 <= i <= cargo_quantities@.len(),
            quantity_total(cargo_quantities@) <= u32::MAX,
            held == quantity_total(cargo_quantities@.take(i as int)),
        decreases cargo_quantities@.len() - i,
    {
        proof {
            assert(cargo_quantities@.take(i + 1).drop_last() =~= cargo_quantities@.take(i as int));
            lemma_quantity_total_prefix(cargo_quantities@, i + 1);
        }
        held = held + cargo_quantities[i] as u32;
        i = i + 1;
    }
    assert(cargo_quantities@.take(cargo_quantities@.len() as int) =~= cargo_quantities@);
    let space_available: u16 = match ship_capacity {
        Some((max, used)) => {
            let free = max.saturating_sub(used);
            if volume_per_unit > 0 {
                free / volume_per_unit
            } else {
                0
            }
        },
        None => 0,
    };
    let max_buy = if space_available as u32 > stock {
        stock
    } else {
        space_available as u32
    };
    TradeLimits { max_sell: held, max_buy, space_available }
}

proof fn lemma_quantity_total_prefix(quantities: Seq<u16>, n: int)
    requires
        0 <= n <= quantities.len(),
    ensures
        quantity_total(quantities.take(n)) <= quantity_total(quantities),
    decreases quantities.len() - n,
{
    if n < quantities.len() {
        lemma_quantity_total_prefix(quantities, n + 1);
        assert(quantities.take(n + 1).drop_last() =~= quantities.take(n));
    } else {
        assert(quantities.take(n) =~= quantities);
    }
}


/// `k` is the position of the first listing of `item_id`.
pub open spec fn first_listing_at(listings: Seq<InventoryListing>, item_id: u32, k: int) -> bool {
    &&& 0 <= k < listings.len()
    &&& listings[k].resource_item_id == item_id
    &&& forall|j: int| 0 <= j < k ==> listings[j].resource_item_id != item_id
}

/// A listing is looked up by its first row for the item; an item with no row
/// has no listing.
pub proof fn law_listing_is_first_match(listings: Seq<InventoryListing>, item_id: u32, k: int)
    ensures
        first_listing_at(listings, item_id, k) ==> listing_for(listings, item_id) == Some(listings[k]),
        (forall|i: int| 0 <= i < listings.len() ==> listings[i].resource_item_id != item_id) ==> listing_for(
            listings,
            item_id,
        ) is None,
{
    if first_listing_at(listings, item_id, k) {
        let c = choose|i: int|
            0 <= i < listings.len() && listings[i].resource_item_id == item_id && forall|j: int|
                0 <= j < i ==> listings[j].resource_item_id != item_id;
        assert(c == k) by {
            if c < k {
                assert(listings[c].resource_item_id != item_id);
            } else if c > k {
                assert(listings[k].resource_item_id != item_id);
            }
        }
    }
}

/// The station and faction checks come first, for buying and selling alike:
/// a ship docked elsewhere is refused, then a ship whose faction is hostile
/// to a different owning faction.
pub proof fn law_trade_access_refusals(
    ship_station_id: u64,
    module_station_id: u64,
    ship_faction_id: u32,
    station_faction_id: u32,
    factions_hostile: bool,
    listings: Seq<InventoryListing>,
    item_id: u32,
    quantity: u32,
    credits: u64,
)
    ensures
        ship_station_id != module_station_id ==> {
            &&& purchase_outcome(ship_station_id, module_station_id, ship_faction_id, station_faction_id, factions_hostile,
                listings, item_id, quantity, credits) == Err::<u64, TradeError>(TradeError::WrongStation { ship_station_id, module_station_id })
            &&& sale_outcome(ship_station_id, module_station_id, ship_faction_id, station_faction_id, factions_hostile,
                listings, item_id, quantity) == Err::<u64, TradeError>(TradeError::WrongStation { ship_station_id, module_station_id })
        },
        ship_station_id == module_station_id && ship_faction_id != station_faction_id && factions_hostile ==> {
            &&& purchase_outcome(ship_station_id, module_station_id, ship_faction_id, station_faction_id, factions_hostile,
                listings, item_id, quantity, credits) == Err::<u64, TradeError>(TradeError::HostileFaction)
            &&& sale_outcome(ship_station_id, module_station_id, ship_faction_id, station_faction_id, factions_hostile,
                listings, item_id, quantity) == Err::<u64, TradeError>(TradeError::HostileFaction)
        },
{
}

/// Once the ship may trade, an item the module does not list is refused.
pub proof fn law_trade_unlisted_item(
    station_id: u64,
    ship_faction_id: u32,
    station_faction_id: u32,
    factions_hostile: bool,
    listings: Seq<InventoryListing>,
    item_id: u32,
    quantity: u32,
    credits: u64,
)
    requires
        !(ship_faction_id != station_faction_id && factions_hostile),
        forall|i: int| 0 <= i < listings.len() ==> listings[i].resource_item_id != item_id,
    ensures
        purchase_outcome(station_id, station_id, ship_faction_id, station_faction_id, factions_hostile, listings,
            item_id, quantity, credits) == Err::<u64, TradeError>(TradeError::ItemNotListed { item_id }),
        sale_outcome(station_id, station_id, ship_faction_id, station_faction_id, factions_hostile, listings, item_id,
            quantity) == Err::<u64, TradeError>(TradeError::ItemNotListed { item_id }),
{
    law_listing_is_first_match(listings, item_id, 0);
}

/// A permitted purchase of a listed item (first listing `k`): refused when the
/// stock is short, then when the credits do not cover the cached unit price
/// times the quantity; otherwise it costs exactly that.
pub proof fn law_purchase_of_listed_item(
    station_id: u64,
    ship_faction_id: u32,
    station_faction_id: u32,
    factions_hostile: bool,
    listings: Seq<InventoryListing>,
    item_id: u32,
    quantity: u32,
    credits: u64,
    k: int,
)
    requires
        !(ship_faction_id != station_faction_id && factions_hostile),
        first_listing_at(listings, item_id, k),
    ensures
        purchase_outcome(station_id, station_id, ship_faction_id, station_faction_id, factions_hostile, listings,
            item_id, quantity, credits) == if listings[k].quantity < quantity {
            Err(TradeError::NotEnoughStock { available: listings[k].quantity, requested: quantity })
        } else if listings[k].cached_price * quantity > credits {
            Err(TradeError::NotEnoughCredits { credits, price: (listings[k].cached_price * quantity) as u64 })
        } else {
            Ok::<u64, TradeError>((listings[k].cached_price * quantity) as u64)
        },
{
    law_listing_is_first_match(listings, item_id, k);
}

/// A permitted sale of a listed item (first listing `k`): refused when the
/// module cannot take that many more; otherwise it pays the cached unit price
/// times the quantity.
pub proof fn law_sale_of_listed_item(
    station_id: u64,
    ship_faction_id: u32,
    station_faction_id: u32,
    factions_hostile: bool,
    listings: Seq<InventoryListing>,
    item_id: u32,
    quantity: u32,
    k: int,
)
    requires
        !(ship_faction_id != station_faction_id && factions_hostile),
        first_listing_at(listings, item_id, k),
    ensures
        sale_outcome(station_id, station_id, ship_faction_id, station_faction_id, factions_hostile, listings, item_id,
            quantity) == if listings[k].quantity + quantity > listings[k].max_quantity {
            Err(TradeError::NotEnoughRoom { room: (listings[k].max_quantity - listings[k].quantity) as u32 })
        } else {
            Ok::<u64, TradeError>((listings[k].cached_price * quantity) as u64)
        },
{
    law_listing_is_first_match(listings, item_id, k);
}


/// What the ship holds of an item is the sum of its cargo rows' quantities.
pub proof fn law_quantity_total_is_sum(quantities: Seq<u16>, q: u16)
    ensures
        quantity_total(Seq::empty()) == 0,
        quantity_total(quantities.push(q)) == quantity_total(quantities) + q,
{
    assert(quantities.push(q).drop_last() =~= quantities);
}

} // verus!
