//! Player accounts: registration, connection bookkeeping, the global
//! configuration and the player's controlled ship.

use crate::factions::{FactionRow, FACTION_FACTIONLESS};
use crate::identity::{zero_identity, Identity};
use crate::stations::EquipmentSlotType;
use crate::tables::{Ship, ShipLocation};
use vstd::prelude::*;
use vstd::string::*;

verus! {

/// The credits a newly registered player starts with.
pub const STARTING_CREDITS: u64 = 1000;

/// The longest accepted username, in bytes.
pub const MAX_USERNAME_BYTES: usize = 32;

/// A player row.
#[derive(Debug)]
pub struct Player {
    pub id: Identity,
    pub username: String,
    pub credits: u64,
    pub logged_in: bool,
    pub faction_id: u32,
    /// When the player's previous connection began, in microseconds since
    /// the Unix epoch; `None` until the first connection after registering.
    pub last_login: Option<i64>,
}

/// Why a registration was refused.
#[derive(Clone, Copy, Debug, PartialEq, Eq, Structural)]
pub enum RegistrationError {
    AlreadyRegistered,
    UsernameTooLong,
    UsernameTaken,
    UnknownFaction { faction_id: u32 },
    NotJoinable { faction_id: u32 },
    NoCapital { faction_id: u32 },
}

/// The faction a registration asks for: 0 means the factionless faction.
pub open spec fn requested_faction(faction_id: u32) -> u32 {
    if faction_id == 0 {
        FACTION_FACTIONLESS
    } else {
        faction_id
    }
}

/// The first faction row with the given id.
pub open spec fn faction_row(factions: Seq<FactionRow>, faction_id: u32) -> Option<FactionRow> {
    if exists|i: int| 0 <= i < factions.len() && factions[i].id == faction_id {
        Some(factions[choose|i: int| 0 <= i < factions.len() && factions[i].id == faction_id && forall|j: int| 0 <= j < i ==> factions[j].id != faction_id])
    } else {
        None
    }
}

fn find_faction(factions: &[FactionRow], faction_id: u32) -> (r: Option<FactionRow>)
    ensures
        r == faction_row(factions@, faction_id),
{
    let mut i: usize = 0;
    while i < factions.len()
        invariant
            0 <= i <= factions@.len(),
            forall|j: int| 0 <= j < i ==> factions@[j].id != faction_id,
        decreases factions@.len() - i,
    {
        if factions[i].id == faction_id {
            proof {
                let k = choose|k: int| 0 <= k < factions@.len() && factions@[k].id == faction_id && forall|j: int| 0 <= j < k ==> factions@[j].id != faction_id;
                assert(k == i) by {
                    if k > i {
                        assert(factions@[i as int].id == faction_id);
                    }
                }
            }
            return Some(factions[i]);
        }
        i = i + 1;
    }
    None
}

/// A faction offered on the player creation screen.
#[derive(Clone, Copy, Debug, PartialEq, Eq, Structural)]
pub struct FactionChoice {
    pub faction_id: u32,
    /// Only a faction with a Capital station can be picked: that is where
    /// its new players spawn.
    pub pickable: bool,
}

/// The creation-screen entry for a faction.
pub open spec fn choice_for(faction: FactionRow) -> FactionChoice {
    FactionChoice { faction_id: faction.id, pickable: faction.capital_station_id is Some }
}

/// The joinable factions, in table order, each with whether it can be picked.
pub open spec fn faction_choices_of(factions: Seq<FactionRow>) -> Seq<FactionChoice>
    decreases factions.len(),
{
    if factions.len() == 0 {
        Seq::empty()
    } else {
        let last = factions.last();
        faction_choices_of(factions.drop_last()) + if last.joinable {
            seq![choice_for(last)]
        } else {
            Seq::empty()
        }
    }
}

/// Lists the factions a new player is offered: the joinable ones, of which
/// only those with a Capital station are pickable.
pub fn faction_choices(factions: &[FactionRow]) -> (choices: Vec<FactionChoice>)
    ensures
        choices@ == faction_choices_of(factions@),
{
    let mut choices: Vec<FactionChoice> = Vec::new();
    let mut i: usize = 0;
    while i < factions.len()
        invariant
            0 <= i <= factions@.len(),
            choices@ == faction_choices_of(factions@.take(i as int)),
        decreases factions@.len() - i,
    {
        let f = factions[i];
        proof {
            assert(factions@.take(i + 1).drop_last() =~= factions@.take(i as int));
        }
        if f.joinable {
            choices.push(FactionChoice { faction_id: f.id, pickable: f.capital_station_id.is_some() });
        }
        i = i + 1;
        assert(choices@ =~= faction_choices_of(factions@.take(i as int)));
    }
    assert(factions@.take(factions@.len() as int) =~= factions@);
    choices
}

/// Can the creation form be submitted: a username is typed and a faction
/// is selected?
pub fn can_create_player(username: &str, selected_faction_id: Option<u32>) -> (r: bool)
    ensures
        r == (username@.len() > 0 && selected_faction_id is Some),
{
    username.unicode_len() > 0 && selected_faction_id.is_some()
}

/// Is some player registered under this identity?
pub open spec fn identity_registered(players: Seq<Player>, id: Seq<u8>) -> bool {
    exists|i: int| 0 <= i < players.len() && (#[trigger] players[i]).id@ == id
}

/// Is this username taken?
pub open spec fn username_taken(players: Seq<Player>, username: Seq<char>) -> bool {
    exists|i: int| 0 <= i < players.len() && (#[trigger] players[i]).username@ == username
}

/// The outcome of a registration request, checked in this order: the
/// identity is new, the username fits in 32 bytes and is free, and the chosen
/// faction exists, is joinable and has a Capital station to spawn at. On
/// success, the faction the player joins.
pub open spec fn registration_outcome(
    players: Seq<Player>,
    factions: Seq<FactionRow>,
    id: Seq<u8>,
    username: &str,
    faction_id: u32,
) -> Result<u32, RegistrationError> {
    let faction = requested_faction(faction_id);
    if identity_registered(players, id) {
        Err(RegistrationError::AlreadyRegistered)
    } else if username.len() > MAX_USERNAME_BYTES {
        Err(RegistrationError::UsernameTooLong)
    } else if username_taken(players, username@) {
        Err(RegistrationError::UsernameTaken)
    } else if faction_row(factions, faction) is None {
        Err(RegistrationError::UnknownFaction { faction_id: faction })
    } else if !faction_row(factions, faction)->0.joinable {
        Err(RegistrationError::NotJoinable { faction_id: faction })
    } else if faction_row(factions, faction)->0.capital_station_id is None {
        Err(RegistrationError::NoCapital { faction_id: faction })
    } else {
        Ok(faction)
    }
}

/// Registers a new player: validates the request against the player and
/// faction tables and returns the new player row, logged in and with the
/// starting credits.
pub fn register_playername(
    players: &[Player],
    factions: &[FactionRow],
    identity: Identity,
    username: &str,
    faction_id: u32,
) -> (r: Result<Player, RegistrationError>)
    ensures
        match registration_outcome(players@, factions@, identity@, username, faction_id) {
            Ok(faction) => r matches Ok(p) && p.id@ == identity@ && p.username@ == username@ && p.credits == STARTING_CREDITS
                && p.logged_in && p.faction_id == faction && p.last_login is None,
            Err(e) => r matches Err(e2) && e2 == e,
        },
{
    let mut i: usize = 0;
    while i < players.len()
        invariant
            0 <= i <= players@.len(),
            forall|j: int| 0 <= j < i ==> (#[trigger] players@[j]).id@ != identity@,
        decreases players@.len() - i,
    {
        if players[i].id.same_as(&identity) {
            assert(identity_registered(players@, identity@)) by {
                assert(players@[i as int].id@ == identity@);
            }
            return Err(RegistrationError::AlreadyRegistered);
        }
        i = i + 1;
    }
    assert(!identity_registered(players@, identity@));
    if username.len() > MAX_USERNAME_BYTES {
        return Err(RegistrationError::UsernameTooLong);
    }
    let name = username.to_owned();
    let mut i: usize = 0;
    while i < players.len()
        invariant
            0 <= i <= players@.len(),
            name@ == username@,
            !identity_registered(players@, identity@),
            !(username.len() > MAX_USERNAME_BYTES),
            forall|j: int| 0 <= j < i ==> (#[trigger] players@[j]).username@ != username@,
        decreases players@.len() - i,
    {
        if players[i].username == name {
            assert(username_taken(players@, username@)) by {
                assert(players@[i as int].username@ == username@);
            }
            return Err(RegistrationError::UsernameTaken);
        }
        i = i + 1;
    }
    assert(!username_taken(players@, username@));
    let final_faction = if faction_id == 0 {
        FACTION_FACTIONLESS
    } else {
        faction_id
    };
    let faction = match find_faction(factions, final_faction) {
        Some(f) => f,
        None => {
            return Err(RegistrationError::UnknownFaction { faction_id: final_faction });
        },
    };
    if !faction.joinable {
        return Err(RegistrationError::NotJoinable { faction_id: final_faction });
    }
    if faction.capital_station_id.is_none() {
        return Err(RegistrationError::NoCapital { faction_id: final_faction });
    }
    Ok(Player { id: identity, username: name, credits: STARTING_CREDITS, logged_in: true, faction_id: final_faction, last_login: None })
}

/// A player's row after their client connects: logged in, with the
/// connection time as the new baseline for "while you were away".
pub fn player_after_connect(player: Player, now_micros: i64) -> (p: Player)
    ensures
        p.id == player.id,
        p.username == player.username,
        p.credits == player.credits,
        p.faction_id == player.faction_id,
        p.logged_in,
        p.last_login == Some(now_micros),
{
    Player { logged_in: true, last_login: Some(now_micros), ..player }
}

/// A player's row after their client disconnects: logged out, everything
/// else unchanged.
pub fn player_after_disconnect(player: Player) -> (p: Player)
    ensures
        p.id == player.id,
        p.username == player.username,
        p.credits == player.credits,
        p.faction_id == player.faction_id,
        !p.logged_in,
        p.last_login == player.last_login,
{
    Player { logged_in: false, ..player }
}

/// Either no faction row has id `faction_id` (`k == -1`), or `k` is the
/// first that has.
pub open spec fn faction_located(factions: Seq<FactionRow>, faction_id: u32, k: int) -> bool {
    ||| (k == -1 && forall|i: int| 0 <= i < factions.len() ==> factions[i].id != faction_id)
    ||| (0 <= k < factions.len() && factions[k].id == faction_id && forall|j: int| 0 <= j < k ==> factions[j].id != faction_id)
}

/// A faction is looked up by its first row.
pub proof fn law_faction_row_is_first_match(factions: Seq<FactionRow>, faction_id: u32, k: int)
    requires
        faction_located(factions, faction_id, k),
    ensures
        faction_row(factions, faction_id) == if k == -1 { None } else { Some(factions[k]) },
{
    if k != -1 {
        let c = choose|i: int|
            0 <= i < factions.len() && factions[i].id == faction_id && forall|j: int| 0 <= j < i ==> factions[j].id != faction_id;
        assert(c == k) by {
            if c < k {
                assert(factions[c].id != faction_id);
            } else if c > k {
                assert(factions[k].id != faction_id);
            }
        }
    }
}

/// Registration, stated over the player and faction rows: an identity that
/// already has a player is refused; then a name longer than 32 bytes; then a
/// name that any existing player (of any faction) already has; then the
/// requested faction (0 meaning the factionless one, found at row `k`) must
/// exist, be joinable and have a Capital station, and the player joins it.
pub proof fn law_registration_from_rows(
    players: Seq<Player>,
    factions: Seq<FactionRow>,
    id: Seq<u8>,
    username: &str,
    faction_id: u32,
    k: int,
)
    requires
        faction_located(factions, if faction_id == 0 { FACTION_FACTIONLESS } else { faction_id }, k),
    ensures
        ({
            let o = registration_outcome(players, factions, id, username, faction_id);
            let faction = if faction_id == 0 { FACTION_FACTIONLESS } else { faction_id };
            let known = exists|i: int| 0 <= i < players.len() && (#[trigger] players[i]).id@ == id;
            let taken = exists|i: int| 0 <= i < players.len() && (#[trigger] players[i]).username@ == username@;
            &&& known ==> o == Err::<u32, RegistrationError>(RegistrationError::AlreadyRegistered)
            &&& !known && username.len() > 32 ==> o == Err::<u32, RegistrationError>(RegistrationError::UsernameTooLong)
            &&& !known && username.len() <= 32 && taken ==> o == Err::<u32, RegistrationError>(RegistrationError::UsernameTaken)
            &&& !known && username.len() <= 32 && !taken ==> o == if k == -1 {
                Err(RegistrationError::UnknownFaction { faction_id: faction })
            } else if !factions[k].joinable {
                Err(RegistrationError::NotJoinable { faction_id: faction })
            } else if factions[k].capital_station_id is None {
                Err(RegistrationError::NoCapital { faction_id: faction })
            } else {
                Ok::<u32, RegistrationError>(faction)
            }
        }),
{
    law_faction_row_is_first_match(factions, if faction_id == 0 { FACTION_FACTIONLESS } else { faction_id }, k);
}

/// The active-player count after a client connects.
pub fn active_players_after_connect(active_players: u32) -> (r: u32)
    requires
        active_players < u32::MAX,
    ensures
        r == active_players + 1,
{
    active_players + 1
}

/// The active-player count after a client disconnects; it never drops
/// below zero.
pub fn active_players_after_disconnect(active_players: u32) -> (r: u32)
    ensures
        r == if active_players > 0 {
            active_players - 1
        } else {
            0
        },
{
    if active_players > 0 {
        active_players - 1
    } else {
        active_players
    }
}

/// A connection followed by a disconnection leaves the active-player count
/// unchanged.
pub proof fn law_connect_then_disconnect_restores_count(active_players: u32)
    requires
        active_players < u32::MAX,
    ensures
        ({
            let after_connect = (active_players + 1) as u32;
            (if after_connect > 0 { after_connect - 1 } else { 0 }) == active_players
        }),
{
}

/// Are any players active? `active_players` is the count in the global
/// configuration, `None` when there is no configuration row. A missing row
/// fails closed: no players count as active.
pub fn global_config_any_active_players(active_players: Option<u32>) -> (r: bool)
    ensures
        r == (active_players matches Some(n) && n > 0),
{
    match active_players {
        Some(n) => n > 0,
        None => false,
    }
}

/// The global configuration after module initialisation.
pub struct ConfigInit {
    /// Is a new configuration row created (none existed)?
    pub create: bool,
    pub active_players: u32,
    /// The stored server (publisher) identity.
    pub server_identity: Identity,
}

/// Initialises the global configuration on module start: a missing row is
/// created with the publisher as server identity; an existing row gets its
/// active-player count reset and, if its server identity is still the
/// all-zero default, the publisher as server identity.
pub fn init_global_config(existing_server_identity: Option<Identity>, publisher: Identity) -> (r: ConfigInit)
    ensures
        r.create == existing_server_identity is None,
        r.active_players == 0,
        r.server_identity@ == match existing_server_identity {
            None => publisher@,
            Some(s) => if s@ == zero_identity() {
                publisher@
            } else {
                s@
            },
        },
{
    match existing_server_identity {
        None => ConfigInit { create: true, active_players: 0, server_identity: publisher },
        Some(stored) => {
            if stored.same_as(&Identity::default()) {
                ConfigInit { create: false, active_players: 0, server_identity: publisher }
            } else {
                ConfigInit { create: false, active_players: 0, server_identity: stored }
            }
        },
    }
}

/// The index of a player's first ship that flies in a sector (not docked).
pub open spec fn in_sector_ship_index(ships: Seq<Ship>, player: Seq<u8>) -> Option<int> {
    if exists|i: int| 0 <= i < ships.len() && ships[i].player_id@ == player && ships[i].location == ShipLocation::Sector {
        Some(
            choose|i: int|
                0 <= i < ships.len() && ships[i].player_id@ == player && ships[i].location == ShipLocation::Sector && forall|j: int|
                    0 <= j < i ==> !(ships[j].player_id@ == player && ships[j].location == ShipLocation::Sector),
        )
    } else {
        None
    }
}

/// The ship a player currently controls: their first in-sector ship, if any.
pub fn get_player_ship(ships: &[Ship], player: Identity) -> (r: Option<Ship>)
    ensures
        r == match in_sector_ship_index(ships@, player@) {
            Some(i) => Some(ships@[i]),
            None => None::<Ship>,
        },
{
    let mut i: usize = 0;
    while i < ships.len()
        invariant
            0 <= i <= ships@.len(),
            forall|j: int| 0 <= j < i ==> !(ships@[j].player_id@ == player@ && ships@[j].location == ShipLocation::Sector),
        decreases ships@.len() - i,
    {
        let s = ships[i];
        if s.player_id.same_as(&player) && s.location == ShipLocation::Sector {
            proof {
                let k = choose|k: int|
                    0 <= k < ships@.len() && ships@[k].player_id@ == player@ && ships@[k].location == ShipLocation::Sector && forall|j: int|
                        0 <= j < k ==> !(ships@[j].player_id@ == player@ && ships@[j].location == ShipLocation::Sector);
                assert(k == i) by {
                    if k > i {
                        assert(ships@[i as int].player_id@ == player@);
                    }
                }
            }
            return Some(s);
        }
        i = i + 1;
    }
    None
}

impl Player {
    /// The stellar object id of the ship this player controls, if any.
    pub fn get_ship_id(&self, ships: &[Ship]) -> (r: Option<u64>)
        ensures
            r == match in_sector_ship_index(ships@, self.id@) {
                Some(i) => Some(ships@[i].sobj_id),
                None => None::<u64>,
            },
    {
        match get_player_ship(ships, self.id) {
            Some(s) => Some(s.sobj_id),
            None => None,
        }
    }
}

/// Why a ship could not be created for a player.
#[derive(Clone, Copy, Debug, PartialEq, Eq, Structural)]
pub enum ShipCreationError {
    /// The player has not registered a username yet.
    NotRegistered,
    /// The player already owns a ship (one ship per player).
    AlreadyOwnsShip,
}

/// Does the player own any ship?
pub open spec fn owns_a_ship(ships: Seq<Ship>, player: Seq<u8>) -> bool {
    exists|i: int| 0 <= i < ships.len() && (#[trigger] ships[i]).player_id@ == player
}

/// May this player get a new ship? They must be registered and own none yet.
pub fn check_ship_creation(registered: bool, ships: &[Ship], player: Identity) -> (r: Result<(), ShipCreationError>)
    ensures
        r == if !registered {
            Err(ShipCreationError::NotRegistered)
        } else if owns_a_ship(ships@, player@) {
            Err(ShipCreationError::AlreadyOwnsShip)
        } else {
            Ok::<(), ShipCreationError>(())
        },
{
    if !registered {
        return Err(ShipCreationError::NotRegistered);
    }
    let mut i: usize = 0;
    while i < ships.len()
        invariant
            0 <= i <= ships@.len(),
            registered,
            forall|j: int| 0 <= j < i ==> (#[trigger] ships@[j]).player_id@ != player@,
        decreases ships@.len() - i,
    {
        if ships[i].player_id.same_as(&player) {
            assert(owns_a_ship(ships@, player@)) by {
                assert(ships@[i as int].player_id@ == player@);
            }
            return Err(ShipCreationError::AlreadyOwnsShip);
        }
        i = i + 1;
    }
    Ok(())
}

/// The ship type every new player starts with.
pub const STARTER_SHIP_TYPE_ID: u32 = 1001;

/// The items of a new player's starting loadout.
#[derive(Clone, Copy, Debug, PartialEq, Eq, Structural)]
pub enum StarterItem {
    FoodRations,
    EnergyCell,
    BasicMiningLaser,
    IonicBlaster,
}

/// An equipment slot fitted on a new ship.
#[derive(Clone, Copy, Debug, PartialEq, Eq, Structural)]
pub struct StarterEquipment {
    pub slot_type: EquipmentSlotType,
    pub slot_index: u8,
    pub item: StarterItem,
}

/// What a new player's ship is created with: its type, the cargo loaded
/// into it in order, and the equipment fitted.
pub struct StarterLoadout {
    pub ship_type_id: u32,
    pub cargo: Vec<(StarterItem, u16)>,
    pub equipment: Vec<StarterEquipment>,
}

/// The starting cargo: three food rations, then five energy cells.
pub open spec fn starter_cargo() -> Seq<(StarterItem, u16)> {
    seq![(StarterItem::FoodRations, 3u16), (StarterItem::EnergyCell, 5u16)]
}

/// The starting equipment: a basic mining laser in the first mining-laser
/// slot and an ionic blaster in the first weapon slot.
pub open spec fn starter_equipment() -> Seq<StarterEquipment> {
    seq![
        StarterEquipment { slot_type: EquipmentSlotType::MiningLaser, slot_index: 0, item: StarterItem::BasicMiningLaser },
        StarterEquipment { slot_type: EquipmentSlotType::Weapon, slot_index: 0, item: StarterItem::IonicBlaster },
    ]
}

/// The loadout a newly created player ship receives.
pub fn starting_loadout() -> (l: StarterLoadout)
    ensures
        l.ship_type_id == STARTER_SHIP_TYPE_ID,
        l.cargo@ == starter_cargo(),
        l.equipment@ == starter_equipment(),
{
    let cargo = vec![(StarterItem::FoodRations, 3u16), (StarterItem::EnergyCell, 5u16)];
    let equipment = vec![
        StarterEquipment { slot_type: EquipmentSlotType::MiningLaser, slot_index: 0, item: StarterItem::BasicMiningLaser },
        StarterEquipment { slot_type: EquipmentSlotType::Weapon, slot_index: 0, item: StarterItem::IonicBlaster },
    ];
    assert(cargo@ =~= starter_cargo());
    assert(equipment@ =~= starter_equipment());
    StarterLoadout { ship_type_id: STARTER_SHIP_TYPE_ID, cargo, equipment }
}

/// The sector used when a faction has no Capital station.
pub const FALLBACK_SPAWN_SECTOR: u64 = 0;

/// Where a new player's ship spawns.
#[derive(Clone, Copy, Debug, PartialEq, Eq, Structural)]
pub struct SpawnSite {
    pub sector_id: u64,
    /// The Capital station to spawn beside; `None` means the default pose.
    pub beside_station_id: Option<u64>,
}

/// A station's id and sector.
#[derive(Clone, Copy, Debug, PartialEq, Eq, Structural)]
pub struct StationLocation {
    pub station_id: u64,
    pub sector_id: u64,
}

/// The first station location with the given id.
pub open spec fn station_location(stations: Seq<StationLocation>, station_id: u64) -> Option<StationLocation> {
    if exists|i: int| 0 <= i < stations.len() && stations[i].station_id == station_id {
        Some(stations[choose|i: int| 0 <= i < stations.len() && stations[i].station_id == station_id && forall|j: int| 0 <= j < i ==> stations[j].station_id != station_id])
    } else {
        None
    }
}

/// Where a new ship of a faction's player spawns: beside the faction's
/// Capital station, in its sector; the fallback sector when the faction, its
/// Capital or the Capital's station row is missing.
pub fn capital_spawn_for_faction(factions: &[FactionRow], stations: &[StationLocation], faction_id: u32) -> (r: SpawnSite)
    ensures
        r == match faction_row(factions@, faction_id) {
            Some(f) => match f.capital_station_id {
                Some(sid) => match station_location(stations@, sid) {
                    Some(loc) => SpawnSite { sector_id: loc.sector_id, beside_station_id: Some(sid) },
                    None => SpawnSite { sector_id: FALLBACK_SPAWN_SECTOR, beside_station_id: None },
                },
                None => SpawnSite { sector_id: FALLBACK_SPAWN_SECTOR, beside_station_id: None },
            },
            None => SpawnSite { sector_id: FALLBACK_SPAWN_SECTOR, beside_station_id: None },
        },
{
    let fallback = SpawnSite { sector_id: FALLBACK_SPAWN_SECTOR, beside_station_id: None };
    let faction = match find_faction(factions, faction_id) {
        Some(f) => f,
        None => {
            return fallback;
        },
    };
    let station_id = match faction.capital_station_id {
        Some(id) => id,
        None => {
            return fallback;
        },
    };
    let mut i: usize = 0;
    while i < stations.len()
        invariant
            0 <= i <= stations@.len(),
            faction_row(factions@, faction_id) == Some(faction),
            faction.capital_station_id == Some(station_id),
            forall|j: int| 0 <= j < i ==> stations@[j].station_id != station_id,
        decreases stations@.len() - i,
    {
        if stations[i].station_id == station_id {
            proof {
                let k = choose|k: int| 0 <= k < stations@.len() && stations@[k].station_id == station_id && forall|j: int| 0 <= j < k ==> stations@[j].station_id != station_id;
                assert(k == i) by {
                    if k > i {
                        assert(stations@[i as int].station_id == station_id);
                    }
                }
            }
            assert(station_location(stations@, station_id) == Some(stations@[i as int]));
            return SpawnSite { sector_id: stations[i].sector_id, beside_station_id: Some(station_id) };
        }
        i = i + 1;
    }
    fallback
}


/// The creation screen lists the joinable factions in table order, each
/// pickable exactly when it has a Capital station.
pub proof fn law_faction_choices_are_the_joinable_factions(factions: Seq<FactionRow>)
    ensures
        faction_choices_of(factions) == factions.filter_map(
            |f: FactionRow|
                if f.joinable {
                    Some(FactionChoice { faction_id: f.id, pickable: f.capital_station_id is Some })
                } else {
                    None
                },
        ),
    decreases factions.len(),
{
    if factions.len() > 0 {
        law_faction_choices_are_the_joinable_factions(factions.drop_last());
    }
}

/// The controlled ship is the player's first in-sector ship.
pub proof fn law_controlled_ship_is_first_in_sector(ships: Seq<Ship>, player: Seq<u8>, k: int)
    ensures
        (0 <= k < ships.len() && ships[k].player_id@ == player && ships[k].location == ShipLocation::Sector && forall|j: int|
            0 <= j < k ==> !(ships[j].player_id@ == player && ships[j].location == ShipLocation::Sector))
            ==> in_sector_ship_index(ships, player) == Some(k),
        (forall|i: int| 0 <= i < ships.len() ==> !(ships[i].player_id@ == player && ships[i].location == ShipLocation::Sector))
            ==> in_sector_ship_index(ships, player) is None,
{
    if 0 <= k < ships.len() && ships[k].player_id@ == player && ships[k].location == ShipLocation::Sector && forall|j: int|
        0 <= j < k ==> !(ships[j].player_id@ == player && ships[j].location == ShipLocation::Sector) {
        let c = choose|i: int|
            0 <= i < ships.len() && ships[i].player_id@ == player && ships[i].location == ShipLocation::Sector && forall|j: int|
                0 <= j < i ==> !(ships[j].player_id@ == player && ships[j].location == ShipLocation::Sector);
        assert(c == k) by {
            if c < k {
                assert(!(ships[c].player_id@ == player && ships[c].location == ShipLocation::Sector));
            } else if c > k {
                assert(!(ships[k].player_id@ == player && ships[k].location == ShipLocation::Sector));
            }
        }
    }
}


/// A station's location is read from its first row; a station with no row
/// has none.
pub proof fn law_station_location_is_first_match(stations: Seq<StationLocation>, station_id: u64, k: int)
    ensures
        (0 <= k < stations.len() && stations[k].station_id == station_id && forall|j: int|
            0 <= j < k ==> stations[j].station_id != station_id) ==> station_location(stations, station_id) == Some(stations[k]),
        (forall|i: int| 0 <= i < stations.len() ==> stations[i].station_id != station_id) ==> station_location(stations, station_id) is None,
{
    if 0 <= k < stations.len() && stations[k].station_id == station_id && forall|j: int|
        0 <= j < k ==> stations[j].station_id != station_id {
        let c = choose|i: int|
            0 <= i < stations.len() && stations[i].station_id == station_id && forall|j: int|
                0 <= j < i ==> stations[j].station_id != station_id;
        assert(c == k) by {
            if c < k {
                assert(stations[c].station_id != station_id);
            } else if c > k {
                assert(stations[k].station_id != station_id);
            }
        }
    }
}

} // verus!
