//! The playable factions, their mutual standings and their display colours.

use vstd::prelude::*;

verus! {

pub const FACTION_FACTIONLESS: u32 = 0;
pub const FACTION_LRAK_COMBINE: u32 = 1;
pub const FACTION_INDEPENDENT_WORLDS_ALLIANCE: u32 = 2;
pub const FACTION_FREE_TRADE_UNION: u32 = 3;
pub const FACTION_REDIAR_FEDERATION: u32 = 4;
pub const FACTION_VANCELLAN: u32 = 5;
pub const FACTION_ALLIANCE_PROCYON: u32 = 10;

pub const REPUTATION_HOSTILE: i32 = -75;
pub const REPUTATION_DISLIKED: i32 = -25;
pub const REPUTATION_NEUTRAL: i32 = 0;
pub const REPUTATION_FRIENDLY: i32 = 25;
pub const REPUTATION_ALLIED: i32 = 75;

/// The tier of a faction.
#[derive(Clone, Copy, Debug, PartialEq, Eq, Structural)]
pub enum FactionTier {
    Galactic,
    Alliance,
}

/// The gameplay-relevant fields of a faction row.
#[derive(Clone, Copy, Debug, PartialEq, Eq, Structural)]
pub struct FactionRow {
    pub id: u32,
    pub parent_id: Option<u32>,
    pub tier: FactionTier,
    /// Can new players choose this faction?
    pub joinable: bool,
    /// The faction's Capital station, where its new players spawn.
    pub capital_station_id: Option<u64>,
}

/// A directed standing: how faction `from` regards faction `to`.
#[derive(Clone, Copy, Debug, PartialEq, Eq, Structural)]
pub struct FactionStanding {
    pub from: u32,
    pub to: u32,
    pub reputation: i32,
}

/// A faction row as seeded: no Capital station yet.
pub open spec fn seeded_faction(id: u32, parent_id: Option<u32>, tier: FactionTier, joinable: bool) -> FactionRow {
    FactionRow { id, parent_id, tier, joinable, capital_station_id: None }
}

/// The seeded factions, in seeding order. Lrak Combine, the Independent
/// Worlds Alliance and the Rediar Federation belong to the Procyon Compact.
pub open spec fn seeded_factions() -> Seq<FactionRow> {
    let pc = Some(FACTION_ALLIANCE_PROCYON);
    seq![
        seeded_faction(FACTION_FACTIONLESS, None, FactionTier::Galactic, false),
        seeded_faction(FACTION_LRAK_COMBINE, pc, FactionTier::Galactic, true),
        seeded_faction(FACTION_INDEPENDENT_WORLDS_ALLIANCE, pc, FactionTier::Galactic, false),
        seeded_faction(FACTION_FREE_TRADE_UNION, None, FactionTier::Galactic, false),
        seeded_faction(FACTION_REDIAR_FEDERATION, pc, FactionTier::Galactic, true),
        seeded_faction(FACTION_VANCELLAN, None, FactionTier::Galactic, false),
        seeded_faction(FACTION_ALLIANCE_PROCYON, None, FactionTier::Alliance, false),
    ]
}

/// The seeded factions (without their texts). Only Lrak Combine and the
/// Rediar Federation are joinable; the others are played by the game.
pub fn faction_definitions() -> (rows: Vec<FactionRow>)
    ensures
        rows@ == seeded_factions(),
        rows@.len() == 7,
        forall|i: int| 0 <= i < rows@.len() ==> ((#[trigger] rows@[i]).joinable <==> (rows@[i].id == FACTION_LRAK_COMBINE
            || rows@[i].id == FACTION_REDIAR_FEDERATION)),
        forall|i: int| 0 <= i < rows@.len() ==> (#[trigger] rows@[i]).capital_station_id is None,
{
    let pc = Some(FACTION_ALLIANCE_PROCYON);
    let rows = vec![
        FactionRow { id: FACTION_FACTIONLESS, parent_id: None, tier: FactionTier::Galactic, joinable: false, capital_station_id: None },
        FactionRow { id: FACTION_LRAK_COMBINE, parent_id: pc, tier: FactionTier::Galactic, joinable: true, capital_station_id: None },
        FactionRow {
            id: FACTION_INDEPENDENT_WORLDS_ALLIANCE,
            parent_id: pc,
            tier: FactionTier::Galactic,
            joinable: false,
            capital_station_id: None,
        },
        FactionRow { id: FACTION_FREE_TRADE_UNION, parent_id: None, tier: FactionTier::Galactic, joinable: false, capital_station_id: None },
        FactionRow { id: FACTION_REDIAR_FEDERATION, parent_id: pc, tier: FactionTier::Galactic, joinable: true, capital_station_id: None },
        FactionRow { id: FACTION_VANCELLAN, parent_id: None, tier: FactionTier::Galactic, joinable: false, capital_station_id: None },
        FactionRow { id: FACTION_ALLIANCE_PROCYON, parent_id: None, tier: FactionTier::Alliance, joinable: false, capital_station_id: None },
    ];
    assert(rows@ =~= seeded_factions());
    rows
}

/// The standing `reputation` in both directions between two factions.
pub fn create_mutual_standing(faction_one: u32, faction_two: u32, reputation: i32) -> (pair: [FactionStanding; 2])
    ensures
        pair[0] == (FactionStanding { from: faction_one, to: faction_two, reputation }),
        pair[1] == (FactionStanding { from: faction_two, to: faction_one, reputation }),
{
    [
        FactionStanding { from: faction_one, to: faction_two, reputation },
        FactionStanding { from: faction_two, to: faction_one, reputation },
    ]
}

/// Every standing has its mirror: faction A regards faction B exactly as B
/// regards A.
pub open spec fn standings_symmetric(standings: Seq<FactionStanding>) -> bool {
    forall|i: int| 0 <= i < standings.len() ==> exists|j: int| 0 <= j < standings.len() && (#[trigger] standings[j]).from
        == (#[trigger] standings[i]).to && standings[j].to == standings[i].from && standings[j].reputation == standings[i].reputation
}

/// The seeded (undirected) relationships, each created in both directions.
pub open spec fn seeded_relationships() -> Seq<(u32, u32, i32)> {
    seq![
        (FACTION_FACTIONLESS, FACTION_LRAK_COMBINE, REPUTATION_NEUTRAL),
        (FACTION_FACTIONLESS, FACTION_INDEPENDENT_WORLDS_ALLIANCE, REPUTATION_NEUTRAL),
        (FACTION_FACTIONLESS, FACTION_FREE_TRADE_UNION, REPUTATION_NEUTRAL),
        (FACTION_FACTIONLESS, FACTION_REDIAR_FEDERATION, REPUTATION_NEUTRAL),
        (FACTION_FACTIONLESS, FACTION_VANCELLAN, REPUTATION_HOSTILE),
        (FACTION_LRAK_COMBINE, FACTION_INDEPENDENT_WORLDS_ALLIANCE, REPUTATION_DISLIKED),
        (FACTION_LRAK_COMBINE, FACTION_FREE_TRADE_UNION, REPUTATION_DISLIKED),
        (FACTION_LRAK_COMBINE, FACTION_REDIAR_FEDERATION, REPUTATION_DISLIKED),
        (FACTION_LRAK_COMBINE, FACTION_VANCELLAN, REPUTATION_HOSTILE),
        (FACTION_INDEPENDENT_WORLDS_ALLIANCE, FACTION_FREE_TRADE_UNION, REPUTATION_DISLIKED),
        (FACTION_INDEPENDENT_WORLDS_ALLIANCE, FACTION_REDIAR_FEDERATION, REPUTATION_NEUTRAL),
        (FACTION_INDEPENDENT_WORLDS_ALLIANCE, FACTION_VANCELLAN, REPUTATION_HOSTILE),
        (FACTION_FREE_TRADE_UNION, FACTION_REDIAR_FEDERATION, REPUTATION_DISLIKED),
        (FACTION_FREE_TRADE_UNION, FACTION_VANCELLAN, REPUTATION_HOSTILE),
        (FACTION_REDIAR_FEDERATION, FACTION_VANCELLAN, REPUTATION_HOSTILE),
    ]
}

/// The seeded faction standings: for each seeded relationship, first the
/// standing of the first faction towards the second, then its mirror.
pub fn faction_standings() -> (standings: Vec<FactionStanding>)
    ensures
        standings@.len() == 2 * seeded_relationships().len(),
        forall|k: int| 0 <= k < seeded_relationships().len() ==> {
            let (a, b, r) = #[trigger] seeded_relationships()[k];
            &&& standings@[2 * k] == (FactionStanding { from: a, to: b, reputation: r })
            &&& standings@[2 * k + 1] == (FactionStanding { from: b, to: a, reputation: r })
        },
{
    let rel: [(u32, u32, i32); 15] = [
        (FACTION_FACTIONLESS, FACTION_LRAK_COMBINE, REPUTATION_NEUTRAL),
        (FACTION_FACTIONLESS, FACTION_INDEPENDENT_WORLDS_ALLIANCE, REPUTATION_NEUTRAL),
        (FACTION_FACTIONLESS, FACTION_FREE_TRADE_UNION, REPUTATION_NEUTRAL),
        (FACTION_FACTIONLESS, FACTION_REDIAR_FEDERATION, REPUTATION_NEUTRAL),
        (FACTION_FACTIONLESS, FACTION_VANCELLAN, REPUTATION_HOSTILE),
        (FACTION_LRAK_COMBINE, FACTION_INDEPENDENT_WORLDS_ALLIANCE, REPUTATION_DISLIKED),
        (FACTION_LRAK_COMBINE, FACTION_FREE_TRADE_UNION, REPUTATION_DISLIKED),
        (FACTION_LRAK_COMBINE, FACTION_REDIAR_FEDERATION, REPUTATION_DISLIKED),
        (FACTION_LRAK_COMBINE, FACTION_VANCELLAN, REPUTATION_HOSTILE),
        (FACTION_INDEPENDENT_WORLDS_ALLIANCE, FACTION_FREE_TRADE_UNION, REPUTATION_DISLIKED),
        (FACTION_INDEPENDENT_WORLDS_ALLIANCE, FACTION_REDIAR_FEDERATION, REPUTATION_NEUTRAL),
        (FACTION_INDEPENDENT_WORLDS_ALLIANCE, FACTION_VANCELLAN, REPUTATION_HOSTILE),
        (FACTION_FREE_TRADE_UNION, FACTION_REDIAR_FEDERATION, REPUTATION_DISLIKED),
        (FACTION_FREE_TRADE_UNION, FACTION_VANCELLAN, REPUTATION_HOSTILE),
        (FACTION_REDIAR_FEDERATION, FACTION_VANCELLAN, REPUTATION_HOSTILE),
    ];
    assert(rel@ =~= seeded_relationships());
    let mut standings: Vec<FactionStanding> = Vec::new();
    let mut k: usize = 0;
    while k < 15
        invariant
            0 <= k <= 15,
            rel@ == seeded_relationships(),
            standings@.len() == 2 * k,
            forall|q: int| 0 <= q < k ==> {
                let (a, b, r) = #[trigger] seeded_relationships()[q];
                &&& standings@[2 * q] == (FactionStanding { from: a, to: b, reputation: r })
                &&& standings@[2 * q + 1] == (FactionStanding { from: b, to: a, reputation: r })
            },
        decreases 15 - k,
    {
        let (a, b, r) = rel[k];
        let pair = create_mutual_standing(a, b, r);
        standings.push(pair[0]);
        standings.push(pair[1]);
        k = k + 1;
    }
    standings
}

/// The seeded standings are symmetric.
pub proof fn law_seeded_standings_symmetric(standings: Seq<FactionStanding>)
    requires
        standings.len() == 2 * seeded_relationships().len(),
        forall|k: int| 0 <= k < seeded_relationships().len() ==> {
            let (a, b, r) = #[trigger] seeded_relationships()[k];
            &&& standings[2 * k] == (FactionStanding { from: a, to: b, reputation: r })
            &&& standings[2 * k + 1] == (FactionStanding { from: b, to: a, reputation: r })
        },
    ensures
        standings_symmetric(standings),
{
    assert forall|i: int| 0 <= i < standings.len() implies exists|j: int| 0 <= j < standings.len() && (#[trigger] standings[j]).from
        == (#[trigger] standings[i]).to && standings[j].to == standings[i].from && standings[j].reputation
        == standings[i].reputation by {
        let k = i / 2;
        let _ = seeded_relationships()[k];
        if i % 2 == 0 {
            assert(i == 2 * k);
            assert(standings[2 * k + 1].from == standings[i].to);
        } else {
            assert(i == 2 * k + 1);
            assert(standings[2 * k].from == standings[i].to);
        }
    }
}

/// A faction's display colour.
#[derive(Clone, Copy, Debug, PartialEq, Eq, Structural)]
pub enum FactionColor {
    Rgb(u8, u8, u8),
    Orange,
    Magenta,
    LightGray,
}

/// The display colour of a faction: Lrak red, IWA green, FTU orange, Rediar
/// blue, Vancellan magenta; unknown or colourless factions light grey.
pub fn faction_color(faction_id: u32) -> (c: FactionColor)
    ensures
        c == if faction_id == FACTION_LRAK_COMBINE {
            FactionColor::Rgb(230, 90, 90)
        } else if faction_id == FACTION_INDEPENDENT_WORLDS_ALLIANCE {
            FactionColor::Rgb(90, 230, 90)
        } else if faction_id == FACTION_FREE_TRADE_UNION {
            FactionColor::Orange
        } else if faction_id == FACTION_REDIAR_FEDERATION {
            FactionColor::Rgb(100, 150, 255)
        } else if faction_id == FACTION_VANCELLAN {
            FactionColor::Magenta
        } else {
            FactionColor::LightGray
        },
{
    if faction_id == FACTION_LRAK_COMBINE {
        FactionColor::Rgb(230, 90, 90)
    } else if faction_id == FACTION_INDEPENDENT_WORLDS_ALLIANCE {
        FactionColor::Rgb(90, 230, 90)
    } else if faction_id == FACTION_FREE_TRADE_UNION {
        FactionColor::Orange
    } else if faction_id == FACTION_REDIAR_FEDERATION {
        FactionColor::Rgb(100, 150, 255)
    } else if faction_id == FACTION_VANCELLAN {
        FactionColor::Magenta
    } else {
        FactionColor::LightGray
    }
}

} // verus!
