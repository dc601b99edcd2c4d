//! Events and records that the sessions share. Positions, angles and health
//! are IEEE 754 bit patterns: 64 bits for positions and velocities, 32 bits
//! for angles, health and damage.

use std::collections::HashMap;
use vstd::prelude::*;
use crate::float_bits::{f64_le, le, total_key, total_order_of};
use crate::world::player_store::FULL_HEALTH;

verus! {

#[derive(Clone, Copy, Debug, PartialEq, Eq, Structural)]
pub struct BlockUpdateEvent {
    pub x: i32,
    pub y: i32,
    pub z: i32,
    /// Canonical block-state number.
    pub state_id: u16,
}

#[derive(Clone, Debug)]
pub enum PlayerEvent {
    Join {
        entity_id: i32,
        uuid: u128,
        username: String,
        x: u64,
        y: u64,
        z: u64,
        yaw: u32,
        pitch: u32,
        gamemode: u8,
    },
    Move { entity_id: i32, uuid: u128, x: u64, y: u64, z: u64, yaw: u32, pitch: u32 },
    Leave { entity_id: i32, uuid: u128 },
    GamemodeChange { uuid: u128, gamemode: u8 },
    Hurt {
        entity_id: i32,
        uuid: u128,
        damage: u32,
        x: u64,
        y: u64,
        z: u64,
        attacker_x: Option<u64>,
        attacker_z: Option<u64>,
    },
}

/// A player with an open session, as the others see them.
#[derive(Clone, Debug)]
pub struct OnlinePlayer {
    pub entity_id: i32,
    pub uuid: u128,
    pub username: String,
    pub x: u64,
    pub y: u64,
    pub z: u64,
    pub yaw: u32,
    pub pitch: u32,
    pub gamemode: u8,
}

/// An entity that a command has put into the world. Times are milliseconds.
#[derive(Clone, Copy, Debug, PartialEq, Eq, Structural)]
pub struct SummonedEntity {
    pub entity_id: i32,
    pub entity_type: u16,
    pub x: u64,
    pub y: u64,
    pub z: u64,
    pub health: u32,
    pub burning: bool,
    pub last_burn_damage: u64,
}

/// Enters a new entity, in full health, under its number.
pub fn register_summoned_entity(
    entities: &mut HashMap<i32, SummonedEntity>,
    entity_id: i32,
    entity_type: u16,
    x: u64,
    y: u64,
    z: u64,
    now: u64,
)
    ensures
        final(entities)@ == old(entities)@.insert(
            entity_id,
            SummonedEntity {
                entity_id,
                entity_type,
                x,
                y,
                z,
                health: FULL_HEALTH,
                burning: false,
                last_burn_damage: now,
            },
        ),
{
    entities.insert(
        entity_id,
        SummonedEntity {
            entity_id,
            entity_type,
            x,
            y,
            z,
            health: FULL_HEALTH,
            burning: false,
            last_burn_damage: now,
        },
    );
}

#[derive(Clone, Copy, Debug, PartialEq, Eq, Structural)]
pub enum SummonedEntityEvent {
    Burning { entity_id: i32, burning: bool },
    Hurt { entity_id: i32 },
    Remove { entity_id: i32 },
}

#[derive(Clone, Copy, Debug, PartialEq, Eq, Structural)]
pub enum ConsoleCommand {
    OperatorLevel { uuid: u128, level: u8 },
    Kill { uuid: u128 },
    Gamemode { uuid: u128, gamemode: u8 },
    Summon { entity_id: i32, entity_type: u16, x: u64, y: u64, z: u64 },
}

/// 0.05
pub const FLY_SPEED: u32 = 0x3d4c_cccd;

/// The ability flags of a game mode: creative players cannot be hurt, may fly
/// and break blocks at once; spectators fly.
pub open spec fn ability_flags(gamemode: u8) -> i8 {
    if gamemode == 1 {
        13
    } else if gamemode == 3 {
        6
    } else {
        0
    }
}

/// The ability flags of a game mode, and the flying speed.
pub fn gamemode_abilities(gamemode: u8) -> (r: (i8, u32))
    ensures
        r.0 == ability_flags(gamemode),
        r.1 == FLY_SPEED,
{
    match gamemode {
        1 => (13, FLY_SPEED),
        3 => (6, FLY_SPEED),
        _ => (0, FLY_SPEED),
    }
}

#[derive(Clone, Copy, Debug, PartialEq, Eq, Structural)]
pub enum ItemEvent {
    Spawn {
        entity_id: i32,
        item_id: u16,
        count: u8,
        x: u64,
        y: u64,
        z: u64,
        vx: u64,
        vy: u64,
        vz: u64,
    },
    Pickup { item_entity_id: i32, player_entity_id: i32, count: u8 },
}

/// A stack that lies in the world. The time is in milliseconds.
#[derive(Clone, Copy, Debug, PartialEq, Eq, Structural)]
pub struct DroppedItem {
    pub entity_id: i32,
    pub item_id: u16,
    pub count: u8,
    pub x: u64,
    pub y: u64,
    pub z: u64,
    pub spawned_at: u64,
}

/// Puts a stack into the world under a new number; gives the event that tells
/// the sessions.
pub fn spawn_dropped_item(
    items: &mut HashMap<i32, DroppedItem>,
    item: DroppedItem,
    vx: u64,
    vy: u64,
    vz: u64,
) -> (r: ItemEvent)
    ensures
        final(items)@ == old(items)@.insert(item.entity_id, item),
        r == (ItemEvent::Spawn {
            entity_id: item.entity_id,
            item_id: item.item_id,
            count: item.count,
            x: item.x,
            y: item.y,
            z: item.z,
            vx,
            vy,
            vz,
        }),
{
    items.insert(item.entity_id, item);
    ItemEvent::Spawn {
        entity_id: item.entity_id,
        item_id: item.item_id,
        count: item.count,
        x: item.x,
        y: item.y,
        z: item.z,
        vx,
        vy,
        vz,
    }
}

/// How long a stack has to lie before it can be picked up.
pub const PICKUP_DELAY: u64 = 500;

/// 2.25, the square of the reach.
pub const PICKUP_RADIUS_SQUARED: u64 = 0x4002_0000_0000_0000;

/// Whether a stack at the given squared distance can be picked up.
pub open spec fn claimable(
    items: Map<i32, DroppedItem>,
    candidate: (i32, u64),
    now: u64,
) -> bool {
    &&& items.dom().contains(candidate.0)
    &&& now - items[candidate.0].spawned_at >= PICKUP_DELAY
    &&& f64_le(candidate.1, PICKUP_RADIUS_SQUARED)
}

/// Whether a claim gives `r` and leaves the stacks as `after`: one of the nearest
/// that can be picked up leaves the world, if there is any.
pub open spec fn claim_done(
    items: Map<i32, DroppedItem>,
    after: Map<i32, DroppedItem>,
    candidates: Seq<(i32, u64)>,
    now: u64,
    r: Option<DroppedItem>,
) -> bool {
    match r {
        None => after == items && forall|i: int|
            0 <= i < candidates.len() ==> !claimable(items, #[trigger] candidates[i], now),
        Some(item) => exists|i: int|
            #![trigger candidates[i]]
            0 <= i < candidates.len() && claimable(items, candidates[i], now) && item
                == items[candidates[i].0] && after == items.remove(candidates[i].0) && forall|
                j: int,
            |
                0 <= j < candidates.len() && claimable(items, #[trigger] candidates[j], now)
                    ==> total_key(candidates[i].1) <= total_key(candidates[j].1),
    }
}

/// Takes the nearest stack that can be picked up out of the world.
/// `candidates` gives the squared distance of each stack, as a bit pattern.
pub fn claim_nearby_dropped_item(
    items: &mut HashMap<i32, DroppedItem>,
    candidates: &[(i32, u64)],
    now: u64,
) -> (r: Option<DroppedItem>)
    ensures
        claim_done(old(items)@, final(items)@, candidates@, now, r),
{
    let mut best: Option<usize> = None;
    let mut i: usize = 0;
    while i < candidates.len()
        invariant
            i <= candidates.len(),
            items@ == old(items)@,
            best is None ==> forall|j: int|
                0 <= j < i ==> !claimable(items@, #[trigger] candidates@[j], now),
            best matches Some(b) ==> b < i && claimable(items@, candidates@[b as int], now)
                && forall|j: int|
                0 <= j < i && claimable(items@, #[trigger] candidates@[j], now) ==> total_key(
                    candidates@[b as int].1,
                ) <= total_key(candidates@[j].1),
        decreases candidates.len() - i,
    {
        let (id, distance) = candidates[i];
        let ripe = match items.get(&id) {
            Some(item) => now >= item.spawned_at && now - item.spawned_at >= PICKUP_DELAY,
            None => false,
        };
        if ripe && le(distance, PICKUP_RADIUS_SQUARED) {
            assert(claimable(items@, candidates@[i as int], now));
            match best {
                None => {
                    best = Some(i);
                },
                Some(b) => {
                    if total_order_of(distance) < total_order_of(candidates[b].1) {
                        best = Some(i);
                    }
                },
            }
        }
        i += 1;
    }
    match best {
        None => None,
        Some(b) => {
            let id: i32 = candidates[b].0;
            assert(claimable(old(items)@, candidates@[b as int], now));
            items.remove(&id)
        },
    }
}

/// Puts a claimed stack back.
pub fn restore_dropped_item(items: &mut HashMap<i32, DroppedItem>, item: DroppedItem)
    ensures
        final(items)@ == old(items)@.insert(item.entity_id, item),
{
    items.insert(item.entity_id, item);
}

/// Whether a stack has lain long enough and is in reach, at its distance.
pub open spec fn eligible(
    item: DroppedItem,
    distance: spec_fn(DroppedItem) -> u64,
    now: u64,
) -> bool {
    now - item.spawned_at >= PICKUP_DELAY && f64_le(distance(item), PICKUP_RADIUS_SQUARED)
}

/// Whether the candidates are all the stacks, each at its distance, and each
/// stack is kept under its own number.
pub open spec fn all_measured(
    items: Map<i32, DroppedItem>,
    candidates: Seq<(i32, u64)>,
    distance: spec_fn(DroppedItem) -> u64,
) -> bool {
    &&& forall|id: i32| #[trigger]
        items.dom().contains(id) ==> items[id].entity_id == id && candidates.contains(
            (id, distance(items[id])),
        )
    &&& forall|i: int|
        0 <= i < candidates.len() && items.dom().contains((#[trigger] candidates[i]).0)
            ==> candidates[i].1 == distance(items[candidates[i].0])
}

/// Where every stack is measured, a claim fails only if none can be picked up,
/// and then changes nothing. Else it takes one that can be, none of which is
/// nearer, and leaves all others; putting it back undoes the claim.
pub proof fn law_nearest_stack_is_claimed(
    items: Map<i32, DroppedItem>,
    after: Map<i32, DroppedItem>,
    candidates: Seq<(i32, u64)>,
    distance: spec_fn(DroppedItem) -> u64,
    now: u64,
    r: Option<DroppedItem>,
)
    requires
        all_measured(items, candidates, distance),
        claim_done(items, after, candidates, now, r),
    ensures
        r is None <==> forall|id: i32| #[trigger]
            items.dom().contains(id) ==> !eligible(items[id], distance, now),
        r is None ==> after == items,
        r matches Some(item) ==> {
            &&& items.dom().contains(item.entity_id)
            &&& item == items[item.entity_id]
            &&& eligible(item, distance, now)
            &&& forall|id: i32| #[trigger]
                items.dom().contains(id) && eligible(items[id], distance, now) ==> total_key(
                    distance(item),
                ) <= total_key(distance(items[id]))
            &&& after == items.remove(item.entity_id)
            &&& after.insert(item.entity_id, item) == items
        },
{
    assert forall|id: i32| #[trigger]
        items.dom().contains(id) && eligible(items[id], distance, now) implies exists|k: int|
        0 <= k < candidates.len() && #[trigger] candidates[k] == (id, distance(items[id]))
            && claimable(items, candidates[k], now) by {
        let k = choose|k: int|
            0 <= k < candidates.len() && candidates[k] == (id, distance(items[id]));
        assert(claimable(items, candidates[k], now));
    }
    match r {
        Some(item) => {
            let i = choose|i: int|
                #![trigger candidates[i]]
                0 <= i < candidates.len() && claimable(items, candidates[i], now) && item
                    == items[candidates[i].0] && after == items.remove(candidates[i].0) && forall|
                    j: int,
                |
                    0 <= j < candidates.len() && claimable(items, #[trigger] candidates[j], now)
                        ==> total_key(candidates[i].1) <= total_key(candidates[j].1);
            let id = candidates[i].0;
            assert(items.dom().contains(id) && item.entity_id == id);
            law_restoring_undoes_a_claim(items, id);
        },
        None => {},
    }
}

/// A claimed stack that is put back leaves the world as it was, where each
/// stack is kept under its own number.
pub proof fn law_restoring_undoes_a_claim(items: Map<i32, DroppedItem>, id: i32)
    requires
        items.dom().contains(id),
        items[id].entity_id == id,
    ensures
        items.remove(id).insert(items[id].entity_id, items[id]) == items,
{
    assert(items.remove(id).insert(id, items[id]) =~= items);
}

} // verus!
