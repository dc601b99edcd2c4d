//! Player data as it is stored: the key, the record, and what of it lasts.

use vstd::arithmetic::div_mod::lemma_div_denominator;
use vstd::prelude::*;
use vstd::string::StringExecFns;
use crate::number::{hex_fixed, hex_limit, lemma_hex_fixed_injective, lemma_hex_fixed_len};
use crate::record::{bytes_form, le_bytes, list_form};

verus! {

/// 70.0
pub const SPAWN_Y: u64 = 0x4051_8000_0000_0000;

/// 20.0
pub const FULL_HEALTH: u32 = 0x41a0_0000;

pub const INVENTORY_SLOTS: usize = 46;

/// What is kept of a player. Positions, angles and health are IEEE 754 bit
/// patterns.
#[derive(Clone, Debug)]
pub struct PlayerData {
    pub x: u64,
    pub y: u64,
    pub z: u64,
    pub yaw: u32,
    pub pitch: u32,
    /// 0 is survival, 1 creative, 2 adventure, 3 spectator.
    pub gamemode: u8,
    pub inventory: Vec<Vec<u8>>,
    /// The stack on the cursor; never stored.
    pub carried_item: Vec<u8>,
    pub highest_y: u64,
    pub held_slot: u8,
    pub health: u32,
    /// The permission level of the session; never stored.
    pub operator_level: u8,
}

/// Player data as values.
#[verifier::ext_equal]
pub struct PlayerView {
    pub x: u64,
    pub y: u64,
    pub z: u64,
    pub yaw: u32,
    pub pitch: u32,
    pub gamemode: u8,
    pub inventory: Seq<Seq<u8>>,
    pub carried_item: Seq<u8>,
    pub highest_y: u64,
    pub held_slot: u8,
    pub health: u32,
    pub operator_level: u8,
}

/// The contents of a list of byte vectors.
pub open spec fn byte_lists(v: Seq<Vec<u8>>) -> Seq<Seq<u8>> {
    Seq::new(v.len(), |i: int| v[i]@)
}

impl View for PlayerData {
    type V = PlayerView;

    open spec fn view(&self) -> PlayerView {
        PlayerView {
            x: self.x,
            y: self.y,
            z: self.z,
            yaw: self.yaw,
            pitch: self.pitch,
            gamemode: self.gamemode,
            inventory: byte_lists(self.inventory@),
            carried_item: self.carried_item@,
            highest_y: self.highest_y,
            held_slot: self.held_slot,
            health: self.health,
            operator_level: self.operator_level,
        }
    }
}

/// An inventory whose slots are all empty.
pub open spec fn empty_inventory() -> Seq<Seq<u8>> {
    Seq::new(INVENTORY_SLOTS as nat, |i: int| Seq::<u8>::empty())
}

/// A player who is new: in survival, at the spawn, with nothing.
pub open spec fn new_player() -> PlayerView {
    PlayerView {
        x: 0,
        y: SPAWN_Y,
        z: 0,
        yaw: 0,
        pitch: 0,
        gamemode: 0,
        inventory: empty_inventory(),
        carried_item: Seq::empty(),
        highest_y: SPAWN_Y,
        held_slot: 0,
        health: FULL_HEALTH,
        operator_level: 0,
    }
}

pub fn cleared_inventory() -> (v: Vec<Vec<u8>>)
    ensures
        byte_lists(v@) == empty_inventory(),
{
    let mut v: Vec<Vec<u8>> = Vec::new();
    let mut i: usize = 0;
    while i < INVENTORY_SLOTS
        invariant
            i <= INVENTORY_SLOTS,
            v@.len() == i,
            forall|k: int| 0 <= k < i ==> #[trigger] v@[k]@ == Seq::<u8>::empty(),
        decreases INVENTORY_SLOTS - i,
    {
        v.push(Vec::new());
        i += 1;
    }
    assert(byte_lists(v@) =~= empty_inventory());
    v
}

impl Default for PlayerData {
    fn default() -> (p: Self)
        ensures
            p@ == new_player(),
    {
        PlayerData {
            x: 0,
            y: SPAWN_Y,
            z: 0,
            yaw: 0,
            pitch: 0,
            gamemode: 0,
            inventory: cleared_inventory(),
            carried_item: Vec::new(),
            highest_y: SPAWN_Y,
            held_slot: 0,
            health: FULL_HEALTH,
            operator_level: 0,
        }
    }
}

/// What a player record holds: position, angles, game mode, inventory, the
/// highest point of a fall, the held slot and the health.
pub type PlayerRecord = (u64, u64, u64, u32, u32, u8, Seq<Seq<u8>>, u64, u8, u32);

/// The bytes of a player record: its fields one behind the other, bit patterns
/// with the least significant byte first.
pub open spec fn player_record_bytes(r: PlayerRecord) -> Seq<u8> {
    le_bytes(r.0 as nat, 8) + le_bytes(r.1 as nat, 8) + le_bytes(r.2 as nat, 8) + le_bytes(
        r.3 as nat,
        4,
    ) + le_bytes(r.4 as nat, 4) + seq![r.5] + list_form(r.6, |slot: Seq<u8>| bytes_form(slot))
        + le_bytes(r.7 as nat, 8) + seq![r.8] + le_bytes(r.9 as nat, 4)
}

/// The player record that bytes in the postcard format hold.
pub uninterp spec fn player_record_value(bytes: Seq<u8>) -> Option<PlayerRecord>;

/// What is stored of a player.
pub open spec fn record_of(p: PlayerView) -> PlayerRecord {
    (
        p.x,
        p.y,
        p.z,
        p.yaw,
        p.pitch,
        p.gamemode,
        p.inventory,
        p.highest_y,
        p.held_slot,
        p.health,
    )
}

/// The player that a record describes. The cursor is empty and there are no
/// permissions: neither is stored.
pub open spec fn player_of(r: PlayerRecord) -> PlayerView {
    PlayerView {
        x: r.0,
        y: r.1,
        z: r.2,
        yaw: r.3,
        pitch: r.4,
        gamemode: r.5,
        inventory: r.6,
        carried_item: Seq::empty(),
        highest_y: r.7,
        held_slot: r.8,
        health: r.9,
        operator_level: 0,
    }
}

/// `postcard::to_allocvec` encodes the stored fields one behind the other:
/// single bytes and arrays of bytes as they are, and lists behind their length.
/// It has nothing to fail on with these, and the bytes decode to the same
/// fields.
#[verifier::external_body]
fn player_record_encode(p: &PlayerData) -> (r: Option<Vec<u8>>)
    ensures
        r is Some,
        r->0@ == player_record_bytes(record_of(p@)),
        player_record_value(r->0@) == Some(record_of(p@)),
{
    let position = (p.x.to_le_bytes(), p.y.to_le_bytes(), p.z.to_le_bytes());
    let angles = (p.yaw.to_le_bytes(), p.pitch.to_le_bytes());
    let highest_y = p.highest_y.to_le_bytes();
    let health = p.health.to_le_bytes();
    let record = (position, angles, p.gamemode, &p.inventory, highest_y, p.held_slot, health);
    postcard::to_allocvec(&record).ok()
}

/// A player record as it is decoded.
pub type RecordFields = (u64, u64, u64, u32, u32, u8, Vec<Vec<u8>>, u64, u8, u32);

/// The stored fields, with numbers as their little-endian bytes.
type StoredRecord = (
    ([u8; 8], [u8; 8], [u8; 8]),
    ([u8; 4], [u8; 4]),
    u8,
    Vec<Vec<u8>>,
    [u8; 8],
    u8,
    [u8; 4],
);

/// `postcard::from_bytes` decodes the stored fields, or fails.
#[verifier::external_body]
fn player_record_decode(bytes: &[u8]) -> (r: Option<RecordFields>)
    ensures
        (match r {
            Some(f) => Some(
                (f.0, f.1, f.2, f.3, f.4, f.5, byte_lists(f.6@), f.7, f.8, f.9),
            ),
            None => None,
        }) == player_record_value(bytes@),
{
    let record: StoredRecord = postcard::from_bytes(bytes).ok()?;
    let (p, a, gamemode, inventory, high, held_slot, health) = record;
    let (x, y, z) = (u64::from_le_bytes(p.0), u64::from_le_bytes(p.1), u64::from_le_bytes(p.2));
    let (yaw, pitch) = (u32::from_le_bytes(a.0), u32::from_le_bytes(a.1));
    let (high, health) = (u64::from_le_bytes(high), u32::from_le_bytes(health));
    Some((x, y, z, yaw, pitch, gamemode, inventory, high, held_slot, health))
}

/// A UUID as text: 32 lower case hexadecimal digits in groups of 8, 4, 4, 4
/// and 12 with hyphens between them.
pub open spec fn hyphenated(id: u128) -> Seq<char> {
    let n = id as nat;
    hex_fixed(n / 0x1_0000_0000_0000_0000_0000_0000, 8) + "-"@ + hex_fixed(
        n / 0x1_0000_0000_0000_0000_0000,
        4,
    ) + "-"@ + hex_fixed(n / 0x1_0000_0000_0000_0000, 4) + "-"@ + hex_fixed(
        n / 0x1_0000_0000_0000,
        4,
    ) + "-"@ + hex_fixed(n, 12)
}

/// `uuid::Uuid` prints as hyphenated lower case text.
#[verifier::external_body]
pub(crate) fn uuid_text(id: u128) -> (s: String)
    ensures
        s@ == hyphenated(id),
{
    uuid::Uuid::from_u128(id).to_string()
}

/// The text under which a player is stored.
pub fn player_key(uuid: u128) -> (s: String)
    ensures
        s@ == "player:"@ + hyphenated(uuid),
{
    let mut s = "player:".to_owned();
    let text = uuid_text(uuid);
    s.append(text.as_str());
    s
}

/// What is stored of a player: the key and the record.
pub fn save_player(uuid: u128, data: &PlayerData) -> (r: (String, Option<Vec<u8>>))
    ensures
        r.0@ == "player:"@ + hyphenated(uuid),
        r.1 is Some,
        r.1->0@ == player_record_bytes(record_of(data@)),
        player_record_value(r.1->0@) == Some(record_of(data@)),
        loaded(Some(r.1->0@)) == player_of(record_of(data@)),
{
    (player_key(uuid), player_record_encode(data))
}

/// The player that stored bytes describe; a new one where nothing is stored or
/// it cannot be read.
pub open spec fn loaded(stored: Option<Seq<u8>>) -> PlayerView {
    match stored {
        Some(bytes) => match player_record_value(bytes) {
            Some(record) => player_of(record),
            None => new_player(),
        },
        None => new_player(),
    }
}

pub fn load_player(stored: Option<&[u8]>) -> (p: PlayerData)
    ensures
        p@ == loaded(
            match stored {
                Some(bytes) => Some(bytes@),
                None => None,
            },
        ),
{
    match stored {
        Some(bytes) => match player_record_decode(bytes) {
            Some(fields) => player_from_fields(fields),
            None => PlayerData::default(),
        },
        None => PlayerData::default(),
    }
}

/// The player that decoded fields describe.
pub fn player_from_fields(f: RecordFields) -> (p: PlayerData)
    ensures
        p@ == player_of((f.0, f.1, f.2, f.3, f.4, f.5, byte_lists(f.6@), f.7, f.8, f.9)),
{
    let (x, y, z, yaw, pitch, gamemode, inventory, highest_y, held_slot, health) = f;
    PlayerData {
        x,
        y,
        z,
        yaw,
        pitch,
        gamemode,
        inventory,
        carried_item: Vec::new(),
        highest_y,
        held_slot,
        health,
        operator_level: 0,
    }
}

/// Everything about a player lasts from one session to the next, except the
/// stack on the cursor and the permission level.
pub proof fn law_saved_player_is_loaded(p: PlayerView, bytes: Seq<u8>)
    requires
        player_record_value(bytes) == Some(record_of(p)),
    ensures
        loaded(Some(bytes)) == (PlayerView {
            carried_item: Seq::empty(),
            operator_level: 0,
            ..p
        }),
{
}

/// Different players are stored under different keys.
pub proof fn law_player_keys_differ(a: u128, b: u128)
    requires
        "player:"@ + hyphenated(a) == "player:"@ + hyphenated(b),
    ensures
        a == b,
{
    reveal_strlit("player:");
    reveal_strlit("-");
    let ta = hyphenated(a);
    let tb = hyphenated(b);
    assert(("player:"@ + ta).skip(7) =~= ta);
    assert(("player:"@ + tb).skip(7) =~= tb);
    lemma_hyphenated_parts(a);
    lemma_hyphenated_parts(b);
    let na = a as nat;
    let nb = b as nat;
    lemma_hex_fixed_injective(
        na / 0x1_0000_0000_0000_0000_0000_0000,
        nb / 0x1_0000_0000_0000_0000_0000_0000,
        8,
    );
    lemma_hex_fixed_injective(
        na / 0x1_0000_0000_0000_0000_0000,
        nb / 0x1_0000_0000_0000_0000_0000,
        4,
    );
    lemma_hex_fixed_injective(na / 0x1_0000_0000_0000_0000, nb / 0x1_0000_0000_0000_0000, 4);
    lemma_hex_fixed_injective(na / 0x1_0000_0000_0000, nb / 0x1_0000_0000_0000, 4);
    lemma_hex_fixed_injective(na, nb, 12);
    reveal_with_fuel(hex_limit, 13);
    assert(hex_limit(4) == 0x1_0000);
    assert(hex_limit(8) == 0x1_0000_0000);
    assert(hex_limit(12) == 0x1_0000_0000_0000);
    lemma_groups_determine(a);
    lemma_groups_determine(b);
}

/// The groups of a hyphenated text, by their places.
proof fn lemma_hyphenated_parts(id: u128)
    ensures
        ({
            let t = hyphenated(id);
            let n = id as nat;
            &&& t.subrange(0, 8) == hex_fixed(n / 0x1_0000_0000_0000_0000_0000_0000, 8)
            &&& t.subrange(9, 13) == hex_fixed(n / 0x1_0000_0000_0000_0000_0000, 4)
            &&& t.subrange(14, 18) == hex_fixed(n / 0x1_0000_0000_0000_0000, 4)
            &&& t.subrange(19, 23) == hex_fixed(n / 0x1_0000_0000_0000, 4)
            &&& t.subrange(24, 36) == hex_fixed(n, 12)
        }),
{
    reveal_strlit("-");
    let t = hyphenated(id);
    let n = id as nat;
    lemma_hex_fixed_len(n / 0x1_0000_0000_0000_0000_0000_0000, 8);
    lemma_hex_fixed_len(n / 0x1_0000_0000_0000_0000_0000, 4);
    lemma_hex_fixed_len(n / 0x1_0000_0000_0000_0000, 4);
    lemma_hex_fixed_len(n / 0x1_0000_0000_0000, 4);
    lemma_hex_fixed_len(n, 12);
    assert(t.subrange(0, 8) =~= hex_fixed(n / 0x1_0000_0000_0000_0000_0000_0000, 8));
    assert(t.subrange(9, 13) =~= hex_fixed(n / 0x1_0000_0000_0000_0000_0000, 4));
    assert(t.subrange(14, 18) =~= hex_fixed(n / 0x1_0000_0000_0000_0000, 4));
    assert(t.subrange(19, 23) =~= hex_fixed(n / 0x1_0000_0000_0000, 4));
    assert(t.subrange(24, 36) =~= hex_fixed(n, 12));
}

/// A 128-bit number is the sum of its five groups of bits.
proof fn lemma_groups_determine(id: u128)
    ensures
        id as nat == ((id as nat / 0x1_0000_0000_0000_0000_0000_0000) % 0x1_0000_0000)
            * 0x1_0000_0000_0000_0000_0000_0000 + ((id as nat / 0x1_0000_0000_0000_0000_0000)
            % 0x1_0000) * 0x1_0000_0000_0000_0000_0000 + ((id as nat / 0x1_0000_0000_0000_0000)
            % 0x1_0000) * 0x1_0000_0000_0000_0000 + ((id as nat / 0x1_0000_0000_0000) % 0x1_0000)
            * 0x1_0000_0000_0000 + id as nat % 0x1_0000_0000_0000,
{
    let n = id as int;
    let q1 = n / 0x1_0000_0000_0000;
    let q2 = q1 / 0x1_0000;
    let q3 = q2 / 0x1_0000;
    let q4 = q3 / 0x1_0000;
    lemma_div_denominator(n, 0x1_0000_0000_0000, 0x1_0000);
    assert(q2 == n / 0x1_0000_0000_0000_0000);
    lemma_div_denominator(n, 0x1_0000_0000_0000_0000, 0x1_0000);
    assert(q3 == n / 0x1_0000_0000_0000_0000_0000);
    lemma_div_denominator(n, 0x1_0000_0000_0000_0000_0000, 0x1_0000);
    assert(q4 == n / 0x1_0000_0000_0000_0000_0000_0000);
    assert(n == q1 * 0x1_0000_0000_0000 + n % 0x1_0000_0000_0000);
    assert(q1 == q2 * 0x1_0000 + q1 % 0x1_0000);
    assert(q2 == q3 * 0x1_0000 + q2 % 0x1_0000);
    assert(q3 == q4 * 0x1_0000 + q3 % 0x1_0000);
    assert(0 <= q4 < 0x1_0000_0000);
    assert(q4 % 0x1_0000_0000 == q4);
}

} // verus!
