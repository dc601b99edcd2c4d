//! Placing and digging blocks, and the list of blocks that differ from the
//! generated world.

use vstd::prelude::*;
use vstd::string::StringExecFns;
use crate::number::{lemma_signed_decimal_chars, lemma_signed_decimal_injective, push_signed_decimal, signed_decimal};
use crate::record::{list_form, number_form, signed_form};
use crate::systems::commands::GameMode;
use crate::text::lemma_split_unique;
use crate::world::grid::{chunk_coord, chunk_of};
use crate::world::storage::bytes_of;

verus! {

/// A position and the block state that stands there.
pub type Override = ((i32, i32, i32), u16);

/// The bytes of a list of overrides.
pub open spec fn overrides_bytes(overrides: Seq<Override>) -> Seq<u8> {
    list_form(
        overrides,
        |o: Override|
            signed_form(o.0.0 as int) + signed_form(o.0.1 as int) + signed_form(o.0.2 as int)
                + number_form(o.1 as nat),
    )
}

/// The list of overrides that bytes in the postcard format hold.
pub uninterp spec fn overrides_value(bytes: Seq<u8>) -> Option<Seq<((i32, i32, i32), u16)>>;

/// `postcard::to_allocvec` encodes a list of overrides behind its length, with
/// integers of variable length. It has nothing to fail on with these, and the
/// bytes decode to the same list.
#[verifier::external_body]
fn overrides_encode(overrides: &Vec<((i32, i32, i32), u16)>) -> (r: Option<Vec<u8>>)
    ensures
        bytes_of(r) == Some(overrides_bytes(overrides@)),
        overrides_value(r->0@) == Some(overrides@),
{
    postcard::to_allocvec(overrides).ok()
}

/// `postcard::from_bytes` decodes a list of overrides, or fails.
#[verifier::external_body]
fn overrides_decode(bytes: &[u8]) -> (r: Option<Vec<((i32, i32, i32), u16)>>)
    ensures
        (match r {
            Some(v) => Some(v@),
            None => None,
        }) == overrides_value(bytes@),
{
    postcard::from_bytes(bytes).ok()
}

/// The list without the entries of a position.
pub open spec fn without_position(s: Seq<Override>, p: (i32, i32, i32)) -> Seq<Override>
    decreases s.len(),
{
    if s.len() == 0 {
        Seq::empty()
    } else if s.last().0 == p {
        without_position(s.drop_last(), p)
    } else {
        without_position(s.drop_last(), p).push(s.last())
    }
}

/// The list after a block was set: the position has one entry, the last.
pub open spec fn with_override(s: Seq<Override>, p: (i32, i32, i32), state: u16) -> Seq<Override> {
    without_position(s, p).push((p, state))
}

/// Sets a block in a list of overrides.
pub fn set_override(overrides: &Vec<Override>, position: (i32, i32, i32), state: u16) -> (r: Vec<
    Override,
>)
    ensures
        r@ == with_override(overrides@, position, state),
{
    let ghost s = overrides@;
    let mut kept: Vec<Override> = Vec::new();
    let mut i: usize = 0;
    assert(s.take(0) =~= Seq::<Override>::empty());
    while i < overrides.len()
        invariant
            i <= overrides.len(),
            s == overrides@,
            kept@ == without_position(s.take(i as int), position),
        decreases overrides.len() - i,
    {
        assert(s.take(i + 1).drop_last() =~= s.take(i as int));
        assert(s.take(i + 1).last() == s[i as int]);
        let entry = overrides[i];
        let (x, y, z) = entry.0;
        if x != position.0 || y != position.1 || z != position.2 {
            kept.push(entry);
        }
        i += 1;
    }
    assert(s.take(i as int) =~= s);
    kept.push((position, state));
    kept
}

/// The state that a list gives a position: that of its last entry.
pub open spec fn override_at(s: Seq<Override>, p: (i32, i32, i32)) -> Option<u16>
    decreases s.len(),
{
    if s.len() == 0 {
        None
    } else if s.last().0 == p {
        Some(s.last().1)
    } else {
        override_at(s.drop_last(), p)
    }
}

/// A block that is set has its new state, and every other block keeps its own.
pub proof fn law_override_sets_one_block(
    s: Seq<Override>,
    p: (i32, i32, i32),
    state: u16,
    other: (i32, i32, i32),
)
    ensures
        override_at(with_override(s, p, state), p) == Some(state),
        other != p ==> override_at(with_override(s, p, state), other) == override_at(s, other),
{
    let kept = without_position(s, p);
    assert(kept.push((p, state)).drop_last() =~= kept);
    if other != p {
        lemma_others_kept(s, p, other);
    }
}

proof fn lemma_others_kept(s: Seq<Override>, p: (i32, i32, i32), other: (i32, i32, i32))
    requires
        other != p,
    ensures
        override_at(without_position(s, p), other) == override_at(s, other),
    decreases s.len(),
{
    if s.len() > 0 {
        let kept = without_position(s.drop_last(), p);
        lemma_others_kept(s.drop_last(), p, other);
        assert(kept.push(s.last()).drop_last() =~= kept);
    }
}

/// The text under which the overrides of a chunk are stored.
pub open spec fn overrides_key_text(chunk_x: int, chunk_z: int) -> Seq<char> {
    "c_"@ + (signed_decimal(chunk_x) + "_"@ + signed_decimal(chunk_z))
}

fn overrides_key(chunk_x: i32, chunk_z: i32) -> (s: String)
    ensures
        s@ == overrides_key_text(chunk_x as int, chunk_z as int),
{
    let mut s = "c_".to_owned();
    push_signed_decimal(&mut s, chunk_x as i64);
    s.append("_");
    push_signed_decimal(&mut s, chunk_z as i64);
    assert(s@ =~= overrides_key_text(chunk_x as int, chunk_z as int));
    s
}

/// The overrides of different chunks are stored under different keys.
pub proof fn law_override_keys_differ(x1: int, z1: int, x2: int, z2: int)
    requires
        overrides_key_text(x1, z1) == overrides_key_text(x2, z2),
    ensures
        x1 == x2,
        z1 == z2,
{
    reveal_strlit("c_");
    reveal_strlit("_");
    assert("_"@ =~= seq!['_']);
    let a = overrides_key_text(x1, z1);
    let b = overrides_key_text(x2, z2);
    assert(a.skip(2) =~= signed_decimal(x1) + "_"@ + signed_decimal(z1));
    assert(b.skip(2) =~= signed_decimal(x2) + "_"@ + signed_decimal(z2));
    lemma_signed_decimal_chars(x1);
    lemma_signed_decimal_chars(x2);
    lemma_split_unique(
        signed_decimal(x1),
        signed_decimal(z1),
        signed_decimal(x2),
        signed_decimal(z2),
        '_',
    );
    lemma_signed_decimal_injective(x1, x2);
    lemma_signed_decimal_injective(z1, z2);
}

/// The overrides that stored bytes hold; none where nothing is stored or it
/// cannot be read.
pub open spec fn stored_overrides(stored: Option<Seq<u8>>) -> Seq<Override> {
    match stored {
        Some(bytes) => match overrides_value(bytes) {
            Some(s) => s,
            None => Seq::empty(),
        },
        None => Seq::empty(),
    }
}

/// The key of a chunk's overrides, for looking up what is stored.
pub fn override_key_at(x: i32, z: i32) -> (s: String)
    ensures
        s@ == overrides_key_text(chunk_of(x as int), chunk_of(z as int)),
{
    overrides_key(chunk_coord(x), chunk_coord(z))
}

/// What has to be stored once a block is set: the key of its chunk, and the
/// overrides with the block's new state. `stored` is what that key holds so
/// far.
pub fn store_override(stored: Option<&[u8]>, position: (i32, i32, i32), state: u16) -> (r: (
    String,
    Option<Vec<u8>>,
))
    ensures
        r.0@ == overrides_key_text(chunk_of(position.0 as int), chunk_of(position.2 as int)),
        ({
            let after = with_override(
                stored_overrides(
                    match stored {
                        Some(bytes) => Some(bytes@),
                        None => None,
                    },
                ),
                position,
                state,
            );
            &&& bytes_of(r.1) == Some(overrides_bytes(after))
            &&& stored_overrides(bytes_of(r.1)) == after
        }),
{
    let key = override_key_at(position.0, position.2);
    let overrides: Vec<Override> = match stored {
        Some(bytes) => match overrides_decode(bytes) {
            Some(existing) => existing,
            None => Vec::new(),
        },
        None => Vec::new(),
    };
    let after = set_override(&overrides, position, state);
    (key, overrides_encode(&after))
}

/// The side of a block.
#[derive(Clone, Copy, Debug, PartialEq, Eq, Structural)]
pub enum Face {
    Down,
    Up,
    North,
    South,
    West,
    East,
}

/// The step from a block to the one at a face.
pub open spec fn step(face: Face) -> (int, int, int) {
    match face {
        Face::Down => (0, -1, 0),
        Face::Up => (0, 1, 0),
        Face::North => (0, 0, -1),
        Face::South => (0, 0, 1),
        Face::West => (-1, 0, 0),
        Face::East => (1, 0, 0),
    }
}

pub open spec fn is_i32(i: int) -> bool {
    i32::MIN <= i <= i32::MAX
}

/// The position next to a block at one of its faces.
pub fn next_position(position: (i32, i32, i32), face: Face) -> (r: (i32, i32, i32))
    requires
        is_i32(position.0 + step(face).0),
        is_i32(position.1 + step(face).1),
        is_i32(position.2 + step(face).2),
    ensures
        r.0 == position.0 + step(face).0,
        r.1 == position.1 + step(face).1,
        r.2 == position.2 + step(face).2,
{
    let (x, y, z) = position;
    match face {
        Face::Down => (x, y - 1, z),
        Face::Up => (x, y + 1, z),
        Face::North => (x, y, z - 1),
        Face::South => (x, y, z + 1),
        Face::West => (x - 1, y, z),
        Face::East => (x + 1, y, z),
    }
}

/// What is set when an item is used on the face of a block: the block of the
/// item at that face, and nothing where the item is no block.
pub open spec fn placed(position: (i32, i32, i32), face: Face, block: Option<u16>) -> Option<
    Override,
> {
    match block {
        Some(state) => Some(
            (
                (
                    (position.0 + step(face).0) as i32,
                    (position.1 + step(face).1) as i32,
                    (position.2 + step(face).2) as i32,
                ),
                state,
            ),
        ),
        None => None,
    }
}

/// What follows when a player uses an item on the face of a block: the block
/// of the item is set at that face; nothing where the item is no block.
pub fn place_block(position: (i32, i32, i32), face: Face, block: Option<u16>) -> (r: Option<
    Override,
>)
    requires
        block is Some ==> is_i32(position.0 + step(face).0) && is_i32(position.1 + step(face).1)
            && is_i32(position.2 + step(face).2),
    ensures
        r == placed(position, face, block),
{
    match block {
        Some(state) => Some((next_position(position, face), state)),
        None => None,
    }
}

#[derive(Clone, Copy, Debug, PartialEq, Eq, Structural)]
pub enum DiggingState {
    Start,
    Abort,
    Stop,
}

/// Whether a digging message breaks the block: at once in creative, else when
/// the digging is done.
pub open spec fn breaks(state: DiggingState, mode: GameMode) -> bool {
    (state == DiggingState::Start && mode == GameMode::Creative) || state == DiggingState::Stop
}

/// A block that is dug: whether it is TNT, and the item of its kind.
#[derive(Clone, Copy, Debug, PartialEq, Eq, Structural)]
pub struct DugBlock {
    pub tnt: bool,
    pub item: u16,
}

/// What digging does: the blocks that are set, one after the other, and the
/// item that is dropped.
#[derive(Debug)]
pub struct DigOutcome {
    pub changes: Vec<Override>,
    pub dropped: Option<u16>,
}

/// The position of a number in the cube around a block, layer by layer from
/// the lowest corner.
pub open spec fn blast_position(p: (i32, i32, i32), i: int) -> (i32, i32, i32) {
    ((p.0 + i / 9 - 1) as i32, (p.1 + i / 3 % 3 - 1) as i32, (p.2 + i % 3 - 1) as i32)
}

/// The cube around a block, emptied.
pub open spec fn blast(p: (i32, i32, i32), air: u16) -> Seq<Override> {
    Seq::new(27, |i: int| (blast_position(p, i), air))
}

fn blast_cube(p: (i32, i32, i32), air: u16) -> (r: Vec<Override>)
    requires
        is_i32(p.0 - 1) && is_i32(p.0 + 1),
        is_i32(p.1 - 1) && is_i32(p.1 + 1),
        is_i32(p.2 - 1) && is_i32(p.2 + 1),
    ensures
        r@ == blast(p, air),
{
    let mut r: Vec<Override> = Vec::new();
    let mut i: i32 = 0;
    while i < 27
        invariant
            0 <= i <= 27,
            r@ == blast(p, air).take(i as int),
            is_i32(p.0 - 1) && is_i32(p.0 + 1),
            is_i32(p.1 - 1) && is_i32(p.1 + 1),
            is_i32(p.2 - 1) && is_i32(p.2 + 1),
        decreases 27 - i,
    {
        r.push(((p.0 + (i / 9 - 1), p.1 + (i / 3 % 3 - 1), p.2 + (i % 3 - 1)), air));
        i += 1;
        assert(r@ =~= blast(p, air).take(i as int));
    }
    assert(r@ =~= blast(p, air));
    r
}

/// The blocks that a digging message sets: the cube around TNT, else the block
/// itself, and none where nothing breaks.
pub open spec fn dug_blocks(
    state: DiggingState,
    mode: GameMode,
    position: (i32, i32, i32),
    target: Option<DugBlock>,
    air: u16,
) -> Seq<Override> {
    if !breaks(state, mode) || target is None {
        Seq::empty()
    } else if target->0.tnt {
        blast(position, air)
    } else {
        seq![(position, air)]
    }
}

/// The item that a digging message drops.
pub open spec fn dug_item(
    state: DiggingState,
    mode: GameMode,
    target: Option<DugBlock>,
    air_item: u16,
) -> Option<u16> {
    if breaks(state, mode) && target is Some && !target->0.tnt && target->0.item != air_item && mode
        != GameMode::Creative {
        Some(target->0.item)
    } else {
        None
    }
}

/// Decides what a digging message does. TNT blows up the cube around it; any
/// other block is removed and, outside creative, drops its item, if it has one.
/// `air_item` stands for no item.
pub fn dig_block(
    state: DiggingState,
    mode: GameMode,
    position: (i32, i32, i32),
    target: Option<DugBlock>,
    air: u16,
    air_item: u16,
) -> (r: DigOutcome)
    requires
        breaks(state, mode) && target is Some && target->0.tnt ==> {
            &&& is_i32(position.0 - 1) && is_i32(position.0 + 1)
            &&& is_i32(position.1 - 1) && is_i32(position.1 + 1)
            &&& is_i32(position.2 - 1) && is_i32(position.2 + 1)
        },
    ensures
        r.changes@ == dug_blocks(state, mode, position, target, air),
        r.dropped == dug_item(state, mode, target, air_item),
{
    let broken = match state {
        DiggingState::Start => match mode {
            GameMode::Creative => true,
            _ => false,
        },
        DiggingState::Abort => false,
        DiggingState::Stop => true,
    };
    if !broken {
        return DigOutcome { changes: Vec::new(), dropped: None };
    }
    match target {
        None => DigOutcome { changes: Vec::new(), dropped: None },
        Some(block) => {
            if block.tnt {
                return DigOutcome { changes: blast_cube(position, air), dropped: None };
            }
            let creative = match mode {
                GameMode::Creative => true,
                _ => false,
            };
            let dropped: Option<u16> = if block.item != air_item && !creative {
                Some(block.item)
            } else {
                None
            };
            let mut changes: Vec<Override> = Vec::new();
            changes.push((position, air));
            assert(changes@ =~= seq![(position, air)]);
            DigOutcome { changes, dropped }
        },
    }
}

/// A blast empties exactly the positions at most one away in each direction.
pub proof fn law_blast_is_a_cube(p: (i32, i32, i32), air: u16, q: (i32, i32, i32))
    requires
        is_i32(p.0 - 1) && is_i32(p.0 + 1),
        is_i32(p.1 - 1) && is_i32(p.1 + 1),
        is_i32(p.2 - 1) && is_i32(p.2 + 1),
    ensures
        blast(p, air).contains((q, air)) <==> -1 <= q.0 - p.0 <= 1 && -1 <= q.1 - p.1 <= 1 && -1
            <= q.2 - p.2 <= 1,
{
    let s = blast(p, air);
    if -1 <= q.0 - p.0 <= 1 && -1 <= q.1 - p.1 <= 1 && -1 <= q.2 - p.2 <= 1 {
        let i = (q.0 - p.0 + 1) * 9 + (q.1 - p.1 + 1) * 3 + (q.2 - p.2 + 1);
        assert(0 <= i < 27);
        assert(s[i] == (q, air));
    }
    if s.contains((q, air)) {
        let i = choose|i: int| 0 <= i < s.len() && s[i] == (q, air);
        assert(s[i] == (blast_position(p, i), air));
    }
}

} // verus!
