//! Writing the state of players back, now and then.

use vstd::prelude::*;
use vstd::string::StringExecFns;
use crate::big_endian::be_bytes;
use crate::record::{bytes_form, le_bytes};
use crate::world::player_store::{hyphenated, uuid_text};
use crate::world::storage::{bytes_of, gz_compressed, gz_decompressed, gz_encode};

verus! {

/// Where a player is and looks. Numbers are IEEE 754 bit patterns.
#[derive(Clone, Copy, Debug, PartialEq, Eq, Structural)]
pub struct PlayerState {
    pub x: u64,
    pub y: u64,
    pub z: u64,
    pub yaw: u32,
    pub pitch: u32,
    pub uuid: u128,
}

/// The number of ticks between two flushes.
pub const FLUSH_TICKS: u32 = 100;

/// Counts ticks from one flush to the next.
#[derive(Debug)]
pub struct FlushTimer(u32);

impl Default for FlushTimer {
    fn default() -> (r: Self)
        ensures
            r.wf(),
            r.ticks() == 0,
    {
        FlushTimer(0)
    }
}

impl FlushTimer {
    pub closed spec fn wf(&self) -> bool {
        self.0 < FLUSH_TICKS
    }

    /// The ticks since the last flush.
    pub closed spec fn ticks(&self) -> nat {
        self.0 as nat
    }

    /// Counts a tick; says whether it is time to flush.
    pub fn tick(&mut self) -> (r: bool)
        requires
            old(self).wf(),
        ensures
            final(self).wf(),
            r == flush_due(old(self).ticks()),
            final(self).ticks() == next_ticks(old(self).ticks()),
    {
        let next: u32 = self.0 + 1;
        if next < FLUSH_TICKS {
            self.0 = next;
            false
        } else {
            self.0 = 0;
            true
        }
    }
}

/// Whether the next tick flushes.
pub open spec fn flush_due(ticks: nat) -> bool {
    ticks + 1 >= FLUSH_TICKS
}

pub open spec fn next_ticks(ticks: nat) -> nat {
    if flush_due(ticks) {
        0
    } else {
        ticks + 1
    }
}

/// The count after a number of ticks from the start.
pub open spec fn ticks_after(n: nat) -> nat
    decreases n,
{
    if n == 0 {
        0
    } else {
        next_ticks(ticks_after((n - 1) as nat))
    }
}

/// Every hundredth tick flushes, and no other does.
pub proof fn law_every_hundredth_tick_flushes(n: nat)
    requires
        n > 0,
    ensures
        flush_due(ticks_after((n - 1) as nat)) <==> n % 100 == 0,
        ticks_after(n) == n % 100,
    decreases n,
{
    if n > 1 {
        law_every_hundredth_tick_flushes((n - 1) as nat);
    }
}

/// The record of a player's state: position and angles as bit patterns, and the
/// identity with its length in front, most significant byte first.
pub open spec fn state_record_bytes(s: PlayerState) -> Seq<u8> {
    le_bytes(s.x as nat, 8) + le_bytes(s.y as nat, 8) + le_bytes(s.z as nat, 8) + le_bytes(
        s.yaw as nat,
        4,
    ) + le_bytes(s.pitch as nat, 4) + bytes_form(be_bytes(s.uuid as nat, 16))
}

/// `postcard::to_allocvec` encodes position, angles and identity one behind the
/// other: arrays of bytes as they are, and a `uuid::Uuid` as its sixteen bytes
/// with their number in front. It has nothing to fail on with these.
#[verifier::external_body]
fn state_record_encode(s: &PlayerState) -> (r: Option<Vec<u8>>)
    ensures
        bytes_of(r) == Some(state_record_bytes(*s)),
{
    let position = (s.x.to_le_bytes(), s.y.to_le_bytes(), s.z.to_le_bytes());
    let id = uuid::Uuid::from_u128(s.uuid);
    postcard::to_allocvec(&(position, s.yaw.to_le_bytes(), s.pitch.to_le_bytes(), id)).ok()
}

/// The level at which states are compressed.
pub const DEFAULT_COMPRESSION: u32 = 6;

/// What has to be stored of a player's state: the key, and the record,
/// compressed.
pub fn state_entry(state: &PlayerState) -> (r: (String, Option<Vec<u8>>))
    ensures
        r.0@ == "player_"@ + hyphenated(state.uuid),
        bytes_of(r.1) == gz_compressed(state_record_bytes(*state), DEFAULT_COMPRESSION),
        r.1 matches Some(z) ==> gz_decompressed(z@) == Some(state_record_bytes(*state)),
{
    let mut key = "player_".to_owned();
    let text = uuid_text(state.uuid);
    key.append(text.as_str());
    match state_record_encode(state) {
        Some(encoded) => (key, gz_encode(encoded.as_slice(), DEFAULT_COMPRESSION)),
        None => (key, None),
    }
}

/// The keys and values of entries, as texts and bytes.
pub open spec fn entry_values(s: Seq<(String, Option<Vec<u8>>)>) -> Seq<
    (Seq<char>, Option<Seq<u8>>),
> {
    Seq::new(s.len(), |i: int| (s[i].0@, bytes_of(s[i].1)))
}

/// The entry of a player's state.
pub open spec fn state_value(s: PlayerState) -> (Seq<char>, Option<Seq<u8>>) {
    (
        "player_"@ + hyphenated(s.uuid),
        gz_compressed(state_record_bytes(s), DEFAULT_COMPRESSION),
    )
}

/// A tick with the given players waiting to be written. Where it is time to
/// flush, the result has an entry for each of them, in order; else nothing is
/// written and they go on waiting.
pub fn flush_dirty(timer: &mut FlushTimer, dirty: &Vec<PlayerState>) -> (r: Option<
    Vec<(String, Option<Vec<u8>>)>,
>)
    requires
        old(timer).wf(),
    ensures
        final(timer).wf(),
        final(timer).ticks() == next_ticks(old(timer).ticks()),
        r is Some <==> flush_due(old(timer).ticks()),
        r matches Some(entries) ==> entry_values(entries@) == Seq::new(
            dirty@.len(),
            |i: int| state_value(dirty@[i]),
        ),
{
    if !timer.tick() {
        return None;
    }
    let mut entries: Vec<(String, Option<Vec<u8>>)> = Vec::new();
    let mut i: usize = 0;
    while i < dirty.len()
        invariant
            i <= dirty.len(),
            entries@.len() == i,
            forall|k: int|
                0 <= k < i ==> (
                    (#[trigger] entries@[k]).0@,
                    bytes_of(entries@[k].1),
                ) == state_value(dirty@[k]),
        decreases dirty.len() - i,
    {
        let entry = state_entry(&dirty[i]);
        entries.push(entry);
        i += 1;
    }
    assert(entry_values(entries@) =~= Seq::new(dirty@.len(), |i: int| state_value(dirty@[i])));
    Some(entries)
}

} // verus!
