//! The list of operators: who is on it, and at which level.

use vstd::prelude::*;
use crate::text::{chars_of, eq_ignoring_case, same_ignoring_case};

verus! {

/// An entry of the list. The identity decides; the name makes lists for
/// servers without accounts convenient.
#[derive(Clone, Debug)]
pub struct OperatorEntry {
    pub uuid: u128,
    pub name: String,
    pub level: u8,
    pub bypasses_player_limit: bool,
}

/// An entry with its name as text.
#[verifier::ext_equal]
pub struct OperatorText {
    pub uuid: u128,
    pub name: Seq<char>,
    pub level: u8,
    pub bypasses_player_limit: bool,
}

impl View for OperatorEntry {
    type V = OperatorText;

    open spec fn view(&self) -> OperatorText {
        OperatorText {
            uuid: self.uuid,
            name: self.name@,
            level: self.level,
            bypasses_player_limit: self.bypasses_player_limit,
        }
    }
}

/// The list as texts.
pub open spec fn entry_texts(entries: Seq<OperatorEntry>) -> Seq<OperatorText> {
    Seq::new(entries.len(), |i: int| entries[i]@)
}

/// The level of an entry that names none.
pub fn default_operator_level() -> (r: u8)
    ensures
        r == 4,
{
    4
}

/// Whether an entry is about the player.
pub open spec fn is_about(e: OperatorText, uuid: u128, name: Seq<char>) -> bool {
    e.uuid == uuid || same_ignoring_case(e.name, name)
}

fn entry_is_about(e: &OperatorEntry, uuid: u128, name: &str) -> (r: bool)
    ensures
        r == is_about(e@, uuid, name@),
{
    e.uuid == uuid || eq_ignoring_case(chars_of(e.name.as_str()).as_slice(), chars_of(
        name,
    ).as_slice())
}

pub open spec fn clamp_level(level: u8) -> u8 {
    if level < 1 {
        1
    } else if level > 4 {
        4
    } else {
        level
    }
}

fn limit_level(level: u8) -> (r: u8)
    ensures
        r == clamp_level(level),
{
    if level < 1 {
        1
    } else if level > 4 {
        4
    } else {
        level
    }
}

/// The place of the first entry with a property, if there is one.
pub open spec fn first_where(
    s: Seq<OperatorText>,
    property: spec_fn(OperatorText) -> bool,
) -> Option<int>
    decreases s.len(),
{
    if s.len() == 0 {
        None
    } else if property(s[0]) {
        Some(0)
    } else {
        match first_where(s.drop_first(), property) {
            Some(i) => Some(i + 1),
            None => None,
        }
    }
}

/// The first entry with a property, if there is one.
pub open spec fn first_entry(
    s: Seq<OperatorText>,
    property: spec_fn(OperatorText) -> bool,
) -> Option<OperatorText> {
    match first_where(s, property) {
        Some(i) => Some(s[i]),
        None => None,
    }
}

/// To be about a player.
pub open spec fn about(uuid: u128, name: Seq<char>) -> spec_fn(OperatorText) -> bool {
    |e: OperatorText| is_about(e, uuid, name)
}

/// To have an identity.
pub open spec fn with_uuid(uuid: u128) -> spec_fn(OperatorText) -> bool {
    |e: OperatorText| e.uuid == uuid
}

/// To have a name.
pub open spec fn with_name(name: Seq<char>) -> spec_fn(OperatorText) -> bool {
    |e: OperatorText| same_ignoring_case(e.name, name)
}

/// The place of the first entry about the player, if there is one.
pub open spec fn first_about(s: Seq<OperatorText>, uuid: u128, name: Seq<char>) -> Option<int> {
    first_where(s, about(uuid, name))
}

proof fn lemma_first_where(s: Seq<OperatorText>, property: spec_fn(OperatorText) -> bool)
    ensures
        match first_where(s, property) {
            Some(i) => 0 <= i < s.len() && property(s[i]) && forall|j: int|
                0 <= j < i ==> !property(#[trigger] s[j]),
            None => forall|j: int| 0 <= j < s.len() ==> !property(#[trigger] s[j]),
        },
    decreases s.len(),
{
    if s.len() > 0 && !property(s[0]) {
        let rest = s.drop_first();
        lemma_first_where(rest, property);
        let end = match first_where(rest, property) {
            Some(i) => i + 1,
            None => s.len() as int,
        };
        assert forall|j: int| 0 <= j < end implies !property(#[trigger] s[j]) by {
            if j > 0 {
                assert(s[j] == rest[j - 1]);
            }
        }
    }
}

/// The place of the first entry with a property is the only one with nothing
/// of the kind in front of it.
proof fn lemma_first_where_is(
    s: Seq<OperatorText>,
    property: spec_fn(OperatorText) -> bool,
    i: int,
)
    requires
        0 <= i < s.len(),
        property(s[i]),
        forall|j: int| 0 <= j < i ==> !property(#[trigger] s[j]),
    ensures
        first_where(s, property) == Some(i),
{
    lemma_first_where(s, property);
}

fn position_about(entries: &Vec<OperatorEntry>, uuid: u128, name: &str) -> (r: Option<usize>)
    ensures
        match first_about(entry_texts(entries@), uuid, name@) {
            Some(i) => r matches Some(k) && k == i && k < entries@.len(),
            None => r is None,
        },
{
    let ghost s = entry_texts(entries@);
    let mut i: usize = 0;
    while i < entries.len()
        invariant
            i <= entries.len(),
            s == entry_texts(entries@),
            forall|j: int| 0 <= j < i ==> !is_about(#[trigger] s[j], uuid, name@),
        decreases entries.len() - i,
    {
        assert(s[i as int] == entries@[i as int]@);
        if entry_is_about(&entries[i], uuid, name) {
            proof {
                lemma_first_where_is(s, about(uuid, name@), i as int);
            }
            return Some(i);
        }
        i += 1;
    }
    proof {
        lemma_first_where(s, about(uuid, name@));
    }
    None
}

/// The level of a player, between 1 and 4: that of the first entry with their
/// identity; only where there is none, that of the first entry with their name;
/// 0 without either.
pub open spec fn level_of(s: Seq<OperatorText>, uuid: u128, name: Seq<char>) -> u8 {
    match first_entry(s, with_uuid(uuid)) {
        Some(e) => clamp_level(e.level),
        None => match first_entry(s, with_name(name)) {
            Some(e) => clamp_level(e.level),
            None => 0,
        },
    }
}

pub fn operator_level(entries: &Vec<OperatorEntry>, uuid: u128, username: &str) -> (r: u8)
    ensures
        r == level_of(entry_texts(entries@), uuid, username@),
        r <= 4,
{
    let ghost s = entry_texts(entries@);
    let wanted = chars_of(username);
    let mut named: Option<usize> = None;
    let mut i: usize = 0;
    while i < entries.len()
        invariant
            i <= entries.len(),
            s == entry_texts(entries@),
            wanted@ == username@,
            forall|j: int| 0 <= j < i ==> (#[trigger] s[j]).uuid != uuid,
            match named {
                Some(k) => k < i && same_ignoring_case(s[k as int].name, username@) && forall|
                    j: int,
                |
                    0 <= j < k ==> !same_ignoring_case((#[trigger] s[j]).name, username@),
                None => forall|j: int|
                    0 <= j < i ==> !same_ignoring_case((#[trigger] s[j]).name, username@),
            },
        decreases entries.len() - i,
    {
        assert(s[i as int] == entries@[i as int]@);
        if entries[i].uuid == uuid {
            proof {
                lemma_first_where_is(s, with_uuid(uuid), i as int);
            }
            return limit_level(entries[i].level);
        }
        let known = match named {
            Some(_) => true,
            None => false,
        };
        if !known && eq_ignoring_case(
            chars_of(entries[i].name.as_str()).as_slice(),
            wanted.as_slice(),
        ) {
            named = Some(i);
        }
        i += 1;
    }
    proof {
        lemma_first_where(s, with_uuid(uuid));
        lemma_first_where(s, with_name(username@));
    }
    match named {
        Some(k) => {
            proof {
                lemma_first_where_is(s, with_name(username@), k as int);
            }
            assert(s[k as int] == entries@[k as int]@);
            limit_level(entries[k].level)
        },
        None => 0,
    }
}

/// The list after a player was made an operator: the first entry about them is
/// rewritten, or a new one is added at the end.
pub open spec fn with_operator(
    s: Seq<OperatorText>,
    uuid: u128,
    name: Seq<char>,
    level: u8,
) -> Seq<OperatorText> {
    match first_about(s, uuid, name) {
        Some(i) => s.update(
            i,
            OperatorText {
                uuid,
                name,
                level: clamp_level(level),
                bypasses_player_limit: s[i].bypasses_player_limit,
            },
        ),
        None => s.push(
            OperatorText { uuid, name, level: clamp_level(level), bypasses_player_limit: false },
        ),
    }
}

pub fn set_operator(entries: &mut Vec<OperatorEntry>, uuid: u128, username: &str, level: u8)
    ensures
        entry_texts(final(entries)@) == with_operator(
            entry_texts(old(entries)@),
            uuid,
            username@,
            level,
        ),
{
    match position_about(entries, uuid, username) {
        Some(i) => {
            let bypasses_player_limit = entries[i].bypasses_player_limit;
            let entry = OperatorEntry {
                uuid,
                name: username.to_owned(),
                level: limit_level(level),
                bypasses_player_limit,
            };
            let ghost written = entry@;
            entries.set(i, entry);
            assert(entry_texts(entries@) =~= entry_texts(old(entries)@).update(i as int, written));
        },
        None => {
            let entry = OperatorEntry {
                uuid,
                name: username.to_owned(),
                level: limit_level(level),
                bypasses_player_limit: false,
            };
            let ghost written = entry@;
            entries.push(entry);
            assert(entry_texts(entries@) =~= entry_texts(old(entries)@).push(written));
        },
    }
}

/// The list without the entries about a player.
pub open spec fn without_operator(s: Seq<OperatorText>, uuid: u128, name: Seq<char>) -> Seq<
    OperatorText,
>
    decreases s.len(),
{
    if s.len() == 0 {
        Seq::empty()
    } else if is_about(s.last(), uuid, name) {
        without_operator(s.drop_last(), uuid, name)
    } else {
        without_operator(s.drop_last(), uuid, name).push(s.last())
    }
}

/// Takes every entry about a player off the list; says whether there was one.
pub fn remove_operator(entries: &mut Vec<OperatorEntry>, uuid: u128, username: &str) -> (r: bool)
    ensures
        entry_texts(final(entries)@) == without_operator(
            entry_texts(old(entries)@),
            uuid,
            username@,
        ),
        r == (first_about(entry_texts(old(entries)@), uuid, username@) is Some),
{
    let ghost s = entry_texts(old(entries)@);
    let mut kept: Vec<OperatorEntry> = Vec::new();
    let mut removed = false;
    let mut i: usize = 0;
    assert(s.take(0) =~= Seq::<OperatorText>::empty());
    assert(entry_texts(kept@) =~= without_operator(s.take(0), uuid, username@));
    while i < entries.len()
        invariant
            i <= entries.len(),
            entries@ == old(entries)@,
            s == entry_texts(entries@),
            entry_texts(kept@) == without_operator(s.take(i as int), uuid, username@),
            removed == exists|j: int| 0 <= j < i && is_about(#[trigger] s[j], uuid, username@),
        decreases entries.len() - i,
    {
        let ghost before = kept@;
        assert(s[i as int] == entries@[i as int]@);
        assert(s.take(i + 1).drop_last() =~= s.take(i as int));
        assert(s.take(i + 1).last() == s[i as int]);
        if entry_is_about(&entries[i], uuid, username) {
            removed = true;
        } else {
            let entry = OperatorEntry {
                uuid: entries[i].uuid,
                name: entries[i].name.clone(),
                level: entries[i].level,
                bypasses_player_limit: entries[i].bypasses_player_limit,
            };
            let ghost copied = entry@;
            kept.push(entry);
            assert(entry_texts(kept@) =~= entry_texts(before).push(copied));
        }
        i += 1;
    }
    assert(s.take(i as int) =~= s);
    proof {
        lemma_first_where(s, about(uuid, username@));
    }
    *entries = kept;
    removed
}

/// Who is made an operator has that level at once, whatever the list held.
pub proof fn law_set_operator_grants_the_level(
    s: Seq<OperatorText>,
    uuid: u128,
    name: Seq<char>,
    level: u8,
)
    ensures
        level_of(with_operator(s, uuid, name, level), uuid, name) == clamp_level(level),
        1 <= clamp_level(level) <= 4,
{
    lemma_first_where(s, about(uuid, name));
    let after = with_operator(s, uuid, name, level);
    let place = match first_about(s, uuid, name) {
        Some(i) => i,
        None => s.len() as int,
    };
    assert forall|j: int| 0 <= j < place implies (#[trigger] after[j]).uuid != uuid by {
        assert(after[j] == s[j]);
        assert(!is_about(s[j], uuid, name));
    }
    lemma_first_where_is(after, with_uuid(uuid), place);
}

/// An entry with another identity does not change the level of a player whose
/// own identity is on the list, whatever name it has and wherever it stands.
pub proof fn law_identity_outranks_names(
    front: Seq<OperatorText>,
    entry: OperatorText,
    back: Seq<OperatorText>,
    uuid: u128,
    name: Seq<char>,
)
    requires
        entry.uuid != uuid,
        exists|i: int| 0 <= i < (front + back).len() && (#[trigger] (front + back)[i]).uuid == uuid,
    ensures
        level_of(front.push(entry) + back, uuid, name) == level_of(front + back, uuid, name),
{
    let t = front + back;
    let longer = front.push(entry) + back;
    let property = with_uuid(uuid);
    lemma_first_where(t, property);
    let own = choose|i: int| 0 <= i < t.len() && (#[trigger] t[i]).uuid == uuid;
    assert(property(t[own]));
    let i = first_where(t, property)->0;
    let k = if i < front.len() {
        i
    } else {
        i + 1
    };
    assert(longer[k] == t[i]);
    assert forall|j: int| 0 <= j < k implies !property(#[trigger] longer[j]) by {
        if j < front.len() {
            assert(longer[j] == t[j]);
        } else if j > front.len() {
            assert(longer[j] == t[j - 1]);
        }
    }
    lemma_first_where_is(longer, property, k);
}

/// Who is taken off the list has no level any more, and everyone who shares no
/// entry with them keeps theirs.
pub proof fn law_remove_operator_revokes_the_level(
    s: Seq<OperatorText>,
    uuid: u128,
    name: Seq<char>,
    other: u128,
    other_name: Seq<char>,
)
    ensures
        level_of(without_operator(s, uuid, name), uuid, name) == 0,
        (forall|i: int|
            0 <= i < s.len() && is_about(#[trigger] s[i], uuid, name) ==> !is_about(
                s[i],
                other,
                other_name,
            )) ==> level_of(without_operator(s, uuid, name), other, other_name) == level_of(
            s,
            other,
            other_name,
        ),
{
    let after = without_operator(s, uuid, name);
    lemma_without(s, uuid, name);
    lemma_first_where(after, with_uuid(uuid));
    lemma_first_where(after, with_name(name));
    assert(forall|j: int| 0 <= j < after.len() ==> !is_about(#[trigger] after[j], uuid, name));
    if forall|i: int|
        0 <= i < s.len() && is_about(#[trigger] s[i], uuid, name) ==> !is_about(
            s[i],
            other,
            other_name,
        ) {
        lemma_entry_kept(s, uuid, name, with_uuid(other));
        lemma_entry_kept(s, uuid, name, with_name(other_name));
    }
}

proof fn lemma_without(s: Seq<OperatorText>, uuid: u128, name: Seq<char>)
    ensures
        forall|j: int|
            0 <= j < without_operator(s, uuid, name).len() ==> !is_about(
                #[trigger] without_operator(s, uuid, name)[j],
                uuid,
                name,
            ),
    decreases s.len(),
{
    if s.len() > 0 {
        let kept = without_operator(s.drop_last(), uuid, name);
        lemma_without(s.drop_last(), uuid, name);
        assert forall|j: int| 0 <= j < without_operator(s, uuid, name).len() implies !is_about(
            #[trigger] without_operator(s, uuid, name)[j],
            uuid,
            name,
        ) by {
            if j < kept.len() {
                assert(without_operator(s, uuid, name)[j] == kept[j]);
            }
        }
    }
}

/// The first entry with a property in a list that is one entry longer.
proof fn lemma_entry_push(
    s: Seq<OperatorText>,
    e: OperatorText,
    property: spec_fn(OperatorText) -> bool,
)
    ensures
        first_entry(s.push(e), property) == (if first_entry(s, property) is Some {
            first_entry(s, property)
        } else if property(e) {
            Some(e)
        } else {
            None
        }),
{
    let t = s.push(e);
    lemma_first_where(s, property);
    lemma_first_where(t, property);
    let place = match first_where(s, property) {
        Some(i) => i,
        None => s.len() as int,
    };
    assert forall|j: int| 0 <= j < place implies !property(#[trigger] t[j]) by {
        assert(t[j] == s[j]);
    }
    assert(t[s.len() as int] == e);
    if first_where(s, property) is Some || property(e) {
        lemma_first_where_is(t, property, place);
    }
}

/// Removing entries about a player keeps the first entry with a property that
/// none of them has.
proof fn lemma_entry_kept(
    s: Seq<OperatorText>,
    uuid: u128,
    name: Seq<char>,
    property: spec_fn(OperatorText) -> bool,
)
    requires
        forall|i: int|
            0 <= i < s.len() && is_about(#[trigger] s[i], uuid, name) ==> !property(s[i]),
    ensures
        first_entry(without_operator(s, uuid, name), property) == first_entry(s, property),
    decreases s.len(),
{
    if s.len() > 0 {
        let front = s.drop_last();
        let e = s.last();
        assert forall|i: int|
            0 <= i < front.len() && is_about(#[trigger] front[i], uuid, name) implies !property(
            front[i],
        ) by {
            assert(front[i] == s[i]);
        }
        lemma_entry_kept(front, uuid, name, property);
        assert(front.push(e) =~= s);
        lemma_entry_push(front, e, property);
        assert(s[s.len() - 1] == e);
        if !is_about(e, uuid, name) {
            lemma_entry_push(without_operator(front, uuid, name), e, property);
        }
    }
}

/// Levels go from 1 to 4: a lower one that is asked for counts as 1, a higher
/// one as 4, and whoever is on no list has level 0.
pub proof fn law_levels_are_one_to_four(uuid: u128, name: Seq<char>, level: u8)
    ensures
        ({
            let s = with_operator(Seq::<OperatorText>::empty(), uuid, name, level);
            &&& s.len() == 1 && s[0].uuid == uuid && s[0].name == name
                && !s[0].bypasses_player_limit
            &&& level == 0 ==> level_of(s, uuid, name) == 1
            &&& 1 <= level <= 4 ==> level_of(s, uuid, name) == level
            &&& level > 4 ==> level_of(s, uuid, name) == 4
        }),
        level_of(Seq::<OperatorText>::empty(), uuid, name) == 0,
{
    law_set_operator_grants_the_level(Seq::<OperatorText>::empty(), uuid, name, level);
}

/// Making a player an operator touches no entry of anyone else: those stay as
/// they are, where they are.
pub proof fn law_other_operators_stay(
    s: Seq<OperatorText>,
    uuid: u128,
    name: Seq<char>,
    level: u8,
    i: int,
)
    requires
        0 <= i < s.len(),
        s[i].uuid != uuid,
        !same_ignoring_case(s[i].name, name),
    ensures
        with_operator(s, uuid, name, level)[i] == s[i],
        s.len() <= with_operator(s, uuid, name, level).len() <= s.len() + 1,
        without_operator(s, uuid, name).contains(s[i]),
{
    lemma_first_where(s, about(uuid, name));
    lemma_other_entry_stays(s, uuid, name, i);
}

proof fn lemma_other_entry_stays(s: Seq<OperatorText>, uuid: u128, name: Seq<char>, i: int)
    requires
        0 <= i < s.len(),
        !is_about(s[i], uuid, name),
    ensures
        without_operator(s, uuid, name).contains(s[i]),
    decreases s.len(),
{
    let kept = without_operator(s.drop_last(), uuid, name);
    if i == s.len() - 1 {
        assert(kept.push(s.last())[kept.len() as int] == s[i]);
    } else {
        lemma_other_entry_stays(s.drop_last(), uuid, name, i);
        assert(s.drop_last()[i] == s[i]);
        let k = choose|k: int| 0 <= k < kept.len() && kept[k] == s[i];
        assert(kept.push(s.last())[k] == s[i]);
    }
}

} // verus!
