//! Opening the world database, with a few tries where a stale lock is in the
//! way.

use vstd::prelude::*;
use crate::text::{ascii_lower_all, ascii_lower_char, chars_of, contains_text, has_substring};

verus! {

/// How often the database is opened before giving up.
pub const OPEN_ATTEMPTS: u8 = 3;

/// Whether the text of an error speaks of a lock.
pub open spec fn speaks_of_lock(message: Seq<char>) -> bool {
    let m = ascii_lower_all(message);
    ||| contains_text(m, "acquire lock"@)
    ||| contains_text(m, "locked"@)
    ||| contains_text(m, "os { code: 33"@)
    ||| contains_text(m, "wouldblock"@)
}

pub fn is_lock_error(message: &str) -> (r: bool)
    ensures
        r == speaks_of_lock(message@),
{
    let text = chars_of(message);
    let mut lower: Vec<char> = Vec::new();
    let mut i: usize = 0;
    while i < text.len()
        invariant
            i <= text.len(),
            text@ == message@,
            lower@ == ascii_lower_all(message@).take(i as int),
        decreases text.len() - i,
    {
        lower.push(ascii_lower_char(text[i]));
        i += 1;
        assert(lower@ =~= ascii_lower_all(message@).take(i as int));
    }
    assert(lower@ =~= ascii_lower_all(message@));
    let m = lower.as_slice();
    has_substring(m, "acquire lock") || has_substring(m, "locked") || has_substring(
        m,
        "os { code: 33",
    ) || has_substring(m, "wouldblock")
}

/// What follows an attempt to open the database.
#[derive(Clone, Copy, Debug, PartialEq, Eq, Structural)]
pub enum OpenStep {
    /// It is open; `recovered` after an earlier failure.
    Ready { recovered: bool },
    /// Remove the lock files if `remove_locks`, wait, and try again.
    Retry { remove_locks: bool, attempt: u8 },
    /// Remove the lock files if `remove_locks`, and end the server.
    GiveUp { remove_locks: bool },
}

pub open spec fn open_step(attempt: u8, failure: Option<Seq<char>>) -> OpenStep {
    match failure {
        None => OpenStep::Ready { recovered: attempt > 1 },
        Some(message) => if attempt < OPEN_ATTEMPTS {
            OpenStep::Retry { remove_locks: speaks_of_lock(message), attempt: (attempt + 1) as u8 }
        } else {
            OpenStep::GiveUp { remove_locks: speaks_of_lock(message) }
        },
    }
}

/// Decides what follows an attempt, by the error text of a failed one.
pub fn initialize_world_db(attempt: u8, failure: Option<&str>) -> (r: OpenStep)
    ensures
        r == open_step(
            attempt,
            match failure {
                Some(message) => Some(message@),
                None => None,
            },
        ),
{
    match failure {
        None => OpenStep::Ready { recovered: attempt > 1 },
        Some(message) => {
            let remove_locks = is_lock_error(message);
            if attempt < OPEN_ATTEMPTS {
                OpenStep::Retry { remove_locks, attempt: attempt + 1 }
            } else {
                OpenStep::GiveUp { remove_locks }
            }
        },
    }
}

/// The attempt that follows a number of failures, while there is one.
pub open spec fn attempt_after(messages: Seq<Seq<char>>) -> Option<u8>
    decreases messages.len(),
{
    if messages.len() == 0 {
        Some(1)
    } else {
        match attempt_after(messages.drop_last()) {
            Some(attempt) => match open_step(attempt, Some(messages.last())) {
                OpenStep::Retry { attempt: next, .. } => Some(next),
                _ => None,
            },
            None => None,
        }
    }
}

/// Whatever goes wrong, the database is tried three times and no more.
pub proof fn law_opening_is_tried_three_times(messages: Seq<Seq<char>>)
    ensures
        messages.len() < 3 ==> attempt_after(messages) == Some((messages.len() + 1) as u8),
        messages.len() >= 3 ==> attempt_after(messages) is None,
    decreases messages.len(),
{
    if messages.len() > 0 {
        law_opening_is_tried_three_times(messages.drop_last());
    }
}

} // verus!
