//! Identifier and clock sources.

use vstd::prelude::*;

verus! {

/// An instant on the UTC time line: whole seconds since the Unix epoch and
/// the nanoseconds into that second.
#[derive(Debug, Clone, Copy, PartialEq, Eq, Structural)]
pub struct Timestamp {
    pub secs: i64,
    pub nanos: u32,
}

/// Number of characters in the text form of an identifier.
pub open spec fn uid_len() -> nat {
    26
}

/// Calls `ulid::Ulid::new` and `ulid::Ulid::to_string`: a new identifier in
/// its text form. The identifier is drawn from the clock and a random source,
/// so the contract states only what holds of every outcome: the text form is
/// always 26 characters long.
#[verifier::external_body]
pub fn new_uid() -> (id: String)
    ensures
        id@.len() == uid_len(),
{
    ulid::Ulid::new().to_string()
}

/// Calls `chrono::Utc::now` and reads the instant off as seconds and
/// nanoseconds (`DateTime::timestamp`, `DateTime::timestamp_subsec_nanos`).
/// Nothing is stated of the instant.
#[verifier::external_body]
pub fn now() -> Timestamp {
    let instant = chrono::Utc::now();
    Timestamp { secs: instant.timestamp(), nanos: instant.timestamp_subsec_nanos() }
}

/// `count` new identifiers.
pub fn new_ids(count: usize) -> (ids: Vec<String>)
    ensures
        ids.len() == count,
        forall|i: int| 0 <= i < count ==> (#[trigger] ids@[i])@.len() == uid_len(),
{
    let mut ids: Vec<String> = Vec::new();
    let mut i: usize = 0;
    while i < count
        invariant
            i <= count,
            ids.len() == i,
            forall|k: int| 0 <= k < i ==> (#[trigger] ids@[k])@.len() == uid_len(),
        decreases count - i,
    {
        ids.push(new_uid());
        i = i + 1;
    }
    ids
}

} // verus!
