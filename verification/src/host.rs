use vstd::prelude::*;

verus! {

/// Relies on uuid's Uuid::new_v4 and its Display impl: a fresh random
/// identifier, written in the hyphenated form of 36 characters. Randomness
/// gives no further guarantee.
#[verifier::external_body]
pub fn new_uuid_string() -> (r: String)
    ensures
        r@.len() == 36,
{
    uuid::Uuid::new_v4().to_string()
}

/// Relies on std::time::SystemTime::now: the clock's seconds since the epoch,
/// zero when the clock reads earlier than the epoch. Nothing further can be
/// promised of a clock.
#[verifier::external_body]
pub fn now_unix_seconds() -> u64 {
    match std::time::SystemTime::now().duration_since(std::time::UNIX_EPOCH) {
        Ok(d) => d.as_secs(),
        Err(_) => 0,
    }
}

} // verus!
