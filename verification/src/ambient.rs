//! Chance and time.
//!
//! Nothing can be promised of what these functions return. Whatever is done
//! with a drawn number or a read clock is done by a function that takes it as
//! an argument.

use vstd::prelude::*;

verus! {

/// `rand::random` for sixteen bits. Any value may come.
#[verifier::external_body]
pub(crate) fn random_u16() -> u16 {
    rand::random::<u16>()
}

/// `rand::random` for thirty-two bits. Any value may come.
#[verifier::external_body]
pub(crate) fn random_u32() -> u32 {
    rand::random::<u32>()
}

/// `rand::random` for the twelve bytes of a transaction. Any value may come.
#[verifier::external_body]
pub(crate) fn random_transaction() -> [u8; 12] {
    rand::random::<[u8; 12]>()
}

/// `chrono::Utc::now` as a count of seconds. Any value may come.
#[verifier::external_body]
pub(crate) fn unix_time() -> i64 {
    chrono::Utc::now().timestamp()
}

/// `chrono::Utc::now` as the text of a date and a time. Any text may come.
#[verifier::external_body]
pub(crate) fn utc_time_text() -> String {
    chrono::Utc::now().to_rfc3339()
}

} // verus!
