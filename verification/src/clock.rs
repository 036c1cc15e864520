//! Reading the wall clock, and the transaction identifiers derived from it.
use vstd::prelude::*;

verus! {

#[verifier::external_type_specification]
#[verifier::external_body]
pub struct ExSystemTime(std::time::SystemTime);

/// std's `SystemTime::now`: the current wall-clock time. Nothing is stated of
/// the value, which depends on the machine's clock.
#[verifier::external_body]
fn system_time_now() -> (t: std::time::SystemTime) {
    std::time::SystemTime::now()
}

/// std's `SystemTime::duration_since(UNIX_EPOCH)`: the time elapsed since
/// 1970-01-01, or `None` when the clock is set before that date. Nothing is
/// stated of which of the two comes back.
#[verifier::external_body]
fn since_unix_epoch(t: std::time::SystemTime) -> (d: Option<std::time::Duration>) {
    match t.duration_since(std::time::UNIX_EPOCH) {
        Ok(d) => Some(d),
        Err(_) => None,
    }
}

/// std's `Duration::as_nanos`: the whole duration in nanoseconds. Nothing is
/// stated of the value.
#[verifier::external_body]
fn duration_as_nanos(d: std::time::Duration) -> (n: u128) {
    d.as_nanos()
}

/// std's `Duration::as_secs`: the whole seconds of the duration. Nothing is
/// stated of the value.
#[verifier::external_body]
fn duration_as_secs(d: std::time::Duration) -> (n: u64) {
    d.as_secs()
}

/// Whole seconds elapsed since the Unix epoch on the local clock; one when
/// the clock reads a time before the epoch. Nothing is stated of the value
/// otherwise.
pub fn unix_time_secs_or_one() -> (n: u64) {
    let now = system_time_now();
    match since_unix_epoch(now) {
        Some(d) => duration_as_secs(d),
        None => 1,
    }
}

/// Nanoseconds elapsed since the Unix epoch on the local clock; zero when the
/// clock reads a time before the epoch.
pub fn unix_time_nanos() -> (n: u128) {
    let now = system_time_now();
    match since_unix_epoch(now) {
        Some(d) => duration_as_nanos(d),
        None => 0,
    }
}

/// The low 96 bits of `t` as 12 big-endian bytes: bytes 4..16 of the 16-byte
/// big-endian encoding of `t`.
pub open spec fn low96_be(t: u128) -> Seq<u8> {
    seq![
        (t >> 88u128) as u8,
        (t >> 80u128) as u8,
        (t >> 72u128) as u8,
        (t >> 64u128) as u8,
        (t >> 56u128) as u8,
        (t >> 48u128) as u8,
        (t >> 40u128) as u8,
        (t >> 32u128) as u8,
        (t >> 24u128) as u8,
        (t >> 16u128) as u8,
        (t >> 8u128) as u8,
        t as u8,
    ]
}

/// The transaction identifier made of the low 96 bits of `t`.
pub fn transaction_id_from_nanos(t: u128) -> (id: [u8; 12])
    ensures
        id@ == low96_be(t),
{
    let id = [
        (t >> 88u128) as u8,
        (t >> 80u128) as u8,
        (t >> 72u128) as u8,
        (t >> 64u128) as u8,
        (t >> 56u128) as u8,
        (t >> 48u128) as u8,
        (t >> 40u128) as u8,
        (t >> 32u128) as u8,
        (t >> 24u128) as u8,
        (t >> 16u128) as u8,
        (t >> 8u128) as u8,
        t as u8,
    ];
    assert(id@ =~= low96_be(t));
    id
}

} // verus!
