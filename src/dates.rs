//! Instants are whole seconds since the Unix epoch, UTC.

use vstd::prelude::*;

verus! {

/// The earliest instant the library accepts: 0000-01-01T00:00:00Z.
pub const MIN_TIMESTAMP: i64 = -62_167_219_200;

/// The latest instant the library accepts: 9999-12-31T23:59:59Z.
pub const MAX_TIMESTAMP: i64 = 253_402_300_799;

/// An instant of the years 0 to 9999, whose day is written with a four-digit year.
pub open spec fn valid_timestamp(t: int) -> bool {
    MIN_TIMESTAMP <= t <= MAX_TIMESTAMP
}

/// The UTC calendar day of instant `t`, written `YYYYMMDD`.
pub uninterp spec fn day_stamp_of(t: int) -> Seq<char>;

/// Relies on chrono's `DateTime::from_timestamp`, which accepts every instant in the
/// range above (its years reach far beyond it), and on its `format("%Y%m%d")`, which depends on the instant alone.
#[verifier::external_body]
pub fn day_stamp(t: i64) -> (r: String)
    requires
        valid_timestamp(t as int),
    ensures
        r@ == day_stamp_of(t as int),
{
    chrono::DateTime::from_timestamp(t, 0).unwrap().format("%Y%m%d").to_string()
}

} // verus!
