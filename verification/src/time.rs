//! `PalmTimestamp` type and conversion helpers.
//!
//! Palm OS stores time either as seconds since 1904-01-01 (the "old Palm
//! epoch", an unsigned 32-bit count) or as seconds since 1970-01-01 (the
//! UNIX epoch, a signed 32-bit count). The two are told apart by the top
//! bit of the raw value: set means old Palm epoch. Conversions between the
//! two epochs use wrapping 32-bit arithmetic and never fail.

use vstd::prelude::*;

verus! {

/// The number of seconds between the two Palm OS timestamp epochs.
///
/// Adding this constant to an "old Palm epoch" timestamp gives a UNIX epoch
/// timestamp.
pub const SECONDS_BETWEEN_PALM_EPOCHS: u32 = 2082886200;

/// True when the raw value's top bit is set, which marks the old Palm epoch.
pub open spec fn spec_is_palm_epoch(timestamp: u32) -> bool {
    timestamp & 0x8000_0000 != 0
}

/// The UNIX-epoch reading of an old-Palm-epoch value: wrapping subtraction
/// of the epoch gap, reinterpreted as a signed 32-bit count.
pub open spec fn spec_palm_to_unix(timestamp: u32) -> i32 {
    timestamp.wrapping_sub(SECONDS_BETWEEN_PALM_EPOCHS) as i32
}

/// The old-Palm-epoch encoding of a UNIX-epoch value: wrapping addition of
/// the epoch gap on the 32-bit bit pattern.
pub open spec fn spec_unix_to_palm(timestamp: i32) -> u32 {
    (timestamp as u32).wrapping_add(SECONDS_BETWEEN_PALM_EPOCHS)
}

/// The UNIX-epoch reading of a raw stored value, whichever epoch it uses.
pub open spec fn spec_as_unix_ts(raw: u32) -> i32 {
    if spec_is_palm_epoch(raw) {
        spec_palm_to_unix(raw)
    } else {
        raw as i32
    }
}

/// Converting a UNIX timestamp to the old Palm epoch and back yields the
/// original value, for every 32-bit signed count, under wraparound
/// arithmetic.
pub proof fn lemma_unix_to_palm_to_unix(t: i32)
    ensures
        spec_palm_to_unix(spec_unix_to_palm(t)) == t,
{
    assert(((t as u32).wrapping_add(2082886200u32)).wrapping_sub(2082886200u32) as i32 == t)
        by (bit_vector);
}

/// Converting an old-Palm-epoch timestamp to the UNIX epoch and back yields
/// the original value, for every 32-bit stored value, under wraparound
/// arithmetic.
pub proof fn lemma_palm_to_unix_to_palm(t: u32)
    ensures
        spec_unix_to_palm(spec_palm_to_unix(t)) == t,
{
    assert((t.wrapping_sub(2082886200u32) as i32 as u32).wrapping_add(2082886200u32) == t)
        by (bit_vector);
}

/// Check whether the given raw timestamp uses the old Palm epoch.
///
/// The heuristic is the top bit of the stored value: a UNIX-epoch timestamp
/// is a signed count whose top bit is clear for all dates this format can
/// plausibly hold, while old-Palm-epoch counts of any date after 1972 have
/// it set.
pub fn is_palm_epoch(timestamp: u32) -> (r: bool)
    ensures
        r == spec_is_palm_epoch(timestamp),
        r == (timestamp & 0x8000_0000 != 0),
{
    timestamp & 0x8000_0000 != 0
}

/// Convert an old-Palm-epoch timestamp to a UNIX epoch timestamp.
pub fn palm_ts_to_unix_ts(timestamp: u32) -> (r: i32)
    ensures
        r == spec_palm_to_unix(timestamp),
{
    #[verifier::truncate]
    let r = timestamp.wrapping_sub(SECONDS_BETWEEN_PALM_EPOCHS) as i32;
    r
}

/// Convert a UNIX epoch timestamp to an old-Palm-epoch timestamp.
pub fn unix_ts_to_palm_ts(timestamp: i32) -> (r: u32)
    ensures
        r == spec_unix_to_palm(timestamp),
{
    #[verifier::truncate]
    let u = timestamp as u32;
    u.wrapping_add(SECONDS_BETWEEN_PALM_EPOCHS)
}

/// A raw Palm OS timestamp, in either epoch.
///
/// The contained value is exactly the 32-bit field read from a database
/// header; [`PalmTimestamp::as_unix_ts`] interprets it.
#[derive(Debug, Copy, Clone, PartialEq, Eq, Structural)]
pub struct PalmTimestamp(pub u32);

/// What a strftime-style rendering of a UNIX timestamp looks like.
/// The result depends only on the second count and the format string.
pub uninterp spec fn strftime_of(unix_seconds: i32, format: Seq<char>) -> Seq<char>;

impl PalmTimestamp {
    /// Return the timestamp as seconds since the UNIX epoch, converting
    /// from the old Palm epoch when the stored value uses it.
    pub fn as_unix_ts(&self) -> (r: i32)
        ensures
            r == spec_as_unix_ts(self.0),
    {
        if is_palm_epoch(self.0) {
            return palm_ts_to_unix_ts(self.0);
        }
        #[verifier::truncate]
        let r = self.0 as i32;
        r
    }

    /// Return the timestamp as a `strftime`-formatted string, using the
    /// formatting specifiers of `chrono::format::strftime`.
    pub fn strftime(&self, format: &str) -> (r: String)
        ensures
            r@ == strftime_of(spec_as_unix_ts(self.0), format@),
    {
        strftime_utc(self.as_unix_ts(), format)
    }
}

/// Relies on `chrono::DateTime::<Utc>::from_timestamp` and
/// `chrono::DateTime::format`: the rendering is a function of the second
/// count and the format string alone (UTC, no locale, no environment).
/// `from_timestamp` is `Some` for every 32-bit second count, which lies
/// well inside chrono's representable range.
#[verifier::external_body]
fn strftime_utc(unix_seconds: i32, format: &str) -> (r: String)
    ensures
        r@ == strftime_of(unix_seconds, format@),
{
    let datetime = chrono::DateTime::<chrono::Utc>::from_timestamp(unix_seconds as i64, 0).unwrap();
    let mut out = String::new();
    let _ = write!(out, "{}", datetime.format(format));
    out
}

impl Default for PalmTimestamp {
    /// The UNIX epoch itself, 1970-01-01 00:00:00, as a raw zero value.
    fn default() -> (r: Self)
        ensures
            r.0 == 0,
    {
        PalmTimestamp(0u32)
    }
}

} // verus!

use std::fmt::Write;
