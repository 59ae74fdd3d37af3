//! Numbers as people read them: byte counts with a unit, and durations.
//!
//! The texts come from the `pretty-bytes-typed` and `humantime` crates. What
//! those crates return is not spelled out here; each text has a name, and
//! the functions below are believed to return the text of that name.

use vstd::prelude::*;

verus! {

/// The text that `pretty_bytes_typed::pretty_bytes` shows for `num` bytes,
/// rounded to `round_places` decimal places where some are given: a number
/// and one of the units B, KB, MB, GB, TB, PB, EB, each a thousand of the
/// one before.
pub uninterp spec fn pretty_bytes_text(num: u64, round_places: Option<u8>) -> Seq<char>;

/// The text that `pretty_bytes_typed::pretty_bytes_binary` shows for `num`
/// bytes, rounded to `round_places` decimal places where some are given: a
/// number and one of the units B, KiB, MiB, GiB, TiB, PiB, EiB, each 1024 of
/// the one before.
pub uninterp spec fn pretty_bytes_binary_text(num: u64, round_places: Option<u8>) -> Seq<char>;

/// The text that `humantime::format_duration` shows for a duration of `secs`
/// whole seconds, such as `2h 37m`.
pub uninterp spec fn duration_text(secs: u64) -> Seq<char>;

/// The most decimal places to which a byte count can be rounded here. Up to
/// this many, the power of ten that the rounding multiplies by is a number
/// that the machine holds exactly.
pub const MAX_ROUND_PLACES: u8 = 22;

/// Calls `pretty_bytes_typed::pretty_bytes` and takes the text that its
/// result displays as. Believed: the text is the one named
/// [`pretty_bytes_text`]; the call computes it from its arguments alone and
/// does not panic.
#[verifier::external_body]
pub(crate) fn pretty_bytes(num: u64, round_places: Option<u8>) -> (text: String)
    requires
        round_places matches Some(places) ==> places <= MAX_ROUND_PLACES,
    ensures
        text@ == pretty_bytes_text(num, round_places),
{
    pretty_bytes_typed::pretty_bytes(num, round_places).to_string()
}

/// Calls `pretty_bytes_typed::pretty_bytes_binary` and takes the text that
/// its result displays as. Believed: the text is the one named
/// [`pretty_bytes_binary_text`]; the call computes it from its arguments
/// alone and does not panic.
#[verifier::external_body]
pub(crate) fn pretty_bytes_binary(num: u64, round_places: Option<u8>) -> (text: String)
    requires
        round_places matches Some(places) ==> places <= MAX_ROUND_PLACES,
    ensures
        text@ == pretty_bytes_binary_text(num, round_places),
{
    pretty_bytes_typed::pretty_bytes_binary(num, round_places).to_string()
}

/// Calls `humantime::format_duration` on a duration of `secs` whole seconds
/// and takes the text that its result displays as. Believed: the text is the
/// one named [`duration_text`]; the call computes it from its argument alone
/// and does not panic.
#[verifier::external_body]
pub(crate) fn format_duration(secs: u64) -> (text: String)
    ensures
        text@ == duration_text(secs),
{
    humantime::format_duration(std::time::Duration::from_secs(secs)).to_string()
}

} // verus!
