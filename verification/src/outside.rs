//! Trusted declarations for the outside calls the library makes at its
//! edges: base64 decoding and wall-clock timing.

use vstd::prelude::*;

verus! {

/// What base64 decoding yields for a string: the decoded bytes, or
/// nothing when the string is not valid base64.  The result depends on
/// the characters alone.
pub uninterp spec fn spec_base64_decoding(s: Seq<char>) -> Option<Seq<u8>>;

/// Relies on `base64::decode`: decodes the standard alphabet, failing
/// on invalid input; the error is rendered to text here.
#[verifier::external_body]
pub fn decode_base64(s: &str) -> (r: Result<Vec<u8>, String>)
    ensures
        r is Ok <==> spec_base64_decoding(s@) is Some,
        r matches Ok(v) ==> Some(v@) == spec_base64_decoding(s@),
{
    base64::decode(s).map_err(|e| e.to_string())
}

/// The monotonic clock value type of the standard library.
#[verifier::external_type_specification]
#[verifier::external_body]
pub struct ExInstant(std::time::Instant);

/// Relies on `Instant::now`: a reading of the monotonic clock; nothing
/// is assumed of its value.
#[verifier::external_body]
pub fn instant_now() -> std::time::Instant {
    std::time::Instant::now()
}

/// Relies on `Instant::elapsed`: the time since the reading; nothing
/// is assumed of its value.
#[verifier::external_body]
pub fn instant_elapsed(start: &std::time::Instant) -> std::time::Duration {
    start.elapsed()
}

/// Relies on `Duration::as_micros`: the duration in whole
/// microseconds, saturated into sixty-four bits; nothing is assumed of
/// its value.
#[verifier::external_body]
pub fn duration_micros(d: &std::time::Duration) -> u64 {
    let m = d.as_micros();
    if m > u64::MAX as u128 {
        u64::MAX
    } else {
        m as u64
    }
}

} // verus!
