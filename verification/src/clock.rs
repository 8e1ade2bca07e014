use vstd::prelude::*;

verus! {

/// Relies on `std::time::SystemTime::now`; the remaining calls only read the
/// clock value out as whole milliseconds since `std::time::UNIX_EPOCH`.
/// Returns `None` when the clock reads earlier than the epoch. The value
/// depends on the moment of the call, so nothing is promised of it.
#[verifier::external_body]
pub(crate) fn now_millis() -> Option<u64> {
    match std::time::SystemTime::now().duration_since(std::time::UNIX_EPOCH) {
        Ok(d) => Some(d.as_millis() as u64),
        Err(_) => None,
    }
}

} // verus!
