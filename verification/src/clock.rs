use vstd::prelude::*;

verus! {

/// Relies on std::time::SystemTime::now and SystemTime::duration_since:
/// reads the wall clock, converted to whole milliseconds since
/// std::time::UNIX_EPOCH. A clock that reads before the epoch is reported as
/// zero, so the result never underflows. Nothing more can be promised of a
/// clock sample: every contract downstream holds for every value this
/// returns.
#[verifier::external_body]
pub(crate) fn now_millis() -> u64 {
    match std::time::SystemTime::now().duration_since(std::time::UNIX_EPOCH) {
        Ok(d) => {
            let ms = d.as_millis();
            if ms > u64::MAX as u128 {
                u64::MAX
            } else {
                ms as u64
            }
        },
        Err(_) => 0,
    }
}

} // verus!
