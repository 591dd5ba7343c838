use time::error::IndeterminateOffset;
use time::OffsetDateTime;
use vstd::prelude::*;

verus! {

/// time::OffsetDateTime, carried through as an opaque timestamp.
#[verifier::external_type_specification]
#[verifier::external_body]
pub struct ExOffsetDateTime(OffsetDateTime);

/// time::error::IndeterminateOffset, the error of a local time reading.
#[verifier::external_type_specification]
#[verifier::external_body]
pub struct ExIndeterminateOffset(IndeterminateOffset);

/// Relies on the derived `Clone` of time::OffsetDateTime, a `Copy` type: the
/// clone is the same value.
pub assume_specification[ <OffsetDateTime as Clone>::clone ](t: &OffsetDateTime) -> (r: OffsetDateTime)
    ensures
        r == *t,
;

/// Relies on time::OffsetDateTime::now_local: the current time in the local
/// offset, or an error when that offset cannot be determined.
pub assume_specification[ OffsetDateTime::now_local ]() -> Result<OffsetDateTime, IndeterminateOffset>;

/// Relies on time::OffsetDateTime::now_utc: the current time in UTC; it always succeeds.
pub assume_specification[ OffsetDateTime::now_utc ]() -> OffsetDateTime;

/// Completes a local time reading: the reading itself when it succeeded,
/// otherwise the current UTC time, so that no failure reaches the caller.
pub fn fallback_time(local: Result<OffsetDateTime, IndeterminateOffset>) -> (r: OffsetDateTime)
    ensures
        local is Ok ==> r == local->Ok_0,
{
    match local {
        Ok(t) => t,
        Err(_) => OffsetDateTime::now_utc(),
    }
}

/// The current time, preferring the local offset and silently falling back
/// to UTC; it never fails.
pub fn current_time() -> (r: OffsetDateTime) {
    fallback_time(OffsetDateTime::now_local())
}

} // verus!
