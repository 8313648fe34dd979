//! The wall clock, read through chrono.

use vstd::prelude::*;

verus! {

/// The local time of this moment in RFC 3339 form, such as
/// `2024-05-01T12:34:56.789+02:00`: `std::time::SystemTime::now()`, turned
/// into a `chrono::DateTime<Local>` by chrono's `From<SystemTime>`, then
/// `DateTime::to_rfc3339`. That conversion also takes a clock that reads a
/// time before 1970. Only what holds of every moment is claimed: the text is
/// never empty, since a year, a month and a day are always written.
#[verifier::external_body]
pub(crate) fn local_timestamp() -> (now: String)
    ensures
        now@.len() > 0,
{
    chrono::DateTime::<chrono::Local>::from(std::time::SystemTime::now()).to_rfc3339()
}

} // verus!
