//! The wall clock.
use vstd::prelude::*;

verus! {

/// `SystemTime::elapsed` of the Unix epoch: the whole seconds since then and
/// the nanoseconds within the second, or nothing while the clock stands before
/// the epoch. Which instant it is, nothing here says; the nanoseconds are fewer
/// than make a second.
#[verifier::external_body]
pub(crate) fn since_epoch() -> (r: Option<(u64, u32)>)
    ensures
        r matches Some((_, nanos)) ==> nanos < 1_000_000_000,
{
    std::time::SystemTime::UNIX_EPOCH.elapsed().ok().map(|d| (d.as_secs(), d.subsec_nanos()))
}

} // verus!
