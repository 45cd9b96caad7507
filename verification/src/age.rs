use vstd::prelude::*;

verus! {

/// The smallest POSIX-seconds value the date library can represent.
pub const MIN_EPOCH_SECONDS: i64 = -8334601228800;

/// The largest POSIX-seconds value the date library can represent.
pub const MAX_EPOCH_SECONDS: i64 = 8210266876799;

/// Whether a POSIX-seconds value lies in the representable range of the
/// date library.  A commit timestamp outside this range cannot be converted
/// to a calendar time and aborts the collection pass.
pub open spec fn epoch_in_range(seconds: int) -> bool {
    MIN_EPOCH_SECONDS <= seconds <= MAX_EPOCH_SECONDS
}

/// The age of a moment `then` as seen from `now`, in whole days, truncated
/// toward zero.  A moment in the future has a non-positive age.
pub open spec fn age_in_whole_days(now: int, then: int) -> int {
    if now >= then {
        (now - then) / 86400
    } else {
        -((then - now) / 86400)
    }
}

/// Relies on chrono's `DateTime::<Utc>::from_timestamp`: it returns `Some`
/// exactly when the seconds value maps to a day number inside the library's
/// calendar range, which is the closed interval
/// [`MIN_EPOCH_SECONDS`, `MAX_EPOCH_SECONDS`].
#[verifier::external_body]
pub(crate) fn epoch_convertible(seconds: i64) -> (r: bool)
    ensures
        r == epoch_in_range(seconds as int),
{
    chrono::DateTime::<chrono::Utc>::from_timestamp(seconds, 0).is_some()
}

/// Relies on chrono's `Local::now`: the current moment always carries a
/// timestamp inside the library's representable range.
#[verifier::external_body]
pub(crate) fn current_epoch_seconds() -> (r: i64)
    ensures
        epoch_in_range(r as int),
{
    chrono::Local::now().timestamp()
}

/// Computes the whole-day age of `then` as seen from `now`.
pub fn age_days(now: i64, then: i64) -> (r: i64)
    ensures
        r == age_in_whole_days(now as int, then as int),
{
    if now >= then {
        let diff: u64 = ((now as i128) - (then as i128)) as u64;
        let days: u64 = diff / 86400;
        assert(days <= u64::MAX as int / 86400);
        days as i64
    } else {
        let diff: u64 = ((then as i128) - (now as i128)) as u64;
        let days: u64 = diff / 86400;
        assert(days <= u64::MAX as int / 86400);
        -(days as i64)
    }
}

} // verus!
