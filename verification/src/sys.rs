//! The library's few windows onto the machine: the clock and the CPU
//! count.  Each is a trusted wrapper around one outside call; everything
//! computed from their results is verified.

use vstd::prelude::*;

verus! {

/// Relies on std's `SystemTime::now` and `duration_since(UNIX_EPOCH)`:
/// the clock as whole seconds since the epoch.  A clock set before the
/// epoch reads as zero; nothing else can be promised of a clock, and no
/// reading panics.
#[verifier::external_body]
fn now_epoch_secs() -> u64 {
    match std::time::SystemTime::now().duration_since(std::time::UNIX_EPOCH) {
        Ok(d) => d.as_secs(),
        Err(_) => 0,
    }
}

/// The current time as seconds since the epoch.
pub fn now_unix_secs() -> u64 {
    now_epoch_secs()
}

/// The text chrono renders for a timestamp as `%Y-%m-%d %H:%M:%S` in UTC:
/// a function of the timestamp alone.
pub uninterp spec fn utc_string_of(ts: int) -> Seq<char>;

/// Relies on chrono's `DateTime::<Utc>::from_timestamp` and its `format`
/// with `%Y-%m-%d %H:%M:%S`: the rendering depends on the timestamp alone
/// (an out-of-range timestamp renders as the empty string).
#[verifier::external_body]
pub(crate) fn format_utc(ts: i64) -> (r: String)
    ensures
        r@ == utc_string_of(ts as int),
{
    match chrono::DateTime::from_timestamp(ts, 0) {
        Some(dt) => dt.format("%Y-%m-%d %H:%M:%S").to_string(),
        None => String::new(),
    }
}

/// Relies on `num_cpus::get`: the number of logical CPUs, which its
/// documentation promises is at least one.
#[verifier::external_body]
pub(crate) fn cpu_count() -> (r: usize)
    ensures
        r >= 1,
{
    num_cpus::get()
}

} // verus!
