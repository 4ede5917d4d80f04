//! Version and build information.

use vstd::prelude::*;

use crate::sys::{format_utc, now_unix_secs};

verus! {

/// The library's version and when this information was built.
#[derive(Debug, Clone)]
pub struct VersionInfo {
    /// The version string.
    pub version: String,
    /// When this information was built, as text ending in `UTC`.
    pub build_date: String,
    /// The commit built from, when known.
    pub git_hash: Option<String>,
}

impl VersionInfo {
    /// Version information carrying the given version string, stamped
    /// with the current time.
    pub fn new(version: String) -> (r: VersionInfo)
        ensures
            r.version == version,
            r.build_date@.len() >= 4,
            r.build_date@.subrange(r.build_date@.len() - 4, r.build_date@.len() as int)
                == " UTC"@,
            r.git_hash is None,
    {
        let now = now_unix_secs();
        #[verifier::truncate]
        let ts = now as i64;
        let mut d = format_utc(ts);
        d.append(" UTC");
        proof {
            reveal_strlit(" UTC");
            assert(d@.subrange(d@.len() - 4, d@.len() as int) =~= " UTC"@);
        }
        VersionInfo { version, build_date: d, git_hash: None }
    }
}

} // verus!
