//! System and runtime information.

use vstd::prelude::*;

use crate::fmt_util::{dec_spec, usize_str};
use crate::paths::{eq_str, lower_ascii, lower_seq};
use crate::sys::cpu_count;

verus! {

/// The host the library runs on.
#[derive(Debug, Clone)]
pub struct SystemInfo {
    /// The operating system's name.
    pub os: String,
    /// The CPU architecture's name.
    pub arch: String,
    /// How many logical CPUs are available.
    pub cpu_cores: usize,
}

impl SystemInfo {
    /// System information for the given platform names; the CPU count is
    /// read from the machine and is at least one.
    pub fn new(os: String, arch: String) -> (r: SystemInfo)
        ensures
            r.os == os,
            r.arch == arch,
            r.cpu_cores >= 1,
    {
        SystemInfo { os, arch, cpu_cores: cpu_count() }
    }

    /// A one-line description of the system.
    pub fn description(&self) -> (r: String)
        ensures
            r@ == self.os@ + " "@ + self.arch@ + " ("@ + dec_spec(self.cpu_cores as int)
                + " cores)"@,
    {
        let mut s = self.os.clone();
        s.append(" ");
        s.append(self.arch.as_str());
        s.append(" (");
        let c = usize_str(self.cpu_cores);
        s.append(c.as_str());
        s.append(" cores)");
        s
    }

    /// Whether the system's name matches, case-insensitively.
    pub fn is_os(&self, os: &str) -> (r: bool)
        ensures
            r == (lower_seq(self.os@) == lower_seq(os@)),
    {
        let a = lower_ascii(self.os.as_str());
        let b = lower_ascii(os);
        eq_str(a.as_str(), b.as_str())
    }

    /// Whether the system is Unix-like.
    pub fn is_unix_like(&self) -> (r: bool)
        ensures
            r == (self.os@ == "linux"@ || self.os@ == "macos"@ || self.os@ == "freebsd"@
                || self.os@ == "openbsd"@ || self.os@ == "netbsd"@),
    {
        let s = self.os.as_str();
        eq_str(s, "linux") || eq_str(s, "macos") || eq_str(s, "freebsd") || eq_str(s, "openbsd")
            || eq_str(s, "netbsd")
    }

    /// Whether the system is Windows.
    pub fn is_windows(&self) -> (r: bool)
        ensures
            r == (self.os@ == "windows"@),
    {
        eq_str(self.os.as_str(), "windows")
    }

    /// Whether parallel work is likely to help here.
    pub fn supports_parallel_processing(&self) -> (r: bool)
        ensures
            r == (self.cpu_cores > 1),
    {
        self.cpu_cores > 1
    }
}

} // verus!
