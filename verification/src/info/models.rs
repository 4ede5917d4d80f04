//! The combined capability report.

use vstd::prelude::*;

use crate::info::features::FeatureInfo;
use crate::info::formats::{supported_extension_list, SupportedFormats};
use crate::info::formatter::{formats_long_spec, summary_spec, system_long_spec, InfoFormatter};
use crate::info::system::SystemInfo;
use crate::info::version::VersionInfo;

verus! {

/// Everything the library reports about itself.
#[derive(Debug, Clone)]
pub struct FileFairyInfo {
    /// Version and build information.
    pub version: VersionInfo,
    /// The supported file formats.
    pub supported_formats: SupportedFormats,
    /// The feature capabilities.
    pub features: FeatureInfo,
    /// The system the library runs on.
    pub system: SystemInfo,
}

impl FileFairyInfo {
    /// A report for the given version and platform names; formats and
    /// features are the library's own, the CPU count is the machine's.
    pub fn new(version: String, os: String, arch: String) -> (r: FileFairyInfo)
        ensures
            r.version.version == version,
            r.system.os == os,
            r.system.arch == arch,
            r.system.cpu_cores >= 1,
            r.supported_formats.total_extensions == supported_extension_list().len(),
            r.features.text_extraction && r.features.llm_integration,
    {
        FileFairyInfo {
            version: VersionInfo::new(version),
            supported_formats: SupportedFormats::new(),
            features: FeatureInfo::new(),
            system: SystemInfo::new(os, arch),
        }
    }

    /// The whole summary as text.
    pub fn format_summary(&self) -> (r: String)
        ensures
            r@ == summary_spec(*self),
    {
        InfoFormatter::format_summary(self)
    }

    /// The formats listing as text.
    pub fn format_formats(&self) -> (r: String)
        ensures
            r@ == formats_long_spec(self.supported_formats),
    {
        InfoFormatter::format_formats(&self.supported_formats)
    }

    /// The system listing as text.
    pub fn format_system(&self) -> (r: String)
        ensures
            r@ == system_long_spec(self.system, self.version),
    {
        InfoFormatter::format_system(&self.system, &self.version)
    }
}

impl Default for FileFairyInfo {
    /// A report with a placeholder platform.
    fn default() -> (r: FileFairyInfo)
        ensures
            r.version.version@ == "0.1.0"@,
            r.system.cpu_cores >= 1,
    {
        FileFairyInfo::new("0.1.0".to_owned(), "unknown".to_owned(), "unknown".to_owned())
    }
}

} // verus!
