//! Feature capabilities.

use vstd::prelude::*;

use crate::paths::lower_seq;

verus! {

/// What the library can do.
#[derive(Debug, Clone, Copy, PartialEq, Eq, Structural)]
pub struct FeatureInfo {
    /// Text extraction from documents.
    pub text_extraction: bool,
    /// Filename suggestion through a language model.
    pub llm_integration: bool,
    /// Directory scanning.
    pub directory_scanning: bool,
    /// Recursive directory processing.
    pub recursive_scanning: bool,
    /// Symbolic-link handling.
    pub symlink_support: bool,
    /// Asynchronous processing.
    pub async_processing: bool,
}

/// The display names of the features whose flag equals `enabled`, in the
/// fixed feature order.
pub open spec fn features_named(f: FeatureInfo, enabled: bool) -> Seq<Seq<char>> {
    let s = Seq::<Seq<char>>::empty();
    let s = if f.text_extraction == enabled {
        s.push("Text Extraction"@)
    } else {
        s
    };
    let s = if f.llm_integration == enabled {
        s.push("LLM Integration"@)
    } else {
        s
    };
    let s = if f.directory_scanning == enabled {
        s.push("Directory Scanning"@)
    } else {
        s
    };
    let s = if f.recursive_scanning == enabled {
        s.push("Recursive Scanning"@)
    } else {
        s
    };
    let s = if f.symlink_support == enabled {
        s.push("Symlink Support"@)
    } else {
        s
    };
    let s = if f.async_processing == enabled {
        s.push("Async Processing"@)
    } else {
        s
    };
    s
}

impl FeatureInfo {
    /// The current capabilities: everything on.
    pub fn new() -> (r: FeatureInfo)
        ensures
            r.text_extraction,
            r.llm_integration,
            r.directory_scanning,
            r.recursive_scanning,
            r.symlink_support,
            r.async_processing,
    {
        FeatureInfo {
            text_extraction: true,
            llm_integration: true,
            directory_scanning: true,
            recursive_scanning: true,
            symlink_support: true,
            async_processing: true,
        }
    }

    /// The names of the enabled features.
    pub fn enabled_features(&self) -> (r: Vec<&'static str>)
        ensures
            r.deep_view() == features_named(*self, true),
    {
        self.features_with(true)
    }

    /// The names of the disabled features.
    pub fn disabled_features(&self) -> (r: Vec<&'static str>)
        ensures
            r.deep_view() == features_named(*self, false),
    {
        self.features_with(false)
    }

    /// The names of the features whose flag equals `enabled`.
    fn features_with(&self, enabled: bool) -> (r: Vec<&'static str>)
        ensures
            r.deep_view() == features_named(*self, enabled),
    {
        let mut v: Vec<&'static str> = Vec::new();
        if self.text_extraction == enabled {
            v.push("Text Extraction");
        }
        if self.llm_integration == enabled {
            v.push("LLM Integration");
        }
        if self.directory_scanning == enabled {
            v.push("Directory Scanning");
        }
        if self.recursive_scanning == enabled {
            v.push("Recursive Scanning");
        }
        if self.symlink_support == enabled {
            v.push("Symlink Support");
        }
        if self.async_processing == enabled {
            v.push("Async Processing");
        }
        proof {
            assert(v.deep_view() =~= features_named(*self, enabled));
        }
        v
    }

    /// Whether the named feature is enabled; both the snake-case and the
    /// spaced spelling are accepted, case-insensitively.
    pub fn is_feature_enabled(&self, feature: &str) -> (r: bool)
        ensures
            r == {
                let l = lower_seq(feature@);
                if l == "text_extraction"@ || l == "text extraction"@ {
                    self.text_extraction
                } else if l == "llm_integration"@ || l == "llm integration"@ {
                    self.llm_integration
                } else if l == "directory_scanning"@ || l == "directory scanning"@ {
                    self.directory_scanning
                } else if l == "recursive_scanning"@ || l == "recursive scanning"@ {
                    self.recursive_scanning
                } else if l == "symlink_support"@ || l == "symlink support"@ {
                    self.symlink_support
                } else if l == "async_processing"@ || l == "async processing"@ {
                    self.async_processing
                } else {
                    false
                }
            },
    {
        let low = crate::paths::lower_ascii(feature);
        let l = low.as_str();
        if crate::paths::eq_str(l, "text_extraction") || crate::paths::eq_str(
            l,
            "text extraction",
        ) {
            self.text_extraction
        } else if crate::paths::eq_str(l, "llm_integration") || crate::paths::eq_str(
            l,
            "llm integration",
        ) {
            self.llm_integration
        } else if crate::paths::eq_str(l, "directory_scanning") || crate::paths::eq_str(
            l,
            "directory scanning",
        ) {
            self.directory_scanning
        } else if crate::paths::eq_str(l, "recursive_scanning") || crate::paths::eq_str(
            l,
            "recursive scanning",
        ) {
            self.recursive_scanning
        } else if crate::paths::eq_str(l, "symlink_support") || crate::paths::eq_str(
            l,
            "symlink support",
        ) {
            self.symlink_support
        } else if crate::paths::eq_str(l, "async_processing") || crate::paths::eq_str(
            l,
            "async processing",
        ) {
            self.async_processing
        } else {
            false
        }
    }
}

impl Default for FeatureInfo {
    /// The current capabilities.
    fn default() -> (r: FeatureInfo)
        ensures
            r.text_extraction && r.llm_integration && r.directory_scanning && r.recursive_scanning
                && r.symlink_support && r.async_processing,
    {
        FeatureInfo::new()
    }
}

} // verus!
