//! The operating systems of the supported vendor family.

use vstd::prelude::*;
use vstd::string::StringExecFns;
use crate::error::{PackagingError, PackagingErrorView};
use crate::spm::DeploymentTargets;
use crate::text::text_eq;

verus! {

/// One operating system that a bundle can hold a library for.
#[derive(Debug, PartialEq, Eq, Hash, Clone, Copy, Structural)]
pub enum ApplePlatform {
    MacOS,
    #[allow(clippy::upper_case_acronyms)]
    IOS,
    TvOS,
    WatchOS,
}

/// The character content of each string slice of a sequence.
pub open spec fn str_texts(v: Seq<&'static str>) -> Seq<Seq<char>> {
    v.map_values(|s: &'static str| s@)
}

impl ApplePlatform {
    /// The triples that are built for this platform, in build order.
    pub open spec fn triples(self) -> Seq<Seq<char>> {
        match self {
            ApplePlatform::IOS => seq![
                "aarch64-apple-ios"@,
                "x86_64-apple-ios"@,
                "aarch64-apple-ios-sim"@,
            ],
            ApplePlatform::MacOS => seq!["x86_64-apple-darwin"@, "aarch64-apple-darwin"@],
            ApplePlatform::WatchOS => seq![
                "arm64_32-apple-watchos"@,
                "x86_64-apple-watchos-sim"@,
                "aarch64-apple-watchos-sim"@,
            ],
            ApplePlatform::TvOS => seq!["aarch64-apple-tvos"@, "aarch64-apple-tvos-sim"@],
        }
    }

    /// The name under which the platform is shown and under which its
    /// merged library is kept.
    pub open spec fn name(self) -> Seq<char> {
        match self {
            ApplePlatform::MacOS => "macos"@,
            ApplePlatform::IOS => "ios"@,
            ApplePlatform::TvOS => "tvos"@,
            ApplePlatform::WatchOS => "watchos"@,
        }
    }

    /// The platform that an operating system segment of a triple stands
    /// for, if any. The desktop system goes by two names: `darwin`, as the
    /// compiler's triples have it, and `macos`.
    pub open spec fn of_os(os: Seq<char>) -> Option<ApplePlatform> {
        if os == "darwin"@ || os == "macos"@ {
            Some(ApplePlatform::MacOS)
        } else if os == "ios"@ {
            Some(ApplePlatform::IOS)
        } else if os == "tvos"@ {
            Some(ApplePlatform::TvOS)
        } else if os == "watchos"@ {
            Some(ApplePlatform::WatchOS)
        } else {
            None
        }
    }

    /// The environment variable that carries the platform's deployment
    /// target, and the target itself.
    pub open spec fn deployment_target(self) -> (Seq<char>, Seq<char>) {
        match self {
            ApplePlatform::IOS => ("IOS_DEPLOYMENT_TARGET"@, "13.0"@),
            ApplePlatform::MacOS => ("MACOSX_DEPLOYMENT_TARGET"@, "11.0"@),
            ApplePlatform::TvOS => ("TVOS_DEPLOYMENT_TARGET"@, "13.0"@),
            ApplePlatform::WatchOS => ("WATCHOS_DEPLOYMENT_TARGET"@, "8.0"@),
        }
    }

    /// Every supported platform.
    pub fn all() -> (platforms: Vec<Self>)
        ensures
            platforms@ == seq![
                ApplePlatform::MacOS,
                ApplePlatform::IOS,
                ApplePlatform::TvOS,
                ApplePlatform::WatchOS,
            ],
    {
        vec![Self::MacOS, Self::IOS, Self::TvOS, Self::WatchOS]
    }

    /// The triples to build for this platform.
    pub fn target_triples(&self) -> (triples: Vec<&'static str>)
        ensures
            str_texts(triples@) == self.triples(),
    {
        let triples = match self {
            Self::IOS => vec!["aarch64-apple-ios", "x86_64-apple-ios", "aarch64-apple-ios-sim"],
            Self::MacOS => vec!["x86_64-apple-darwin", "aarch64-apple-darwin"],
            Self::WatchOS => vec![
                "arm64_32-apple-watchos",
                "x86_64-apple-watchos-sim",
                "aarch64-apple-watchos-sim",
            ],
            Self::TvOS => vec!["aarch64-apple-tvos", "aarch64-apple-tvos-sim"],
        };
        assert(str_texts(triples@) =~= self.triples());
        triples
    }

    /// Whether the platform's standard library has to be built from source,
    /// which only a nightly toolchain can do.
    pub fn requires_nightly_toolchain(&self) -> (nightly: bool)
        ensures
            nightly == (*self == ApplePlatform::TvOS || *self == ApplePlatform::WatchOS),
    {
        matches!(self, Self::TvOS | Self::WatchOS)
    }

    /// The environment variable to set for a build for this platform, and
    /// its value.
    pub fn deployment_targets_env(&self) -> (env: (&'static str, &'static str))
        ensures
            (env.0@, env.1@) == self.deployment_target(),
    {
        match self {
            Self::IOS => ("IOS_DEPLOYMENT_TARGET", DeploymentTargets::ios()),
            Self::MacOS => ("MACOSX_DEPLOYMENT_TARGET", DeploymentTargets::macos()),
            Self::TvOS => ("TVOS_DEPLOYMENT_TARGET", DeploymentTargets::tvos()),
            Self::WatchOS => ("WATCHOS_DEPLOYMENT_TARGET", DeploymentTargets::watchos()),
        }
    }

    /// The platform named by the operating system segment of a triple.
    pub fn try_from(s: &str) -> (platform: Result<Self, PackagingError>)
        ensures
            match platform {
                Ok(p) => ApplePlatform::of_os(s@) == Some(p),
                Err(e) => ApplePlatform::of_os(s@) is None && e@ == (PackagingErrorView::UnknownPlatform {
                    os: s@,
                }),
            },
    {
        if text_eq(s, "darwin") || text_eq(s, "macos") {
            Ok(ApplePlatform::MacOS)
        } else if text_eq(s, "ios") {
            Ok(ApplePlatform::IOS)
        } else if text_eq(s, "tvos") {
            Ok(ApplePlatform::TvOS)
        } else if text_eq(s, "watchos") {
            Ok(ApplePlatform::WatchOS)
        } else {
            Err(PackagingError::UnknownPlatform { os: String::from_str(s) })
        }
    }

    /// The platform's name as text.
    pub fn to_string(&self) -> (text: String)
        ensures
            text@ == self.name(),
    {
        let name = match self {
            ApplePlatform::MacOS => "macos",
            ApplePlatform::IOS => "ios",
            ApplePlatform::TvOS => "tvos",
            ApplePlatform::WatchOS => "watchos",
        };
        String::from_str(name)
    }
}

} // verus!
