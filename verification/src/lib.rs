//! Packaging of cross-compiled static libraries into one multi-platform
//! bundle, together with the model of the packages that need generated
//! bindings.
//!
//! The library decides and does not act. It sorts the triples into library
//! groups by platform ([`xcframework`]), names the steps that assemble the
//! bundle one after the other ([`assembly`]), finds the root of the
//! packages with bindings and walks the tree below it ([`project`],
//! [`package_graph`]), and describes the targets of the package manifest
//! ([`spm`]). Listing directories, running the compiler and the platform
//! tools, and moving files is left to the caller, who hands in what was
//! found.
//!
//! Every function is verified against its contract. The contracts of the
//! functions that reach into other crates rest on what is stated, without
//! proof, of the calls they make: of paths in [`paths`], of JSON in
//! [`target_spec`], and of TOML in [`config`].

pub mod apple_platform;
pub mod assembly;
pub mod cargo_build;
pub mod cli;
pub mod config;
pub mod error;
pub mod package_graph;
pub mod paths;
pub mod project;
pub mod spm;
pub mod target_spec;
pub mod text;
pub mod utils;
pub mod xcframework;

use vstd::prelude::*;
use crate::cli::{Action, Cli};
use crate::error::PackagingError;

verus! {

/// What the tool is to do for a parsed command line, on a host that
/// `host_is_macos` tells of.
pub fn cli_main(cli: Cli, host_is_macos: bool) -> (action: Result<Action, PackagingError>)
    ensures
        crate::cli::action_of(cli, host_is_macos, action),
{
    cli.execute(host_is_macos)
}

} // verus!
