//! The ways in which packaging can fail.

use vstd::prelude::*;
use crate::text::texts;

verus! {

/// A failure of some step. Each variant carries what a person needs to act
/// on it: the offending triple, path or package name. No failure is
/// retried: the first one ends the run.
#[derive(Debug)]
pub enum PackagingError {
    /// The triple's vendor segment is not `apple`.
    NotApplePlatform { target: String },
    /// The triple has no operating system segment.
    MissingOs { target: String },
    /// The operating system segment is none of the supported ones.
    UnknownPlatform { os: String },
    /// The build profile is neither `dev` nor `release`.
    InvalidProfile { profile: String },
    /// The toolchain's description of a target is not JSON.
    InvalidTargetSpec,
    /// The toolchain's description of a target names no low-level target.
    MissingLlvmTarget,
    /// A build directory holds no static library, or more than one.
    AmbiguousArtifact { directory: String, candidates: Vec<String> },
    /// The static library of a slice has vanished.
    LibraryNotFound { path: String },
    /// A library group has no slice to take headers from.
    NoSlices,
    /// A directory of generated bindings or headers is missing.
    HeadersNotFound { path: String },
    /// An external tool ended without success.
    CommandFailed { command: String, status: String, stdout: Vec<u8>, stderr: Vec<u8> },
    /// A package with bindings comes from a registry.
    UnsupportedSourcing { id: String },
    /// The packages with bindings have no single top-level package.
    AmbiguousRoot { candidates: Vec<String> },
    /// The top-level package reaches a package that depends on itself.
    CyclicDependency { package: String },
    /// The tool was not started in the root of the workspace.
    NotWorkspaceRoot,
    /// The configuration file of a package could not be read.
    ConfigUnreadable { package: String },
    /// The configuration file of a package is not UTF-8.
    ConfigNotUtf8 { package: String },
    /// The configuration file of a package is not TOML.
    ConfigInvalid { package: String },
    /// The configuration file of a package lacks a setting.
    SettingMissing { key: String, package: String },
    /// No package with bindings bears the name.
    PackageNotFound { name: String },
    /// A directory that must hold exactly one entry holds none or several.
    NotOneSubdirectory { path: String, entries: Vec<String> },
    /// The binding source of a package has not been generated yet.
    WrapperFileMissing { path: String },
    /// A package has no directory of companion sources.
    SwiftCodeMissing { package: String, path: String },
    /// The root of the workspace is not an absolute path.
    RootNotAbsolute { path: String },
    /// No relative path leads from one path to another.
    NoRelativePath { path: String, base: String },
    /// An entry of the package name map has no `:`.
    MalformedNameMap { pair: String },
    /// The assembly was given an answer that does not fit the step it had
    /// asked for, or an answer after its end.
    UnexpectedAnswer,
    /// A file or a directory could not be read, written or moved.
    Io { message: String },
    /// The generated headers of a slice differ from those of the first
    /// slice of its group.
    HeadersDiffer { target: String },
    /// The headers of a platform of the bundle already have the directory
    /// that a patch would put them under: the bundle was patched before.
    AlreadyPatched { directory: String },
}

/// The mathematical content of a [`PackagingError`].
pub ghost enum PackagingErrorView {
    NotApplePlatform { target: Seq<char> },
    MissingOs { target: Seq<char> },
    UnknownPlatform { os: Seq<char> },
    InvalidProfile { profile: Seq<char> },
    InvalidTargetSpec,
    MissingLlvmTarget,
    AmbiguousArtifact { directory: Seq<char>, candidates: Seq<Seq<char>> },
    LibraryNotFound { path: Seq<char> },
    NoSlices,
    HeadersNotFound { path: Seq<char> },
    CommandFailed { command: Seq<char>, status: Seq<char>, stdout: Seq<u8>, stderr: Seq<u8> },
    UnsupportedSourcing { id: Seq<char> },
    AmbiguousRoot { candidates: Seq<Seq<char>> },
    CyclicDependency { package: Seq<char> },
    NotWorkspaceRoot,
    ConfigUnreadable { package: Seq<char> },
    ConfigNotUtf8 { package: Seq<char> },
    ConfigInvalid { package: Seq<char> },
    SettingMissing { key: Seq<char>, package: Seq<char> },
    PackageNotFound { name: Seq<char> },
    NotOneSubdirectory { path: Seq<char>, entries: Seq<Seq<char>> },
    WrapperFileMissing { path: Seq<char> },
    SwiftCodeMissing { package: Seq<char>, path: Seq<char> },
    RootNotAbsolute { path: Seq<char> },
    NoRelativePath { path: Seq<char>, base: Seq<char> },
    MalformedNameMap { pair: Seq<char> },
    UnexpectedAnswer,
    Io { message: Seq<char> },
    HeadersDiffer { target: Seq<char> },
    AlreadyPatched { directory: Seq<char> },
}

impl View for PackagingError {
    type V = PackagingErrorView;

    open spec fn view(&self) -> PackagingErrorView {
        match self {
            PackagingError::NotApplePlatform { target } => PackagingErrorView::NotApplePlatform {
                target: target@,
            },
            PackagingError::MissingOs { target } => PackagingErrorView::MissingOs {
                target: target@,
            },
            PackagingError::UnknownPlatform { os } => PackagingErrorView::UnknownPlatform {
                os: os@,
            },
            PackagingError::InvalidProfile { profile } => PackagingErrorView::InvalidProfile {
                profile: profile@,
            },
            PackagingError::InvalidTargetSpec => PackagingErrorView::InvalidTargetSpec,
            PackagingError::MissingLlvmTarget => PackagingErrorView::MissingLlvmTarget,
            PackagingError::AmbiguousArtifact { directory, candidates } => PackagingErrorView::AmbiguousArtifact {
                directory: directory@,
                candidates: texts(candidates@),
            },
            PackagingError::LibraryNotFound { path } => PackagingErrorView::LibraryNotFound {
                path: path@,
            },
            PackagingError::NoSlices => PackagingErrorView::NoSlices,
            PackagingError::HeadersNotFound { path } => PackagingErrorView::HeadersNotFound {
                path: path@,
            },
            PackagingError::CommandFailed { command, status, stdout, stderr } => PackagingErrorView::CommandFailed {
                command: command@,
                status: status@,
                stdout: stdout@,
                stderr: stderr@,
            },
            PackagingError::UnsupportedSourcing { id } => PackagingErrorView::UnsupportedSourcing {
                id: id@,
            },
            PackagingError::AmbiguousRoot { candidates } => PackagingErrorView::AmbiguousRoot {
                candidates: texts(candidates@),
            },
            PackagingError::CyclicDependency { package } => PackagingErrorView::CyclicDependency {
                package: package@,
            },
            PackagingError::NotWorkspaceRoot => PackagingErrorView::NotWorkspaceRoot,
            PackagingError::ConfigUnreadable { package } => PackagingErrorView::ConfigUnreadable {
                package: package@,
            },
            PackagingError::ConfigNotUtf8 { package } => PackagingErrorView::ConfigNotUtf8 {
                package: package@,
            },
            PackagingError::ConfigInvalid { package } => PackagingErrorView::ConfigInvalid {
                package: package@,
            },
            PackagingError::SettingMissing { key, package } => PackagingErrorView::SettingMissing {
                key: key@,
                package: package@,
            },
            PackagingError::PackageNotFound { name } => PackagingErrorView::PackageNotFound {
                name: name@,
            },
            PackagingError::NotOneSubdirectory { path, entries } => PackagingErrorView::NotOneSubdirectory {
                path: path@,
                entries: texts(entries@),
            },
            PackagingError::WrapperFileMissing { path } => PackagingErrorView::WrapperFileMissing {
                path: path@,
            },
            PackagingError::SwiftCodeMissing { package, path } => PackagingErrorView::SwiftCodeMissing {
                package: package@,
                path: path@,
            },
            PackagingError::RootNotAbsolute { path } => PackagingErrorView::RootNotAbsolute {
                path: path@,
            },
            PackagingError::NoRelativePath { path, base } => PackagingErrorView::NoRelativePath {
                path: path@,
                base: base@,
            },
            PackagingError::MalformedNameMap { pair } => PackagingErrorView::MalformedNameMap {
                pair: pair@,
            },
            PackagingError::UnexpectedAnswer => PackagingErrorView::UnexpectedAnswer,
            PackagingError::Io { message } => PackagingErrorView::Io { message: message@ },
            PackagingError::HeadersDiffer { target } => PackagingErrorView::HeadersDiffer {
                target: target@,
            },
            PackagingError::AlreadyPatched { directory } => PackagingErrorView::AlreadyPatched {
                directory: directory@,
            },
        }
    }
}

} // verus!
