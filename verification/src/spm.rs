//! What the generated package manifest is made of: for each package with
//! bindings a public target and an internal target, with the edges between
//! them.

use vstd::prelude::*;
use vstd::string::StringExecFns;
use crate::error::{PackagingError, PackagingErrorView};
use crate::paths::{absolute, difference, is_absolute, join, joined, starts_with, within};
use crate::project::{text_result, PackageNode, Project, UniffiPackage};
use crate::text::{push_text, text_eq, texts};
use crate::utils::{extension_of, has_extension, relative_path, FileEntry};

verus! {

/// The oldest release of each operating system that the package supports.
pub struct DeploymentTargets;

impl DeploymentTargets {
    pub fn ios() -> (version: &'static str)
        ensures
            version@ == "13.0"@,
    {
        "13.0"
    }

    pub fn macos() -> (version: &'static str)
        ensures
            version@ == "11.0"@,
    {
        "11.0"
    }

    pub fn tvos() -> (version: &'static str)
        ensures
            version@ == "13.0"@,
    {
        "13.0"
    }

    pub fn watchos() -> (version: &'static str)
        ensures
            version@ == "8.0"@,
    {
        "8.0"
    }
}

/// The public target of a package: its hand-written sources.
#[derive(Debug)]
pub struct Target {
    pub name: String,
    pub library_source_path: String,
    pub test_source_path: String,
    /// The public targets of the package's dependencies.
    pub dependencies: Vec<String>,
    pub has_test_resources: bool,
}

/// The internal target of a package: its generated binding source.
#[derive(Debug)]
pub struct InternalTarget {
    pub name: String,
    pub swift_wrapper_dir: String,
    pub source_file: String,
    /// The binding sources of the other packages, which stand in the same
    /// directory.
    pub excluded_source_files: Vec<String>,
    /// The internal targets of the package's dependencies.
    pub dependencies: Vec<String>,
}

/// Everything that the package manifest is written from.
#[derive(Debug)]
pub struct PackageTemplate {
    pub package_name: String,
    pub ffi_module_name: String,
    pub project_name: String,
    pub targets: Vec<Target>,
    pub internal_targets: Vec<InternalTarget>,
    pub ios_version: &'static str,
    pub macos_version: &'static str,
    pub tvos_version: &'static str,
    pub watchos_version: &'static str,
}

/// Where the hand-written sources of a package are used from.
#[derive(Debug)]
pub struct Vendoring {
    /// The directory of the sources as the manifest refers to it.
    pub directory: String,
    /// The directory to copy there first, where the package lies outside
    /// the workspace: `directory` is then emptied and created anew, and
    /// filled with a copy.
    pub copy_from: Option<String>,
}

/// The one entry of the directory `path`, given its listing.
pub fn get_only_subdir(path: &str, entries: &Vec<String>) -> (only: Result<String, PackagingError>)
    ensures
        match only {
            Ok(p) => entries@.len() == 1 && p@ == joined(path@, entries@[0]@),
            Err(e) => entries@.len() != 1 && e@ == (PackagingErrorView::NotOneSubdirectory {
                path: path@,
                entries: texts(entries@),
            }),
        },
{
    if entries.len() != 1 {
        let mut found: Vec<String> = Vec::new();
        crate::text::push_texts(&mut found, entries);
        assert(texts(found@) =~= texts(entries@));
        return Err(
            PackagingError::NotOneSubdirectory { path: String::from_str(path), entries: found },
        );
    }
    Ok(join(path, entries[0].as_str()))
}

/// The names of the binding sources among the first `count` entries of
/// the directory of binding sources, but for `source_file`.
pub open spec fn other_sources_among(entries: Seq<FileEntry>, source_file: Seq<char>, count: nat) -> Seq<
    Seq<char>,
>
    decreases count,
{
    if count == 0 || count > entries.len() {
        Seq::empty()
    } else {
        let rest = other_sources_among(entries, source_file, (count - 1) as nat);
        let entry = entries[count - 1];
        if entry.is_file && extension_of(entry.name@) == Some("swift"@) && entry.name@
            != source_file {
            rest.push(entry.name@)
        } else {
            rest
        }
    }
}

/// Whether an entry is named `name`.
pub open spec fn lists(entries: Seq<FileEntry>, name: Seq<char>) -> bool {
    exists|k: int| 0 <= k < entries.len() && (#[trigger] entries[k]).name@ == name
}

/// The names of the internal modules of the first `count` dependencies of
/// a package, or the failure of the first that has none.
pub open spec fn internal_names_among(package: PackageNode, count: nat) -> Result<
    Seq<Seq<char>>,
    PackagingErrorView,
>
    decreases count,
{
    if count == 0 || count > package.dependencies.len() {
        Ok(Seq::empty())
    } else {
        match internal_names_among(package, (count - 1) as nat) {
            Err(e) => Err(e),
            Ok(rest) => match package.dependencies[count - 1].internal_module_name() {
                Err(e) => Err(e),
                Ok(name) => Ok(rest.push(name)),
            },
        }
    }
}

/// The names of a list or a failure, by content.
pub open spec fn texts_result(r: Result<Vec<String>, PackagingError>) -> Result<
    Seq<Seq<char>>,
    PackagingErrorView,
> {
    match r {
        Ok(list) => Ok(texts(list@)),
        Err(e) => Err(e@),
    }
}

/// Whether the entries of a directory hold one that is named `name`.
fn is_listed(entries: &Vec<FileEntry>, name: &str) -> (found: bool)
    ensures
        found == lists(entries@, name@),
{
    let mut k: usize = 0;
    while k < entries.len()
        invariant
            k <= entries.len(),
            forall|j: int| 0 <= j < k ==> (#[trigger] entries@[j]).name@ != name@,
        decreases entries.len() - k,
    {
        if text_eq(entries[k].name.as_str(), name) {
            return true;
        }
        k += 1;
    }
    false
}

/// The names of the internal modules of the dependencies of a package.
pub fn internal_dependencies(package: &UniffiPackage) -> (names: Result<Vec<String>, PackagingError>)
    ensures
        texts_result(names) == internal_names_among(package@, package@.dependencies.len()),
{
    let mut names: Vec<String> = Vec::new();
    let mut k: usize = 0;
    proof {
        package.lemma_view();
        assert(texts(names@) =~= Seq::<Seq<char>>::empty());
    }
    while k < package.dependencies.len()
        invariant
            k <= package.dependencies.len(),
            package@.dependencies.len() == package.dependencies@.len(),
            forall|j: int|
                0 <= j < package.dependencies@.len() ==> #[trigger] package@.dependencies[j]
                    == package.dependencies@[j]@,
            internal_names_among(package@, k as nat) == Ok::<Seq<Seq<char>>, PackagingErrorView>(
                texts(names@),
            ),
        decreases package.dependencies.len() - k,
    {
        assert(package@.dependencies[k as int] == package.dependencies@[k as int]@);
        match package.dependencies[k].internal_module_name() {
            Err(e) => {
                proof {
                    lemma_internal_names_stay_failed(
                        package@,
                        (k + 1) as nat,
                        package@.dependencies.len(),
                    );
                }
                return Err(e);
            },
            Ok(name) => {
                push_text(&mut names, name.as_str());
            },
        }
        k += 1;
    }
    Ok(names)
}

/// Once a dependency has no internal module name, taking more
/// dependencies does not mend it.
proof fn lemma_internal_names_stay_failed(package: PackageNode, from: nat, to: nat)
    requires
        from <= to <= package.dependencies.len(),
        internal_names_among(package, from) is Err,
    ensures
        internal_names_among(package, to) == internal_names_among(package, from),
    decreases to - from,
{
    if from < to {
        lemma_internal_names_stay_failed(package, from, (to - 1) as nat);
    }
}

impl Project {
    /// Where the package manifest is written.
    pub fn swift_package_manifest_file_path(&self) -> (path: String)
        ensures
            path@ == joined(self.workspace_root@, "Package.swift"@),
    {
        join(self.workspace_root.as_str(), "Package.swift")
    }

    /// The name of the public module of the package with bindings that is
    /// named `cargo_package_name`.
    pub open spec fn target_name(&self, cargo_package_name: Seq<char>) -> Result<
        Seq<char>,
        PackagingErrorView,
    > {
        if exists|k: int| self.is_first_named(cargo_package_name, k) {
            let k = choose|k: int| self.is_first_named(cargo_package_name, k);
            self.package@.traversal()[k].public_module_name()
        } else {
            Err(PackagingErrorView::PackageNotFound { name: cargo_package_name })
        }
    }

    /// The name of the public target of the package named
    /// `cargo_package_name`.
    pub fn spm_target_name(&self, cargo_package_name: &str) -> (name: Result<String, PackagingError>)
        ensures
            text_result(name) == self.target_name(cargo_package_name@),
    {
        match self.package(cargo_package_name) {
            None => {
                assert(!exists|k: int| self.is_first_named(cargo_package_name@, k));
                Err(PackagingError::PackageNotFound { name: String::from_str(cargo_package_name) })
            },
            Some(package) => {
                proof {
                    let k = choose|k: int|
                        self.is_first_named(cargo_package_name@, k)
                            && self.package@.traversal()[k] == package@;
                    let c = choose|k: int| self.is_first_named(cargo_package_name@, k);
                    assert(c == k);
                }
                package.public_module_name()
            },
        }
    }

    /// The names of the public targets of the first `count` dependencies
    /// of a package, or the failure of the first that has none.
    pub open spec fn target_names_among(&self, package: PackageNode, count: nat) -> Result<
        Seq<Seq<char>>,
        PackagingErrorView,
    >
        decreases count,
    {
        if count == 0 || count > package.dependencies.len() {
            Ok(Seq::empty())
        } else {
            match self.target_names_among(package, (count - 1) as nat) {
                Err(e) => Err(e),
                Ok(rest) => match self.target_name(package.dependencies[count - 1].name) {
                    Err(e) => Err(e),
                    Ok(name) => Ok(rest.push(name)),
                },
            }
        }
    }

    /// Once a dependency has no public target, taking more dependencies
    /// does not mend it.
    proof fn lemma_target_names_stay_failed(&self, package: PackageNode, from: nat, to: nat)
        requires
            from <= to <= package.dependencies.len(),
            self.target_names_among(package, from) is Err,
        ensures
            self.target_names_among(package, to) == self.target_names_among(package, from),
        decreases to - from,
    {
        if from < to {
            self.lemma_target_names_stay_failed(package, from, (to - 1) as nat);
        }
    }

    /// The names of the public targets of the dependencies of a package.
    pub fn public_dependencies(&self, package: &UniffiPackage) -> (names: Result<
        Vec<String>,
        PackagingError,
    >)
        ensures
            texts_result(names) == self.target_names_among(package@, package@.dependencies.len()),
    {
        let mut names: Vec<String> = Vec::new();
        let mut k: usize = 0;
        proof {
            package.lemma_view();
            assert(texts(names@) =~= Seq::<Seq<char>>::empty());
        }
        while k < package.dependencies.len()
            invariant
                k <= package.dependencies.len(),
                package@.dependencies.len() == package.dependencies@.len(),
                forall|j: int|
                    0 <= j < package.dependencies@.len() ==> #[trigger] package@.dependencies[j]
                        == package.dependencies@[j]@,
                self.target_names_among(package@, k as nat) == Ok::<
                    Seq<Seq<char>>,
                    PackagingErrorView,
                >(texts(names@)),
            decreases package.dependencies.len() - k,
        {
            proof {
                assert(package@.dependencies[k as int] == package.dependencies@[k as int]@);
                package.dependencies@[k as int].lemma_view();
            }
            match self.spm_target_name(package.dependencies[k].name.as_str()) {
                Err(e) => {
                    proof {
                        self.lemma_target_names_stay_failed(
                            package@,
                            (k + 1) as nat,
                            package@.dependencies.len(),
                        );
                    }
                    return Err(e);
                },
                Ok(name) => {
                    push_text(&mut names, name.as_str());
                },
            }
            k += 1;
        }
        Ok(names)
    }

    /// Where the hand-written sources of a package are expected, given the
    /// root of the workspace that the package lies in.
    pub fn swift_code_dir(package_workspace_root: &str) -> (directory: String)
        ensures
            directory@ == joined(package_workspace_root@, "native/swift"@),
    {
        join(package_workspace_root, "native/swift")
    }

    /// Where the test resources of a package would be, given the
    /// directory of its tests.
    pub fn test_resources_dir(tests_dir: &str) -> (directory: String)
        ensures
            directory@ == joined(tests_dir@, "Resources"@),
    {
        join(tests_dir, "Resources")
    }

    /// Where the copy of the hand-written sources of the package named
    /// `package` goes, if the package lies outside the workspace.
    pub open spec fn vendor_path(&self, package: Seq<char>) -> Seq<char> {
        joined(
            joined(joined(self.workspace_root@, "target"@), "uniffi-swift-helper/vendor"@),
            package,
        )
    }

    /// From where the hand-written sources of a package are used. Sources
    /// inside the workspace are used in place. Sources outside of it are
    /// copied into the workspace first, since the manifest can only refer
    /// to what lies below it.
    ///
    /// `package_workspace_root` is the root of the workspace that the
    /// package lies in, and `is_dir` tells whether the directory
    /// `native/swift` below it is there.
    pub fn vend_swift_source_code(
        &self,
        package: &UniffiPackage,
        package_workspace_root: &str,
        is_dir: bool,
    ) -> (vendoring: Result<Vendoring, PackagingError>)
        ensures
            ({
                let code = joined(package_workspace_root@, "native/swift"@);
                match vendoring {
                    Err(e) => if !absolute(self.workspace_root@) {
                        e@ == (PackagingErrorView::RootNotAbsolute { path: self.workspace_root@ })
                    } else {
                        !is_dir && e@ == (PackagingErrorView::SwiftCodeMissing {
                            package: package@.name,
                            path: code,
                        })
                    },
                    Ok(v) => {
                        &&& absolute(self.workspace_root@)
                        &&& is_dir
                        &&& if within(code, self.workspace_root@) {
                            v.directory@ == code && v.copy_from is None
                        } else {
                            &&& v.directory@ == self.vendor_path(package@.name)
                            &&& v.copy_from is Some
                            &&& v.copy_from->Some_0@ == code
                        }
                    },
                }
            }),
    {
        proof {
            package.lemma_view();
        }
        let root_dir = self.workspace_root.as_str();
        if !is_absolute(root_dir) {
            return Err(PackagingError::RootNotAbsolute { path: String::from_str(root_dir) });
        }
        let swift_code_dir = Self::swift_code_dir(package_workspace_root);
        if !is_dir {
            return Err(
                PackagingError::SwiftCodeMissing {
                    package: package.name.clone(),
                    path: swift_code_dir,
                },
            );
        }
        if starts_with(swift_code_dir.as_str(), root_dir) {
            return Ok(Vendoring { directory: swift_code_dir, copy_from: None });
        }
        let cargo_target_dir = join(root_dir, "target");
        let vendor_path = join(cargo_target_dir.as_str(), "uniffi-swift-helper/vendor");
        let new_path = join(vendor_path.as_str(), package.name.as_str());
        Ok(Vendoring { directory: new_path, copy_from: Some(swift_code_dir) })
    }

    /// The public target of a package, given the directory of its sources,
    /// the directory of its tests, and whether its tests have resources.
    /// The two directories are referred to relative to the root of the
    /// workspace.
    pub fn public_target(
        &self,
        package: &UniffiPackage,
        sources_dir: &str,
        tests_dir: &str,
        has_test_resources: bool,
    ) -> (target: Result<Target, PackagingError>)
        ensures
            ({
                let root = self.workspace_root@;
                let dependencies = self.target_names_among(package@, package@.dependencies.len());
                match target {
                    Ok(t) => {
                        &&& difference(sources_dir@, root) == Some(t.library_source_path@)
                        &&& difference(tests_dir@, root) == Some(t.test_source_path@)
                        &&& dependencies == Ok::<Seq<Seq<char>>, PackagingErrorView>(
                            texts(t.dependencies@),
                        )
                        &&& package@.public_module_name() == Ok::<Seq<char>, PackagingErrorView>(
                            t.name@,
                        )
                        &&& t.has_test_resources == has_test_resources
                    },
                    Err(e) => if difference(sources_dir@, root) is None {
                        e@ == (PackagingErrorView::NoRelativePath { path: sources_dir@, base: root })
                    } else if difference(tests_dir@, root) is None {
                        e@ == (PackagingErrorView::NoRelativePath { path: tests_dir@, base: root })
                    } else if dependencies is Err {
                        dependencies == Err::<Seq<Seq<char>>, PackagingErrorView>(e@)
                    } else {
                        package@.public_module_name() == Err::<Seq<char>, PackagingErrorView>(e@)
                    },
                }
            }),
    {
        let root_dir = self.workspace_root.as_str();
        let library_source_path = match relative_path(sources_dir, root_dir) {
            Ok(p) => p,
            Err(e) => {
                return Err(e);
            },
        };
        let test_source_path = match relative_path(tests_dir, root_dir) {
            Ok(p) => p,
            Err(e) => {
                return Err(e);
            },
        };
        let dependencies = match self.public_dependencies(package) {
            Ok(d) => d,
            Err(e) => {
                return Err(e);
            },
        };
        let name = match package.public_module_name() {
            Ok(n) => n,
            Err(e) => {
                return Err(e);
            },
        };
        Ok(Target { name, library_source_path, test_source_path, dependencies, has_test_resources })
    }

    /// The internal target of a package, given the listing of the
    /// directory of binding sources. The binding source of the package
    /// has to be there; the binding sources of the other packages are
    /// excluded from the target.
    pub fn internal_target(&self, package: &UniffiPackage, entries: &Vec<FileEntry>) -> (target:
        Result<InternalTarget, PackagingError>)
        ensures
            ({
                let source_file = package@.name + ".swift"@;
                let dependencies = internal_names_among(package@, package@.dependencies.len());
                match target {
                    Ok(t) => {
                        &&& self.output_dir() is Ok
                        &&& lists(entries@, source_file)
                        &&& t.source_file@ == source_file
                        &&& texts(t.excluded_source_files@) == other_sources_among(
                            entries@,
                            source_file,
                            entries@.len(),
                        )
                        &&& dependencies == Ok::<Seq<Seq<char>>, PackagingErrorView>(
                            texts(t.dependencies@),
                        )
                        &&& package@.internal_module_name() == Ok::<Seq<char>, PackagingErrorView>(
                            t.name@,
                        )
                        &&& difference(
                            joined(self.output_dir()->Ok_0, "swift-wrapper"@),
                            self.workspace_root@,
                        ) == Some(t.swift_wrapper_dir@)
                    },
                    Err(e) => match self.output_dir() {
                        Err(config) => e@ == config,
                        Ok(output) => {
                            let wrapper_dir = joined(output, "swift-wrapper"@);
                            if !lists(entries@, source_file) {
                                e@ == (PackagingErrorView::WrapperFileMissing {
                                    path: joined(wrapper_dir, source_file),
                                })
                            } else if dependencies is Err {
                                dependencies == Err::<Seq<Seq<char>>, PackagingErrorView>(e@)
                            } else if package@.internal_module_name() is Err {
                                package@.internal_module_name() == Err::<
                                    Seq<char>,
                                    PackagingErrorView,
                                >(e@)
                            } else {
                                &&& difference(wrapper_dir, self.workspace_root@) is None
                                &&& e@ == (PackagingErrorView::NoRelativePath {
                                    path: wrapper_dir,
                                    base: self.workspace_root@,
                                })
                            }
                        },
                    },
                }
            }),
    {
        let swift_wrapper_dir = match self.swift_wrapper_dir() {
            Ok(d) => d,
            Err(e) => {
                return Err(e);
            },
        };
        let source_file_name = package.swift_wrapper_file_name();
        if !is_listed(entries, source_file_name.as_str()) {
            return Err(
                PackagingError::WrapperFileMissing {
                    path: join(swift_wrapper_dir.as_str(), source_file_name.as_str()),
                },
            );
        }
        let mut excluded_source_files: Vec<String> = Vec::new();
        let mut k: usize = 0;
        assert(texts(excluded_source_files@) =~= other_sources_among(
            entries@,
            source_file_name@,
            0,
        ));
        while k < entries.len()
            invariant
                k <= entries.len(),
                texts(excluded_source_files@) == other_sources_among(
                    entries@,
                    source_file_name@,
                    k as nat,
                ),
            decreases entries.len() - k,
        {
            let name = entries[k].name.as_str();
            if entries[k].is_file && has_extension(name, "swift") && !text_eq(
                name,
                source_file_name.as_str(),
            ) {
                push_text(&mut excluded_source_files, name);
            }
            k += 1;
        }
        let dependencies = match internal_dependencies(package) {
            Ok(d) => d,
            Err(e) => {
                return Err(e);
            },
        };
        let name = match package.internal_module_name() {
            Ok(n) => n,
            Err(e) => {
                return Err(e);
            },
        };
        let relative = match relative_path(swift_wrapper_dir.as_str(), self.workspace_root.as_str()) {
            Ok(r) => r,
            Err(e) => {
                return Err(e);
            },
        };
        Ok(
            InternalTarget {
                name,
                swift_wrapper_dir: relative,
                source_file: source_file_name,
                excluded_source_files,
                dependencies,
            },
        )
    }
}

/// The making of the package manifest.
pub trait SPMExtension {
    /// Everything that the manifest of the package `project_name` is
    /// written from, given the public and the internal targets of all
    /// packages with bindings.
    fn generate_swift_package(
        &self,
        project_name: String,
        targets: Vec<Target>,
        internal_targets: Vec<InternalTarget>,
    ) -> Result<PackageTemplate, PackagingError>;
}

impl SPMExtension for Project {
    fn generate_swift_package(
        &self,
        project_name: String,
        targets: Vec<Target>,
        internal_targets: Vec<InternalTarget>,
    ) -> (template: Result<PackageTemplate, PackagingError>)
        ensures
            match template {
                Ok(t) => {
                    &&& self.package@.public_module_name() == Ok::<Seq<char>, PackagingErrorView>(
                        t.package_name@,
                    )
                    &&& self.package@.ffi_module_name() == Ok::<Seq<char>, PackagingErrorView>(
                        t.ffi_module_name@,
                    )
                    &&& t.project_name == project_name
                    &&& t.targets == targets
                    &&& t.internal_targets == internal_targets
                    &&& t.ios_version@ == "13.0"@
                    &&& t.macos_version@ == "11.0"@
                    &&& t.tvos_version@ == "13.0"@
                    &&& t.watchos_version@ == "8.0"@
                },
                Err(e) => if self.package@.public_module_name() is Err {
                    self.package@.public_module_name() == Err::<Seq<char>, PackagingErrorView>(e@)
                } else {
                    self.package@.ffi_module_name() == Err::<Seq<char>, PackagingErrorView>(e@)
                },
            },
    {
        let package_name = match self.package.public_module_name() {
            Ok(n) => n,
            Err(e) => {
                return Err(e);
            },
        };
        let ffi_module_name = match self.ffi_module_name() {
            Ok(n) => n,
            Err(e) => {
                return Err(e);
            },
        };
        Ok(
            PackageTemplate {
                package_name,
                ffi_module_name,
                project_name,
                targets,
                internal_targets,
                ios_version: DeploymentTargets::ios(),
                macos_version: DeploymentTargets::macos(),
                tvos_version: DeploymentTargets::tvos(),
                watchos_version: DeploymentTargets::watchos(),
            },
        )
    }
}

} // verus!
