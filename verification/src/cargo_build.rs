//! How the packages are compiled: the build profile, and the compiler
//! invocations for one platform.

use vstd::prelude::*;
use vstd::string::StringExecFns;
use crate::apple_platform::ApplePlatform;
use crate::error::{PackagingError, PackagingErrorView};
use crate::paths::{join, joined};
use crate::project::{nodes_of, PackageNode, Project, UniffiPackage};
use crate::spm::texts_result;
use crate::text::{append, push_text, text_eq, texts};
use crate::utils::{
    extension_of, files_with_extension_of, has_extension, only_static_library, FileEntry,
};

verus! {

/// The build profile of the compiler.
#[derive(Debug, Clone, Copy, PartialEq, Eq, Structural)]
pub enum CargoProfile {
    Dev,
    Release,
}

impl CargoProfile {
    /// The name by which the profile is chosen.
    pub open spec fn name(self) -> Seq<char> {
        match self {
            CargoProfile::Dev => "dev"@,
            CargoProfile::Release => "release"@,
        }
    }

    /// The directory into which the compiler puts what it builds with the
    /// profile.
    pub open spec fn directory(self) -> Seq<char> {
        match self {
            CargoProfile::Dev => "debug"@,
            CargoProfile::Release => "release"@,
        }
    }

    /// The profile chosen by a name.
    pub open spec fn of_name(name: Seq<char>) -> Option<CargoProfile> {
        if name == "dev"@ {
            Some(CargoProfile::Dev)
        } else if name == "release"@ {
            Some(CargoProfile::Release)
        } else {
            None
        }
    }

    pub fn as_str(&self) -> (name: &'static str)
        ensures
            name@ == self.name(),
    {
        match self {
            CargoProfile::Dev => "dev",
            CargoProfile::Release => "release",
        }
    }

    pub fn dir_name(&self) -> (name: &'static str)
        ensures
            name@ == self.directory(),
    {
        match self {
            CargoProfile::Dev => "debug",
            CargoProfile::Release => "release",
        }
    }

    /// The profile that `value` names.
    pub fn try_from(value: &str) -> (profile: Result<Self, PackagingError>)
        ensures
            match profile {
                Ok(p) => CargoProfile::of_name(value@) == Some(p),
                Err(e) => CargoProfile::of_name(value@) is None && e@
                    == (PackagingErrorView::InvalidProfile { profile: value@ }),
            },
    {
        if text_eq(value, "dev") {
            Ok(CargoProfile::Dev)
        } else if text_eq(value, "release") {
            Ok(CargoProfile::Release)
        } else {
            Err(PackagingError::InvalidProfile { profile: String::from_str(value) })
        }
    }
}

/// One package to compile with one profile, for one platform or for the
/// host.
#[derive(Debug)]
pub struct PlatformTarget {
    pub package: String,
    pub profile: CargoProfile,
    pub platform: Option<ApplePlatform>,
}

/// One invocation of the compiler.
#[derive(Debug)]
pub struct BuildCommand {
    /// The program and its arguments.
    pub arguments: Vec<String>,
    /// The environment variable to set, and its value.
    pub environment: Option<(String, String)>,
    /// The triple that is built, if it is not the host's.
    pub target: Option<String>,
}

/// The content of an optional pair of strings.
pub open spec fn pair_text(pair: Option<(String, String)>) -> Option<(Seq<char>, Seq<char>)> {
    match pair {
        Some((key, value)) => Some((key@, value@)),
        None => None,
    }
}

/// The content of an optional string.
pub open spec fn option_text(text: Option<String>) -> Option<Seq<char>> {
    match text {
        Some(t) => Some(t@),
        None => None,
    }
}

impl PlatformTarget {
    /// The program and the arguments that every invocation for this
    /// target starts with. A platform whose standard library has to be
    /// built from source takes the nightly toolchain; debug symbols are
    /// always included, and a panic aborts.
    pub open spec fn common_arguments(&self) -> Seq<Seq<char>> {
        let nightly = match self.platform {
            Some(ApplePlatform::TvOS) | Some(ApplePlatform::WatchOS) => seq![
                "+nightly"@,
                "-Z"@,
                "build-std=panic_abort,std"@,
            ],
            _ => Seq::empty(),
        };
        seq!["cargo"@] + nightly + seq![
            "--config"@,
            "profile."@ + self.profile.name() + ".debug=true"@,
            "--config"@,
            "profile."@ + self.profile.name() + ".panic=\"abort\""@,
            "build"@,
            "--package"@,
            self.package@,
            "--profile"@,
            self.profile.name(),
        ]
    }

    /// The program and the arguments of the invocation that builds for
    /// `triple`.
    pub open spec fn arguments_for(&self, triple: Seq<char>) -> Seq<Seq<char>> {
        self.common_arguments() + seq!["--target"@, triple]
    }

    /// The program and the arguments that every invocation starts with.
    pub fn base_arguments(&self) -> (arguments: Vec<String>)
        ensures
            texts(arguments@) == self.common_arguments(),
    {
        let mut build: Vec<String> = Vec::new();
        push_text(&mut build, "cargo");
        let nightly = match self.platform {
            Some(p) => p.requires_nightly_toolchain(),
            None => false,
        };
        if nightly {
            push_text(&mut build, "+nightly");
            push_text(&mut build, "-Z");
            push_text(&mut build, "build-std=panic_abort,std");
        }
        let debug_start = append("profile.", self.profile.as_str());
        let config_debug = append(debug_start.as_str(), ".debug=true");
        let config_panic = append(debug_start.as_str(), ".panic=\"abort\"");
        push_text(&mut build, "--config");
        push_text(&mut build, config_debug.as_str());
        push_text(&mut build, "--config");
        push_text(&mut build, config_panic.as_str());
        push_text(&mut build, "build");
        push_text(&mut build, "--package");
        push_text(&mut build, self.package.as_str());
        push_text(&mut build, "--profile");
        push_text(&mut build, self.profile.as_str());
        assert(texts(build@) =~= self.common_arguments());
        build
    }

    /// The invocations of the compiler that build this target: one for
    /// each triple of the platform, with the platform's deployment target
    /// in the environment, or a single one for the host.
    pub fn build_uniffi_package(&self) -> (commands: Vec<BuildCommand>)
        ensures
            match self.platform {
                Some(platform) => {
                    &&& commands@.len() == platform.triples().len()
                    &&& forall|k: int|
                        0 <= k < commands@.len() ==> {
                            &&& texts((#[trigger] commands@[k]).arguments@) == self.arguments_for(
                                platform.triples()[k],
                            )
                            &&& pair_text(commands@[k].environment) == Some(
                                platform.deployment_target(),
                            )
                            &&& option_text(commands@[k].target) == Some(platform.triples()[k])
                        }
                },
                None => {
                    &&& commands@.len() == 1
                    &&& texts(commands@[0].arguments@) == self.common_arguments()
                    &&& commands@[0].environment is None
                    &&& commands@[0].target is None
                },
            },
    {
        let mut commands: Vec<BuildCommand> = Vec::new();
        match self.platform {
            Some(platform) => {
                let triples = platform.target_triples();
                let mut k: usize = 0;
                while k < triples.len()
                    invariant
                        self.platform == Some(platform),
                        k <= triples.len(),
                        crate::apple_platform::str_texts(triples@) == platform.triples(),
                        commands@.len() == k,
                        forall|j: int|
                            0 <= j < k ==> {
                                &&& texts((#[trigger] commands@[j]).arguments@)
                                    == self.arguments_for(platform.triples()[j])
                                &&& pair_text(commands@[j].environment) == Some(
                                    platform.deployment_target(),
                                )
                                &&& option_text(commands@[j].target) == Some(platform.triples()[j])
                            },
                    decreases triples.len() - k,
                {
                    let triple: &str = triples[k];
                    assert(crate::apple_platform::str_texts(triples@)[k as int] == triple@);
                    let mut arguments = self.base_arguments();
                    push_text(&mut arguments, "--target");
                    push_text(&mut arguments, triple);
                    assert(texts(arguments@) =~= self.arguments_for(triple@));
                    let (key, value) = platform.deployment_targets_env();
                    commands.push(
                        BuildCommand {
                            arguments,
                            environment: Some((String::from_str(key), String::from_str(value))),
                            target: Some(String::from_str(triple)),
                        },
                    );
                    k += 1;
                }
            },
            None => {
                commands.push(
                    BuildCommand { arguments: self.base_arguments(), environment: None, target: None },
                );
            },
        }
        commands
    }

    /// The static library to generate bindings from, and the directory
    /// that the bindings go to, for one directory of what was built, given
    /// its listing. The directory has to hold exactly one static library;
    /// the bindings go beside it.
    pub fn generate_bindings(target_dir: &str, entries: &Vec<FileEntry>) -> (bindings: Result<
        (String, String),
        PackagingError,
    >)
        ensures
            ({
                let libraries = files_with_extension_of(target_dir@, entries@, "a"@);
                match bindings {
                    Ok(b) => libraries.len() == 1 && b.0@ == libraries[0] && b.1@ == joined(
                        target_dir@,
                        "swift-bindings"@,
                    ),
                    Err(e) => libraries.len() != 1 && e@
                        == (PackagingErrorView::AmbiguousArtifact {
                        directory: target_dir@,
                        candidates: libraries,
                    }),
                }
            }),
    {
        match only_static_library(target_dir, entries) {
            Ok(library) => Ok((library, join(target_dir, "swift-bindings"))),
            Err(e) => Err(e),
        }
    }

    /// The directories into which the compiler puts what it builds for
    /// this target: one for each triple of the platform, or the one of the
    /// host.
    pub fn built_dirs(&self, cargo_target_dir: &str) -> (directories: Vec<String>)
        ensures
            texts(directories@) == match self.platform {
                Some(platform) => platform.triples().map_values(
                    |triple: Seq<char>|
                        joined(joined(cargo_target_dir@, triple), self.profile.directory()),
                ),
                None => seq![joined(cargo_target_dir@, self.profile.name())],
            },
    {
        let mut directories: Vec<String> = Vec::new();
        match self.platform {
            Some(platform) => {
                let triples = platform.target_triples();
                let mut k: usize = 0;
                while k < triples.len()
                    invariant
                        k <= triples.len(),
                        crate::apple_platform::str_texts(triples@) == platform.triples(),
                        texts(directories@) == platform.triples().map_values(
                            |triple: Seq<char>|
                                joined(joined(cargo_target_dir@, triple), self.profile.directory()),
                        ).take(k as int),
                    decreases triples.len() - k,
                {
                    let triple: &str = triples[k];
                    assert(crate::apple_platform::str_texts(triples@)[k as int] == triple@);
                    let below = join(cargo_target_dir, triple);
                    let directory = join(below.as_str(), self.profile.dir_name());
                    push_text(&mut directories, directory.as_str());
                    assert(texts(directories@) =~= platform.triples().map_values(
                        |triple: Seq<char>|
                            joined(joined(cargo_target_dir@, triple), self.profile.directory()),
                    ).take(k + 1));
                    k += 1;
                }
                assert(texts(directories@) =~= platform.triples().map_values(
                    |triple: Seq<char>|
                        joined(joined(cargo_target_dir@, triple), self.profile.directory()),
                ));
            },
            None => {
                let directory = join(cargo_target_dir, self.profile.as_str());
                push_text(&mut directories, directory.as_str());
                assert(texts(directories@) =~= seq![joined(cargo_target_dir@, self.profile.name())]);
            },
        }
        directories
    }
}

/// All triples of the platforms, platform by platform.
pub open spec fn triples_of(platforms: Seq<ApplePlatform>) -> Seq<Seq<char>>
    decreases platforms.len(),
{
    if platforms.len() == 0 {
        Seq::empty()
    } else {
        triples_of(platforms.drop_last()) + platforms.last().triples()
    }
}

/// The triples to bundle when building for the given platforms.
pub fn bundle_triples(apple_platforms: &Vec<ApplePlatform>) -> (triples: Vec<String>)
    ensures
        texts(triples@) == triples_of(apple_platforms@),
{
    let mut triples: Vec<String> = Vec::new();
    let mut k: usize = 0;
    assert(apple_platforms@.take(0) =~= Seq::empty());
    assert(texts(triples@) =~= triples_of(apple_platforms@.take(0)));
    while k < apple_platforms.len()
        invariant
            k <= apple_platforms.len(),
            texts(triples@) == triples_of(apple_platforms@.take(k as int)),
        decreases apple_platforms.len() - k,
    {
        let platform = apple_platforms[k];
        let names = platform.target_triples();
        let ghost before = texts(triples@);
        let mut j: usize = 0;
        while j < names.len()
            invariant
                j <= names.len(),
                crate::apple_platform::str_texts(names@) == platform.triples(),
                texts(triples@) == before + platform.triples().take(j as int),
            decreases names.len() - j,
        {
            let name: &str = names[j];
            assert(crate::apple_platform::str_texts(names@)[j as int] == name@);
            push_text(&mut triples, name);
            assert(texts(triples@) =~= before + platform.triples().take(j + 1));
            j += 1;
        }
        proof {
            assert(platform.triples().take(names.len() as int) =~= platform.triples());
            let next = apple_platforms@.take(k + 1);
            assert(next.drop_last() =~= apple_platforms@.take(k as int));
            assert(next.last() == platform);
        }
        k += 1;
    }
    assert(apple_platforms@.take(apple_platforms.len() as int) =~= apple_platforms@);
    triples
}

/// The names of the header files among the first `count` entries of a
/// directory of generated bindings.
pub open spec fn headers_among(entries: Seq<String>, count: nat) -> Seq<Seq<char>>
    decreases count,
{
    if count == 0 || count > entries.len() {
        Seq::empty()
    } else {
        let rest = headers_among(entries, (count - 1) as nat);
        if extension_of(entries[count - 1]@) == Some("h"@) {
            rest.push(entries[count - 1]@)
        } else {
            rest
        }
    }
}

/// The header files of a directory of generated bindings, given the names
/// of its entries: they are what the module map lists, and what moves into
/// the headers directory.
pub fn header_files(entries: &Vec<String>) -> (headers: Vec<String>)
    ensures
        texts(headers@) == headers_among(entries@, entries@.len()),
{
    let mut headers: Vec<String> = Vec::new();
    let mut k: usize = 0;
    assert(texts(headers@) =~= headers_among(entries@, 0));
    while k < entries.len()
        invariant
            k <= entries.len(),
            texts(headers@) == headers_among(entries@, k as nat),
        decreases entries.len() - k,
    {
        if has_extension(entries[k].as_str(), "h") {
            push_text(&mut headers, entries[k].as_str());
        }
        k += 1;
    }
    headers
}

/// A line of a generated binding source as it is kept: the declaration of
/// the task protocol is made private to its file, since every binding
/// source declares it; every other line stays as it is.
pub fn update_swift_wrapper_line(line: &str) -> (kept: String)
    ensures
        kept@ == if line@ == "protocol UniffiForeignFutureTask {"@ {
            "fileprivate protocol UniffiForeignFutureTask {"@
        } else {
            line@
        },
{
    if text_eq(line, "protocol UniffiForeignFutureTask {") {
        String::from_str("fileprivate protocol UniffiForeignFutureTask {")
    } else {
        String::from_str(line)
    }
}

/// How the library for Linux is put together.
#[derive(Debug)]
pub struct LinuxLibrary {
    /// The headers to copy.
    pub headers_dir: String,
    /// The directory of the library, which receives the headers.
    pub library_dir: String,
    /// The static library that was built.
    pub static_lib: String,
    /// Where its copy goes.
    pub static_lib_dest: String,
}

/// The internal modules of the packages among the first `count` of a walk
/// that are not named `name`, or the failure of the first that has none.
pub open spec fn imports_among(walk: Seq<PackageNode>, name: Seq<char>, count: nat) -> Result<
    Seq<Seq<char>>,
    PackagingErrorView,
>
    decreases count,
{
    if count == 0 || count > walk.len() {
        Ok(Seq::empty())
    } else {
        match imports_among(walk, name, (count - 1) as nat) {
            Err(e) => Err(e),
            Ok(rest) => if walk[count - 1].name == name {
                Ok(rest)
            } else {
                match walk[count - 1].internal_module_name() {
                    Err(e) => Err(e),
                    Ok(module) => Ok(rest.push(module)),
                }
            },
        }
    }
}

/// Once a package has no internal module, taking more packages does not
/// mend it.
proof fn lemma_imports_stay_failed(walk: Seq<PackageNode>, name: Seq<char>, from: nat, to: nat)
    requires
        from <= to <= walk.len(),
        imports_among(walk, name, from) is Err,
    ensures
        imports_among(walk, name, to) == imports_among(walk, name, from),
    decreases to - from,
{
    if from < to {
        lemma_imports_stay_failed(walk, name, from, (to - 1) as nat);
    }
}

impl Project {
    /// The modules that the binding source of `package` has to import: the
    /// internal modules of all packages below it, and the module of the
    /// raw bindings where the package has one of its own.
    pub open spec fn imports_of(&self, package: PackageNode) -> Result<
        Seq<Seq<char>>,
        PackagingErrorView,
    > {
        let walk = package.traversal();
        match imports_among(walk, package.name, walk.len()) {
            Err(e) => Err(e),
            Ok(modules) => match self.package@.ffi_module_name() {
                Err(e) => Err(e),
                Ok(project_module) => match package.ffi_module_name() {
                    Err(e) => Err(e),
                    Ok(module) => if module != project_module {
                        Ok(modules.push(project_module))
                    } else {
                        Ok(modules)
                    },
                },
            },
        }
    }

    /// What is built: the top-level package for each of the platforms, or
    /// for the host where there are none.
    pub fn build_targets(&self, profile: CargoProfile, apple_platforms: &Vec<ApplePlatform>) -> (targets:
        Vec<PlatformTarget>)
        ensures
            forall|k: int|
                0 <= k < targets@.len() ==> (#[trigger] targets@[k]).package@ == self.package@.name
                    && targets@[k].profile == profile,
            if apple_platforms@.len() == 0 {
                targets@.len() == 1 && targets@[0].platform is None
            } else {
                &&& targets@.len() == apple_platforms@.len()
                &&& forall|k: int|
                    0 <= k < targets@.len() ==> (#[trigger] targets@[k]).platform == Some(
                        apple_platforms@[k],
                    )
            },
    {
        proof {
            self.package.lemma_view();
        }
        let mut targets: Vec<PlatformTarget> = Vec::new();
        if apple_platforms.len() == 0 {
            targets.push(PlatformTarget { package: self.package.name.clone(), profile, platform: None });
            return targets;
        }
        let mut k: usize = 0;
        while k < apple_platforms.len()
            invariant
                k <= apple_platforms.len(),
                self.package@.name == self.package.name@,
                targets@.len() == k,
                forall|j: int|
                    0 <= j < k ==> (#[trigger] targets@[j]).package@ == self.package@.name
                        && targets@[j].profile == profile && targets@[j].platform == Some(
                        apple_platforms@[j],
                    ),
            decreases apple_platforms.len() - k,
        {
            targets.push(
                PlatformTarget {
                    package: self.package.name.clone(),
                    profile,
                    platform: Some(apple_platforms[k]),
                },
            );
            k += 1;
        }
        targets
    }

    /// The modules that the binding source of `package` has to import.
    pub fn swift_wrapper_prefix(&self, package: &UniffiPackage) -> (modules: Result<
        Vec<String>,
        PackagingError,
    >)
        ensures
            texts_result(modules) == self.imports_of(package@),
    {
        let packages = package.iter();
        let ghost walk = package@.traversal();
        let mut modules: Vec<String> = Vec::new();
        let mut k: usize = 0;
        proof {
            package.lemma_view();
            assert(texts(modules@) =~= Seq::<Seq<char>>::empty());
        }
        while k < packages.len()
            invariant
                k <= packages.len(),
                walk == package@.traversal(),
                nodes_of(packages@) == walk,
                package@.name == package.name@,
                imports_among(walk, package@.name, k as nat) == Ok::<
                    Seq<Seq<char>>,
                    PackagingErrorView,
                >(texts(modules@)),
            decreases packages.len() - k,
        {
            let p = packages[k];
            proof {
                p.lemma_view();
                assert(nodes_of(packages@)[k as int] == p@);
            }
            if !text_eq(p.name.as_str(), package.name.as_str()) {
                match p.internal_module_name() {
                    Err(e) => {
                        proof {
                            lemma_imports_stay_failed(
                                walk,
                                package@.name,
                                (k + 1) as nat,
                                walk.len(),
                            );
                        }
                        return Err(e);
                    },
                    Ok(module) => {
                        push_text(&mut modules, module.as_str());
                    },
                }
            }
            k += 1;
        }
        let project_module = match self.ffi_module_name() {
            Ok(m) => m,
            Err(e) => {
                return Err(e);
            },
        };
        let module = match package.ffi_module_name() {
            Ok(m) => m,
            Err(e) => {
                return Err(e);
            },
        };
        if !text_eq(module.as_str(), project_module.as_str()) {
            push_text(&mut modules, project_module.as_str());
        }
        Ok(modules)
    }

    /// How the library for Linux is put together from what was built in
    /// `target_dir`, given the listing of that directory. The directory
    /// has to hold exactly one static library.
    pub fn create_linux_library(&self, target_dir: &str, entries: &Vec<FileEntry>) -> (library:
        Result<LinuxLibrary, PackagingError>)
        ensures
            ({
                let libraries = files_with_extension_of(target_dir@, entries@, "a"@);
                match library {
                    Ok(l) => {
                        &&& libraries.len() == 1
                        &&& l.static_lib@ == libraries[0]
                        &&& l.headers_dir@ == joined(target_dir@, "swift-bindings/Headers"@)
                        &&& self.package@.ffi_module_name() is Ok
                        &&& l.library_dir@ == joined(self.output_dir()->Ok_0, "linux"@)
                        &&& l.static_lib_dest@ == joined(
                            l.library_dir@,
                            self.package@.ffi_module_name()->Ok_0 + ".a"@,
                        )
                    },
                    Err(e) => if libraries.len() != 1 {
                        e@ == (PackagingErrorView::AmbiguousArtifact {
                            directory: target_dir@,
                            candidates: libraries,
                        })
                    } else {
                        self.package@.ffi_module_name() == Err::<Seq<char>, PackagingErrorView>(e@)
                    },
                }
            }),
    {
        let static_lib = match only_static_library(target_dir, entries) {
            Ok(library) => library,
            Err(e) => {
                return Err(e);
            },
        };
        let headers_dir = join(target_dir, "swift-bindings/Headers");
        let module = match self.ffi_module_name() {
            Ok(m) => m,
            Err(e) => {
                return Err(e);
            },
        };
        let output = join(self.target_directory.as_str(), module.as_str());
        let library_dir = join(output.as_str(), "linux");
        let file_name = append(module.as_str(), ".a");
        let static_lib_dest = join(library_dir.as_str(), file_name.as_str());
        Ok(LinuxLibrary { headers_dir, library_dir, static_lib, static_lib_dest })
    }
}

} // verus!
