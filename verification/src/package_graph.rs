//! The packages of a workspace as the build tool describes them, and the
//! graph that the packages with bindings form among themselves.
//!
//! A package is addressed by its place in the list of all packages. Only
//! packages that need bindings are nodes of the graph; an edge leads from a
//! package to the first package of the list that bears the name of one of
//! its declared dependencies.

use vstd::prelude::*;
use crate::error::{PackagingError, PackagingErrorView};
use crate::text::{has_prefix, starts_with, text_eq};

verus! {

/// What a dependency is needed for.
#[derive(Debug, Clone, Copy, PartialEq, Eq, Structural)]
pub enum DependencyKind {
    Normal,
    Development,
    Build,
    Unknown,
}

/// A dependency as a package declares it.
#[derive(Debug)]
pub struct CargoDependency {
    pub name: String,
    pub optional: bool,
    pub kind: DependencyKind,
}

/// What the packaging reads of one package of the workspace.
#[derive(Debug)]
pub struct CargoPackage {
    pub name: String,
    /// The identifier that tells where the package comes from.
    pub id: String,
    pub manifest_path: String,
    pub dependencies: Vec<CargoDependency>,
    /// Whether a configuration file stands beside the manifest.
    pub has_uniffi_toml: bool,
    /// The content of that file, where it could be read.
    pub uniffi_toml: Option<Vec<u8>>,
}

impl CargoDependency {
    /// Whether this is an unconditional, ordinary dependency on the
    /// bindings-generation facility.
    pub open spec fn brings_bindings(&self) -> bool {
        self.name@ == "uniffi"@ && !self.optional && self.kind == DependencyKind::Normal
    }
}

impl CargoPackage {
    /// Whether the package declares a dependency named `name`.
    pub open spec fn declares(&self, name: Seq<char>) -> bool {
        exists|k: int|
            0 <= k < self.dependencies@.len() && (#[trigger] self.dependencies@[k]).name@ == name
    }

    /// Whether the package needs bindings: it depends on the
    /// bindings-generation facility and has a configuration file.
    pub open spec fn needs_bindings(&self) -> bool {
        self.has_uniffi_toml && exists|k: int|
            0 <= k < self.dependencies@.len() && (#[trigger] self.dependencies@[k]).brings_bindings()
    }

    /// Whether the package comes from a version-control checkout or a local
    /// path, where its companion sources can be found.
    pub open spec fn supported_source(&self) -> bool {
        has_prefix(self.id@, "git+"@) || has_prefix(self.id@, "path+"@)
    }

    /// Whether the package declares a dependency named `name`.
    pub fn declares_dependency(&self, name: &str) -> (found: bool)
        ensures
            found == self.declares(name@),
    {
        let mut k: usize = 0;
        while k < self.dependencies.len()
            invariant
                k <= self.dependencies.len(),
                forall|j: int| 0 <= j < k ==> (#[trigger] self.dependencies@[j]).name@ != name@,
            decreases self.dependencies.len() - k,
        {
            if text_eq(self.dependencies[k].name.as_str(), name) {
                return true;
            }
            k += 1;
        }
        false
    }

    /// Whether the package needs bindings.
    pub fn is_uniffi_package(&self) -> (needed: bool)
        ensures
            needed == self.needs_bindings(),
    {
        let mut k: usize = 0;
        while k < self.dependencies.len()
            invariant
                k <= self.dependencies.len(),
                forall|j: int| 0 <= j < k ==> !(#[trigger] self.dependencies@[j]).brings_bindings(),
            decreases self.dependencies.len() - k,
        {
            let d = &self.dependencies[k];
            if text_eq(d.name.as_str(), "uniffi") && !d.optional && d.kind == DependencyKind::Normal {
                return self.has_uniffi_toml;
            }
            k += 1;
        }
        false
    }

    /// Whether the package's origin is one whose sources can be found.
    pub fn has_supported_source(&self) -> (supported: bool)
        ensures
            supported == self.supported_source(),
    {
        starts_with(self.id.as_str(), "git+") || starts_with(self.id.as_str(), "path+")
    }
}

/// Whether the package at `i` needs bindings and is named `name`.
pub open spec fn is_named(packages: Seq<CargoPackage>, name: Seq<char>, i: int) -> bool {
    0 <= i < packages.len() && packages[i].needs_bindings() && packages[i].name@ == name
}

/// Whether `i` is the first package that needs bindings and is named `name`.
pub open spec fn is_first_named(packages: Seq<CargoPackage>, name: Seq<char>, i: int) -> bool {
    is_named(packages, name, i) && forall|j: int| 0 <= j < i ==> !is_named(packages, name, j)
}

/// The place of the first package that needs bindings and is named `name`.
pub open spec fn find_package(packages: Seq<CargoPackage>, name: Seq<char>) -> Option<int> {
    if exists|i: int| is_first_named(packages, name, i) {
        Some(choose|i: int| is_first_named(packages, name, i))
    } else {
        None
    }
}

/// Among the first `count` declared dependencies of the package at `i`,
/// those that resolve to a package with bindings, each as the place of
/// that package, in declaration order.
pub open spec fn resolved_dependencies(packages: Seq<CargoPackage>, i: int, count: nat) -> Seq<int>
    decreases count,
{
    if count == 0 || !(0 <= i < packages.len()) || count > packages[i].dependencies@.len() {
        Seq::empty()
    } else {
        let rest = resolved_dependencies(packages, i, (count - 1) as nat);
        match find_package(packages, packages[i].dependencies@[count - 1].name@) {
            Some(c) => rest.push(c),
            None => rest,
        }
    }
}

/// The places of the packages that the package at `i` has an edge to.
pub open spec fn children(packages: Seq<CargoPackage>, i: int) -> Seq<int> {
    if 0 <= i < packages.len() {
        resolved_dependencies(packages, i, packages[i].dependencies@.len())
    } else {
        Seq::empty()
    }
}

/// Whether the package at `j` needs bindings and declares a dependency
/// named like the package at `i`.
pub open spec fn depends_on(packages: Seq<CargoPackage>, j: int, i: int) -> bool {
    0 <= j < packages.len() && 0 <= i < packages.len() && packages[j].needs_bindings()
        && packages[j].declares(packages[i].name@)
}

/// Whether some package with bindings, the package itself included,
/// depends on the package at `i`.
pub open spec fn has_dependent(packages: Seq<CargoPackage>, i: int) -> bool {
    exists|j: int| depends_on(packages, j, i)
}

/// Whether the package at `i` needs bindings and nothing depends on it.
pub open spec fn is_top_level(packages: Seq<CargoPackage>, i: int) -> bool {
    0 <= i < packages.len() && packages[i].needs_bindings() && !has_dependent(packages, i)
}

/// The places of the top-level packages among the first `count` packages,
/// in ascending order.
pub open spec fn top_level_among(packages: Seq<CargoPackage>, count: nat) -> Seq<int>
    decreases count,
{
    if count == 0 {
        Seq::empty()
    } else {
        let rest = top_level_among(packages, (count - 1) as nat);
        if is_top_level(packages, count - 1) {
            rest.push(count - 1)
        } else {
            rest
        }
    }
}

/// The top-level packages among the first `count` are just the packages
/// among them that need bindings and that nothing depends on.
pub proof fn law_top_level_among(packages: Seq<CargoPackage>, count: nat, i: int)
    requires
        count <= packages.len(),
    ensures
        top_level_among(packages, count).contains(i) <==> (0 <= i < count && is_top_level(
            packages,
            i,
        )),
    decreases count,
{
    if count > 0 {
        let rest = top_level_among(packages, (count - 1) as nat);
        let all = top_level_among(packages, count);
        law_top_level_among(packages, (count - 1) as nat, i);
        if is_top_level(packages, count - 1) {
            assert(all == rest.push(count - 1));
            if rest.contains(i) {
                let w = choose|w: int| 0 <= w < rest.len() && rest[w] == i;
                assert(all[w] == i);
            }
            if i == count - 1 {
                assert(all[rest.len() as int] == i);
            }
            if all.contains(i) {
                let w = choose|w: int| 0 <= w < all.len() && all[w] == i;
                if w < rest.len() {
                    assert(rest[w] == i);
                }
            }
        }
    }
}

/// The places of all top-level packages, in ascending order.
pub open spec fn top_level(packages: Seq<CargoPackage>) -> Seq<int> {
    top_level_among(packages, packages.len())
}

/// Whether the package at `i` needs bindings and has an origin whose
/// sources cannot be found.
pub open spec fn is_unsupported(packages: Seq<CargoPackage>, i: int) -> bool {
    0 <= i < packages.len() && packages[i].needs_bindings() && !packages[i].supported_source()
}

/// Whether `i` is the first package with bindings and an unsupported origin.
pub open spec fn is_first_unsupported(packages: Seq<CargoPackage>, i: int) -> bool {
    is_unsupported(packages, i) && forall|j: int| 0 <= j < i ==> !is_unsupported(packages, j)
}

/// The place of the first package with bindings and an unsupported origin.
pub open spec fn first_unsupported(packages: Seq<CargoPackage>) -> Option<int> {
    if exists|i: int| is_first_unsupported(packages, i) {
        Some(choose|i: int| is_first_unsupported(packages, i))
    } else {
        None
    }
}

/// The integers that a sequence of indices holds.
pub open spec fn places(indices: Seq<usize>) -> Seq<int> {
    indices.map_values(|i: usize| i as int)
}

/// Finds the first package that needs bindings and is named `name`.
pub fn find(packages: &Vec<CargoPackage>, name: &str) -> (found: Option<usize>)
    ensures
        match found {
            Some(i) => find_package(packages@, name@) == Some(i as int),
            None => find_package(packages@, name@) is None,
        },
{
    let mut i: usize = 0;
    while i < packages.len()
        invariant
            i <= packages.len(),
            forall|j: int| 0 <= j < i ==> !is_named(packages@, name@, j),
        decreases packages.len() - i,
    {
        if packages[i].is_uniffi_package() && text_eq(packages[i].name.as_str(), name) {
            assert(is_first_named(packages@, name@, i as int));
            return Some(i);
        }
        i += 1;
    }
    None
}

/// Finds the first package with bindings whose origin is unsupported.
pub fn find_unsupported(packages: &Vec<CargoPackage>) -> (found: Option<usize>)
    ensures
        match found {
            Some(i) => first_unsupported(packages@) == Some(i as int),
            None => first_unsupported(packages@) is None,
        },
{
    let mut i: usize = 0;
    while i < packages.len()
        invariant
            i <= packages.len(),
            forall|j: int| 0 <= j < i ==> !is_unsupported(packages@, j),
        decreases packages.len() - i,
    {
        if packages[i].is_uniffi_package() && !packages[i].has_supported_source() {
            assert(is_first_unsupported(packages@, i as int));
            return Some(i);
        }
        i += 1;
    }
    None
}

/// The places of the packages that need bindings among the first `count`
/// packages, in ascending order.
pub open spec fn with_bindings_among(packages: Seq<CargoPackage>, count: nat) -> Seq<int>
    decreases count,
{
    if count == 0 || count > packages.len() {
        Seq::empty()
    } else {
        let rest = with_bindings_among(packages, (count - 1) as nat);
        if packages[count - 1].needs_bindings() {
            rest.push(count - 1)
        } else {
            rest
        }
    }
}

/// The packages that need bindings, each with an origin whose sources can
/// be found: they are the nodes of the graph. The first package with
/// bindings that comes from a registry is a failure.
pub fn discover(packages: &Vec<CargoPackage>) -> (found: Result<Vec<usize>, PackagingError>)
    ensures
        match found {
            Ok(nodes) => first_unsupported(packages@) is None && places(nodes@)
                == with_bindings_among(packages@, packages@.len()),
            Err(e) => first_unsupported(packages@) is Some && e@
                == (PackagingErrorView::UnsupportedSourcing {
                id: packages@[first_unsupported(packages@)->Some_0].id@,
            }),
        },
{
    match find_unsupported(packages) {
        Some(i) => {
            return Err(PackagingError::UnsupportedSourcing { id: packages[i].id.clone() });
        },
        None => {},
    }
    let mut nodes: Vec<usize> = Vec::new();
    let mut i: usize = 0;
    assert(places(nodes@) =~= with_bindings_among(packages@, 0));
    while i < packages.len()
        invariant
            i <= packages.len(),
            places(nodes@) == with_bindings_among(packages@, i as nat),
        decreases packages.len() - i,
    {
        if packages[i].is_uniffi_package() {
            assert(places(nodes@.push(i)) == places(nodes@).push(i as int));
            nodes.push(i);
        }
        i += 1;
    }
    Ok(nodes)
}

/// Whether some package with bindings depends on the package at `i`.
pub fn is_depended_upon(packages: &Vec<CargoPackage>, i: usize) -> (found: bool)
    ensures
        found == has_dependent(packages@, i as int),
{
    if i >= packages.len() {
        return false;
    }
    let mut j: usize = 0;
    while j < packages.len()
        invariant
            i < packages.len(),
            j <= packages.len(),
            forall|k: int| 0 <= k < j ==> !depends_on(packages@, k, i as int),
        decreases packages.len() - j,
    {
        if packages[j].is_uniffi_package() && packages[j].declares_dependency(
            packages[i].name.as_str(),
        ) {
            assert(depends_on(packages@, j as int, i as int));
            return true;
        }
        j += 1;
    }
    false
}

/// The top-level packages: those with bindings that no package with
/// bindings depends on.
pub fn top_level_packages(packages: &Vec<CargoPackage>) -> (found: Vec<usize>)
    ensures
        places(found@) == top_level(packages@),
        forall|k: int| 0 <= k < found@.len() ==> (#[trigger] found@[k]) < packages@.len(),
{
    let mut found: Vec<usize> = Vec::new();
    let mut i: usize = 0;
    assert(places(found@) == top_level_among(packages@, 0));
    while i < packages.len()
        invariant
            i <= packages.len(),
            places(found@) == top_level_among(packages@, i as nat),
            forall|k: int| 0 <= k < found@.len() ==> (#[trigger] found@[k]) < packages@.len(),
        decreases packages.len() - i,
    {
        if packages[i].is_uniffi_package() && !is_depended_upon(packages, i) {
            assert(places(found@.push(i)) == places(found@).push(i as int));
            found.push(i);
        }
        i += 1;
    }
    found
}

} // verus!
