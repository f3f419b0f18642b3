//! The packages that need generated bindings, and the tree they form.

use vstd::prelude::*;
use vstd::string::StringExecFns;
use crate::config::{read_swift_setting, swift_setting, ConfigFault};
use crate::error::{PackagingError, PackagingErrorView};
use crate::package_graph::{
    children, discover, find, find_package, first_unsupported, is_first_named, places,
    resolved_dependencies, top_level,
    top_level_packages, CargoPackage,
};
use crate::paths::{join, joined, sibling, with_file_name};
use crate::text::{append, text_eq, texts};

verus! {

/// The tree of packages below one package: what a [`UniffiPackage`] is,
/// with texts in place of strings.
pub ghost struct PackageNode {
    pub name: Seq<char>,
    pub manifest_path: Seq<char>,
    pub uniffi_toml: Option<Seq<u8>>,
    pub dependencies: Seq<PackageNode>,
}

impl PackageNode {
    /// The setting of the Swift bindings under `key` in the package's
    /// configuration file, or why there is none.
    pub open spec fn setting(self, key: Seq<char>) -> Result<Seq<char>, PackagingErrorView> {
        match self.uniffi_toml {
            None => Err(PackagingErrorView::ConfigUnreadable { package: self.name }),
            Some(content) => match swift_setting(content, key) {
                Ok(value) => Ok(value),
                Err(ConfigFault::NotUtf8) => Err(
                    PackagingErrorView::ConfigNotUtf8 { package: self.name },
                ),
                Err(ConfigFault::Invalid) => Err(
                    PackagingErrorView::ConfigInvalid { package: self.name },
                ),
                Err(ConfigFault::KeyMissing) => Err(
                    PackagingErrorView::SettingMissing { key: key, package: self.name },
                ),
            },
        }
    }

    /// The name of the module that holds the raw bindings of all packages.
    pub open spec fn ffi_module_name(self) -> Result<Seq<char>, PackagingErrorView> {
        self.setting("ffi_module_name"@)
    }

    /// The name of the package's public module.
    pub open spec fn public_module_name(self) -> Result<Seq<char>, PackagingErrorView> {
        self.setting("wp_spm_public_module_name"@)
    }

    /// The name of the package's internal module: that of the public one
    /// with `Internal` behind it.
    pub open spec fn internal_module_name(self) -> Result<Seq<char>, PackagingErrorView> {
        match self.public_module_name() {
            Ok(name) => Ok(name + "Internal"@),
            Err(e) => Err(e),
        }
    }

    /// The nodes in the order in which a depth-first walk with a stack
    /// meets them: the node itself, then the subtrees of its dependencies,
    /// the last declared first. A node that several paths lead to occurs
    /// once for each path.
    pub open spec fn traversal(self) -> Seq<PackageNode>
        decreases self, self.dependencies.len() + 1,
    {
        seq![self] + self.traversal_of_first(self.dependencies.len())
    }

    /// The walk through the subtrees of the first `count` dependencies,
    /// the last of them first.
    pub open spec fn traversal_of_first(self, count: nat) -> Seq<PackageNode>
        decreases self, count,
    {
        if count == 0 || count > self.dependencies.len() {
            Seq::empty()
        } else {
            self.dependencies[count - 1].traversal() + self.traversal_of_first(
                (count - 1) as nat,
            )
        }
    }
}

/// A package that needs generated bindings, with those of its dependencies
/// that need them too.
#[derive(Debug)]
pub struct UniffiPackage {
    pub name: String,
    pub manifest_path: String,
    pub dependencies: Vec<UniffiPackage>,
    /// The content of the companion configuration file, where it could be
    /// read.
    pub uniffi_toml: Option<Vec<u8>>,
}

/// The content of an optional byte buffer.
pub open spec fn bytes_of(content: Option<Vec<u8>>) -> Option<Seq<u8>> {
    match content {
        Some(bytes) => Some(bytes@),
        None => None,
    }
}

impl View for UniffiPackage {
    type V = PackageNode;

    open spec fn view(&self) -> PackageNode
        decreases self, self.dependencies@.len() + 1,
    {
        PackageNode {
            name: self.name@,
            manifest_path: self.manifest_path@,
            uniffi_toml: bytes_of(self.uniffi_toml),
            dependencies: self.first_nodes(self.dependencies@.len()),
        }
    }
}

/// The trees of a sequence of packages.
pub open spec fn trees_of(packages: Seq<UniffiPackage>) -> Seq<PackageNode> {
    packages.map_values(|p: UniffiPackage| p@)
}

/// The places among the first `count` that are not on `path`.
pub open spec fn off_path(count: nat, path: Seq<usize>) -> Set<int> {
    Set::new(|k: int| 0 <= k < count && !places(path).contains(k))
}

/// The tree below the package at `i`, where the packages at the places in
/// `open` may still be entered. There is none if the package is not open:
/// then the way to it has passed through it before, so a package depends
/// on itself.
pub open spec fn tree(packages: Seq<CargoPackage>, i: int, open: Set<int>) -> Option<PackageNode>
    decreases open.len(), 0nat,
{
    if open.finite() && open.contains(i) && 0 <= i < packages.len() {
        match forest(packages, children(packages, i), open.remove(i)) {
            Some(nodes) => Some(
                PackageNode {
                    name: packages[i].name@,
                    manifest_path: packages[i].manifest_path@,
                    uniffi_toml: bytes_of(packages[i].uniffi_toml),
                    dependencies: nodes,
                },
            ),
            None => None,
        }
    } else {
        None
    }
}

/// The trees below the packages at `roots`, if each of them has one.
pub open spec fn forest(packages: Seq<CargoPackage>, roots: Seq<int>, open: Set<int>) -> Option<
    Seq<PackageNode>,
>
    decreases open.len(), roots.len() + 1,
{
    if roots.len() == 0 {
        Some(Seq::empty())
    } else {
        match (
            forest(packages, roots.drop_last(), open),
            tree(packages, roots.last(), open),
        ) {
            (Some(nodes), Some(node)) => Some(nodes.push(node)),
            _ => None,
        }
    }
}

/// The tree below the package at `i`, entered from outside.
pub open spec fn tree_from(packages: Seq<CargoPackage>, i: int) -> Option<PackageNode> {
    tree(packages, i, off_path(packages.len(), Seq::empty()))
}

/// The content of a text or a failure.
pub open spec fn text_result(r: Result<String, PackagingError>) -> Result<
    Seq<char>,
    PackagingErrorView,
> {
    match r {
        Ok(text) => Ok(text@),
        Err(e) => Err(e@),
    }
}

/// The tree of a package or a failure.
pub open spec fn node_result(r: Result<UniffiPackage, PackagingError>) -> Result<
    PackageNode,
    PackagingErrorView,
> {
    match r {
        Ok(package) => Ok(package@),
        Err(e) => Err(e@),
    }
}

/// The names of the packages at the given places.
pub open spec fn names_at(packages: Seq<CargoPackage>, at: Seq<int>) -> Seq<Seq<char>> {
    at.map_values(|i: int| packages[i].name@)
}

/// The root of the packages with bindings: the tree below the one package
/// with bindings that no package with bindings depends on.
///
/// A package with bindings that comes from a registry is a failure, and
/// the first such package is named. Without it, any number of top-level
/// packages but one is a failure that names them all; that covers
/// packages that depend on each other in a circle, of which none is
/// top-level. A circle below the one top-level package is a failure too.
pub open spec fn root_of(packages: Seq<CargoPackage>) -> Result<PackageNode, PackagingErrorView> {
    match first_unsupported(packages) {
        Some(i) => Err(PackagingErrorView::UnsupportedSourcing { id: packages[i].id@ }),
        None => {
            let candidates = top_level(packages);
            if candidates.len() != 1 {
                Err(
                    PackagingErrorView::AmbiguousRoot {
                        candidates: names_at(packages, candidates),
                    },
                )
            } else {
                match tree_from(packages, candidates[0]) {
                    Some(root) => Ok(root),
                    None => Err(
                        PackagingErrorView::CyclicDependency {
                            package: packages[candidates[0]].name@,
                        },
                    ),
                }
            }
        },
    }
}

/// The tree of an optional package.
pub open spec fn node_of(package: Option<UniffiPackage>) -> Option<PackageNode> {
    match package {
        Some(p) => Some(p@),
        None => None,
    }
}

/// The places off a path are finitely many.
proof fn lemma_off_path_finite(count: nat, path: Seq<usize>)
    ensures
        off_path(count, path).finite(),
{
    vstd::set_lib::lemma_int_range(0, count as int);
    vstd::set_lib::lemma_len_subset(off_path(count, path), vstd::set_lib::set_int_range(0, count as int));
}

/// Entering a place that is off the path takes just that place away.
proof fn lemma_off_path_push(count: nat, path: Seq<usize>, i: usize)
    requires
        i < count,
        !places(path).contains(i as int),
    ensures
        off_path(count, path).contains(i as int),
        off_path(count, path.push(i)) == off_path(count, path).remove(i as int),
        off_path(count, path.push(i)).len() < off_path(count, path).len(),
{
    lemma_off_path_finite(count, path);
    assert(places(path.push(i)) == places(path).push(i as int));
    assert forall|k: int| places(path.push(i)).contains(k) <==> (places(path).contains(k) || k
        == i) by {
        if places(path).contains(k) {
            let w = choose|w: int| 0 <= w < places(path).len() && places(path)[w] == k;
            assert(places(path.push(i))[w] == k);
        }
        if k == i {
            assert(places(path.push(i))[path.len() as int] == k);
        }
    }
    assert(off_path(count, path.push(i)) =~= off_path(count, path).remove(i as int));
}

/// Once the trees of the first dependencies cannot all be had, the trees
/// of more dependencies cannot either.
proof fn lemma_forest_stays_none(
    packages: Seq<CargoPackage>,
    i: int,
    from: nat,
    to: nat,
    open: Set<int>,
)
    requires
        0 <= i < packages.len(),
        from <= to <= packages[i].dependencies@.len(),
        forest(packages, resolved_dependencies(packages, i, from), open) is None,
    ensures
        forest(packages, resolved_dependencies(packages, i, to), open) is None,
    decreases to - from,
{
    if from < to {
        lemma_forest_stays_none(packages, i, from, (to - 1) as nat, open);
        let shorter = resolved_dependencies(packages, i, (to - 1) as nat);
        let longer = resolved_dependencies(packages, i, to);
        if longer != shorter {
            assert(longer.drop_last() == shorter);
        }
    }
}

/// The trees of a sequence of packages given by reference.
pub open spec fn nodes_of(packages: Seq<&UniffiPackage>) -> Seq<PackageNode> {
    packages.map_values(|p: &UniffiPackage| p@)
}

/// The walk that is still due for a stack of nodes: the top of the stack,
/// which is its last element, is walked first.
pub open spec fn stack_traversal(stack: Seq<PackageNode>) -> Seq<PackageNode>
    decreases stack.len(),
{
    if stack.len() == 0 {
        Seq::empty()
    } else {
        stack.last().traversal() + stack_traversal(stack.drop_last())
    }
}

/// Whether `i` is on the path.
fn on_path(path: &Vec<usize>, i: usize) -> (found: bool)
    ensures
        found == places(path@).contains(i as int),
{
    let mut k: usize = 0;
    while k < path.len()
        invariant
            k <= path.len(),
            forall|j: int| 0 <= j < k ==> places(path@)[j] != i as int,
        decreases path.len() - k,
    {
        if path[k] == i {
            assert(places(path@)[k as int] == i as int);
            return true;
        }
        k += 1;
    }
    false
}

/// The path with `i` at its end.
fn extended(path: &Vec<usize>, i: usize) -> (longer: Vec<usize>)
    ensures
        longer@ == path@.push(i),
{
    let mut longer: Vec<usize> = Vec::new();
    let mut k: usize = 0;
    while k < path.len()
        invariant
            k <= path.len(),
            longer@ == path@.take(k as int),
        decreases path.len() - k,
    {
        longer.push(path[k]);
        k += 1;
    }
    assert(path@.take(path.len() as int) == path@);
    longer.push(i);
    longer
}

/// A copy of an optional byte buffer.
fn copy_bytes(content: &Option<Vec<u8>>) -> (copy: Option<Vec<u8>>)
    ensures
        bytes_of(copy) == bytes_of(*content),
{
    match content {
        None => None,
        Some(bytes) => {
            let mut copy: Vec<u8> = Vec::new();
            let mut k: usize = 0;
            while k < bytes.len()
                invariant
                    k <= bytes.len(),
                    copy@ == bytes@.take(k as int),
                decreases bytes.len() - k,
            {
                copy.push(bytes[k]);
                k += 1;
            }
            assert(bytes@.take(bytes.len() as int) == bytes@);
            Some(copy)
        },
    }
}

/// Builds the tree below the package at `i`, which was reached along
/// `path`.
fn build(packages: &Vec<CargoPackage>, i: usize, path: &Vec<usize>) -> (node: Option<UniffiPackage>)
    requires
        i < packages.len(),
    ensures
        node_of(node) == tree(packages@, i as int, off_path(packages@.len(), path@)),
    decreases off_path(packages@.len(), path@).len(),
{
    let ghost open = off_path(packages@.len(), path@);
    proof {
        lemma_off_path_finite(packages@.len(), path@);
    }
    if on_path(path, i) {
        return None;
    }
    let longer = extended(path, i);
    let ghost rest = off_path(packages@.len(), longer@);
    proof {
        lemma_off_path_push(packages@.len(), path@, i);
    }
    let package = &packages[i];
    let mut dependencies: Vec<UniffiPackage> = Vec::new();
    let mut k: usize = 0;
    assert(trees_of(dependencies@) == Seq::<PackageNode>::empty());
    while k < package.dependencies.len()
        invariant
            i < packages.len(),
            *package == packages@[i as int],
            k <= package.dependencies.len(),
            open == off_path(packages@.len(), path@),
            rest == off_path(packages@.len(), longer@),
            open.finite(),
            open.contains(i as int),
            rest == open.remove(i as int),
            rest.len() < open.len(),
            forest(packages@, resolved_dependencies(packages@, i as int, k as nat), rest) == Some(
                trees_of(dependencies@),
            ),
        decreases package.dependencies.len() - k,
    {
        let ghost before = resolved_dependencies(packages@, i as int, k as nat);
        let ghost after = resolved_dependencies(packages@, i as int, (k + 1) as nat);
        match find(packages, package.dependencies[k].name.as_str()) {
            None => {
                assert(after == before);
            },
            Some(c) => {
                proof {
                    assert(after == before.push(c as int));
                    assert(after.drop_last() == before);
                    assert(after.last() == c as int);
                }
                match build(packages, c, &longer) {
                    None => {
                        proof {
                            assert(forest(packages@, after, rest) is None);
                            lemma_forest_stays_none(
                                packages@,
                                i as int,
                                (k + 1) as nat,
                                package.dependencies@.len(),
                                rest,
                            );
                        }
                        return None;
                    },
                    Some(node) => {
                        assert(trees_of(dependencies@.push(node)) == trees_of(dependencies@).push(
                            node@,
                        ));
                        dependencies.push(node);
                    },
                }
            },
        }
        k += 1;
    }
    let built = UniffiPackage {
        name: package.name.clone(),
        manifest_path: package.manifest_path.clone(),
        dependencies,
        uniffi_toml: copy_bytes(&package.uniffi_toml),
    };
    proof {
        built.lemma_view();
        assert(built@.dependencies == trees_of(built.dependencies@));
    }
    Some(built)
}

impl UniffiPackage {
    /// The package at `index` of `all_packages` with the tree of its
    /// dependencies: each declared dependency that names a package with
    /// bindings becomes a dependency of the tree, and the others are left
    /// out. There is no tree where `index` is no place of the list, or
    /// where a package below the one at `index` depends on itself.
    pub fn new(index: usize, all_packages: &Vec<CargoPackage>) -> (package: Option<Self>)
        ensures
            node_of(package) == tree_from(all_packages@, index as int),
    {
        if index >= all_packages.len() {
            return None;
        }
        let path: Vec<usize> = Vec::new();
        build(all_packages, index, &path)
    }

    /// The trees of the first `count` dependencies.
    pub open spec fn first_nodes(&self, count: nat) -> Seq<PackageNode>
        decreases self, count,
    {
        if count == 0 || count > self.dependencies@.len() {
            Seq::empty()
        } else {
            self.first_nodes((count - 1) as nat).push(self.dependencies@[count - 1]@)
        }
    }

    /// The first `count` dependencies give `count` trees, each the tree of
    /// the dependency at its place.
    pub proof fn lemma_first_nodes(&self, count: nat)
        requires
            count <= self.dependencies@.len(),
        ensures
            self.first_nodes(count).len() == count,
            forall|i: int|
                0 <= i < count ==> #[trigger] self.first_nodes(count)[i] == self.dependencies@[i]@,
        decreases count,
    {
        if count > 0 {
            self.lemma_first_nodes((count - 1) as nat);
            assert(self.first_nodes(count) == self.first_nodes((count - 1) as nat).push(self.dependencies@[count - 1]@));
        } else {
            assert(self.first_nodes(count) == Seq::<PackageNode>::empty());
        }
    }

    /// The tree of a package is made of the trees of its dependencies.
    pub proof fn lemma_view(&self)
        ensures
            self@.name == self.name@,
            self@.manifest_path == self.manifest_path@,
            self@.uniffi_toml == bytes_of(self.uniffi_toml),
            self@.dependencies.len() == self.dependencies@.len(),
            forall|i: int|
                0 <= i < self.dependencies@.len() ==> #[trigger] self@.dependencies[i]
                    == self.dependencies@[i]@,
    {
        self.lemma_first_nodes(self.dependencies@.len());
    }

    /// Whether one of the direct dependencies is named `other`.
    pub fn depends_on(&self, other: &str) -> (found: bool)
        ensures
            found == exists|i: int|
                0 <= i < self@.dependencies.len() && #[trigger] self@.dependencies[i].name
                    == other@,
    {
        let mut i: usize = 0;
        proof {
            self.lemma_view();
        }
        while i < self.dependencies.len()
            invariant
                i <= self.dependencies.len(),
                self@.dependencies.len() == self.dependencies@.len(),
                forall|j: int|
                    0 <= j < self.dependencies@.len() ==> #[trigger] self@.dependencies[j]
                        == self.dependencies@[j]@,
                forall|j: int| 0 <= j < i ==> #[trigger] self@.dependencies[j].name != other@,
            decreases self.dependencies.len() - i,
        {
            if text_eq(self.dependencies[i].name.as_str(), other) {
                proof {
                    self.dependencies@[i as int].lemma_view();
                }
                assert(self@.dependencies[i as int].name == other@);
                return true;
            }
            proof {
                self.dependencies@[i as int].lemma_view();
            }
            i += 1;
        }
        false
    }

    /// The file that holds the generated binding source of this package.
    pub fn swift_wrapper_file_name(&self) -> (file_name: String)
        ensures
            file_name@ == self@.name + ".swift"@,
    {
        append(self.name.as_str(), ".swift")
    }

    /// Where the configuration file of the package with the manifest at
    /// `manifest_path` stands: beside the manifest, under the name
    /// `uniffi.toml`.
    pub fn uniffi_toml_path(manifest_path: &str) -> (path: String)
        ensures
            path@ == sibling(manifest_path@, "uniffi.toml"@),
    {
        with_file_name(manifest_path, "uniffi.toml")
    }

    /// The setting of the Swift bindings under `key` in the package's
    /// configuration file.
    pub fn uniffi_toml_swift_configuration(&self, key: &str) -> (setting: Result<
        String,
        PackagingError,
    >)
        ensures
            text_result(setting) == self@.setting(key@),
    {
        proof {
            self.lemma_view();
        }
        match &self.uniffi_toml {
            None => Err(PackagingError::ConfigUnreadable { package: self.name.clone() }),
            Some(content) => match read_swift_setting(content.as_slice(), key) {
                Ok(value) => Ok(value),
                Err(ConfigFault::NotUtf8) => Err(
                    PackagingError::ConfigNotUtf8 { package: self.name.clone() },
                ),
                Err(ConfigFault::Invalid) => Err(
                    PackagingError::ConfigInvalid { package: self.name.clone() },
                ),
                Err(ConfigFault::KeyMissing) => Err(
                    PackagingError::SettingMissing {
                        key: String::from_str(key),
                        package: self.name.clone(),
                    },
                ),
            },
        }
    }

    /// The name of the module that holds the raw bindings.
    pub fn ffi_module_name(&self) -> (name: Result<String, PackagingError>)
        ensures
            text_result(name) == self@.ffi_module_name(),
    {
        self.uniffi_toml_swift_configuration("ffi_module_name")
    }

    /// The name of the package's public module.
    pub fn public_module_name(&self) -> (name: Result<String, PackagingError>)
        ensures
            text_result(name) == self@.public_module_name(),
    {
        self.uniffi_toml_swift_configuration("wp_spm_public_module_name")
    }

    /// The name of the package's internal module.
    pub fn internal_module_name(&self) -> (name: Result<String, PackagingError>)
        ensures
            text_result(name) == self@.internal_module_name(),
    {
        match self.public_module_name() {
            Ok(name) => Ok(append(name.as_str(), "Internal")),
            Err(e) => Err(e),
        }
    }

    /// All packages of the tree, this one first, in the order of a
    /// depth-first walk that keeps the packages still to visit on a stack.
    /// Each call walks the tree afresh and gives the same sequence.
    pub fn iter(&self) -> (packages: Vec<&UniffiPackage>)
        ensures
            nodes_of(packages@) == self@.traversal(),
    {
        let mut result: Vec<&UniffiPackage> = Vec::new();
        let mut queue: Vec<&UniffiPackage> = Vec::new();
        queue.push(self);
        proof {
            assert(nodes_of(queue@) == seq![self@]);
            assert(stack_traversal(seq![self@].drop_last()) == Seq::<PackageNode>::empty()) by {
                assert(seq![self@].drop_last().len() == 0);
            }
            assert(stack_traversal(nodes_of(queue@)) == self@.traversal());
            assert(nodes_of(result@) == Seq::<PackageNode>::empty());
        }
        while queue.len() > 0
            invariant
                nodes_of(result@) + stack_traversal(nodes_of(queue@)) == self@.traversal(),
            decreases stack_traversal(nodes_of(queue@)).len(),
        {
            let ghost before = nodes_of(queue@);
            let package = queue.pop().unwrap();
            let ghost below = nodes_of(queue@);
            proof {
                assert(below == before.drop_last());
                assert(before.last() == package@);
                assert(nodes_of(result@.push(package)) == nodes_of(result@).push(package@));
            }
            result.push(package);
            let mut i: usize = 0;
            proof {
                package.lemma_view();
            }
            while i < package.dependencies.len()
                invariant
                    i <= package.dependencies.len(),
                    package@.dependencies.len() == package.dependencies@.len(),
                    forall|j: int|
                        0 <= j < package.dependencies@.len() ==> #[trigger] package@.dependencies[j]
                            == package.dependencies@[j]@,
                    stack_traversal(nodes_of(queue@)) == package@.traversal_of_first(i as nat)
                        + stack_traversal(below),
                decreases package.dependencies.len() - i,
            {
                let dep = &package.dependencies[i];
                proof {
                    let stack = nodes_of(queue@.push(dep));
                    assert(stack == nodes_of(queue@).push(dep@));
                    assert(stack.drop_last() == nodes_of(queue@));
                    assert(stack.last() == package@.dependencies[i as int]);
                }
                queue.push(dep);
                i += 1;
            }
        }
        proof {
            assert(nodes_of(queue@).len() == 0);
        }
        result
    }
}

/// The names of the packages at the given places.
fn names_of(packages: &Vec<CargoPackage>, at: &Vec<usize>) -> (names: Vec<String>)
    requires
        forall|k: int| 0 <= k < at@.len() ==> (#[trigger] at@[k]) < packages@.len(),
    ensures
        texts(names@) == names_at(packages@, places(at@)),
{
    let mut names: Vec<String> = Vec::new();
    let mut k: usize = 0;
    while k < at.len()
        invariant
            k <= at.len(),
            forall|j: int| 0 <= j < at@.len() ==> (#[trigger] at@[j]) < packages@.len(),
            texts(names@) == names_at(packages@, places(at@).take(k as int)),
        decreases at.len() - k,
    {
        let name = packages[at[k]].name.clone();
        proof {
            assert(texts(names@.push(name)) == texts(names@).push(name@));
            assert(places(at@).take(k + 1) == places(at@).take(k as int).push(at@[k as int] as int));
            assert(names_at(packages@, places(at@).take(k as int).push(at@[k as int] as int))
                == names_at(packages@, places(at@).take(k as int)).push(
                packages@[at@[k as int] as int].name@,
            ));
        }
        names.push(name);
        k += 1;
    }
    assert(places(at@).take(at.len() as int) == places(at@));
    names
}

/// The project that is packaged: its top-level package with bindings, and
/// the two directories of the workspace that every path starts from.
pub struct Project {
    pub package: UniffiPackage,
    pub workspace_root: String,
    pub target_directory: String,
}

impl Project {
    /// The place of `name` among the packages of the tree: the first
    /// package of the walk that bears it.
    pub open spec fn is_first_named(&self, name: Seq<char>, k: int) -> bool {
        let walk = self.package@.traversal();
        0 <= k < walk.len() && walk[k].name == name && forall|j: int|
            0 <= j < k ==> (#[trigger] walk[j]).name != name
    }

    /// The directory below the target directory that holds everything the
    /// packaging produces, or why it has no name.
    pub open spec fn output_dir(&self) -> Result<Seq<char>, PackagingErrorView> {
        match self.package@.ffi_module_name() {
            Ok(name) => Ok(joined(self.target_directory@, name)),
            Err(e) => Err(e),
        }
    }

    /// The project of a workspace with the given packages. The tool has to
    /// run in the root of the workspace, which `in_workspace_root` tells.
    pub fn new(
        packages: &Vec<CargoPackage>,
        workspace_root: &str,
        target_directory: &str,
        in_workspace_root: bool,
    ) -> (project: Result<Self, PackagingError>)
        ensures
            match project {
                Ok(p) => in_workspace_root && root_of(packages@) == Ok::<
                    PackageNode,
                    PackagingErrorView,
                >(p.package@) && p.workspace_root@ == workspace_root@ && p.target_directory@
                    == target_directory@,
                Err(e) => if in_workspace_root {
                    root_of(packages@) == Err::<PackageNode, PackagingErrorView>(e@)
                } else {
                    e@ == PackagingErrorView::NotWorkspaceRoot
                },
            },
    {
        if !in_workspace_root {
            return Err(PackagingError::NotWorkspaceRoot);
        }
        match Self::uniffi_package(packages) {
            Ok(package) => Ok(
                Project {
                    package,
                    workspace_root: String::from_str(workspace_root),
                    target_directory: String::from_str(target_directory),
                },
            ),
            Err(e) => Err(e),
        }
    }

    /// The top-level package with bindings among `packages`, with the tree
    /// of its dependencies.
    pub fn uniffi_package(packages: &Vec<CargoPackage>) -> (root: Result<
        UniffiPackage,
        PackagingError,
    >)
        ensures
            node_result(root) == root_of(packages@),
    {
        match discover(packages) {
            Err(e) => {
                return Err(e);
            },
            Ok(_) => {},
        }
        let top_level_packages = top_level_packages(packages);
        if top_level_packages.len() != 1 {
            return Err(
                PackagingError::AmbiguousRoot {
                    candidates: names_of(packages, &top_level_packages),
                },
            );
        }
        let index = top_level_packages[0];
        assert(places(top_level_packages@)[0] == index as int);
        match UniffiPackage::new(index, packages) {
            Some(root) => Ok(root),
            None => Err(PackagingError::CyclicDependency { package: packages[index].name.clone() }),
        }
    }

    /// All packages with bindings, the top-level one first.
    pub fn packages_iter(&self) -> (packages: Vec<&UniffiPackage>)
        ensures
            nodes_of(packages@) == self.package@.traversal(),
    {
        self.package.iter()
    }

    /// The first package of the walk through the tree that is named
    /// `name`.
    pub fn package(&self, name: &str) -> (found: Option<&UniffiPackage>)
        ensures
            match found {
                Some(p) => exists|k: int|
                    self.is_first_named(name@, k) && self.package@.traversal()[k] == p@,
                None => forall|k: int|
                    0 <= k < self.package@.traversal().len() ==> (
                    #[trigger] self.package@.traversal()[k]).name != name@,
            },
    {
        let packages = self.packages_iter();
        let mut k: usize = 0;
        while k < packages.len()
            invariant
                k <= packages.len(),
                nodes_of(packages@) == self.package@.traversal(),
                forall|j: int| 0 <= j < k ==> (#[trigger] self.package@.traversal()[j]).name != name@,
            decreases packages.len() - k,
        {
            let p = packages[k];
            proof {
                p.lemma_view();
                assert(nodes_of(packages@)[k as int] == p@);
            }
            if text_eq(p.name.as_str(), name) {
                assert(self.is_first_named(name@, k as int));
                return Some(p);
            }
            k += 1;
        }
        None
    }

    /// The name of the module that holds the raw bindings.
    pub fn ffi_module_name(&self) -> (name: Result<String, PackagingError>)
        ensures
            text_result(name) == self.package@.ffi_module_name(),
    {
        self.package.ffi_module_name()
    }

    /// Where the library for Linux is put.
    pub fn linux_library_path(&self) -> (path: Result<String, PackagingError>)
        ensures
            text_result(path) == match self.output_dir() {
                Ok(dir) => Ok(joined(dir, "linux"@)),
                Err(e) => Err(e),
            },
    {
        match self.ffi_module_name() {
            Ok(name) => {
                let dir = join(self.target_directory.as_str(), name.as_str());
                Ok(join(dir.as_str(), "linux"))
            },
            Err(e) => Err(e),
        }
    }

    /// Where the bundle is put: it is named after the module of the raw
    /// bindings.
    pub fn xcframework_path(&self) -> (path: Result<String, PackagingError>)
        ensures
            text_result(path) == match self.package@.ffi_module_name() {
                Ok(name) => Ok(
                    joined(joined(self.target_directory@, name), name + ".xcframework"@),
                ),
                Err(e) => Err(e),
            },
    {
        match self.ffi_module_name() {
            Ok(name) => {
                let dir = join(self.target_directory.as_str(), name.as_str());
                let file_name = append(name.as_str(), ".xcframework");
                Ok(join(dir.as_str(), file_name.as_str()))
            },
            Err(e) => Err(e),
        }
    }

    /// Where the binding source of each package with bindings is expected,
    /// in the order of the walk through the tree.
    pub fn swift_wrapper_files_iter(&self) -> (files: Result<
        Vec<(String, &UniffiPackage)>,
        PackagingError,
    >)
        ensures
            match files {
                Ok(found) => {
                    &&& self.output_dir() is Ok
                    &&& found@.len() == self.package@.traversal().len()
                    &&& forall|k: int|
                        0 <= k < found@.len() ==> {
                            &&& (#[trigger] found@[k]).1@ == self.package@.traversal()[k]
                            &&& found@[k].0@ == joined(
                                joined(self.output_dir()->Ok_0, "swift-wrapper"@),
                                self.package@.traversal()[k].name + ".swift"@,
                            )
                        }
                },
                Err(e) => self.output_dir() == Err::<Seq<char>, PackagingErrorView>(e@),
            },
    {
        let directory = match self.swift_wrapper_dir() {
            Ok(d) => d,
            Err(e) => {
                return Err(e);
            },
        };
        let packages = self.packages_iter();
        let mut files: Vec<(String, &UniffiPackage)> = Vec::new();
        let mut k: usize = 0;
        while k < packages.len()
            invariant
                k <= packages.len(),
                self.output_dir() is Ok,
                directory@ == joined(self.output_dir()->Ok_0, "swift-wrapper"@),
                nodes_of(packages@) == self.package@.traversal(),
                files@.len() == k,
                forall|j: int|
                    0 <= j < k ==> {
                        &&& (#[trigger] files@[j]).1@ == self.package@.traversal()[j]
                        &&& files@[j].0@ == joined(
                            directory@,
                            self.package@.traversal()[j].name + ".swift"@,
                        )
                    },
            decreases packages.len() - k,
        {
            let p = packages[k];
            proof {
                assert(nodes_of(packages@)[k as int] == p@);
            }
            let file_name = p.swift_wrapper_file_name();
            files.push((join(directory.as_str(), file_name.as_str()), p));
            k += 1;
        }
        assert(nodes_of(packages@).len() == packages@.len());
        Ok(files)
    }

    /// Where the generated binding sources are put.
    pub fn swift_wrapper_dir(&self) -> (path: Result<String, PackagingError>)
        ensures
            text_result(path) == match self.output_dir() {
                Ok(dir) => Ok(joined(dir, "swift-wrapper"@)),
                Err(e) => Err(e),
            },
    {
        match self.ffi_module_name() {
            Ok(name) => {
                let dir = join(self.target_directory.as_str(), name.as_str());
                Ok(join(dir.as_str(), "swift-wrapper"))
            },
            Err(e) => Err(e),
        }
    }
}

/// The walk through a tree begins at its root, and walking the same tree
/// again gives the same sequence: the walk is a function of the tree.
pub proof fn law_walk_is_repeatable(package: PackageNode, first: Seq<PackageNode>, second: Seq<PackageNode>)
    requires
        first == package.traversal(),
        second == package.traversal(),
    ensures
        first == second,
        first.len() > 0,
        first[0] == package,
{
}

/// The walk through a tree visits each dependency of the root after the
/// root: the walk through the subtree of the last declared dependency
/// follows the root at once.
pub proof fn law_walk_enters_last_dependency_first(package: PackageNode)
    requires
        package.dependencies.len() > 0,
    ensures
        package.traversal().len() > package.dependencies.last().traversal().len(),
        package.traversal().subrange(
            1,
            1 + package.dependencies.last().traversal().len() as int,
        )
            == package.dependencies.last().traversal(),
{
    let count = package.dependencies.len();
    let last = package.dependencies.last().traversal();
    let rest = package.traversal_of_first((count - 1) as nat);
    assert(package.traversal_of_first(count) == last + rest);
    assert(package.traversal() == seq![package] + (last + rest));
    assert(package.traversal().subrange(1, 1 + last.len() as int) =~= last);
}

/// A package without dependencies is its whole walk, and the walk through
/// a package with one dependency is the package followed by the walk
/// through the dependency: a chain is walked from its head to its end.
pub proof fn law_walk_of_a_chain(package: PackageNode)
    requires
        package.dependencies.len() <= 1,
    ensures
        package.dependencies.len() == 0 ==> package.traversal() == seq![package],
        package.dependencies.len() == 1 ==> package.traversal() == seq![package]
            + package.dependencies[0].traversal(),
{
    if package.dependencies.len() == 1 {
        assert(package.traversal_of_first(0) == Seq::<PackageNode>::empty());
        assert(package.traversal_of_first(1) == package.dependencies[0].traversal()
            + package.traversal_of_first(0));
        assert(package.dependencies[0].traversal() + Seq::<PackageNode>::empty()
            == package.dependencies[0].traversal());
    } else {
        assert(package.traversal_of_first(0) == Seq::<PackageNode>::empty());
        assert(seq![package] + Seq::<PackageNode>::empty() == seq![package]);
    }
}

/// Whether the package at place `k + 1` of a way is a dependency, with
/// bindings, of the package at place `k`.
pub open spec fn is_edge(packages: Seq<CargoPackage>, way: Seq<int>, k: int) -> bool {
    0 <= k < way.len() - 1 && children(packages, way[k]).contains(way[k + 1])
}

/// Whether `way` leads from package to package along dependencies.
pub open spec fn is_way(packages: Seq<CargoPackage>, way: Seq<int>) -> bool {
    &&& way.len() >= 1
    &&& forall|k: int| 0 <= k < way.len() ==> 0 <= #[trigger] way[k] < packages.len()
    &&& forall|k: int| 0 <= k < way.len() - 1 ==> #[trigger] is_edge(packages, way, k)
}

/// Whether a way ends at a package that it has passed before.
pub open spec fn closes_circle(way: Seq<int>) -> bool {
    exists|k: int| 0 <= k < way.len() - 1 && #[trigger] way[k] == way.last()
}

/// The trees below some packages can be had just if the tree below each of
/// them can.
proof fn lemma_forest(packages: Seq<CargoPackage>, roots: Seq<int>, open: Set<int>)
    ensures
        forest(packages, roots, open) is Some <==> forall|k: int|
            0 <= k < roots.len() ==> (#[trigger] tree(packages, roots[k], open)) is Some,
    decreases roots.len(),
{
    if roots.len() > 0 {
        lemma_forest(packages, roots.drop_last(), open);
        if forest(packages, roots, open) is Some {
            assert forall|k: int| 0 <= k < roots.len() implies (#[trigger] tree(
                packages,
                roots[k],
                open,
            )) is Some by {
                if k < roots.len() - 1 {
                    assert(roots.drop_last()[k] == roots[k]);
                }
            }
        }
        if forall|k: int|
            0 <= k < roots.len() ==> (#[trigger] tree(packages, roots[k], open)) is Some {
            assert forall|k: int| 0 <= k < roots.drop_last().len() implies (#[trigger] tree(
                packages,
                roots.drop_last()[k],
                open,
            )) is Some by {
                assert(roots.drop_last()[k] == roots[k]);
            }
            assert(tree(packages, roots[roots.len() - 1], open) is Some);
        }
    }
}

/// Where there is no tree below a package, a way leads from the package
/// to a package that may not be entered, or around a circle.
proof fn lemma_no_tree(packages: Seq<CargoPackage>, i: int, open: Set<int>) -> (way: Seq<int>)
    requires
        0 <= i < packages.len(),
        open.finite(),
        tree(packages, i, open) is None,
    ensures
        is_way(packages, way),
        way[0] == i,
        !open.contains(way.last()) || closes_circle(way),
    decreases open.len(),
{
    if !open.contains(i) {
        seq![i]
    } else {
        let kids = children(packages, i);
        lemma_forest(packages, kids, open.remove(i));
        let k = choose|k: int|
            0 <= k < kids.len() && !((#[trigger] tree(packages, kids[k], open.remove(i))) is Some);
        let c = kids[k];
        lemma_children_are_packages(packages, i, packages[i].dependencies@.len());
        assert(kids.contains(c));
        let rest = lemma_no_tree(packages, c, open.remove(i));
        let way = seq![i] + rest;
        assert(way.last() == rest.last());
        assert forall|j: int| 0 <= j < way.len() - 1 implies #[trigger] is_edge(
            packages,
            way,
            j,
        ) by {
            if j > 0 {
                assert(is_edge(packages, rest, j - 1));
                assert(way[j] == rest[j - 1]);
                assert(way[j + 1] == rest[j]);
            } else {
                assert(way[1] == rest[0]);
            }
        }
        if open.contains(way.last()) {
            if rest.last() == i {
                assert(way[0] == way.last());
            } else {
                assert(closes_circle(rest));
                let w = choose|w: int| 0 <= w < rest.len() - 1 && #[trigger] rest[w] == rest.last();
                assert(way[w + 1] == way.last());
            }
        }
        way
    }
}

/// The dependencies with bindings of a package are packages.
proof fn lemma_children_are_packages(packages: Seq<CargoPackage>, i: int, count: nat)
    requires
        0 <= i < packages.len(),
        count <= packages[i].dependencies@.len(),
    ensures
        forall|k: int|
            0 <= k < resolved_dependencies(packages, i, count).len() ==> 0 <= (
            #[trigger] resolved_dependencies(packages, i, count)[k]) < packages.len(),
    decreases count,
{
    if count > 0 {
        lemma_children_are_packages(packages, i, (count - 1) as nat);
        let name = packages[i].dependencies@[count - 1].name@;
        let rest = resolved_dependencies(packages, i, (count - 1) as nat);
        let all = resolved_dependencies(packages, i, count);
        match find_package(packages, name) {
            Some(c) => {
                assert(is_first_named(packages, name, c));
                assert(all == rest.push(c));
            },
            None => {
                assert(all == rest);
            },
        }
    }
}

/// Where there is a tree below a package, every way from the package
/// stays among the packages that may be entered, and passes no package
/// twice.
proof fn lemma_tree_has_no_circle(
    packages: Seq<CargoPackage>,
    open: Set<int>,
    way: Seq<int>,
)
    requires
        is_way(packages, way),
        tree(packages, way[0], open) is Some,
    ensures
        way.no_duplicates(),
        forall|k: int| 0 <= k < way.len() ==> open.contains(#[trigger] way[k]),
    decreases way.len(),
{
    let i = way[0];
    if way.len() > 1 {
        let rest = way.skip(1);
        assert(is_edge(packages, way, 0));
        let kids = children(packages, i);
        lemma_forest(packages, kids, open.remove(i));
        let w = choose|w: int| 0 <= w < kids.len() && kids[w] == way[1];
        assert(tree(packages, kids[w], open.remove(i)) is Some);
        assert forall|k: int| 0 <= k < rest.len() - 1 implies #[trigger] is_edge(
            packages,
            rest,
            k,
        ) by {
            assert(is_edge(packages, way, k + 1));
        }
        lemma_tree_has_no_circle(packages, open.remove(i), rest);
        assert forall|k: int| 0 <= k < way.len() implies open.contains(#[trigger] way[k]) by {
            if k > 0 {
                assert(way[k] == rest[k - 1]);
            }
        }
        assert forall|a: int, b: int| 0 <= a < way.len() && 0 <= b < way.len() && a != b implies way[a]
            != way[b] by {
            if a > 0 && b > 0 {
                assert(rest[a - 1] != rest[b - 1]);
            } else if a == 0 {
                assert(open.remove(i).contains(rest[b - 1]));
            } else {
                assert(open.remove(i).contains(rest[a - 1]));
            }
        }
    }
}

/// There is no tree below a package just if a way of dependencies leads
/// from the package around a circle: then the tree would have no end.
pub proof fn law_no_tree_means_a_circle(packages: Seq<CargoPackage>, i: int)
    requires
        0 <= i < packages.len(),
    ensures
        tree_from(packages, i) is None <==> exists|way: Seq<int>|
            #[trigger] is_way(packages, way) && way[0] == i && closes_circle(way),
{
    let open = off_path(packages.len(), Seq::empty());
    lemma_off_path_finite(packages.len(), Seq::empty());
    if tree_from(packages, i) is None {
        let way = lemma_no_tree(packages, i, open);
        assert(places(Seq::<usize>::empty()).len() == 0);
        assert(open.contains(way.last()));
        assert(is_way(packages, way) && way[0] == i && closes_circle(way));
    }
    if exists|way: Seq<int>| #[trigger] is_way(packages, way) && way[0] == i && closes_circle(way) {
        let way = choose|way: Seq<int>|
            #[trigger] is_way(packages, way) && way[0] == i && closes_circle(way);
        if tree_from(packages, i) is Some {
            lemma_tree_has_no_circle(packages, open, way);
            let k = choose|k: int| 0 <= k < way.len() - 1 && #[trigger] way[k] == way.last();
            assert(way[k] == way[way.len() - 1]);
        }
    }
}

/// The root is the one package with bindings that no package with bindings
/// depends on. Where no package with bindings comes from a registry, there
/// is a root only if exactly one package is top-level, and the root is
/// that package; with no top-level package or several, the failure names
/// them all.
pub proof fn law_root_is_the_only_top_level(packages: Seq<CargoPackage>)
    requires
        first_unsupported(packages) is None,
    ensures
        root_of(packages) is Ok ==> top_level(packages).len() == 1 && root_of(packages)->Ok_0.name
            == packages[top_level(packages)[0]].name@,
        top_level(packages).len() != 1 ==> root_of(packages) == Err::<
            PackageNode,
            PackagingErrorView,
        >(
            PackagingErrorView::AmbiguousRoot {
                candidates: names_at(packages, top_level(packages)),
            },
        ),
{
}

} // verus!
