//! The multi-platform bundle: which slices go into which library group,
//! and what has to be run and moved to assemble it.
//!
//! The bundling tool refuses two libraries for one platform. So the
//! triples are sorted into groups by the platform they are for, the
//! libraries of one group are merged into one, and the bundling tool gets
//! exactly one library and one directory of headers for each group.

use vstd::prelude::*;
use vstd::string::StringExecFns;
use crate::apple_platform::ApplePlatform;
use crate::assembly::{Assembly, AwaitingView, Progress};
use crate::cargo_build::CargoProfile;
use crate::error::{PackagingError, PackagingErrorView};
use crate::paths::{join, joined};
use crate::spm::texts_result;
use crate::target_spec::{llvm_target, llvm_target_of};
use crate::text::{append, ends_with, has_suffix, push_text, split, split_seq, text_eq, texts};
use crate::utils::{
    extension_of, files_with_extension, files_with_extension_of, has_extension,
    only_static_library, FileEntry,
};

verus! {

/// The platform that a library is for: an operating system, on a device or
/// in the simulator. Two triples are for the same platform exactly if
/// their identities are equal.
#[derive(Debug, PartialEq, Eq, Hash, Clone, Copy, Structural)]
pub struct LibraryGroupId {
    pub os: ApplePlatform,
    pub is_sim: bool,
}

/// A thin static library: what one triple was compiled to with one
/// profile.
#[derive(Debug)]
pub struct Slice {
    pub target: String,
    pub profile: CargoProfile,
}

/// The slices that are for one platform.
#[derive(Debug)]
pub struct LibraryGroup {
    pub id: LibraryGroupId,
    pub slices: Vec<Slice>,
}

/// A bundle of static libraries, one library group for each platform.
#[derive(Debug)]
pub struct XCFramework {
    pub libraries: Vec<LibraryGroup>,
}

/// A triple together with the platform it was found to be for.
#[derive(Debug)]
pub struct ResolvedTarget {
    pub target: String,
    pub id: LibraryGroupId,
}

/// A triple together with the target specification that the toolchain
/// printed for it.
#[derive(Debug)]
pub struct TargetSpec {
    pub target: String,
    pub spec_json: Vec<u8>,
}

/// A file to copy or to move.
#[derive(Debug)]
pub struct FileMove {
    pub from: String,
    pub to: String,
}

/// How the library of one slice gets into the scratch directory.
#[derive(Debug)]
pub struct SliceCopy {
    /// The directory to empty and create anew.
    pub directory: String,
    /// The library that was built.
    pub source: String,
    /// Where its copy goes.
    pub destination: String,
}

/// How the libraries of one group become one.
#[derive(Debug)]
pub struct Merge {
    /// The directory to empty and create anew.
    pub directory: String,
    /// The merged library.
    pub destination: String,
    /// The merge tool and its arguments.
    pub command: Vec<String>,
}

/// How the bundle is made of the merged libraries.
#[derive(Debug)]
pub struct Bundling {
    /// The bundle, in the scratch directory.
    pub destination: String,
    /// The bundling tool and its arguments.
    pub command: Vec<String>,
}

/// How the headers of one platform of the bundle are put under a
/// directory of their own.
#[derive(Debug)]
pub struct HeaderPatch {
    /// The directory to empty and create anew.
    pub directory: String,
    /// The files to move into it.
    pub moves: Vec<FileMove>,
}

/// One library group as a platform and the triples of its slices.
pub ghost struct GroupView {
    pub id: LibraryGroupId,
    pub targets: Seq<Seq<char>>,
}

impl View for LibraryGroup {
    type V = GroupView;

    open spec fn view(&self) -> GroupView {
        GroupView { id: self.id, targets: self.slices@.map_values(|s: Slice| s.target@) }
    }
}

impl View for XCFramework {
    type V = Seq<GroupView>;

    open spec fn view(&self) -> Seq<GroupView> {
        self.libraries@.map_values(|g: LibraryGroup| g@)
    }
}

/// The source and the destination of each move.
pub open spec fn moves_of(moves: Seq<FileMove>) -> Seq<(Seq<char>, Seq<char>)> {
    moves.map_values(|m: FileMove| (m.from@, m.to@))
}

/// The operating system that a triple is for. A triple reads
/// `<arch>-<vendor>-<os>` with an optional `-<variant>` behind; the vendor
/// has to be `apple`, and the operating system one of the supported ones.
pub open spec fn triple_platform(target: Seq<char>) -> Result<ApplePlatform, PackagingErrorView> {
    let parts = split_seq(target, '-');
    if parts.len() < 2 || parts[1] != "apple"@ {
        Err(PackagingErrorView::NotApplePlatform { target })
    } else if parts.len() < 3 {
        Err(PackagingErrorView::MissingOs { target })
    } else {
        match ApplePlatform::of_os(parts[2]) {
            Some(os) => Ok(os),
            None => Err(PackagingErrorView::UnknownPlatform { os: parts[2] }),
        }
    }
}

/// Whether a low-level target string is that of a simulator.
pub open spec fn is_simulator(llvm_target: Seq<char>) -> bool {
    has_suffix(llvm_target, "-simulator"@)
}

/// The platform of a triple whose low-level target string is known.
pub open spec fn classified(target: Seq<char>, llvm_target: Seq<char>) -> Result<
    LibraryGroupId,
    PackagingErrorView,
> {
    match triple_platform(target) {
        Ok(os) => Ok(LibraryGroupId { os, is_sim: is_simulator(llvm_target) }),
        Err(e) => Err(e),
    }
}

/// The platform of a triple, given the target specification that the
/// toolchain printed for it. The triple is looked at first.
pub open spec fn identity_of(target: Seq<char>, spec_json: Seq<u8>) -> Result<
    LibraryGroupId,
    PackagingErrorView,
> {
    match triple_platform(target) {
        Err(e) => Err(e),
        Ok(os) => match llvm_target_of(spec_json) {
            Err(e) => Err(e),
            Ok(llvm_target) => Ok(LibraryGroupId { os, is_sim: is_simulator(llvm_target) }),
        },
    }
}

/// A platform or a failure, the failure by its content.
pub open spec fn id_result(r: Result<LibraryGroupId, PackagingError>) -> Result<
    LibraryGroupId,
    PackagingErrorView,
> {
    match r {
        Ok(id) => Ok(id),
        Err(e) => Err(e@),
    }
}

impl LibraryGroupId {
    /// The name of the platform: that of the operating system, with `-sim`
    /// behind it for the simulator.
    pub open spec fn name(self) -> Seq<char> {
        if self.is_sim {
            self.os.name() + "-sim"@
        } else {
            self.os.name()
        }
    }

    /// The arguments with which the toolchain prints the specification of
    /// `target`. The toolchain accepts them only with `RUSTC_BOOTSTRAP=1`
    /// in its environment.
    pub fn target_spec_arguments(target: &str) -> (arguments: Vec<String>)
        ensures
            texts(arguments@) == seq![
                "rustc"@,
                "-Z"@,
                "unstable-options"@,
                "--print"@,
                "target-spec-json"@,
                "--target"@,
                target@,
            ],
    {
        let mut arguments: Vec<String> = Vec::new();
        push_text(&mut arguments, "rustc");
        push_text(&mut arguments, "-Z");
        push_text(&mut arguments, "unstable-options");
        push_text(&mut arguments, "--print");
        push_text(&mut arguments, "target-spec-json");
        push_text(&mut arguments, "--target");
        push_text(&mut arguments, target);
        assert(texts(arguments@) =~= seq![
            "rustc"@,
            "-Z"@,
            "unstable-options"@,
            "--print"@,
            "target-spec-json"@,
            "--target"@,
            target@,
        ]);
        arguments
    }

    /// The operating system that a triple is for.
    pub fn platform_of(target: &str) -> (os: Result<ApplePlatform, PackagingError>)
        ensures
            match os {
                Ok(p) => triple_platform(target@) == Ok::<ApplePlatform, PackagingErrorView>(p),
                Err(e) => triple_platform(target@) == Err::<ApplePlatform, PackagingErrorView>(e@),
            },
    {
        let parts = split(target, '-');
        assert(texts(parts@).len() == parts@.len());
        if parts.len() < 2 {
            return Err(PackagingError::NotApplePlatform { target: String::from_str(target) });
        }
        assert(texts(parts@)[1] == parts@[1]@);
        if !text_eq(parts[1].as_str(), "apple") {
            return Err(PackagingError::NotApplePlatform { target: String::from_str(target) });
        }
        if parts.len() < 3 {
            return Err(PackagingError::MissingOs { target: String::from_str(target) });
        }
        assert(texts(parts@)[2] == parts@[2]@);
        ApplePlatform::try_from(parts[2].as_str())
    }

    /// The platform of a triple whose low-level target string is
    /// `llvm_target`: the operating system is read off the triple, and the
    /// low-level target string tells the simulator from the device.
    pub fn from_llvm_target(target: &str, llvm_target: &str) -> (id: Result<Self, PackagingError>)
        ensures
            id_result(id) == classified(target@, llvm_target@),
    {
        match Self::platform_of(target) {
            Ok(os) => Ok(LibraryGroupId { os, is_sim: ends_with(llvm_target, "-simulator") }),
            Err(e) => Err(e),
        }
    }

    /// The platform of a triple, given the target specification that the
    /// toolchain printed for it.
    pub fn from_target(target: &str, spec_json: &[u8]) -> (id: Result<Self, PackagingError>)
        ensures
            id_result(id) == identity_of(target@, spec_json@),
    {
        match Self::platform_of(target) {
            Err(e) => Err(e),
            Ok(os) => match llvm_target(spec_json) {
                Err(e) => Err(e),
                Ok(llvm_target) => Ok(
                    LibraryGroupId { os, is_sim: ends_with(llvm_target.as_str(), "-simulator") },
                ),
            },
        }
    }

    /// The name of the platform as text.
    pub fn to_string(&self) -> (text: String)
        ensures
            text@ == self.name(),
    {
        let os = self.os.to_string();
        if self.is_sim {
            append(os.as_str(), "-sim")
        } else {
            os
        }
    }
}

/// Each triple with its platform.
pub open spec fn pairs_of(resolved: Seq<ResolvedTarget>) -> Seq<(Seq<char>, LibraryGroupId)> {
    resolved.map_values(|r: ResolvedTarget| (r.target@, r.id))
}

/// The platforms of the first `count` triples, each once, in the order in
/// which they first occur.
pub open spec fn ids_among(resolved: Seq<(Seq<char>, LibraryGroupId)>, count: nat) -> Seq<
    LibraryGroupId,
>
    decreases count,
{
    if count == 0 || count > resolved.len() {
        Seq::empty()
    } else {
        let rest = ids_among(resolved, (count - 1) as nat);
        if rest.contains(resolved[count - 1].1) {
            rest
        } else {
            rest.push(resolved[count - 1].1)
        }
    }
}

/// Those of the first `count` triples that are for the platform `id`, in
/// their order.
pub open spec fn members_among(
    resolved: Seq<(Seq<char>, LibraryGroupId)>,
    id: LibraryGroupId,
    count: nat,
) -> Seq<Seq<char>>
    decreases count,
{
    if count == 0 || count > resolved.len() {
        Seq::empty()
    } else {
        let rest = members_among(resolved, id, (count - 1) as nat);
        if resolved[count - 1].1 == id {
            rest.push(resolved[count - 1].0)
        } else {
            rest
        }
    }
}

/// The platforms of the triples, each once, in the order in which they
/// first occur.
pub open spec fn distinct_ids(resolved: Seq<(Seq<char>, LibraryGroupId)>) -> Seq<LibraryGroupId> {
    ids_among(resolved, resolved.len())
}

/// The triples that are for the platform `id`, in their order.
pub open spec fn members(resolved: Seq<(Seq<char>, LibraryGroupId)>, id: LibraryGroupId) -> Seq<
    Seq<char>,
> {
    members_among(resolved, id, resolved.len())
}

/// The library groups of triples with known platforms: one group for each
/// platform that occurs, which holds all triples for that platform. The
/// groups stand in the order in which their platforms first occur, and the
/// triples of a group in the order in which they were given.
pub open spec fn grouping(resolved: Seq<(Seq<char>, LibraryGroupId)>) -> Seq<GroupView> {
    distinct_ids(resolved).map_values(
        |id: LibraryGroupId| GroupView { id, targets: members(resolved, id) },
    )
}

/// The first `count` triples with their platforms, or the failure of the
/// first triple that has none.
pub open spec fn resolved_among(specs: Seq<TargetSpec>, count: nat) -> Result<
    Seq<(Seq<char>, LibraryGroupId)>,
    PackagingErrorView,
>
    decreases count,
{
    if count == 0 || count > specs.len() {
        Ok(Seq::empty())
    } else {
        match resolved_among(specs, (count - 1) as nat) {
            Err(e) => Err(e),
            Ok(rest) => match identity_of(specs[count - 1].target@, specs[count - 1].spec_json@) {
                Err(e) => Err(e),
                Ok(id) => Ok(rest.push((specs[count - 1].target@, id))),
            },
        }
    }
}

/// The triples with their platforms, or the failure of the first triple
/// that has none.
pub open spec fn resolved_all(specs: Seq<TargetSpec>) -> Result<
    Seq<(Seq<char>, LibraryGroupId)>,
    PackagingErrorView,
> {
    resolved_among(specs, specs.len())
}

/// Whether a file of a headers directory is a static library, which stays
/// where it is.
pub open spec fn is_binary(file_name: Seq<char>) -> bool {
    has_suffix(file_name, ".a"@)
}

/// The moves that put the files among the first `count` entries of a
/// headers directory under `module_name`, but for the static libraries.
pub open spec fn header_moves(
    headers_dir: Seq<char>,
    module_name: Seq<char>,
    entries: Seq<Seq<char>>,
    count: nat,
) -> Seq<(Seq<char>, Seq<char>)>
    decreases count,
{
    if count == 0 || count > entries.len() {
        Seq::empty()
    } else {
        let rest = header_moves(headers_dir, module_name, entries, (count - 1) as nat);
        let name = entries[count - 1];
        if is_binary(name) {
            rest
        } else {
            rest.push((joined(headers_dir, name), joined(joined(headers_dir, module_name), name)))
        }
    }
}

/// The copies that bring the binding sources among the first `count`
/// entries of a directory of generated bindings to `swift_wrapper_dir`.
pub open spec fn source_copies(
    bindings_dir: Seq<char>,
    swift_wrapper_dir: Seq<char>,
    entries: Seq<FileEntry>,
    count: nat,
) -> Seq<(Seq<char>, Seq<char>)>
    decreases count,
{
    if count == 0 || count > entries.len() {
        Seq::empty()
    } else {
        let rest = source_copies(bindings_dir, swift_wrapper_dir, entries, (count - 1) as nat);
        let entry = entries[count - 1];
        if entry.is_file && extension_of(entry.name@) == Some("swift"@) {
            rest.push((joined(bindings_dir, entry.name@), joined(swift_wrapper_dir, entry.name@)))
        } else {
            rest
        }
    }
}

/// The names of the directories among the first `count` entries.
pub open spec fn directories_among(entries: Seq<FileEntry>, count: nat) -> Seq<Seq<char>>
    decreases count,
{
    if count == 0 || count > entries.len() {
        Seq::empty()
    } else {
        let rest = directories_among(entries, (count - 1) as nat);
        if entries[count - 1].is_dir {
            rest.push(entries[count - 1].name@)
        } else {
            rest
        }
    }
}

/// Where the compiler puts what it builds for a triple with a profile.
pub open spec fn built_product_path(
    cargo_target_dir: Seq<char>,
    target: Seq<char>,
    profile: CargoProfile,
) -> Seq<char> {
    joined(joined(cargo_target_dir, target), profile.directory())
}

/// The directory of a slice in the scratch directory.
pub open spec fn slice_scratch_path(temp_dir: Seq<char>, target: Seq<char>) -> Seq<char> {
    joined(temp_dir, target)
}

/// The copy of the library of a slice in the scratch directory.
pub open spec fn slice_library_path(
    temp_dir: Seq<char>,
    target: Seq<char>,
    library_file_name: Seq<char>,
) -> Seq<char> {
    joined(slice_scratch_path(temp_dir, target), library_file_name + ".a"@)
}

/// The merged library of a platform in the scratch directory.
pub open spec fn merged_library_path(
    temp_dir: Seq<char>,
    id: LibraryGroupId,
    library_file_name: Seq<char>,
) -> Seq<char> {
    joined(joined(temp_dir, id.name()), library_file_name + ".a"@)
}

/// The directory of the generated bindings of a slice.
pub open spec fn bindings_path(
    cargo_target_dir: Seq<char>,
    target: Seq<char>,
    profile: CargoProfile,
) -> Seq<char> {
    joined(built_product_path(cargo_target_dir, target, profile), "swift-bindings"@)
}

/// The directory of the generated headers of a slice.
pub open spec fn headers_path(
    cargo_target_dir: Seq<char>,
    target: Seq<char>,
    profile: CargoProfile,
) -> Seq<char> {
    joined(bindings_path(cargo_target_dir, target, profile), "headers"@)
}

/// What is missing where a path that has to exist does not.
#[derive(Debug, Clone, Copy, PartialEq, Eq, Structural)]
pub enum Missing {
    /// The static library of a slice.
    Library,
    /// A directory of generated bindings or headers.
    Headers,
}

/// The failure that tells of a path that has to exist and does not.
pub open spec fn absence(path: Seq<char>, missing: Missing) -> PackagingErrorView {
    match missing {
        Missing::Library => PackagingErrorView::LibraryNotFound { path },
        Missing::Headers => PackagingErrorView::HeadersNotFound { path },
    }
}

/// The path, where it was found to exist, and the failure that tells of
/// its absence where it was not.
pub fn present(path: String, found: bool, missing: Missing) -> (checked: Result<
    String,
    PackagingError,
>)
    ensures
        match checked {
            Ok(same) => found && same == path,
            Err(e) => !found && e@ == absence(path@, missing),
        },
{
    if found {
        Ok(path)
    } else {
        match missing {
            Missing::Library => Err(PackagingError::LibraryNotFound { path }),
            Missing::Headers => Err(PackagingError::HeadersNotFound { path }),
        }
    }
}

impl Slice {
    /// The directory where the built static libraries are located.
    pub fn built_product_dir(&self, cargo_target_dir: &str) -> (directory: String)
        ensures
            directory@ == built_product_path(cargo_target_dir@, self.target@, self.profile),
    {
        let below = join(cargo_target_dir, self.target.as_str());
        join(below.as_str(), self.profile.dir_name())
    }

    /// The static libraries that were built for the slice, given the
    /// listing of the directory where they are located.
    pub fn built_libraries(&self, cargo_target_dir: &str, entries: &Vec<FileEntry>) -> (libraries:
        Vec<String>)
        ensures
            texts(libraries@) == files_with_extension_of(
                built_product_path(cargo_target_dir@, self.target@, self.profile),
                entries@,
                "a"@,
            ),
    {
        let directory = self.built_product_dir(cargo_target_dir);
        files_with_extension(directory.as_str(), entries, "a")
    }

    /// How the library of the slice gets into the scratch directory. The
    /// directory where it was built has to hold exactly one static
    /// library: with none or several, picking one would be a guess.
    pub fn create(
        &self,
        cargo_target_dir: &str,
        library_file_name: &str,
        temp_dir: &str,
        entries: &Vec<FileEntry>,
    ) -> (copy: Result<SliceCopy, PackagingError>)
        ensures
            ({
                let directory = built_product_path(cargo_target_dir@, self.target@, self.profile);
                let libraries = files_with_extension_of(directory, entries@, "a"@);
                match copy {
                    Ok(c) => {
                        &&& libraries.len() == 1
                        &&& c.source@ == libraries[0]
                        &&& c.directory@ == slice_scratch_path(temp_dir@, self.target@)
                        &&& c.destination@ == slice_library_path(
                            temp_dir@,
                            self.target@,
                            library_file_name@,
                        )
                    },
                    Err(e) => libraries.len() != 1 && e@ == (PackagingErrorView::AmbiguousArtifact {
                        directory,
                        candidates: libraries,
                    }),
                }
            }),
    {
        let product = self.built_product_dir(cargo_target_dir);
        let source = match only_static_library(product.as_str(), entries) {
            Ok(library) => library,
            Err(e) => {
                return Err(e);
            },
        };
        let directory = join(temp_dir, self.target.as_str());
        let file_name = append(library_file_name, ".a");
        let destination = join(directory.as_str(), file_name.as_str());
        Ok(SliceCopy { directory, source, destination })
    }
}

/// Whether two byte buffers hold the same bytes.
fn same_bytes(a: &Vec<u8>, b: &Vec<u8>) -> (same: bool)
    ensures
        same == (a@ == b@),
{
    if a.len() != b.len() {
        return false;
    }
    let mut k: usize = 0;
    while k < a.len()
        invariant
            a.len() == b.len(),
            k <= a.len(),
            forall|j: int| 0 <= j < k ==> a@[j] == b@[j],
        decreases a.len() - k,
    {
        if a[k] != b[k] {
            return false;
        }
        k += 1;
    }
    assert(a@ =~= b@);
    true
}

impl LibraryGroup {
    /// Whether `k` is the place of the first slice whose generated headers
    /// differ from those of the first slice.
    pub open spec fn is_first_disagreement(headers: Seq<Vec<u8>>, k: int) -> bool {
        &&& 0 < k < headers.len()
        &&& headers[k]@ != headers[0]@
        &&& forall|j: int| 0 <= j < k ==> (#[trigger] headers[j])@ == headers[0]@
    }

    /// Checks what the packaging otherwise takes on trust: that the slices
    /// of the group have the same generated headers. `headers` holds the
    /// generated headers of each slice, in the order of the slices. The
    /// first slice whose headers differ from those of the first slice is a
    /// failure; which of the two is right is not guessed.
    pub fn check_headers_agree(&self, headers: &Vec<Vec<u8>>) -> (checked: Result<
        (),
        PackagingError,
    >)
        ensures
            match checked {
                Ok(()) => forall|j: int|
                    0 <= j < headers@.len() ==> (#[trigger] headers@[j])@ == headers@[0]@,
                Err(e) => exists|k: int|
                    Self::is_first_disagreement(headers@, k) && e@
                        == (PackagingErrorView::HeadersDiffer {
                        target: if k < self.slices@.len() {
                            self.slices@[k].target@
                        } else {
                            Seq::empty()
                        },
                    }),
            },
    {
        let mut k: usize = 1;
        while k < headers.len()
            invariant
                1 <= k,
                forall|j: int| 0 <= j < k && j < headers@.len() ==> (#[trigger] headers@[j])@
                    == headers@[0]@,
            decreases headers.len() - k,
        {
            if !same_bytes(&headers[k], &headers[0]) {
                assert(Self::is_first_disagreement(headers@, k as int));
                let target = if k < self.slices.len() {
                    self.slices[k].target.clone()
                } else {
                    String::new()
                };
                return Err(PackagingError::HeadersDiffer { target });
            }
            k += 1;
        }
        Ok(())
    }

    /// The copies of the libraries of the slices in the scratch directory,
    /// in the order of the slices.
    pub open spec fn slice_libraries(
        &self,
        temp_dir: Seq<char>,
        library_file_name: Seq<char>,
    ) -> Seq<Seq<char>> {
        self@.targets.map_values(
            |target: Seq<char>| slice_library_path(temp_dir, target, library_file_name),
        )
    }

    /// The merge tool and its arguments: the tool is run once, with the
    /// libraries of all slices of the group.
    pub open spec fn merge_command(
        &self,
        temp_dir: Seq<char>,
        library_file_name: Seq<char>,
    ) -> Seq<Seq<char>> {
        seq!["xcrun"@, "lipo"@, "-create"@] + self.slice_libraries(temp_dir, library_file_name)
            + seq!["-output"@, merged_library_path(temp_dir, self.id, library_file_name)]
    }

    /// The directory of generated bindings that stands for the group: that
    /// of its first slice.
    pub open spec fn bindings_dir(&self, cargo_target_dir: Seq<char>) -> Result<
        Seq<char>,
        PackagingErrorView,
    > {
        if self.slices@.len() == 0 {
            Err(PackagingErrorView::NoSlices)
        } else {
            Ok(bindings_path(cargo_target_dir, self.slices@[0].target@, self.slices@[0].profile))
        }
    }

    /// How the libraries of the slices become the one library of the
    /// group. The merge tool needs at least one library, so a group
    /// without slices has no merge.
    pub fn create(&self, library_file_name: &str, temp_dir: &str) -> (merge: Result<
        Merge,
        PackagingError,
    >)
        ensures
            match merge {
                Ok(m) => {
                    &&& self.slices@.len() > 0
                    &&& m.directory@ == joined(temp_dir@, self.id.name())
                    &&& m.destination@ == merged_library_path(
                        temp_dir@,
                        self.id,
                        library_file_name@,
                    )
                    &&& texts(m.command@) == self.merge_command(temp_dir@, library_file_name@)
                },
                Err(e) => self.slices@.len() == 0 && e@ == PackagingErrorView::NoSlices,
            },
    {
        if self.slices.len() == 0 {
            return Err(PackagingError::NoSlices);
        }
        let file_name = append(library_file_name, ".a");
        let mut command: Vec<String> = Vec::new();
        push_text(&mut command, "xcrun");
        push_text(&mut command, "lipo");
        push_text(&mut command, "-create");
        let ghost start = texts(command@);
        assert(start =~= seq!["xcrun"@, "lipo"@, "-create"@]);
        let mut k: usize = 0;
        while k < self.slices.len()
            invariant
                k <= self.slices.len(),
                file_name@ == library_file_name@ + ".a"@,
                texts(command@) == start + self.slice_libraries(
                    temp_dir@,
                    library_file_name@,
                ).take(k as int),
            decreases self.slices.len() - k,
        {
            let directory = join(temp_dir, self.slices[k].target.as_str());
            let library = join(directory.as_str(), file_name.as_str());
            push_text(&mut command, library.as_str());
            assert(texts(command@) =~= start + self.slice_libraries(
                temp_dir@,
                library_file_name@,
            ).take(k + 1));
            k += 1;
        }
        let name = self.id.to_string();
        let directory = join(temp_dir, name.as_str());
        let destination = join(directory.as_str(), file_name.as_str());
        push_text(&mut command, "-output");
        push_text(&mut command, destination.as_str());
        assert(texts(command@) =~= self.merge_command(temp_dir@, library_file_name@));
        Ok(Merge { directory, destination, command })
    }

    /// Where the generated bindings of the group are expected. The slices
    /// of one group are taken to have the same bindings, so the first
    /// slice stands for all. Whether the directory is there is not looked
    /// at.
    pub fn bindings_location(&self, cargo_target_dir: &str) -> (directory: Result<
        String,
        PackagingError,
    >)
        ensures
            crate::project::text_result(directory) == self.bindings_dir(cargo_target_dir@),
    {
        if self.slices.len() == 0 {
            return Err(PackagingError::NoSlices);
        }
        let product = self.slices[0].built_product_dir(cargo_target_dir);
        Ok(join(product.as_str(), "swift-bindings"))
    }

    /// The directory of generated bindings of the group, which has to
    /// exist, or why there is none.
    pub open spec fn existing_bindings_dir(&self, cargo_target_dir: Seq<char>, exists: bool) -> Result<
        Seq<char>,
        PackagingErrorView,
    > {
        match self.bindings_dir(cargo_target_dir) {
            Err(e) => Err(e),
            Ok(bindings) => if exists {
                Ok(bindings)
            } else {
                Err(PackagingErrorView::HeadersNotFound { path: bindings })
            },
        }
    }

    /// The directory of the generated bindings of the group: that of its
    /// first slice. `exists` tells whether the directory at
    /// [`bindings_location`](Self::bindings_location) is there; a
    /// directory that is not there is a failure.
    pub fn swift_bindings_dir(&self, cargo_target_dir: &str, exists: bool) -> (directory: Result<
        String,
        PackagingError,
    >)
        ensures
            crate::project::text_result(directory) == self.existing_bindings_dir(
                cargo_target_dir@,
                exists,
            ),
    {
        match self.bindings_location(cargo_target_dir) {
            Ok(bindings) => present(bindings, exists, Missing::Headers),
            Err(e) => Err(e),
        }
    }

    /// The directory of the generated headers of the group: `headers` in
    /// its directory of generated bindings. `bindings_exist` and
    /// `headers_exist` tell whether the two directories are there; either
    /// of them not being there is a failure, which names the first that is
    /// not.
    pub fn headers_dir(
        &self,
        cargo_target_dir: &str,
        bindings_exist: bool,
        headers_exist: bool,
    ) -> (directory: Result<String, PackagingError>)
        ensures
            crate::project::text_result(directory) == match self.existing_bindings_dir(
                cargo_target_dir@,
                bindings_exist,
            ) {
                Err(e) => Err(e),
                Ok(bindings) => if headers_exist {
                    Ok(joined(bindings, "headers"@))
                } else {
                    Err(PackagingErrorView::HeadersNotFound { path: joined(bindings, "headers"@) })
                },
            },
    {
        match self.swift_bindings_dir(cargo_target_dir, bindings_exist) {
            Ok(bindings) => present(
                join(bindings.as_str(), "headers"),
                headers_exist,
                Missing::Headers,
            ),
            Err(e) => Err(e),
        }
    }

    /// The generated binding sources of the group, given whether its
    /// directory of generated bindings exists, and the listing of that
    /// directory.
    pub fn swift_binding_files(
        &self,
        cargo_target_dir: &str,
        exists: bool,
        entries: &Vec<FileEntry>,
    ) -> (files: Result<Vec<String>, PackagingError>)
        ensures
            texts_result(files) == match self.existing_bindings_dir(cargo_target_dir@, exists) {
                Ok(bindings) => Ok(files_with_extension_of(bindings, entries@, "swift"@)),
                Err(e) => Err(e),
            },
    {
        match self.swift_bindings_dir(cargo_target_dir, exists) {
            Ok(bindings) => Ok(files_with_extension(bindings.as_str(), entries, "swift")),
            Err(e) => Err(e),
        }
    }
}

/// Whether `id` is among `ids`.
fn has_id(ids: &Vec<LibraryGroupId>, id: LibraryGroupId) -> (found: bool)
    ensures
        found == ids@.contains(id),
{
    let mut k: usize = 0;
    while k < ids.len()
        invariant
            k <= ids.len(),
            forall|j: int| 0 <= j < k ==> ids@[j] != id,
        decreases ids.len() - k,
    {
        if ids[k] == id {
            return true;
        }
        k += 1;
    }
    false
}

/// Sets up the assembly of the bundle `name` for the given triples. The
/// triples are sorted into library groups; the scratch directory lies
/// under the compiler's target directory; the bundle goes to
/// `xcframework`, and the binding sources go to `swift_wrapper`.
pub fn create_xcframework(
    cargo_target_dir: &str,
    targets: &Vec<TargetSpec>,
    profile: CargoProfile,
    name: &str,
    xcframework: &str,
    swift_wrapper: &str,
) -> (assembly: Result<Assembly, PackagingError>)
    ensures
        match resolved_all(targets@) {
            Ok(pairs) => {
                &&& assembly is Ok
                &&& assembly->Ok_0.framework@ == grouping(pairs)
                &&& assembly->Ok_0.framework.built_with(profile)
                &&& assembly->Ok_0.framework.well_formed()
                &&& assembly->Ok_0.cargo_target_dir@ == cargo_target_dir@
                &&& assembly->Ok_0.library_file_name@ == name@
                &&& assembly->Ok_0.temp_dir@ == joined(cargo_target_dir@, "tmp/wp-rs-xcframework"@)
                &&& assembly->Ok_0.dest@ == xcframework@
                &&& assembly->Ok_0.swift_wrapper_dir@ == swift_wrapper@
                &&& assembly->Ok_0.progress() == (Progress {
                    stage: assembly->Ok_0.opening().0,
                    pending: assembly->Ok_0.opening().1,
                    awaiting: AwaitingView::Done,
                    touched: false,
                })
            },
            Err(e) => assembly is Err && assembly->Err_0@ == e,
        },
{
    match XCFramework::new(targets, profile) {
        Ok(framework) => {
            let temp_dir = join(cargo_target_dir, "tmp/wp-rs-xcframework");
            Ok(
                Assembly::new(
                    framework,
                    cargo_target_dir,
                    name,
                    temp_dir.as_str(),
                    xcframework,
                    swift_wrapper,
                ),
            )
        },
        Err(e) => Err(e),
    }
}

impl XCFramework {
    /// Whether every slice was built with `profile`.
    pub open spec fn built_with(&self, profile: CargoProfile) -> bool {
        forall|g: int, k: int|
            0 <= g < self.libraries@.len() && 0 <= k < self.libraries@[g].slices@.len() ==> (
            #[trigger] self.libraries@[g].slices@[k]).profile == profile
    }

    /// Whether the library groups are as grouping leaves them: no two
    /// groups are for the same platform, and every group has a slice.
    pub open spec fn well_formed(&self) -> bool {
        &&& forall|g: int, h: int|
            0 <= g < h < self.libraries@.len() ==> (#[trigger] self.libraries@[g]).id != (
            #[trigger] self.libraries@[h]).id
        &&& forall|g: int|
            0 <= g < self.libraries@.len() ==> (#[trigger] self.libraries@[g]).slices@.len() > 0
    }

    /// Whether there is nothing to bundle, or not for every platform: there
    /// is no group, or a group without slices.
    pub open spec fn lacks_slices(&self) -> bool {
        self.libraries@.len() == 0 || self.has_empty_group()
    }

    /// Whether some group has no slice.
    pub open spec fn has_empty_group(&self) -> bool {
        exists|g: int|
            0 <= g < self.libraries@.len() && (#[trigger] self.libraries@[g]).slices@.len() == 0
    }

    /// The arguments that hand the first `count` groups to the bundling
    /// tool: for each group its merged library and the headers of its
    /// first slice.
    pub open spec fn library_arguments(
        &self,
        cargo_target_dir: Seq<char>,
        library_file_name: Seq<char>,
        temp_dir: Seq<char>,
        count: nat,
    ) -> Seq<Seq<char>>
        decreases count,
    {
        if count == 0 || count > self.libraries@.len() {
            Seq::empty()
        } else {
            let group = self.libraries@[count - 1];
            self.library_arguments(cargo_target_dir, library_file_name, temp_dir, (count - 1) as nat)
                + seq![
                "-library"@,
                merged_library_path(temp_dir, group.id, library_file_name),
                "-headers"@,
                headers_path(cargo_target_dir, group.slices@[0].target@, group.slices@[0].profile),
            ]
        }
    }

    /// The bundling tool and its arguments.
    pub open spec fn bundle_command(
        &self,
        cargo_target_dir: Seq<char>,
        library_file_name: Seq<char>,
        temp_dir: Seq<char>,
    ) -> Seq<Seq<char>> {
        seq!["xcodebuild"@, "-create-xcframework"@] + self.library_arguments(
            cargo_target_dir,
            library_file_name,
            temp_dir,
            self.libraries@.len(),
        ) + seq!["-output"@, joined(temp_dir, library_file_name + ".xcframework"@)]
    }

    /// Sorts triples with known platforms into library groups.
    pub fn group(resolved: &Vec<ResolvedTarget>, profile: CargoProfile) -> (framework: Self)
        ensures
            framework@ == grouping(pairs_of(resolved@)),
            framework.built_with(profile),
            framework.well_formed(),
    {
        let ghost pairs = pairs_of(resolved@);
        let mut ids: Vec<LibraryGroupId> = Vec::new();
        let mut k: usize = 0;
        while k < resolved.len()
            invariant
                k <= resolved.len(),
                pairs == pairs_of(resolved@),
                ids@ == ids_among(pairs, k as nat),
            decreases resolved.len() - k,
        {
            if !has_id(&ids, resolved[k].id) {
                ids.push(resolved[k].id);
            }
            k += 1;
        }
        let mut libraries: Vec<LibraryGroup> = Vec::new();
        let mut g: usize = 0;
        while g < ids.len()
            invariant
                g <= ids.len(),
                pairs == pairs_of(resolved@),
                ids@ == distinct_ids(pairs),
                libraries@.len() == g,
                forall|h: int|
                    0 <= h < g ==> (#[trigger] libraries@[h])@ == (GroupView {
                        id: ids@[h],
                        targets: members(pairs, ids@[h]),
                    }),
                forall|h: int, j: int|
                    0 <= h < g && 0 <= j < libraries@[h].slices@.len() ==> (
                    #[trigger] libraries@[h].slices@[j]).profile == profile,
            decreases ids.len() - g,
        {
            let id = ids[g];
            let mut slices: Vec<Slice> = Vec::new();
            let mut k: usize = 0;
            assert(slices@.map_values(|s: Slice| s.target@) =~= members_among(pairs, id, 0));
            while k < resolved.len()
                invariant
                    k <= resolved.len(),
                    pairs == pairs_of(resolved@),
                    slices@.map_values(|s: Slice| s.target@) == members_among(pairs, id, k as nat),
                    forall|j: int| 0 <= j < slices@.len() ==> (#[trigger] slices@[j]).profile == profile,
                decreases resolved.len() - k,
            {
                if resolved[k].id == id {
                    let slice = Slice { target: resolved[k].target.clone(), profile };
                    assert(slices@.push(slice).map_values(|s: Slice| s.target@) =~= slices@.map_values(
                        |s: Slice| s.target@,
                    ).push(slice.target@));
                    slices.push(slice);
                }
                k += 1;
            }
            libraries.push(LibraryGroup { id, slices });
            g += 1;
        }
        let framework = XCFramework { libraries };
        assert(framework@ =~= grouping(pairs));
        proof {
            law_groups_are_homogeneous(pairs);
            assert forall|g: int| 0 <= g < framework.libraries@.len() implies (
            #[trigger] framework.libraries@[g]).slices@.len() > 0 by {
                assert(framework@[g] == framework.libraries@[g]@);
                assert(grouping(pairs)[g].targets.len() > 0);
            }
            assert forall|g: int, h: int| 0 <= g < h < framework.libraries@.len() implies (
            #[trigger] framework.libraries@[g]).id != (#[trigger] framework.libraries@[h]).id by {
                assert(framework@[g] == framework.libraries@[g]@);
                assert(framework@[h] == framework.libraries@[h]@);
                assert(grouping(pairs)[g].id != grouping(pairs)[h].id);
            }
        }
        framework
    }

    /// Finds the platform of each triple and sorts the triples into
    /// library groups. The first triple without a platform fails the
    /// whole: a wrong platform would put a library into the wrong group.
    pub fn new(targets: &Vec<TargetSpec>, profile: CargoProfile) -> (framework: Result<
        Self,
        PackagingError,
    >)
        ensures
            match resolved_all(targets@) {
                Ok(pairs) => {
                    &&& framework is Ok
                    &&& framework->Ok_0@ == grouping(pairs)
                    &&& framework->Ok_0.built_with(profile)
                    &&& framework->Ok_0.well_formed()
                },
                Err(e) => framework is Err && framework->Err_0@ == e,
            },
    {
        let mut resolved: Vec<ResolvedTarget> = Vec::new();
        let mut k: usize = 0;
        assert(pairs_of(resolved@) =~= Seq::empty());
        while k < targets.len()
            invariant
                k <= targets.len(),
                resolved_among(targets@, k as nat) == Ok::<
                    Seq<(Seq<char>, LibraryGroupId)>,
                    PackagingErrorView,
                >(pairs_of(resolved@)),
            decreases targets.len() - k,
        {
            match LibraryGroupId::from_target(
                targets[k].target.as_str(),
                targets[k].spec_json.as_slice(),
            ) {
                Err(e) => {
                    proof {
                        lemma_resolution_stays_failed(targets@, (k + 1) as nat, targets@.len());
                    }
                    return Err(e);
                },
                Ok(id) => {
                    let entry = ResolvedTarget { target: targets[k].target.clone(), id };
                    assert(pairs_of(resolved@.push(entry)) =~= pairs_of(resolved@).push(
                        (entry.target@, id),
                    ));
                    resolved.push(entry);
                },
            }
            k += 1;
        }
        Ok(Self::group(&resolved, profile))
    }

    /// How the bundle is made: the bundling tool is run once, and gets for
    /// each library group exactly one library, the merged one, and one
    /// directory of headers. The headers of a group are those of its first
    /// slice, so a group without slices has none; and without any group
    /// there is nothing to bundle.
    pub fn create_xcframework(
        &self,
        cargo_target_dir: &str,
        library_file_name: &str,
        temp_dir: &str,
    ) -> (bundling: Result<Bundling, PackagingError>)
        ensures
            match bundling {
                Ok(b) => {
                    &&& !self.lacks_slices()
                    &&& b.destination@ == joined(temp_dir@, library_file_name@ + ".xcframework"@)
                    &&& texts(b.command@) == self.bundle_command(
                        cargo_target_dir@,
                        library_file_name@,
                        temp_dir@,
                    )
                },
                Err(e) => self.lacks_slices() && e@ == PackagingErrorView::NoSlices,
            },
    {
        if self.libraries.len() == 0 {
            return Err(PackagingError::NoSlices);
        }
        let bundle_name = append(library_file_name, ".xcframework");
        let destination = join(temp_dir, bundle_name.as_str());
        let file_name = append(library_file_name, ".a");
        let mut command: Vec<String> = Vec::new();
        push_text(&mut command, "xcodebuild");
        push_text(&mut command, "-create-xcframework");
        let ghost start = texts(command@);
        assert(start =~= seq!["xcodebuild"@, "-create-xcframework"@]);
        let mut g: usize = 0;
        while g < self.libraries.len()
            invariant
                g <= self.libraries.len(),
                file_name@ == library_file_name@ + ".a"@,
                forall|h: int| 0 <= h < g ==> (#[trigger] self.libraries@[h]).slices@.len() != 0,
                texts(command@) == start + self.library_arguments(
                    cargo_target_dir@,
                    library_file_name@,
                    temp_dir@,
                    g as nat,
                ),
            decreases self.libraries.len() - g,
        {
            let group = &self.libraries[g];
            let headers = match group.bindings_location(cargo_target_dir) {
                Ok(bindings) => join(bindings.as_str(), "headers"),
                Err(e) => {
                    return Err(e);
                },
            };
            let name = group.id.to_string();
            let directory = join(temp_dir, name.as_str());
            let library = join(directory.as_str(), file_name.as_str());
            let ghost before = texts(command@);
            push_text(&mut command, "-library");
            push_text(&mut command, library.as_str());
            push_text(&mut command, "-headers");
            push_text(&mut command, headers.as_str());
            assert(texts(command@) =~= before + seq![
                "-library"@,
                library@,
                "-headers"@,
                headers@,
            ]);
            assert(before + seq!["-library"@, library@, "-headers"@, headers@] =~= start + (
            self.library_arguments(cargo_target_dir@, library_file_name@, temp_dir@, g as nat)
                + seq!["-library"@, library@, "-headers"@, headers@]));
            g += 1;
        }
        push_text(&mut command, "-output");
        push_text(&mut command, destination.as_str());
        assert(texts(command@) =~= self.bundle_command(
            cargo_target_dir@,
            library_file_name@,
            temp_dir@,
        ));
        Ok(Bundling { destination, command })
    }

    /// The platform directories of a bundle, given its listing: every
    /// directory directly inside it.
    pub fn platform_directories(entries: &Vec<FileEntry>) -> (directories: Vec<String>)
        ensures
            texts(directories@) == directories_among(entries@, entries@.len()),
    {
        let mut directories: Vec<String> = Vec::new();
        let mut k: usize = 0;
        assert(texts(directories@) =~= directories_among(entries@, 0));
        while k < entries.len()
            invariant
                k <= entries.len(),
                texts(directories@) == directories_among(entries@, k as nat),
            decreases entries.len() - k,
        {
            if entries[k].is_dir {
                push_text(&mut directories, entries[k].name.as_str());
            }
            k += 1;
        }
        directories
    }

    /// How the headers of one platform directory of the bundle get a
    /// directory of their own, named after the module: every entry of the
    /// `Headers` directory moves one level down into that directory, but
    /// for static libraries, which stay in place. Two bundles that are
    /// linked into one program then do not collide on a common headers
    /// path.
    ///
    /// `entries` are the names in the `Headers` directory before the
    /// patch. The patch is for a bundle as the bundling tool left it. A
    /// directory that already holds an entry named after the module has
    /// been patched before, and is not patched again: that is a failure.
    pub fn patch_xcframework(
        bundle: &str,
        platform: &str,
        module_name: &str,
        entries: &Vec<String>,
    ) -> (patch: Result<HeaderPatch, PackagingError>)
        ensures
            ({
                let headers_dir = joined(joined(bundle@, platform@), "Headers"@);
                match patch {
                    Ok(p) => {
                        &&& !texts(entries@).contains(module_name@)
                        &&& p.directory@ == joined(headers_dir, module_name@)
                        &&& moves_of(p.moves@) == header_moves(
                            headers_dir,
                            module_name@,
                            texts(entries@),
                            entries@.len(),
                        )
                    },
                    Err(e) => texts(entries@).contains(module_name@) && e@
                        == (PackagingErrorView::AlreadyPatched {
                        directory: joined(headers_dir, module_name@),
                    }),
                }
            }),
    {
        let platform_dir = join(bundle, platform);
        let headers_dir = join(platform_dir.as_str(), "Headers");
        let new_headers_dir = join(headers_dir.as_str(), module_name);
        let mut moves: Vec<FileMove> = Vec::new();
        let mut k: usize = 0;
        assert(moves_of(moves@) =~= header_moves(headers_dir@, module_name@, texts(entries@), 0));
        assert(texts(entries@).len() == entries@.len());
        while k < entries.len()
            invariant
                k <= entries.len(),
                texts(entries@).len() == entries@.len(),
                headers_dir@ == joined(joined(bundle@, platform@), "Headers"@),
                new_headers_dir@ == joined(headers_dir@, module_name@),
                forall|j: int| 0 <= j < k ==> texts(entries@)[j] != module_name@,
                moves_of(moves@) == header_moves(
                    headers_dir@,
                    module_name@,
                    texts(entries@),
                    k as nat,
                ),
            decreases entries.len() - k,
        {
            let name = entries[k].as_str();
            assert(texts(entries@)[k as int] == name@);
            if text_eq(name, module_name) {
                assert(texts(entries@)[k as int] == module_name@);
                assert(texts(entries@).contains(module_name@));
                return Err(PackagingError::AlreadyPatched { directory: new_headers_dir });
            }
            if !ends_with(name, ".a") {
                let step = FileMove {
                    from: join(headers_dir.as_str(), name),
                    to: join(new_headers_dir.as_str(), name),
                };
                assert(moves_of(moves@.push(step)) =~= moves_of(moves@).push((step.from@, step.to@)));
                moves.push(step);
            }
            k += 1;
        }
        Ok(HeaderPatch { directory: new_headers_dir, moves })
    }

    /// Where the binding sources are taken from: the directory of
    /// generated bindings of the first library group. The binding sources
    /// do not depend on the platform, so any group would do. Whether the
    /// directory is there is not looked at.
    pub fn binding_sources_dir(&self, cargo_target_dir: &str) -> (directory: Result<
        String,
        PackagingError,
    >)
        ensures
            crate::project::text_result(directory) == if self.libraries@.len() == 0 {
                Err(PackagingErrorView::NoSlices)
            } else {
                self.libraries@[0].bindings_dir(cargo_target_dir@)
            },
    {
        if self.libraries.len() == 0 {
            return Err(PackagingError::NoSlices);
        }
        self.libraries[0].bindings_location(cargo_target_dir)
    }

    /// The copies that bring the binding sources to `swift_wrapper_dir`,
    /// given the listing of the directory they are taken from: each file
    /// with the extension `swift` goes there under its own name.
    pub fn extract_binding_sources(
        &self,
        cargo_target_dir: &str,
        swift_wrapper_dir: &str,
        entries: &Vec<FileEntry>,
    ) -> (copies: Result<Vec<FileMove>, PackagingError>)
        ensures
            ({
                let directory = if self.libraries@.len() == 0 {
                    Err(PackagingErrorView::NoSlices)
                } else {
                    self.libraries@[0].bindings_dir(cargo_target_dir@)
                };
                match copies {
                    Ok(c) => directory is Ok && moves_of(c@) == source_copies(
                        directory->Ok_0,
                        swift_wrapper_dir@,
                        entries@,
                        entries@.len(),
                    ),
                    Err(e) => directory == Err::<Seq<char>, PackagingErrorView>(e@),
                }
            }),
    {
        let bindings_dir = match self.binding_sources_dir(cargo_target_dir) {
            Ok(directory) => directory,
            Err(e) => {
                return Err(e);
            },
        };
        let mut copies: Vec<FileMove> = Vec::new();
        let mut k: usize = 0;
        assert(moves_of(copies@) =~= source_copies(bindings_dir@, swift_wrapper_dir@, entries@, 0));
        while k < entries.len()
            invariant
                k <= entries.len(),
                moves_of(copies@) == source_copies(
                    bindings_dir@,
                    swift_wrapper_dir@,
                    entries@,
                    k as nat,
                ),
            decreases entries.len() - k,
        {
            let name = entries[k].name.as_str();
            if entries[k].is_file && has_extension(name, "swift") {
                let step = FileMove {
                    from: join(bindings_dir.as_str(), name),
                    to: join(swift_wrapper_dir, name),
                };
                assert(moves_of(copies@.push(step)) =~= moves_of(copies@).push(
                    (step.from@, step.to@),
                ));
                copies.push(step);
            }
            k += 1;
        }
        Ok(copies)
    }
}

/// The place of the library group into which the triple at place `i` is
/// put.
pub open spec fn group_of(resolved: Seq<(Seq<char>, LibraryGroupId)>, i: int) -> int {
    distinct_ids(resolved).index_of(resolved[i].1)
}

/// Whether one of the first `count` triples is for the platform `id`.
pub open spec fn occurs_among(
    resolved: Seq<(Seq<char>, LibraryGroupId)>,
    count: nat,
    id: LibraryGroupId,
) -> bool {
    exists|i: int| 0 <= i < count && i < resolved.len() && (#[trigger] resolved[i]).1 == id
}

/// Whether `target` is one of the first `count` triples, and is for the
/// platform `id`.
pub open spec fn given_among(
    resolved: Seq<(Seq<char>, LibraryGroupId)>,
    count: nat,
    target: Seq<char>,
    id: LibraryGroupId,
) -> bool {
    exists|i: int| 0 <= i < count && i < resolved.len() && #[trigger] resolved[i] == (target, id)
}

/// The platforms of the first triples are those that occur among them,
/// and none is listed twice.
proof fn lemma_ids_among(resolved: Seq<(Seq<char>, LibraryGroupId)>, count: nat)
    requires
        count <= resolved.len(),
    ensures
        ids_among(resolved, count).no_duplicates(),
        forall|i: int| 0 <= i < count ==> ids_among(resolved, count).contains(#[trigger] resolved[i].1),
        forall|g: int|
            0 <= g < ids_among(resolved, count).len() ==> occurs_among(
                resolved,
                count,
                #[trigger] ids_among(resolved, count)[g],
            ),
    decreases count,
{
    if count > 0 {
        let rest = ids_among(resolved, (count - 1) as nat);
        let all = ids_among(resolved, count);
        let last = resolved[count - 1].1;
        lemma_ids_among(resolved, (count - 1) as nat);
        if rest.contains(last) {
            assert(all == rest);
        } else {
            assert(all == rest.push(last));
            assert(all[rest.len() as int] == last);
        }
        assert forall|i: int| 0 <= i < count implies all.contains(#[trigger] resolved[i].1) by {
            if i < count - 1 {
                let w = choose|w: int| 0 <= w < rest.len() && rest[w] == resolved[i].1;
                assert(all[w] == resolved[i].1);
            }
        }
        assert forall|g: int| 0 <= g < all.len() implies occurs_among(
            resolved,
            count,
            #[trigger] all[g],
        ) by {
            if g < rest.len() {
                assert(occurs_among(resolved, (count - 1) as nat, rest[g]));
                let i = choose|i: int|
                    0 <= i < count - 1 && i < resolved.len() && (#[trigger] resolved[i]).1 == rest[g];
                assert(resolved[i].1 == all[g]);
            } else {
                assert(resolved[count - 1].1 == all[g]);
            }
        }
    }
}

/// The members of a platform among the first triples are the triples for
/// that platform.
proof fn lemma_members_among(
    resolved: Seq<(Seq<char>, LibraryGroupId)>,
    id: LibraryGroupId,
    count: nat,
)
    requires
        count <= resolved.len(),
    ensures
        forall|i: int|
            0 <= i < count && (#[trigger] resolved[i]).1 == id ==> members_among(
                resolved,
                id,
                count,
            ).contains(resolved[i].0),
        forall|k: int|
            0 <= k < members_among(resolved, id, count).len() ==> given_among(
                resolved,
                count,
                #[trigger] members_among(resolved, id, count)[k],
                id,
            ),
    decreases count,
{
    if count > 0 {
        let rest = members_among(resolved, id, (count - 1) as nat);
        let all = members_among(resolved, id, count);
        lemma_members_among(resolved, id, (count - 1) as nat);
        if resolved[count - 1].1 == id {
            assert(all == rest.push(resolved[count - 1].0));
            assert(all[rest.len() as int] == resolved[count - 1].0);
        } else {
            assert(all == rest);
        }
        assert forall|i: int| 0 <= i < count && (#[trigger] resolved[i]).1 == id implies all.contains(
            resolved[i].0,
        ) by {
            if i < count - 1 {
                let w = choose|w: int| 0 <= w < rest.len() && rest[w] == resolved[i].0;
                assert(all[w] == resolved[i].0);
            }
        }
        assert forall|k: int| 0 <= k < all.len() implies given_among(
            resolved,
            count,
            #[trigger] all[k],
            id,
        ) by {
            if k < rest.len() {
                assert(given_among(resolved, (count - 1) as nat, rest[k], id));
                let i = choose|i: int|
                    0 <= i < count - 1 && i < resolved.len() && #[trigger] resolved[i] == (rest[k], id);
                assert(resolved[i] == (all[k], id));
            } else {
                assert(resolved[count - 1] == (all[k], id));
            }
        }
    }
}

/// Grouping is a partition of the triples by platform. Each triple is put
/// into one library group, which is for the triple's platform and holds
/// the triple; and two triples are put into the same group exactly if
/// they are for the same platform.
pub proof fn law_grouping_partitions(resolved: Seq<(Seq<char>, LibraryGroupId)>, i: int, j: int)
    requires
        0 <= i < resolved.len(),
        0 <= j < resolved.len(),
    ensures
        0 <= group_of(resolved, i) < grouping(resolved).len(),
        grouping(resolved)[group_of(resolved, i)].id == resolved[i].1,
        grouping(resolved)[group_of(resolved, i)].targets.contains(resolved[i].0),
        (resolved[i].1 == resolved[j].1) <==> (group_of(resolved, i) == group_of(resolved, j)),
{
    lemma_ids_among(resolved, resolved.len());
    let ids = distinct_ids(resolved);
    assert(ids.contains(resolved[i].1));
    assert(ids.contains(resolved[j].1));
    ids.index_of_first_ensures(resolved[i].1);
    let gi = group_of(resolved, i);
    let gj = group_of(resolved, j);
    assert(0 <= gi < ids.len() && ids[gi] == resolved[i].1);
    assert(0 <= gj < ids.len() && ids[gj] == resolved[j].1);
    lemma_members_among(resolved, resolved[i].1, resolved.len());
}

/// The library groups are for different platforms, none of them is empty,
/// and each holds only triples for its platform.
pub proof fn law_groups_are_homogeneous(resolved: Seq<(Seq<char>, LibraryGroupId)>)
    ensures
        forall|g: int, h: int|
            0 <= g < h < grouping(resolved).len() ==> (#[trigger] grouping(resolved)[g]).id != (
            #[trigger] grouping(resolved)[h]).id,
        forall|g: int|
            0 <= g < grouping(resolved).len() ==> (#[trigger] grouping(resolved)[g]).targets.len()
                > 0,
        forall|g: int, k: int|
            0 <= g < grouping(resolved).len() && 0 <= k < grouping(resolved)[g].targets.len()
                ==> given_among(
                resolved,
                resolved.len(),
                #[trigger] grouping(resolved)[g].targets[k],
                grouping(resolved)[g].id,
            ),
{
    lemma_ids_among(resolved, resolved.len());
    let ids = distinct_ids(resolved);
    let groups = grouping(resolved);
    assert forall|g: int| 0 <= g < groups.len() implies (#[trigger] groups[g]).targets.len() > 0 by {
        assert(occurs_among(resolved, resolved.len(), ids[g]));
        let i = choose|i: int|
            0 <= i < resolved.len() && i < resolved.len() && (#[trigger] resolved[i]).1 == ids[g];
        lemma_members_among(resolved, ids[g], resolved.len());
        assert(members(resolved, ids[g]).contains(resolved[i].0));
    }
    assert forall|g: int, k: int|
        0 <= g < groups.len() && 0 <= k < groups[g].targets.len() implies given_among(
        resolved,
        resolved.len(),
        #[trigger] groups[g].targets[k],
        groups[g].id,
    ) by {
        lemma_members_among(resolved, ids[g], resolved.len());
    }
}

/// The number of triples in the first `upto` library groups.
pub open spec fn total_slices(groups: Seq<GroupView>, upto: nat) -> nat
    decreases upto,
{
    if upto == 0 || upto > groups.len() {
        0
    } else {
        total_slices(groups, (upto - 1) as nat) + groups[upto - 1].targets.len()
    }
}

/// The number of those of the first `count` triples that are for one of
/// the first `upto` platforms of `ids`, counted platform by platform.
spec fn sizes_sum(
    resolved: Seq<(Seq<char>, LibraryGroupId)>,
    ids: Seq<LibraryGroupId>,
    upto: nat,
    count: nat,
) -> nat
    decreases upto,
{
    if upto == 0 || upto > ids.len() {
        0
    } else {
        sizes_sum(resolved, ids, (upto - 1) as nat, count) + members_among(
            resolved,
            ids[upto - 1],
            count,
        ).len()
    }
}

/// A platform that does not occur among the first triples has no members
/// among them.
proof fn lemma_absent_has_no_members(
    resolved: Seq<(Seq<char>, LibraryGroupId)>,
    id: LibraryGroupId,
    count: nat,
)
    requires
        count <= resolved.len(),
        !ids_among(resolved, count).contains(id),
    ensures
        members_among(resolved, id, count).len() == 0,
{
    lemma_ids_among(resolved, count);
    lemma_members_among(resolved, id, count);
    if members_among(resolved, id, count).len() > 0 {
        assert(given_among(resolved, count, members_among(resolved, id, count)[0], id));
        let i = choose|i: int|
            0 <= i < count && i < resolved.len() && #[trigger] resolved[i] == (
                members_among(resolved, id, count)[0],
                id,
            );
        assert(ids_among(resolved, count).contains(resolved[i].1));
    }
}

/// One more triple adds one to the count where its platform is among the
/// platforms counted, which are all different, and nothing where it is
/// not.
proof fn lemma_sum_step(
    resolved: Seq<(Seq<char>, LibraryGroupId)>,
    ids: Seq<LibraryGroupId>,
    upto: nat,
    count: nat,
)
    requires
        1 <= count <= resolved.len(),
        upto <= ids.len(),
        ids.no_duplicates(),
    ensures
        sizes_sum(resolved, ids, upto, count) == sizes_sum(resolved, ids, upto, (count - 1) as nat)
            + (if ids.take(upto as int).contains(resolved[count - 1].1) {
            1nat
        } else {
            0nat
        }),
    decreases upto,
{
    if upto > 0 {
        lemma_sum_step(resolved, ids, (upto - 1) as nat, count);
        let last = resolved[count - 1].1;
        let shorter = ids.take(upto - 1);
        let longer = ids.take(upto as int);
        assert(longer =~= shorter.push(ids[upto - 1]));
        if shorter.contains(last) {
            let w = choose|w: int| 0 <= w < shorter.len() && shorter[w] == last;
            assert(longer[w] == last);
            assert(ids[w] == last);
            assert(ids[upto - 1] != last);
        } else if ids[upto - 1] == last {
            assert(longer[upto - 1] == last);
        } else {
            if longer.contains(last) {
                let w = choose|w: int| 0 <= w < longer.len() && longer[w] == last;
                if w < upto - 1 {
                    assert(shorter[w] == last);
                }
            }
        }
    } else {
        assert(ids.take(0).len() == 0);
    }
}

/// A platform added at the end does not change the count over the
/// platforms before it.
proof fn lemma_sum_push(
    resolved: Seq<(Seq<char>, LibraryGroupId)>,
    ids: Seq<LibraryGroupId>,
    id: LibraryGroupId,
    upto: nat,
    count: nat,
)
    requires
        upto <= ids.len(),
    ensures
        sizes_sum(resolved, ids.push(id), upto, count) == sizes_sum(resolved, ids, upto, count),
    decreases upto,
{
    if upto > 0 {
        lemma_sum_push(resolved, ids, id, (upto - 1) as nat, count);
        assert(ids.push(id)[upto - 1] == ids[upto - 1]);
    }
}

/// The members of the platforms of the first triples are as many as
/// those triples.
proof fn lemma_sum_is_count(resolved: Seq<(Seq<char>, LibraryGroupId)>, count: nat)
    requires
        count <= resolved.len(),
    ensures
        sizes_sum(
            resolved,
            ids_among(resolved, count),
            ids_among(resolved, count).len(),
            count,
        ) == count,
    decreases count,
{
    if count > 0 {
        let before = ids_among(resolved, (count - 1) as nat);
        let after = ids_among(resolved, count);
        let last = resolved[count - 1].1;
        lemma_sum_is_count(resolved, (count - 1) as nat);
        lemma_ids_among(resolved, (count - 1) as nat);
        lemma_ids_among(resolved, count);
        assert(before.take(before.len() as int) =~= before);
        if before.contains(last) {
            assert(after == before);
            lemma_sum_step(resolved, before, before.len(), count);
        } else {
            assert(after == before.push(last));
            lemma_sum_push(resolved, before, last, before.len(), count);
            lemma_sum_step(resolved, before, before.len(), count);
            lemma_absent_has_no_members(resolved, last, (count - 1) as nat);
            assert(members_among(resolved, last, count) == members_among(
                resolved,
                last,
                (count - 1) as nat,
            ).push(resolved[count - 1].0));
            assert(after[before.len() as int] == last);
        }
    }
}

/// The first library groups hold as many triples as their platforms have
/// members.
proof fn lemma_total_is_sum(resolved: Seq<(Seq<char>, LibraryGroupId)>, upto: nat)
    requires
        upto <= grouping(resolved).len(),
    ensures
        total_slices(grouping(resolved), upto) == sizes_sum(
            resolved,
            distinct_ids(resolved),
            upto,
            resolved.len(),
        ),
    decreases upto,
{
    if upto > 0 {
        lemma_total_is_sum(resolved, (upto - 1) as nat);
    }
}

/// Every triple is put into a library group once: the groups hold as many
/// triples as were given.
pub proof fn law_every_triple_is_placed_once(resolved: Seq<(Seq<char>, LibraryGroupId)>)
    ensures
        total_slices(grouping(resolved), grouping(resolved).len()) == resolved.len(),
{
    lemma_total_is_sum(resolved, grouping(resolved).len());
    lemma_sum_is_count(resolved, resolved.len());
}

/// Those of the first `count` entries of a headers directory that are no
/// static libraries.
pub open spec fn loose_files(entries: Seq<Seq<char>>, count: nat) -> Seq<Seq<char>>
    decreases count,
{
    if count == 0 || count > entries.len() {
        Seq::empty()
    } else {
        let rest = loose_files(entries, (count - 1) as nat);
        if is_binary(entries[count - 1]) {
            rest
        } else {
            rest.push(entries[count - 1])
        }
    }
}

/// The patch leaves the static libraries where they are, and moves every
/// other entry of the headers directory, once, one level down into the
/// directory that is named after the module, under its own name.
pub proof fn law_patch_moves_all_but_libraries(
    headers_dir: Seq<char>,
    module_name: Seq<char>,
    entries: Seq<Seq<char>>,
    count: nat,
)
    requires
        count <= entries.len(),
    ensures
        header_moves(headers_dir, module_name, entries, count) == loose_files(
            entries,
            count,
        ).map_values(
            |name: Seq<char>|
                (joined(headers_dir, name), joined(joined(headers_dir, module_name), name)),
        ),
        forall|k: int|
            0 <= k < loose_files(entries, count).len() ==> !is_binary(
                #[trigger] loose_files(entries, count)[k],
            ),
    decreases count,
{
    if count > 0 {
        law_patch_moves_all_but_libraries(headers_dir, module_name, entries, (count - 1) as nat);
        assert(header_moves(headers_dir, module_name, entries, count) =~= loose_files(
            entries,
            count,
        ).map_values(
            |name: Seq<char>|
                (joined(headers_dir, name), joined(joined(headers_dir, module_name), name)),
        ));
    } else {
        assert(header_moves(headers_dir, module_name, entries, count) =~= loose_files(
            entries,
            count,
        ).map_values(
            |name: Seq<char>|
                (joined(headers_dir, name), joined(joined(headers_dir, module_name), name)),
        ));
    }
}

impl XCFramework {
    /// The bundling tool gets exactly one library and one directory of
    /// headers for each library group, in the order of the groups, and
    /// nothing else but the place of the bundle.
    pub proof fn law_one_pair_per_group(
        &self,
        cargo_target_dir: Seq<char>,
        library_file_name: Seq<char>,
        temp_dir: Seq<char>,
        g: int,
    )
        requires
            0 <= g < self.libraries@.len(),
        ensures
            ({
                let command = self.bundle_command(cargo_target_dir, library_file_name, temp_dir);
                let group = self.libraries@[g];
                &&& command.len() == 4 * self.libraries@.len() + 4
                &&& command[4 * g + 2] == "-library"@
                &&& command[4 * g + 3] == merged_library_path(temp_dir, group.id, library_file_name)
                &&& command[4 * g + 4] == "-headers"@
                &&& command[4 * g + 5] == headers_path(
                    cargo_target_dir,
                    group.slices@[0].target@,
                    group.slices@[0].profile,
                )
            }),
    {
        self.lemma_library_arguments(
            cargo_target_dir,
            library_file_name,
            temp_dir,
            self.libraries@.len(),
            g,
        );
    }

    /// The arguments for the first `count` groups hold four arguments for
    /// each group, at the group's place.
    proof fn lemma_library_arguments(
        &self,
        cargo_target_dir: Seq<char>,
        library_file_name: Seq<char>,
        temp_dir: Seq<char>,
        count: nat,
        g: int,
    )
        requires
            count <= self.libraries@.len(),
            0 <= g < count,
        ensures
            ({
                let arguments = self.library_arguments(
                    cargo_target_dir,
                    library_file_name,
                    temp_dir,
                    count,
                );
                let group = self.libraries@[g];
                &&& arguments.len() == 4 * count
                &&& arguments[4 * g] == "-library"@
                &&& arguments[4 * g + 1] == merged_library_path(temp_dir, group.id, library_file_name)
                &&& arguments[4 * g + 2] == "-headers"@
                &&& arguments[4 * g + 3] == headers_path(
                    cargo_target_dir,
                    group.slices@[0].target@,
                    group.slices@[0].profile,
                )
            }),
        decreases count,
    {
        let rest = self.library_arguments(
            cargo_target_dir,
            library_file_name,
            temp_dir,
            (count - 1) as nat,
        );
        self.lemma_library_arguments_len(cargo_target_dir, library_file_name, temp_dir, (count - 1) as nat);
        if g < count - 1 {
            self.lemma_library_arguments(
                cargo_target_dir,
                library_file_name,
                temp_dir,
                (count - 1) as nat,
                g,
            );
        }
    }

    /// The arguments for the first `count` groups are four for each group.
    proof fn lemma_library_arguments_len(
        &self,
        cargo_target_dir: Seq<char>,
        library_file_name: Seq<char>,
        temp_dir: Seq<char>,
        count: nat,
    )
        requires
            count <= self.libraries@.len(),
        ensures
            self.library_arguments(cargo_target_dir, library_file_name, temp_dir, count).len() == 4
                * count,
        decreases count,
    {
        if count > 0 {
            self.lemma_library_arguments_len(
                cargo_target_dir,
                library_file_name,
                temp_dir,
                (count - 1) as nat,
            );
        }
    }
}

/// Once a triple has no platform, taking more triples does not mend it.
proof fn lemma_resolution_stays_failed(specs: Seq<TargetSpec>, from: nat, to: nat)
    requires
        from <= to <= specs.len(),
        resolved_among(specs, from) is Err,
    ensures
        resolved_among(specs, to) == resolved_among(specs, from),
    decreases to - from,
{
    if from < to {
        lemma_resolution_stays_failed(specs, from, (to - 1) as nat);
    }
}

} // verus!
