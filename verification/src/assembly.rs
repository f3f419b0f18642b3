//! The assembly of a bundle as a sequence of steps.
//!
//! The assembly itself touches nothing. It names one step at a time: a
//! directory to list, a path that has to exist, a directory to create
//! anew, a file to copy or to move, a tool to run. Whoever runs the
//! assembly takes the step and hands back what came of it; from that the
//! assembly decides the next step. The first failure ends the run.
//!
//! Everything is built below the scratch directory, which is removed at
//! the end of the run, whether the run succeeds or fails. The destination
//! is touched last, when the bundle is built and patched and the binding
//! sources are in place: it is emptied, and the bundle is moved there in
//! one piece. A run that fails leaves nothing at the destination: where a
//! step has named the destination before the failure, the destination is
//! removed.

use vstd::prelude::*;
use vstd::string::StringExecFns;
use crate::error::{PackagingError, PackagingErrorView};
use crate::paths::{join, joined};
use crate::text::{append, push_text, text_eq, texts};
use crate::utils::{files_with_extension_of, FileEntry};
use crate::xcframework::{
    absence, bindings_path, built_product_path, directories_among, header_moves, headers_path,
    moves_of, present, slice_library_path, slice_scratch_path, source_copies, FileMove, Missing,
    XCFramework,
};

verus! {

/// One thing to do.
#[derive(Debug)]
pub enum Step {
    /// List the directory, and answer with its entries.
    List { directory: String },
    /// Answer whether the path exists.
    Require { path: String, missing: Missing },
    /// Remove the directory with all that is in it, if it is there, and
    /// create it.
    Recreate { directory: String },
    /// Remove the directory with all that is in it. That it cannot be
    /// removed is no failure.
    Remove { directory: String },
    Copy { from: String, to: String },
    Rename { from: String, to: String },
    /// Run the program that the command begins with on the rest of the
    /// command. Anything but success fails the run.
    Run { command: Vec<String> },
    /// The bundle is at its destination, and the binding sources at
    /// theirs.
    Finished,
    /// The run has failed.
    Failed(PackagingError),
}

/// What came of a step.
#[derive(Debug)]
pub enum Event {
    /// The step was taken.
    Done,
    /// Whether the path exists.
    Exists(bool),
    /// The entries of the directory.
    Listing(Vec<FileEntry>),
    /// The step could not be taken.
    Failed(PackagingError),
}

/// The listing that the assembly waits for, or has last used.
#[derive(Debug)]
pub enum Stage {
    /// The directory where a slice was built.
    Libraries { group: usize, slice: usize },
    /// The bundle as the bundling tool left it.
    Platforms,
    /// The headers of one platform directory of the bundle.
    HeaderFiles { platforms: Vec<String>, platform: usize },
    /// The directory of generated bindings of the first group.
    Sources,
    /// No listing is needed any more.
    Closing,
}

/// The answer that the assembly waits for.
#[derive(Debug)]
pub enum Awaiting {
    Done,
    Exists { path: String, missing: Missing },
    Listing,
    /// Any answer: what the run has left behind is being removed after a
    /// failure.
    Cleanup,
    /// The run is over.
    Nothing,
}

/// The content of a [`Step`].
pub ghost enum StepView {
    List { directory: Seq<char> },
    Require { path: Seq<char>, missing: Missing },
    Recreate { directory: Seq<char> },
    Remove { directory: Seq<char> },
    Copy { from: Seq<char>, to: Seq<char> },
    Rename { from: Seq<char>, to: Seq<char> },
    Run { command: Seq<Seq<char>> },
    Finished,
    Failed(PackagingErrorView),
}

/// The content of a [`Stage`].
pub ghost enum StageView {
    Libraries { group: int, slice: int },
    Platforms,
    HeaderFiles { platforms: Seq<Seq<char>>, platform: int },
    Sources,
    Closing,
}

/// The content of an [`Awaiting`].
pub ghost enum AwaitingView {
    Done,
    Exists { path: Seq<char>, missing: Missing },
    Listing,
    Cleanup,
    Nothing,
}

impl View for Step {
    type V = StepView;

    open spec fn view(&self) -> StepView {
        match self {
            Step::List { directory } => StepView::List { directory: directory@ },
            Step::Require { path, missing } => StepView::Require { path: path@, missing: *missing },
            Step::Recreate { directory } => StepView::Recreate { directory: directory@ },
            Step::Remove { directory } => StepView::Remove { directory: directory@ },
            Step::Copy { from, to } => StepView::Copy { from: from@, to: to@ },
            Step::Rename { from, to } => StepView::Rename { from: from@, to: to@ },
            Step::Run { command } => StepView::Run { command: texts(command@) },
            Step::Finished => StepView::Finished,
            Step::Failed(e) => StepView::Failed(e@),
        }
    }
}

impl View for Stage {
    type V = StageView;

    open spec fn view(&self) -> StageView {
        match self {
            Stage::Libraries { group, slice } => StageView::Libraries {
                group: *group as int,
                slice: *slice as int,
            },
            Stage::Platforms => StageView::Platforms,
            Stage::HeaderFiles { platforms, platform } => StageView::HeaderFiles {
                platforms: texts(platforms@),
                platform: *platform as int,
            },
            Stage::Sources => StageView::Sources,
            Stage::Closing => StageView::Closing,
        }
    }
}

impl View for Awaiting {
    type V = AwaitingView;

    open spec fn view(&self) -> AwaitingView {
        match self {
            Awaiting::Done => AwaitingView::Done,
            Awaiting::Exists { path, missing } => AwaitingView::Exists {
                path: path@,
                missing: *missing,
            },
            Awaiting::Listing => AwaitingView::Listing,
            Awaiting::Cleanup => AwaitingView::Cleanup,
            Awaiting::Nothing => AwaitingView::Nothing,
        }
    }
}

/// The content of each step.
pub open spec fn steps_of(steps: Seq<Step>) -> Seq<StepView> {
    steps.map_values(|s: Step| s@)
}

/// The names of the entries.
pub open spec fn names_of(entries: Seq<FileEntry>) -> Seq<Seq<char>> {
    entries.map_values(|e: FileEntry| e.name@)
}

/// A move of each file.
pub open spec fn renames(moves: Seq<(Seq<char>, Seq<char>)>) -> Seq<StepView> {
    moves.map_values(|m: (Seq<char>, Seq<char>)| StepView::Rename { from: m.0, to: m.1 })
}

/// A copy of each file.
pub open spec fn copies(moves: Seq<(Seq<char>, Seq<char>)>) -> Seq<StepView> {
    moves.map_values(|m: (Seq<char>, Seq<char>)| StepView::Copy { from: m.0, to: m.1 })
}

/// Why the run fails on an answer, if it does: the step could not be
/// taken, a path that has to exist does not, or the answer is none to the
/// step that was asked for. Once the run is over, every answer is one too
/// many.
pub open spec fn verdict(awaiting: AwaitingView, event: Event) -> Option<PackagingErrorView> {
    match (awaiting, event) {
        (AwaitingView::Nothing, _) => Some(PackagingErrorView::UnexpectedAnswer),
        (AwaitingView::Cleanup, _) => None,
        (_, Event::Failed(e)) => Some(e@),
        (AwaitingView::Done, Event::Done) => None,
        (AwaitingView::Listing, Event::Listing(_)) => None,
        (AwaitingView::Exists { path, missing }, Event::Exists(found)) => if found {
            None
        } else {
            Some(absence(path, missing))
        },
        _ => Some(PackagingErrorView::UnexpectedAnswer),
    }
}

/// The answer that a step calls for.
pub open spec fn answer_to(step: StepView) -> AwaitingView {
    match step {
        StepView::List { directory } => AwaitingView::Listing,
        StepView::Require { path, missing } => AwaitingView::Exists { path, missing },
        StepView::Finished => AwaitingView::Nothing,
        StepView::Failed(e) => AwaitingView::Nothing,
        _ => AwaitingView::Done,
    }
}

/// Whether a step names the path `dest` as what it creates, removes,
/// moves or writes to.
pub open spec fn names_destination(step: StepView, dest: Seq<char>) -> bool {
    match step {
        StepView::Recreate { directory } => directory == dest,
        StepView::Remove { directory } => directory == dest,
        StepView::Copy { from, to } => to == dest,
        StepView::Rename { from, to } => from == dest || to == dest,
        _ => false,
    }
}

/// Whether a step is the last of a run.
pub open spec fn is_last(step: StepView) -> bool {
    step is Finished || step is Failed
}

/// The state of an assembly apart from what it was set up with.
pub ghost struct Progress {
    pub stage: StageView,
    pub pending: Seq<StepView>,
    pub awaiting: AwaitingView,
    /// Whether a step has named the destination.
    pub touched: bool,
}

/// The assembly of one bundle.
#[derive(Debug)]
pub struct Assembly {
    pub framework: XCFramework,
    pub cargo_target_dir: String,
    pub library_file_name: String,
    /// The scratch directory.
    pub temp_dir: String,
    /// Where the bundle goes.
    pub dest: String,
    /// Where the binding sources go.
    pub swift_wrapper_dir: String,
    pub stage: Stage,
    /// The steps that are decided and not yet taken, the next one first.
    pub pending: Vec<Step>,
    pub awaiting: Awaiting,
    /// Whether a step has named the destination.
    pub touched: bool,
}

/// Adds a step at the end of a list of steps.
fn push_step(list: &mut Vec<Step>, step: Step)
    ensures
        steps_of(final(list)@) == steps_of(old(list)@).push(step@),
{
    let ghost before = list@;
    list.push(step);
    assert(steps_of(before.push(step)) =~= steps_of(before).push(step@));
}

/// A step for each move.
fn rename_steps(list: &mut Vec<Step>, moves: &Vec<FileMove>)
    ensures
        steps_of(final(list)@) == steps_of(old(list)@) + renames(moves_of(moves@)),
{
    let mut k: usize = 0;
    assert(steps_of(list@) =~= steps_of(old(list)@) + renames(moves_of(moves@)).take(0));
    while k < moves.len()
        invariant
            k <= moves.len(),
            steps_of(list@) == steps_of(old(list)@) + renames(moves_of(moves@)).take(k as int),
        decreases moves.len() - k,
    {
        let step = Step::Rename { from: moves[k].from.clone(), to: moves[k].to.clone() };
        let ghost before = steps_of(list@);
        push_step(list, step);
        assert(before.push(step@) =~= steps_of(old(list)@) + renames(moves_of(moves@)).take(k + 1));
        k += 1;
    }
    assert(renames(moves_of(moves@)).take(moves.len() as int) =~= renames(moves_of(moves@)));
}

/// A step for each copy.
fn copy_steps(list: &mut Vec<Step>, moves: &Vec<FileMove>)
    ensures
        steps_of(final(list)@) == steps_of(old(list)@) + copies(moves_of(moves@)),
{
    let mut k: usize = 0;
    assert(steps_of(list@) =~= steps_of(old(list)@) + copies(moves_of(moves@)).take(0));
    while k < moves.len()
        invariant
            k <= moves.len(),
            steps_of(list@) == steps_of(old(list)@) + copies(moves_of(moves@)).take(k as int),
        decreases moves.len() - k,
    {
        let step = Step::Copy { from: moves[k].from.clone(), to: moves[k].to.clone() };
        let ghost before = steps_of(list@);
        push_step(list, step);
        assert(before.push(step@) =~= steps_of(old(list)@) + copies(moves_of(moves@)).take(k + 1));
        k += 1;
    }
    assert(copies(moves_of(moves@)).take(moves.len() as int) =~= copies(moves_of(moves@)));
}

/// The names of the entries.
fn entry_names(entries: &Vec<FileEntry>) -> (names: Vec<String>)
    ensures
        texts(names@) == names_of(entries@),
{
    let mut names: Vec<String> = Vec::new();
    let mut k: usize = 0;
    assert(texts(names@) =~= names_of(entries@).take(0));
    while k < entries.len()
        invariant
            k <= entries.len(),
            texts(names@) == names_of(entries@).take(k as int),
        decreases entries.len() - k,
    {
        push_text(&mut names, entries[k].name.as_str());
        assert(texts(names@) =~= names_of(entries@).take(k + 1));
        k += 1;
    }
    assert(names_of(entries@).take(entries.len() as int) =~= names_of(entries@));
    names
}

/// A copy of a list of names.
fn copy_names(names: &Vec<String>) -> (copy: Vec<String>)
    ensures
        texts(copy@) == texts(names@),
{
    let mut copy: Vec<String> = Vec::new();
    crate::text::push_texts(&mut copy, names);
    assert(texts(copy@) =~= texts(names@));
    copy
}

impl Assembly {
    /// The bundle in the scratch directory.
    pub open spec fn temp_dest(&self) -> Seq<char> {
        joined(self.temp_dir@, self.library_file_name@ + ".xcframework"@)
    }

    /// The step that stands for a failure among the pending steps. When
    /// its turn comes, what the run has left behind is removed first.
    pub open spec fn failure(&self, e: PackagingErrorView) -> Seq<StepView> {
        seq![StepView::Failed(e)]
    }

    /// Where the slice at place `s` of the group at place `g` was built.
    pub open spec fn product_dir(&self, g: int, s: int) -> Seq<char> {
        let slice = self.framework.libraries@[g].slices@[s];
        built_product_path(self.cargo_target_dir@, slice.target@, slice.profile)
    }

    /// The directory of generated bindings from which the binding sources
    /// are taken: that of the first group.
    pub open spec fn sources_dir(&self) -> Result<Seq<char>, PackagingErrorView> {
        if self.framework.libraries@.len() == 0 {
            Err(PackagingErrorView::NoSlices)
        } else {
            self.framework.libraries@[0].bindings_dir(self.cargo_target_dir@)
        }
    }

    /// The steps that end the work on the group at place `g`, which has
    /// slices: the libraries of its slices are merged, and its bindings
    /// and headers have to be there.
    pub open spec fn group_end(&self, g: int) -> Seq<StepView> {
        let group = self.framework.libraries@[g];
        let first = group.slices@[0];
        seq![
            StepView::Recreate { directory: joined(self.temp_dir@, group.id.name()) },
            StepView::Run { command: group.merge_command(self.temp_dir@, self.library_file_name@) },
            StepView::Require {
                path: bindings_path(self.cargo_target_dir@, first.target@, first.profile),
                missing: Missing::Headers,
            },
            StepView::Require {
                path: headers_path(self.cargo_target_dir@, first.target@, first.profile),
                missing: Missing::Headers,
            },
        ]
    }

    /// The steps that begin the work on the group at place `g`, and the
    /// listing that they end with. A group without slices fails the run
    /// before anything is merged. Behind the last group the bundling tool
    /// is run, once, and the bundle is listed; with no group at all there
    /// is nothing to bundle, which fails the run.
    pub open spec fn begin_group(&self, g: int) -> (StageView, Seq<StepView>) {
        if 0 <= g < self.framework.libraries@.len() {
            if self.framework.libraries@[g].slices@.len() == 0 {
                (StageView::Closing, self.failure(PackagingErrorView::NoSlices))
            } else {
                (
                    StageView::Libraries { group: g, slice: 0 },
                    seq![StepView::List { directory: self.product_dir(g, 0) }],
                )
            }
        } else if self.framework.lacks_slices() {
            (StageView::Closing, self.failure(PackagingErrorView::NoSlices))
        } else {
            (
                StageView::Platforms,
                seq![
                    StepView::Run {
                        command: self.framework.bundle_command(
                            self.cargo_target_dir@,
                            self.library_file_name@,
                            self.temp_dir@,
                        ),
                    },
                    StepView::List { directory: self.temp_dest() },
                ],
            )
        }
    }

    /// The steps that follow the listing of the directory where the slice
    /// at place `s` of the group at place `g` was built. The directory
    /// has to hold exactly one static library, which is copied into the
    /// scratch directory. Then comes the next slice of the group, or the
    /// end of the group and the next group.
    pub open spec fn after_libraries(&self, g: int, s: int, entries: Seq<FileEntry>) -> (
        StageView,
        Seq<StepView>,
    ) {
        if 0 <= g < self.framework.libraries@.len() && 0 <= s
            < self.framework.libraries@[g].slices@.len() {
            let slice = self.framework.libraries@[g].slices@[s];
            let directory = self.product_dir(g, s);
            let libraries = files_with_extension_of(directory, entries, "a"@);
            if libraries.len() != 1 {
                (
                    StageView::Closing,
                    self.failure(
                        PackagingErrorView::AmbiguousArtifact { directory, candidates: libraries },
                    ),
                )
            } else {
                let copy = seq![
                    StepView::Require { path: libraries[0], missing: Missing::Library },
                    StepView::Recreate {
                        directory: slice_scratch_path(self.temp_dir@, slice.target@),
                    },
                    StepView::Copy {
                        from: libraries[0],
                        to: slice_library_path(
                            self.temp_dir@,
                            slice.target@,
                            self.library_file_name@,
                        ),
                    },
                ];
                if s + 1 < self.framework.libraries@[g].slices@.len() {
                    (
                        StageView::Libraries { group: g, slice: s + 1 },
                        copy + seq![StepView::List { directory: self.product_dir(g, s + 1) }],
                    )
                } else {
                    let next = self.begin_group(g + 1);
                    (next.0, copy + self.group_end(g) + next.1)
                }
            }
        } else {
            (StageView::Closing, self.failure(PackagingErrorView::UnexpectedAnswer))
        }
    }

    /// The steps that put the bundle in place and end the run. They come
    /// last: the destination is emptied, so that nothing of an earlier
    /// bundle stays, the bundle is moved there, and nothing but the
    /// removal of the scratch directory follows.
    pub open spec fn commit(&self) -> Seq<StepView> {
        seq![
            StepView::Recreate { directory: self.dest@ },
            StepView::Rename { from: self.temp_dest(), to: self.dest@ },
            StepView::Remove { directory: self.temp_dir@ },
            StepView::Finished,
        ]
    }

    /// The steps that begin the taking of the binding sources: the
    /// directory they are taken from has to be there, and is listed.
    pub open spec fn extract(&self) -> (StageView, Seq<StepView>) {
        match self.sources_dir() {
            Err(e) => (StageView::Closing, self.failure(e)),
            Ok(directory) => (
                StageView::Sources,
                seq![
                    StepView::Require { path: directory, missing: Missing::Headers },
                    StepView::List { directory },
                ],
            ),
        }
    }

    /// The steps that begin the work on the platform directory at place
    /// `p`, and the listing that they end with. Behind the last platform
    /// directory the binding sources are taken.
    pub open spec fn begin_platform(&self, platforms: Seq<Seq<char>>, p: int) -> (
        StageView,
        Seq<StepView>,
    ) {
        if 0 <= p < platforms.len() {
            (
                StageView::HeaderFiles { platforms, platform: p },
                seq![
                    StepView::List {
                        directory: joined(joined(self.temp_dest(), platforms[p]), "Headers"@),
                    },
                ],
            )
        } else {
            self.extract()
        }
    }

    /// The steps that follow the listing of the headers of the platform
    /// directory at place `p`: the headers move into a directory of their
    /// own, named like the library. Then comes the next platform
    /// directory. Headers that already have such a directory were patched
    /// before, which fails the run.
    pub open spec fn after_header_files(
        &self,
        platforms: Seq<Seq<char>>,
        p: int,
        entries: Seq<FileEntry>,
    ) -> (StageView, Seq<StepView>) {
        if 0 <= p < platforms.len() {
            let headers_dir = joined(joined(self.temp_dest(), platforms[p]), "Headers"@);
            let next = self.begin_platform(platforms, p + 1);
            if names_of(entries).contains(self.library_file_name@) {
                (
                    StageView::Closing,
                    self.failure(
                        PackagingErrorView::AlreadyPatched {
                            directory: joined(headers_dir, self.library_file_name@),
                        },
                    ),
                )
            } else {
                (
                    next.0,
                    seq![
                        StepView::Recreate {
                            directory: joined(headers_dir, self.library_file_name@),
                        },
                    ] + renames(
                        header_moves(
                            headers_dir,
                            self.library_file_name@,
                            names_of(entries),
                            entries.len(),
                        ),
                    ) + next.1,
                )
            }
        } else {
            (StageView::Closing, self.failure(PackagingErrorView::UnexpectedAnswer))
        }
    }

    /// The steps that follow the listing of the directory that the binding
    /// sources are taken from: the binding sources are copied to their
    /// place, and then the bundle is put in place.
    pub open spec fn after_sources(&self, entries: Seq<FileEntry>) -> (StageView, Seq<StepView>) {
        match self.sources_dir() {
            Err(e) => (StageView::Closing, self.failure(e)),
            Ok(directory) => (
                StageView::Closing,
                seq![StepView::Recreate { directory: self.swift_wrapper_dir@ }] + copies(
                    source_copies(directory, self.swift_wrapper_dir@, entries, entries.len()),
                ) + self.commit(),
            ),
        }
    }

    /// The steps that an assembly begins with: the scratch directory is
    /// created anew, and no bundle is in it.
    pub open spec fn opening(&self) -> (StageView, Seq<StepView>) {
        let first = self.begin_group(0);
        (
            first.0,
            seq![
                StepView::Recreate { directory: self.temp_dir@ },
                StepView::Remove { directory: self.temp_dest() },
            ] + first.1,
        )
    }

    /// The steps that follow a listing.
    pub open spec fn refill(&self, entries: Seq<FileEntry>) -> (StageView, Seq<StepView>) {
        match self.stage@ {
            StageView::Libraries { group, slice } => self.after_libraries(group, slice, entries),
            StageView::Platforms => self.begin_platform(
                directories_among(entries, entries.len()),
                0,
            ),
            StageView::HeaderFiles { platforms, platform } => self.after_header_files(
                platforms,
                platform,
                entries,
            ),
            StageView::Sources => self.after_sources(entries),
            StageView::Closing => (
                StageView::Closing,
                self.failure(PackagingErrorView::UnexpectedAnswer),
            ),
        }
    }

    /// Where the assembly stands.
    pub open spec fn progress(&self) -> Progress {
        Progress {
            stage: self.stage@,
            pending: steps_of(self.pending@),
            awaiting: self.awaiting@,
            touched: self.touched,
        }
    }

    /// Whether two assemblies were set up alike.
    pub open spec fn same_setup(&self, other: &Assembly) -> bool {
        &&& self.framework == other.framework
        &&& self.cargo_target_dir == other.cargo_target_dir
        &&& self.library_file_name == other.library_file_name
        &&& self.temp_dir == other.temp_dir
        &&& self.dest == other.dest
        &&& self.swift_wrapper_dir == other.swift_wrapper_dir
    }

    /// The state of a run that is over.
    pub open spec fn over(&self) -> Progress {
        Progress {
            stage: StageView::Closing,
            pending: Seq::empty(),
            awaiting: AwaitingView::Nothing,
            touched: self.touched,
        }
    }

    /// What follows a failure of a run that is under way. Where a step has
    /// named the destination, the destination is removed, so that no
    /// bundle and no part of one stays there. The scratch directory is
    /// removed, and the failure is told last.
    pub open spec fn cleanup(&self, e: PackagingErrorView) -> (Progress, StepView) {
        if self.touched {
            (
                Progress {
                    stage: StageView::Closing,
                    pending: seq![
                        StepView::Remove { directory: self.temp_dir@ },
                        StepView::Failed(e),
                    ],
                    awaiting: AwaitingView::Cleanup,
                    touched: true,
                },
                StepView::Remove { directory: self.dest@ },
            )
        } else {
            (
                Progress {
                    stage: StageView::Closing,
                    pending: seq![StepView::Failed(e)],
                    awaiting: AwaitingView::Cleanup,
                    touched: false,
                },
                StepView::Remove { directory: self.temp_dir@ },
            )
        }
    }

    /// What the assembly does on an answer: where it stands afterwards,
    /// and the step it names.
    ///
    /// Once the run is over, every answer is one too many. An answer that
    /// fails the run, and a pending failure whose turn has come, are
    /// followed by the removal of what the run has left behind, and by the
    /// failure. A listing is followed by the steps that it calls for. The
    /// next pending step is named, and the assembly waits for the answer to
    /// it; with the last step, `Finished` or `Failed`, the run is over.
    pub open spec fn transition(&self, event: Event) -> (Progress, StepView) {
        if self.awaiting@ == AwaitingView::Nothing {
            (self.over(), StepView::Failed(PackagingErrorView::UnexpectedAnswer))
        } else {
            match verdict(self.awaiting@, event) {
                Some(e) => self.cleanup(e),
                None => {
                    let cleaning = self.awaiting@ == AwaitingView::Cleanup;
                    let (stage, pending) = match event {
                        Event::Listing(entries) => if self.awaiting@ == AwaitingView::Listing {
                            self.refill(entries@)
                        } else {
                            (self.stage@, steps_of(self.pending@))
                        },
                        _ => (self.stage@, steps_of(self.pending@)),
                    };
                    if pending.len() == 0 {
                        if cleaning {
                            (self.over(), StepView::Failed(PackagingErrorView::UnexpectedAnswer))
                        } else {
                            self.cleanup(PackagingErrorView::UnexpectedAnswer)
                        }
                    } else if pending[0] is Failed && !cleaning {
                        self.cleanup(pending[0]->Failed_0)
                    } else {
                        (
                            Progress {
                                stage,
                                pending: pending.drop_first(),
                                awaiting: if cleaning && !is_last(pending[0]) {
                                    AwaitingView::Cleanup
                                } else {
                                    answer_to(pending[0])
                                },
                                touched: self.touched || names_destination(pending[0], self.dest@),
                            },
                            pending[0],
                        )
                    }
                },
            }
        }
    }

    /// Adds the step that stands for a failure.
    fn fail(&self, steps: &mut Vec<Step>, e: PackagingError)
        ensures
            steps_of(final(steps)@) == steps_of(old(steps)@) + self.failure(e@),
    {
        let ghost before = steps_of(steps@);
        push_step(steps, Step::Failed(e));
        assert(steps_of(steps@) =~= before + self.failure(e@));
    }

    /// Adds the steps that end the work on a group with slices.
    fn end_group(&self, g: usize, steps: &mut Vec<Step>)
        requires
            g < self.framework.libraries@.len(),
            self.framework.libraries@[g as int].slices@.len() > 0,
        ensures
            steps_of(final(steps)@) == steps_of(old(steps)@) + self.group_end(g as int),
    {
        let ghost before = steps_of(steps@);
        let group = &self.framework.libraries[g];
        match group.create(self.library_file_name.as_str(), self.temp_dir.as_str()) {
            Ok(merge) => {
                push_step(steps, Step::Recreate { directory: merge.directory });
                push_step(steps, Step::Run { command: merge.command });
            },
            Err(_) => {
                // Only a group without slices has no merge.
                assert(false);
            },
        }
        let product = group.slices[0].built_product_dir(self.cargo_target_dir.as_str());
        let bindings = join(product.as_str(), "swift-bindings");
        let headers = join(bindings.as_str(), "headers");
        push_step(steps, Step::Require { path: bindings, missing: Missing::Headers });
        push_step(steps, Step::Require { path: headers, missing: Missing::Headers });
        assert(steps_of(steps@) =~= before + self.group_end(g as int));
    }

    /// Adds the steps that begin the work on the group at place `g`.
    fn enter_group(&self, g: usize, steps: &mut Vec<Step>) -> (stage: Stage)
        ensures
            stage@ == self.begin_group(g as int).0,
            steps_of(final(steps)@) == steps_of(old(steps)@) + self.begin_group(g as int).1,
    {
        let ghost before = steps_of(steps@);
        if g < self.framework.libraries.len() {
            let group = &self.framework.libraries[g];
            if group.slices.len() == 0 {
                self.fail(steps, PackagingError::NoSlices);
                assert(steps_of(steps@) =~= before + self.begin_group(g as int).1);
                Stage::Closing
            } else {
                let directory = group.slices[0].built_product_dir(self.cargo_target_dir.as_str());
                push_step(steps, Step::List { directory });
                assert(steps_of(steps@) =~= before + self.begin_group(g as int).1);
                Stage::Libraries { group: g, slice: 0 }
            }
        } else {
            match self.framework.create_xcframework(
                self.cargo_target_dir.as_str(),
                self.library_file_name.as_str(),
                self.temp_dir.as_str(),
            ) {
                Err(e) => {
                    self.fail(steps, e);
                    assert(steps_of(steps@) =~= before + self.begin_group(g as int).1);
                    Stage::Closing
                },
                Ok(bundling) => {
                    push_step(steps, Step::Run { command: bundling.command });
                    push_step(steps, Step::List { directory: bundling.destination });
                    assert(steps_of(steps@) =~= before + self.begin_group(g as int).1);
                    Stage::Platforms
                },
            }
        }
    }

    /// The steps that follow the listing of the directory where a slice
    /// was built.
    fn libraries_listed(&self, g: usize, s: usize, entries: &Vec<FileEntry>) -> (next: (
        Stage,
        Vec<Step>,
    ))
        ensures
            next.0@ == self.after_libraries(g as int, s as int, entries@).0,
            steps_of(next.1@) == self.after_libraries(g as int, s as int, entries@).1,
    {
        let mut steps: Vec<Step> = Vec::new();
        assert(steps_of(steps@) =~= Seq::empty());
        if g >= self.framework.libraries.len() || s >= self.framework.libraries[g].slices.len() {
            self.fail(&mut steps, PackagingError::UnexpectedAnswer);
            assert(steps_of(steps@) =~= self.after_libraries(g as int, s as int, entries@).1);
            return (Stage::Closing, steps);
        }
        let group = &self.framework.libraries[g];
        let slice = &group.slices[s];
        match slice.create(
            self.cargo_target_dir.as_str(),
            self.library_file_name.as_str(),
            self.temp_dir.as_str(),
            entries,
        ) {
            Err(e) => {
                self.fail(&mut steps, e);
                assert(steps_of(steps@) =~= self.after_libraries(g as int, s as int, entries@).1);
                (Stage::Closing, steps)
            },
            Ok(copy) => {
                let source = copy.source.clone();
                push_step(&mut steps, Step::Require { path: source, missing: Missing::Library });
                push_step(&mut steps, Step::Recreate { directory: copy.directory });
                push_step(&mut steps, Step::Copy { from: copy.source, to: copy.destination });
                let ghost copied = steps_of(steps@);
                if s + 1 < group.slices.len() {
                    let directory = group.slices[s + 1].built_product_dir(
                        self.cargo_target_dir.as_str(),
                    );
                    push_step(&mut steps, Step::List { directory });
                    assert(steps_of(steps@) =~= self.after_libraries(
                        g as int,
                        s as int,
                        entries@,
                    ).1);
                    (Stage::Libraries { group: g, slice: s + 1 }, steps)
                } else {
                    self.end_group(g, &mut steps);
                    let stage = self.enter_group(g + 1, &mut steps);
                    assert(steps_of(steps@) =~= self.after_libraries(
                        g as int,
                        s as int,
                        entries@,
                    ).1);
                    (stage, steps)
                }
            },
        }
    }

    /// Adds the steps that begin the taking of the binding sources.
    fn enter_extract(&self, steps: &mut Vec<Step>) -> (stage: Stage)
        ensures
            stage@ == self.extract().0,
            steps_of(final(steps)@) == steps_of(old(steps)@) + self.extract().1,
    {
        let ghost before = steps_of(steps@);
        match self.framework.binding_sources_dir(self.cargo_target_dir.as_str()) {
            Err(e) => {
                self.fail(steps, e);
                assert(steps_of(steps@) =~= before + self.extract().1);
                Stage::Closing
            },
            Ok(directory) => {
                push_step(steps, Step::Require { path: directory.clone(), missing: Missing::Headers });
                push_step(steps, Step::List { directory });
                assert(steps_of(steps@) =~= before + self.extract().1);
                Stage::Sources
            },
        }
    }

    /// Adds the steps that put the bundle in place and end the run.
    fn enter_commit(&self, steps: &mut Vec<Step>)
        ensures
            steps_of(final(steps)@) == steps_of(old(steps)@) + self.commit(),
    {
        let ghost before = steps_of(steps@);
        let bundle_name = append(self.library_file_name.as_str(), ".xcframework");
        let temp_dest = join(self.temp_dir.as_str(), bundle_name.as_str());
        push_step(steps, Step::Recreate { directory: self.dest.clone() });
        push_step(steps, Step::Rename { from: temp_dest, to: self.dest.clone() });
        push_step(steps, Step::Remove { directory: self.temp_dir.clone() });
        push_step(steps, Step::Finished);
        assert(steps_of(steps@) =~= before + self.commit());
    }

    /// Adds the steps that begin the work on the platform directory at
    /// place `p`.
    fn enter_platform(&self, platforms: Vec<String>, p: usize, steps: &mut Vec<Step>) -> (stage:
        Stage)
        ensures
            stage@ == self.begin_platform(texts(platforms@), p as int).0,
            steps_of(final(steps)@) == steps_of(old(steps)@) + self.begin_platform(
                texts(platforms@),
                p as int,
            ).1,
    {
        let ghost before = steps_of(steps@);
        assert(texts(platforms@).len() == platforms@.len());
        if p < platforms.len() {
            assert(texts(platforms@)[p as int] == platforms@[p as int]@);
            let bundle_name = append(self.library_file_name.as_str(), ".xcframework");
            let temp_dest = join(self.temp_dir.as_str(), bundle_name.as_str());
            let platform_dir = join(temp_dest.as_str(), platforms[p].as_str());
            let directory = join(platform_dir.as_str(), "Headers");
            push_step(steps, Step::List { directory });
            assert(steps_of(steps@) =~= before + self.begin_platform(
                texts(platforms@),
                p as int,
            ).1);
            Stage::HeaderFiles { platforms, platform: p }
        } else {
            self.enter_extract(steps)
        }
    }

    /// The steps that follow the listing of the headers of a platform
    /// directory.
    fn headers_listed(&self, platforms: &Vec<String>, p: usize, entries: &Vec<FileEntry>) -> (next:
        (Stage, Vec<Step>))
        ensures
            next.0@ == self.after_header_files(texts(platforms@), p as int, entries@).0,
            steps_of(next.1@) == self.after_header_files(texts(platforms@), p as int, entries@).1,
    {
        let mut steps: Vec<Step> = Vec::new();
        assert(steps_of(steps@) =~= Seq::empty());
        assert(texts(platforms@).len() == platforms@.len());
        if p >= platforms.len() {
            self.fail(&mut steps, PackagingError::UnexpectedAnswer);
            assert(steps_of(steps@) =~= self.after_header_files(
                texts(platforms@),
                p as int,
                entries@,
            ).1);
            return (Stage::Closing, steps);
        }
        assert(texts(platforms@)[p as int] == platforms@[p as int]@);
        let bundle_name = append(self.library_file_name.as_str(), ".xcframework");
        let temp_dest = join(self.temp_dir.as_str(), bundle_name.as_str());
        let names = entry_names(entries);
        assert(texts(names@).len() == names@.len());
        match XCFramework::patch_xcframework(
            temp_dest.as_str(),
            platforms[p].as_str(),
            self.library_file_name.as_str(),
            &names,
        ) {
            Err(e) => {
                self.fail(&mut steps, e);
                assert(steps_of(steps@) =~= self.after_header_files(
                    texts(platforms@),
                    p as int,
                    entries@,
                ).1);
                (Stage::Closing, steps)
            },
            Ok(patch) => {
                push_step(&mut steps, Step::Recreate { directory: patch.directory });
                rename_steps(&mut steps, &patch.moves);
                let stage = self.enter_platform(copy_names(platforms), p + 1, &mut steps);
                assert(steps_of(steps@) =~= self.after_header_files(
                    texts(platforms@),
                    p as int,
                    entries@,
                ).1);
                (stage, steps)
            },
        }
    }

    /// The steps that follow the listing of the directory that the binding
    /// sources are taken from.
    fn sources_listed(&self, entries: &Vec<FileEntry>) -> (next: (Stage, Vec<Step>))
        ensures
            next.0@ == self.after_sources(entries@).0,
            steps_of(next.1@) == self.after_sources(entries@).1,
    {
        let mut steps: Vec<Step> = Vec::new();
        assert(steps_of(steps@) =~= Seq::empty());
        match self.framework.extract_binding_sources(
            self.cargo_target_dir.as_str(),
            self.swift_wrapper_dir.as_str(),
            entries,
        ) {
            Err(e) => {
                self.fail(&mut steps, e);
                assert(steps_of(steps@) =~= self.after_sources(entries@).1);
            },
            Ok(found) => {
                push_step(&mut steps, Step::Recreate { directory: self.swift_wrapper_dir.clone() });
                copy_steps(&mut steps, &found);
                self.enter_commit(&mut steps);
                assert(steps_of(steps@) =~= self.after_sources(entries@).1);
            },
        }
        (Stage::Closing, steps)
    }

    /// The steps that follow a listing.
    fn listed(&self, entries: &Vec<FileEntry>) -> (next: (Stage, Vec<Step>))
        ensures
            next.0@ == self.refill(entries@).0,
            steps_of(next.1@) == self.refill(entries@).1,
    {
        match &self.stage {
            Stage::Libraries { group, slice } => self.libraries_listed(*group, *slice, entries),
            Stage::Platforms => {
                let mut steps: Vec<Step> = Vec::new();
                assert(steps_of(steps@) =~= Seq::empty());
                let platforms = XCFramework::platform_directories(entries);
                let stage = self.enter_platform(platforms, 0, &mut steps);
                assert(steps_of(steps@) =~= self.refill(entries@).1);
                (stage, steps)
            },
            Stage::HeaderFiles { platforms, platform } => self.headers_listed(
                platforms,
                *platform,
                entries,
            ),
            Stage::Sources => self.sources_listed(entries),
            Stage::Closing => {
                let mut steps: Vec<Step> = Vec::new();
                assert(steps_of(steps@) =~= Seq::empty());
                self.fail(&mut steps, PackagingError::UnexpectedAnswer);
                assert(steps_of(steps@) =~= self.refill(entries@).1);
                (Stage::Closing, steps)
            },
        }
    }

    /// Sets up the assembly of the bundle `library_file_name` of the
    /// library groups of `framework`. The first step is named on the
    /// answer `Done`.
    pub fn new(
        framework: XCFramework,
        cargo_target_dir: &str,
        library_file_name: &str,
        temp_dir: &str,
        dest: &str,
        swift_wrapper_dir: &str,
    ) -> (assembly: Self)
        ensures
            assembly.framework == framework,
            assembly.cargo_target_dir@ == cargo_target_dir@,
            assembly.library_file_name@ == library_file_name@,
            assembly.temp_dir@ == temp_dir@,
            assembly.dest@ == dest@,
            assembly.swift_wrapper_dir@ == swift_wrapper_dir@,
            assembly.progress() == (Progress {
                stage: assembly.opening().0,
                pending: assembly.opening().1,
                awaiting: AwaitingView::Done,
                touched: false,
            }),
    {
        let mut assembly = Assembly {
            framework,
            cargo_target_dir: String::from_str(cargo_target_dir),
            library_file_name: String::from_str(library_file_name),
            temp_dir: String::from_str(temp_dir),
            dest: String::from_str(dest),
            swift_wrapper_dir: String::from_str(swift_wrapper_dir),
            stage: Stage::Closing,
            pending: Vec::new(),
            awaiting: Awaiting::Done,
            touched: false,
        };
        let mut steps: Vec<Step> = Vec::new();
        assert(steps_of(steps@) =~= Seq::empty());
        let bundle_name = append(library_file_name, ".xcframework");
        push_step(&mut steps, Step::Recreate { directory: String::from_str(temp_dir) });
        push_step(&mut steps, Step::Remove { directory: join(temp_dir, bundle_name.as_str()) });
        let stage = assembly.enter_group(0, &mut steps);
        assert(steps_of(steps@) =~= assembly.opening().1);
        assembly.stage = stage;
        assembly.pending = steps;
        assembly
    }

    /// Whether a step names the destination.
    fn touches_destination(&self, step: &Step) -> (touches: bool)
        ensures
            touches == names_destination(step@, self.dest@),
    {
        let dest = self.dest.as_str();
        match step {
            Step::Recreate { directory } => text_eq(directory.as_str(), dest),
            Step::Remove { directory } => text_eq(directory.as_str(), dest),
            Step::Copy { from, to } => text_eq(to.as_str(), dest),
            Step::Rename { from, to } => text_eq(from.as_str(), dest) || text_eq(
                to.as_str(),
                dest,
            ),
            _ => false,
        }
    }

    /// Begins the removal of what the run has left behind.
    fn clean_up(self, e: PackagingError) -> (next: (Self, Step))
        ensures
            next.0.same_setup(&self),
            (next.0.progress(), next.1@) == self.cleanup(e@),
    {
        let mut assembly = self;
        let mut pending: Vec<Step> = Vec::new();
        assert(steps_of(pending@) =~= Seq::empty());
        assembly.stage = Stage::Closing;
        assembly.awaiting = Awaiting::Cleanup;
        if assembly.touched {
            push_step(&mut pending, Step::Remove { directory: assembly.temp_dir.clone() });
            push_step(&mut pending, Step::Failed(e));
            assert(steps_of(pending@) =~= seq![
                StepView::Remove { directory: assembly.temp_dir@ },
                StepView::Failed(e@),
            ]);
            assembly.pending = pending;
            let directory = assembly.dest.clone();
            (assembly, Step::Remove { directory })
        } else {
            push_step(&mut pending, Step::Failed(e));
            assert(steps_of(pending@) =~= seq![StepView::Failed(e@)]);
            assembly.pending = pending;
            let directory = assembly.temp_dir.clone();
            (assembly, Step::Remove { directory })
        }
    }

    /// Ends the run on an answer that is one too many.
    fn end(self) -> (next: (Self, Step))
        ensures
            next.0.same_setup(&self),
            next.0.progress() == self.over(),
            next.1@ == StepView::Failed(PackagingErrorView::UnexpectedAnswer),
    {
        let mut assembly = self;
        assembly.stage = Stage::Closing;
        assembly.pending = Vec::new();
        assembly.awaiting = Awaiting::Nothing;
        assert(steps_of(assembly.pending@) =~= Seq::empty());
        (assembly, Step::Failed(PackagingError::UnexpectedAnswer))
    }

    /// Takes what came of the last step and names the next step.
    pub fn next(self, event: Event) -> (next: (Self, Step))
        ensures
            next.0.same_setup(&self),
            (next.0.progress(), next.1@) == self.transition(event),
    {
        let mut assembly = self;
        let over = match &assembly.awaiting {
            Awaiting::Nothing => true,
            _ => false,
        };
        if over {
            return assembly.end();
        }
        let cleaning = match &assembly.awaiting {
            Awaiting::Cleanup => true,
            _ => false,
        };
        let mut listing: Option<Vec<FileEntry>> = None;
        let failure = if cleaning {
            None
        } else {
            match event {
                Event::Failed(e) => Some(e),
                Event::Done => match &assembly.awaiting {
                    Awaiting::Done => None,
                    _ => Some(PackagingError::UnexpectedAnswer),
                },
                Event::Listing(entries) => match &assembly.awaiting {
                    Awaiting::Listing => {
                        listing = Some(entries);
                        None
                    },
                    _ => Some(PackagingError::UnexpectedAnswer),
                },
                Event::Exists(found) => match &assembly.awaiting {
                    Awaiting::Exists { path, missing } => match present(
                        path.clone(),
                        found,
                        *missing,
                    ) {
                        Ok(_) => None,
                        Err(e) => Some(e),
                    },
                    _ => Some(PackagingError::UnexpectedAnswer),
                },
            }
        };
        if let Some(e) = failure {
            return assembly.clean_up(e);
        }
        if let Some(entries) = listing {
            let (stage, steps) = assembly.listed(&entries);
            assembly.stage = stage;
            assembly.pending = steps;
        }
        if assembly.pending.len() == 0 {
            if cleaning {
                return assembly.end();
            }
            return assembly.clean_up(PackagingError::UnexpectedAnswer);
        }
        let ghost pending = steps_of(assembly.pending@);
        let step = assembly.pending.remove(0);
        assert(steps_of(assembly.pending@) =~= pending.drop_first());
        assert(pending[0] == step@);
        match step {
            Step::Failed(e) => {
                if cleaning {
                    assembly.awaiting = Awaiting::Nothing;
                    (assembly, Step::Failed(e))
                } else {
                    assembly.clean_up(e)
                }
            },
            step => {
                if assembly.touches_destination(&step) {
                    assembly.touched = true;
                }
                assembly.awaiting = match &step {
                    Step::Finished => Awaiting::Nothing,
                    _ => if cleaning {
                        Awaiting::Cleanup
                    } else {
                        match &step {
                            Step::List { directory } => Awaiting::Listing,
                            Step::Require { path, missing } => Awaiting::Exists {
                                path: path.clone(),
                                missing: *missing,
                            },
                            _ => Awaiting::Done,
                        }
                    },
                };
                (assembly, step)
            },
        }
    }
}

/// The destination is replaced, not added to, and it is touched last: what
/// puts the bundle in place begins with emptying the destination, moves
/// the bundle there from the scratch directory right after, and is
/// followed by nothing but the removal of the scratch directory.
pub proof fn law_commit_replaces_destination(assembly: Assembly)
    ensures
        assembly.commit() == seq![
            StepView::Recreate { directory: assembly.dest@ },
            StepView::Rename { from: assembly.temp_dest(), to: assembly.dest@ },
            StepView::Remove { directory: assembly.temp_dir@ },
            StepView::Finished,
        ],
{
}

/// The binding sources are in place before the destination is touched:
/// the steps that follow the listing of the binding sources end with the
/// steps that put the bundle in place, and all copies come before them.
pub proof fn law_sources_come_before_the_bundle(assembly: Assembly, entries: Seq<FileEntry>)
    requires
        assembly.sources_dir() is Ok,
    ensures
        ({
            let steps = assembly.after_sources(entries).1;
            let copied = copies(
                source_copies(
                    assembly.sources_dir()->Ok_0,
                    assembly.swift_wrapper_dir@,
                    entries,
                    entries.len(),
                ),
            );
            &&& steps.len() == 1 + copied.len() + 4
            &&& steps.subrange(1, 1 + copied.len() as int) == copied
            &&& steps.subrange(1 + copied.len() as int, steps.len() as int) == assembly.commit()
        }),
{
    let copied = copies(
        source_copies(
            assembly.sources_dir()->Ok_0,
            assembly.swift_wrapper_dir@,
            entries,
            entries.len(),
        ),
    );
    let steps = assembly.after_sources(entries).1;
    assert(steps.subrange(1, 1 + copied.len() as int) =~= copied);
    assert(steps.subrange(1 + copied.len() as int, steps.len() as int) =~= assembly.commit());
}

/// Where every group has a slice and there is a group, the bundling tool
/// is run once all groups are worked off, with one library and one
/// directory of headers for each group, and the bundle it leaves is
/// listed next.
pub proof fn law_bundle_follows_last_group(assembly: Assembly)
    requires
        assembly.framework.well_formed(),
        assembly.framework.libraries@.len() > 0,
    ensures
        assembly.begin_group(assembly.framework.libraries@.len() as int) == (
            StageView::Platforms,
            seq![
                StepView::Run {
                    command: assembly.framework.bundle_command(
                        assembly.cargo_target_dir@,
                        assembly.library_file_name@,
                        assembly.temp_dir@,
                    ),
                },
                StepView::List { directory: assembly.temp_dest() },
            ],
        ),
{
}

/// A failure leaves nothing at the destination. Whatever fails a run that
/// is under way, be it an answer or a pending failure whose turn has come:
/// where a step has named the destination before, the next step removes
/// the destination; the scratch directory is removed in any case; and the
/// failure is told after that, whatever is answered in between.
pub proof fn law_failure_leaves_nothing(assembly: Assembly, event: Event, e: PackagingErrorView)
    requires
        assembly.awaiting@ != AwaitingView::Nothing,
        assembly.awaiting@ != AwaitingView::Cleanup,
        verdict(assembly.awaiting@, event) == Some(e) || (verdict(assembly.awaiting@, event) is None
            && !(event is Listing) && assembly.pending@.len() > 0 && steps_of(assembly.pending@)[0]
            == StepView::Failed(e)),
    ensures
        assembly.transition(event) == assembly.cleanup(e),
        assembly.touched ==> assembly.cleanup(e).1 == (StepView::Remove {
            directory: assembly.dest@,
        }) && assembly.cleanup(e).0.pending == seq![
            StepView::Remove { directory: assembly.temp_dir@ },
            StepView::Failed(e),
        ],
        !assembly.touched ==> assembly.cleanup(e).1 == (StepView::Remove {
            directory: assembly.temp_dir@,
        }) && assembly.cleanup(e).0.pending == seq![StepView::Failed(e)],
        assembly.cleanup(e).0.awaiting == AwaitingView::Cleanup,
{
}

/// Every step that names the destination is remembered: after it, the
/// assembly knows that the destination was touched, and a later failure
/// removes the destination.
pub proof fn law_touching_is_remembered(assembly: Assembly, event: Event)
    requires
        names_destination(assembly.transition(event).1, assembly.dest@),
        !(assembly.transition(event).0.awaiting == AwaitingView::Cleanup),
        !(assembly.transition(event).0.awaiting == AwaitingView::Nothing),
    ensures
        assembly.transition(event).0.touched,
{
}

/// Headers that were patched before are not patched again: a headers
/// directory that already holds the directory named like the library
/// fails the run, and nothing in it is moved.
pub proof fn law_patched_bundle_is_refused(
    assembly: Assembly,
    platforms: Seq<Seq<char>>,
    p: int,
    entries: Seq<FileEntry>,
)
    requires
        0 <= p < platforms.len(),
        names_of(entries).contains(assembly.library_file_name@),
    ensures
        assembly.after_header_files(platforms, p, entries).1 == seq![
            StepView::Failed(
                PackagingErrorView::AlreadyPatched {
                    directory: joined(
                        joined(joined(assembly.temp_dest(), platforms[p]), "Headers"@),
                        assembly.library_file_name@,
                    ),
                },
            ),
        ],
{
}

} // verus!
