//! Decisions about files and commands, taken on what was found on disk or
//! what a command gave back.

use vstd::prelude::*;
use vstd::string::StringExecFns;
use crate::error::{PackagingError, PackagingErrorView};
use crate::paths::{diff_paths, difference, join, joined};
use crate::text::{push_text, split, split_seq, text_eq, texts};

verus! {

/// One entry of a directory, as a listing of the directory gives it.
#[derive(Debug)]
pub struct FileEntry {
    /// The name of the entry within its directory.
    pub name: String,
    pub is_file: bool,
    pub is_dir: bool,
}

/// What a command left behind when it ended.
#[derive(Debug)]
pub struct CommandOutput {
    pub success: bool,
    /// The exit status, as it is shown to a person.
    pub status: String,
    pub stdout: Vec<u8>,
    pub stderr: Vec<u8>,
}

/// The extension of a file name: what follows its last dot. A name without
/// a dot has none, and neither has a name whose only dot is its first
/// character, nor the name `..` of the parent directory.
pub open spec fn extension_of(file_name: Seq<char>) -> Option<Seq<char>> {
    let fields = split_seq(file_name, '.');
    if file_name == ".."@ {
        None
    } else if fields.len() > 2 || (fields.len() == 2 && fields[0].len() > 0) {
        Some(fields.last())
    } else {
        None
    }
}

/// Whether the entry is a file with the extension `ext`.
pub open spec fn is_file_with_extension(entry: FileEntry, ext: Seq<char>) -> bool {
    entry.is_file && extension_of(entry.name@) == Some(ext)
}

/// The paths of the files with the extension `ext` among the first `count`
/// entries of the directory `dir`, in the order of the listing.
pub open spec fn files_with_extension_among(
    dir: Seq<char>,
    entries: Seq<FileEntry>,
    ext: Seq<char>,
    count: nat,
) -> Seq<Seq<char>>
    decreases count,
{
    if count == 0 || count > entries.len() {
        Seq::empty()
    } else {
        let rest = files_with_extension_among(dir, entries, ext, (count - 1) as nat);
        if is_file_with_extension(entries[count - 1], ext) {
            rest.push(joined(dir, entries[count - 1].name@))
        } else {
            rest
        }
    }
}

/// The paths of the files with the extension `ext` in the directory `dir`
/// with the given entries.
pub open spec fn files_with_extension_of(dir: Seq<char>, entries: Seq<FileEntry>, ext: Seq<char>) -> Seq<
    Seq<char>,
> {
    files_with_extension_among(dir, entries, ext, entries.len())
}

/// Whether a file name has the extension `ext`.
pub fn has_extension(file_name: &str, ext: &str) -> (answer: bool)
    ensures
        answer == (extension_of(file_name@) == Some(ext@)),
{
    if text_eq(file_name, "..") {
        return false;
    }
    let fields = split(file_name, '.');
    let n = fields.len();
    assert(texts(fields@).len() == n);
    if n > 2 || (n == 2 && fields[0].as_str().unicode_len() > 0) {
        assert(texts(fields@)[0] == fields@[0]@);
        assert(texts(fields@).last() == fields@[n - 1]@);
        text_eq(fields[n - 1].as_str(), ext)
    } else {
        if n == 2 {
            assert(texts(fields@)[0] == fields@[0]@);
        }
        false
    }
}

/// The files with the extension `ext` in the directory `dir`, whose
/// listing gave `entries`.
pub fn files_with_extension(dir: &str, entries: &Vec<FileEntry>, ext: &str) -> (files: Vec<String>)
    ensures
        texts(files@) == files_with_extension_of(dir@, entries@, ext@),
{
    let mut files: Vec<String> = Vec::new();
    let mut k: usize = 0;
    assert(texts(files@) == files_with_extension_among(dir@, entries@, ext@, 0));
    while k < entries.len()
        invariant
            k <= entries.len(),
            texts(files@) == files_with_extension_among(dir@, entries@, ext@, k as nat),
        decreases entries.len() - k,
    {
        if entries[k].is_file && has_extension(entries[k].name.as_str(), ext) {
            let path = join(dir, entries[k].name.as_str());
            push_text(&mut files, path.as_str());
        }
        k += 1;
    }
    files
}

/// The one static library in the directory `dir`, whose listing gave
/// `entries`. With none or several, picking one would be a guess.
pub fn only_static_library(dir: &str, entries: &Vec<FileEntry>) -> (library: Result<
    String,
    PackagingError,
>)
    ensures
        ({
            let libraries = files_with_extension_of(dir@, entries@, "a"@);
            match library {
                Ok(path) => libraries.len() == 1 && path@ == libraries[0],
                Err(e) => libraries.len() != 1 && e@ == (PackagingErrorView::AmbiguousArtifact {
                    directory: dir@,
                    candidates: libraries,
                }),
            }
        }),
{
    let mut libraries = files_with_extension(dir, entries, "a");
    assert(texts(libraries@).len() == libraries@.len());
    if libraries.len() != 1 {
        return Err(
            PackagingError::AmbiguousArtifact {
                directory: String::from_str(dir),
                candidates: libraries,
            },
        );
    }
    assert(texts(libraries@)[0] == libraries@[0]@);
    Ok(libraries.remove(0))
}

/// The output of a command that ended with success, and a failure that
/// carries all of the output of one that did not.
pub fn successful_output(command: &str, output: CommandOutput) -> (checked: Result<
    CommandOutput,
    PackagingError,
>)
    ensures
        match checked {
            Ok(same) => output.success && same == output,
            Err(e) => !output.success && e@ == (PackagingErrorView::CommandFailed {
                command: command@,
                status: output.status@,
                stdout: output.stdout@,
                stderr: output.stderr@,
            }),
        },
{
    if output.success {
        Ok(output)
    } else {
        Err(
            PackagingError::CommandFailed {
                command: String::from_str(command),
                status: output.status,
                stdout: output.stdout,
                stderr: output.stderr,
            },
        )
    }
}

/// Where a file that is moved to `dst` ends up: inside `dst` under its own
/// name where `dst` is a directory, and at `dst` itself where it is not.
pub fn move_destination(file_name: &str, dst: &str, dst_is_dir: bool) -> (destination: String)
    ensures
        destination@ == if dst_is_dir {
            joined(dst@, file_name@)
        } else {
            dst@
        },
{
    if dst_is_dir {
        join(dst, file_name)
    } else {
        String::from_str(dst)
    }
}

/// The relative path that leads from `base` to `path`.
pub fn relative_path(path: &str, base: &str) -> (relative: Result<String, PackagingError>)
    ensures
        match relative {
            Ok(r) => difference(path@, base@) == Some(r@),
            Err(e) => difference(path@, base@) is None && e@ == (PackagingErrorView::NoRelativePath {
                path: path@,
                base: base@,
            }),
        },
{
    match diff_paths(path, base) {
        Some(relative) => Ok(relative),
        None => Err(
            PackagingError::NoRelativePath {
                path: String::from_str(path),
                base: String::from_str(base),
            },
        ),
    }
}

} // verus!
