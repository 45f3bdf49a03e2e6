//! What the scanner takes from the platform without proof: the extension
//! and the name of a file path, and the number of processor cores.

use std::path::Path;
use std::path::PathBuf;
use vstd::prelude::*;

verus! {

/// A borrowed file path of the standard library. Nothing is known of what
/// it holds.
#[verifier::external_type_specification]
#[verifier::external_body]
pub struct ExPath(Path);

/// An owned file path of the standard library. Nothing is known of what it
/// holds.
#[verifier::external_type_specification]
#[verifier::external_body]
pub struct ExPathBuf(PathBuf);

/// What `Path::extension` of the standard library gives for `file`, as
/// text: `None` where the path has no extension, `Some(None)` where it has
/// one that is not valid UTF-8. Which part of a path is its extension is the
/// standard library's business; nothing is said here of what it is for any
/// given path.
pub uninterp spec fn extension_text(file: &Path) -> Option<Option<Seq<char>>>;

/// What `Path::file_name` of the standard library gives for `file`, as
/// text: `None` where the path has no last component, `Some(None)` where it
/// has one that is not valid UTF-8. Nothing is said here of what it is for
/// any given path.
pub uninterp spec fn file_name_text(file: &Path) -> Option<Option<Seq<char>>>;

/// The characters of a part of a path that may be missing or not be text.
pub open spec fn part_text(part: Option<Option<&str>>) -> Option<Option<Seq<char>>> {
    match part {
        Some(Some(text)) => Some(Some(text@)),
        Some(None) => Some(None),
        None => None,
    }
}

/// The extension of `file`, as `Path::extension` of the standard library
/// gives it: `None` where the path has none. The extension is handed on as
/// text, through `OsStr::to_str`; the inner value is `None` where it is not
/// valid UTF-8. The contract claims that the result depends on the path
/// alone, by giving it the name `extension_text`, and nothing more.
#[verifier::external_body]
pub(crate) fn path_extension(file: &Path) -> (extension: Option<Option<&str>>)
    ensures
        part_text(extension) == extension_text(file),
{
    match file.extension() {
        Some(extension) => Some(extension.to_str()),
        None => None,
    }
}

/// The last component of `file`, as `Path::file_name` of the standard
/// library gives it: `None` where the path has none. The name is handed on
/// as text, through `OsStr::to_str`; the inner value is `None` where it is
/// not valid UTF-8. The contract claims that the result depends on the path
/// alone, by giving it the name `file_name_text`, and nothing more.
#[verifier::external_body]
pub(crate) fn path_file_name(file: &Path) -> (name: Option<Option<&str>>)
    ensures
        part_text(name) == file_name_text(file),
{
    match file.file_name() {
        Some(name) => Some(name.to_str()),
        None => None,
    }
}

/// The number of processor cores that `num_cpus::get` reports. It depends
/// on the machine and on the limits set for the process, so nothing is
/// claimed of it, not even that it is positive.
#[verifier::external_body]
pub(crate) fn available_cores() -> (cores: usize) {
    num_cpus::get()
}

} // verus!
