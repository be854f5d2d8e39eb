//! Paths in the file system.

use std::path::PathBuf;

use vstd::prelude::*;

verus! {

/// `std::path::PathBuf`: an owned path, of which only the two functions below tell
/// something.
#[verifier::external_type_specification]
#[verifier::external_body]
pub struct ExPathBuf(PathBuf);

/// The components that a path holds, in order, each in the form in which `Path` compares
/// them: what `Path::components` walks. Repeated separators and inner `.` leave no
/// component; the root of a path is a component of its own, the separator of the system.
pub uninterp spec fn path_components(path: PathBuf) -> Seq<Seq<u8>>;

/// The text that `Path::display` gives for a path.
pub uninterp spec fn path_text(path: PathBuf) -> Seq<char>;

/// The path that `Path::join` makes of a directory and a name.
pub uninterp spec fn joined(dir: PathBuf, name: Seq<char>) -> PathBuf;

/// Whether `path` lies in the directory `base`, or is `base`: every component of `base`
/// comes first in it.
pub open spec fn lies_under(path: PathBuf, base: PathBuf) -> bool {
    path_components(base).is_prefix_of(path_components(path))
}

/// A name that is one ordinary component wherever paths are written: it is not empty, it
/// is neither `.` nor `..`, and it holds no separator and no drive letter's colon.
pub open spec fn single_component(name: Seq<char>) -> bool {
    &&& name.len() > 0
    &&& name != seq!['.']
    &&& name != seq!['.', '.']
    &&& forall|i: int|
        0 <= i < name.len() ==> (#[trigger] name[i]) != '/' && name[i] != '\\' && name[i] != ':'
}

/// A text that begins with two separators.
pub open spec fn two_leading_separators(text: Seq<char>) -> bool {
    text.len() >= 2 && (text[0] == '/' || text[0] == '\\') && (text[1] == '/' || text[1] == '\\')
}

/// Whether two separators stand side by side in a text, behind its first two characters.
pub open spec fn doubled_separators(text: Seq<char>) -> bool {
    exists|i: int| 2 <= i && i + 2 <= text.len() && #[trigger] two_leading_separators(text.skip(i))
}

/// One part of the announcement of a server: its name, or that of a share.
pub open spec fn announced_name(name: Seq<char>) -> bool {
    &&& single_component(name)
    &&& name != seq!['?']
}

/// The root of a drive or of a share on Windows, where its announcement is spelled out:
/// `\\?\C:\`, `\\server\share\` or `\\?\UNC\server\share\`.
pub open spec fn announced_root(text: Seq<char>) -> bool {
    ||| exists|letter: char|
        ('a' <= letter <= 'z' || 'A' <= letter <= 'Z') && text == r"\\?\"@ + #[trigger] seq![
            letter,
        ] + r":\"@
    ||| exists|server: Seq<char>, share: Seq<char>|
        #[trigger] announced_name(server) && #[trigger] announced_name(share) && (text == r"\\"@
            + server + r"\"@ + share + r"\"@ || text == r"\\?\UNC\"@ + server + r"\"@ + share
            + r"\"@)
}

/// A directory to which a name is known to add one component.
///
/// On Windows two leading separators announce a server or a device, as in `\\server` and
/// `\\?\C:`, and what is added next may still belong to that announcement. It is complete
/// where it is spelled out down to the root of a drive or a share, or where something
/// follows the root behind it and no part of it is left empty; and it is none where the
/// root is `/`, which is not the separator of Windows.
pub open spec fn complete_directory(dir: PathBuf) -> bool {
    ||| !two_leading_separators(path_text(dir))
    ||| path_components(dir).len() > 0 && path_components(dir)[0] == seq![0x2fu8]
    ||| announced_root(path_text(dir))
    ||| path_components(dir).len() >= 3 && !doubled_separators(path_text(dir))
}

/// Whether `path` is the place of a file with the name `name` in the directory `dir`.
pub open spec fn is_file_in(path: PathBuf, dir: PathBuf, name: Seq<char>) -> bool {
    path_components(path) == path_components(dir).push(vstd::utf8::encode_utf8(name))
}

/// Whether no other name than `name` has its file in `dir` at `path`.
pub open spec fn set_apart(path: PathBuf, dir: PathBuf, name: Seq<char>) -> bool {
    forall|other: Seq<char>|
        single_component(other) && other != name ==> path_components(#[trigger] joined(dir, other))
            != path_components(path)
}

/// `Path::display`, written into a string: the text of the path.
#[verifier::external_body]
fn display(path: &PathBuf) -> (text: String)
    ensures
        text@ == path_text(*path),
{
    path.display().to_string()
}

/// The text of a path, as it is shown to the user.
pub fn display_path(path: &PathBuf) -> (text: String)
    ensures
        text@ == path_text(*path),
{
    display(path)
}

/// `Path::join`: the joined path. A name that is a single component is added behind the
/// components of a complete directory, and two such names are never joined to the same
/// path, whatever the directory. Not said is which components come out where the directory
/// is not complete.
#[verifier::external_body]
pub(crate) fn join(dir: &PathBuf, name: &str) -> (path: PathBuf)
    ensures
        path == joined(*dir, name@),
        single_component(name@) && complete_directory(*dir) ==> path_components(path)
            == path_components(*dir).push(vstd::utf8::encode_utf8(name@)),
        single_component(name@) ==> forall|other: Seq<char>|
            single_component(other) && other != name@ ==> path_components(
                #[trigger] joined(*dir, other),
            ) != path_components(path),
{
    dir.join(name)
}

/// `Path::starts_with`: whether the components of `base` are the first components of
/// `path`. Only whole components match.
#[verifier::external_body]
pub(crate) fn starts_with(path: &PathBuf, base: &PathBuf) -> (yes: bool)
    ensures
        yes == path_components(*base).is_prefix_of(path_components(*path)),
{
    path.starts_with(base)
}

/// `PathBuf::clone`: the same path once more.
pub assume_specification[ <PathBuf as Clone>::clone ](path: &PathBuf) -> (copy: PathBuf)
    ensures
        copy == *path,
;

} // verus!
