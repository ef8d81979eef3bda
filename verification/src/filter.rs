//! The file-type filter: which paths a directory walker takes for images.

use crate::views::strings_view;
use vstd::prelude::*;
use vstd::string::*;

verus! {

/// `extension` stands in `path` directly behind a `.`.
pub open spec fn follows_a_dot(path: Seq<char>, extension: Seq<char>) -> bool {
    exists|at: int|
        0 < at && at + extension.len() <= path.len() && path[at - 1] == '.' && #[trigger] path.subrange(
            at,
            at + extension.len(),
        ) == extension
}

/// `extension` is one of the accepted ones, letter for letter.
pub open spec fn is_accepted(extension: Seq<char>, accepted: Seq<String>) -> bool {
    exists|k: int| 0 <= k < accepted.len() && (#[trigger] accepted[k])@ == extension
}

/// The extensions that are taken for images by default.
pub open spec fn default_extension_names() -> Seq<Seq<char>> {
    seq![
        seq!['j', 'p', 'g'],
        seq!['j', 'p', 'e', 'g'],
        seq!['p', 'n', 'g'],
        seq!['g', 'i', 'f'],
        seq!['b', 'm', 'p'],
        seq!['t', 'i', 'f', 'f'],
    ]
}

/// The extensions that are taken for images by default: `jpg`, `jpeg`,
/// `png`, `gif`, `bmp` and `tiff`.
pub fn default_extensions() -> (extensions: Vec<String>)
    ensures
        strings_view(extensions@) == default_extension_names(),
{
    proof {
        reveal_strlit("jpg");
        reveal_strlit("jpeg");
        reveal_strlit("png");
        reveal_strlit("gif");
        reveal_strlit("bmp");
        reveal_strlit("tiff");
        assert("jpg"@ =~= seq!['j', 'p', 'g']);
        assert("jpeg"@ =~= seq!['j', 'p', 'e', 'g']);
        assert("png"@ =~= seq!['p', 'n', 'g']);
        assert("gif"@ =~= seq!['g', 'i', 'f']);
        assert("bmp"@ =~= seq!['b', 'm', 'p']);
        assert("tiff"@ =~= seq!['t', 'i', 'f', 'f']);
    }
    let mut extensions: Vec<String> = Vec::new();
    extensions.push(String::from_str("jpg"));
    extensions.push(String::from_str("jpeg"));
    extensions.push(String::from_str("png"));
    extensions.push(String::from_str("gif"));
    extensions.push(String::from_str("bmp"));
    extensions.push(String::from_str("tiff"));
    assert(strings_view(extensions@) =~= default_extension_names());
    extensions
}

/// The extension of the file that `path` names, as `std::path::Path` reads
/// it by the path rules of the platform that the library is built for.
pub uninterp spec fn path_extension_of(path: Seq<char>) -> Option<Seq<char>>;

/// The view of what looking for an extension gave.
pub open spec fn extension_view(extension: Option<String>) -> Option<Seq<char>> {
    match extension {
        Some(e) => Some(e@),
        None => None,
    }
}

/// Calls `std::path::Path::extension` on `path`.
///
/// The extension is the part of the path's file name behind its last `.`,
/// so the contract claims that it holds no `.` and stands in the path
/// directly behind one. Which part of a path is its file name follows the
/// platform's path rules, so beyond that the result is only named.
#[verifier::external_body]
fn path_extension(path: &str) -> (extension: Option<String>)
    ensures
        extension_view(extension) == path_extension_of(path@),
        extension matches Some(e) ==> follows_a_dot(path@, e@) && !e@.contains('.'),
{
    match std::path::Path::new(path).extension() {
        Some(e) => Some(e.to_string_lossy().into_owned()),
        None => None,
    }
}

/// Whether a file with the given extension is taken for an image: the
/// extension must be one of the accepted ones, in the same case.
pub fn has_image_extension(extension: &str, accepted: &Vec<String>) -> (is: bool)
    ensures
        is == is_accepted(extension@, accepted@),
{
    let wanted = String::from_str(extension);
    let mut k: usize = 0;
    while k < accepted.len()
        invariant
            k <= accepted.len(),
            wanted@ == extension@,
            forall|m: int| 0 <= m < k ==> (#[trigger] accepted[m])@ != extension@,
        decreases accepted.len() - k,
    {
        if accepted[k] == wanted {
            return true;
        }
        k = k + 1;
    }
    false
}

/// Whether an extension, if there is one, is an accepted one.
pub open spec fn names_image(extension: Option<Seq<char>>, accepted: Seq<String>) -> bool {
    match extension {
        Some(e) => is_accepted(e, accepted),
        None => false,
    }
}

/// Whether the outcome of looking for a path's extension names an image:
/// there must be an extension, and it must be an accepted one.
pub fn is_image_extension(extension: Option<String>, accepted: &Vec<String>) -> (is: bool)
    ensures
        is == names_image(extension_view(extension), accepted@),
{
    match extension {
        Some(e) => has_image_extension(e.as_str(), accepted),
        None => false,
    }
}

/// Whether the file at `path` is taken for an image: its file name must
/// have an extension, and the extension must be an accepted one, in the
/// same case.
///
/// Whatever the platform's path rules, a path is only taken for an image if
/// one of the accepted extensions holds no `.` and stands in the path
/// directly behind one.
pub fn is_image(path: &str, accepted: &Vec<String>) -> (is: bool)
    ensures
        is == names_image(path_extension_of(path@), accepted@),
        is ==> exists|k: int|
            0 <= k < accepted.len() && follows_a_dot(path@, (#[trigger] accepted[k])@)
                && !accepted[k]@.contains('.'),
{
    is_image_extension(path_extension(path), accepted)
}

} // verus!
