//! What the library asks of the standard library's paths: the extension of
//! a path, and a path with another extension.

use vstd::prelude::*;
use crate::text::{chars_of, chars_equal};

verus! {

/// The extension that `Path::extension` finds in a path, if it finds one.
pub uninterp spec fn extension_of(path: Seq<char>) -> Option<Seq<char>>;

/// The path that `PathBuf::set_extension` leaves when it is given a path
/// and an extension.
pub uninterp spec fn path_with_extension(path: Seq<char>, extension: Seq<char>) -> Seq<char>;

/// Calls `Path::extension` on the path. The result depends on the path
/// alone and is named `extension_of`. The extension is a part of the path's
/// last component, so it holds no `/`.
#[verifier::external_body]
pub(crate) fn path_extension(path: &str) -> (r: Option<String>)
    ensures
        match r {
            Some(e) => extension_of(path@) == Some(e@) && !e@.contains('/'),
            None => extension_of(path@) is None,
        },
{
    std::path::Path::new(path).extension().map(|e| e.to_string_lossy().into_owned())
}

/// Calls `PathBuf::set_extension` on a copy of the path. The resulting path
/// depends on the two arguments alone and is named `path_with_extension`.
/// The call panics on an extension that holds a path separator.
#[verifier::external_body]
pub(crate) fn set_path_extension(path: &str, extension: &str) -> (r: String)
    requires
        !extension@.contains('/'),
    ensures
        r@ == path_with_extension(path@, extension@),
{
    let mut changed = std::path::PathBuf::from(path);
    changed.set_extension(extension);
    changed.to_string_lossy().into_owned()
}

/// Whether the extension of the path is `extension`.
pub open spec fn has_extension(path: Seq<char>, extension: Seq<char>) -> bool {
    extension_of(path) == Some(extension)
}

/// Whether the extension of the path is `extension`.
pub fn path_has_extension(path: &str, extension: &str) -> (r: bool)
    ensures
        r == has_extension(path@, extension@),
{
    match path_extension(path) {
        Some(found) => {
            let a = chars_of(found.as_str());
            let b = chars_of(extension);
            chars_equal(&a, &b)
        },
        None => false,
    }
}

} // verus!
