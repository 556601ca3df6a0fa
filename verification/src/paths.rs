//! Path arithmetic, done by the standard library.
//!
//! How a path falls into directory, file name and extension depends on the
//! platform's path syntax, which the standard library knows. Each function
//! here makes one call of `std::path::Path` on text and hands text back. The
//! contracts are not proved: each gives the call's result a name, a function
//! of the arguments that is fixed for the platform the library is built for.

use vstd::prelude::*;

use crate::text::text_of;

verus! {

/// What `Path::parent` gives for a path, as text.
pub uninterp spec fn path_parent(path: Seq<char>) -> Option<Seq<char>>;

/// What `Path::file_stem` gives for a path, as text.
pub uninterp spec fn path_file_stem(path: Seq<char>) -> Option<Seq<char>>;

/// What `Path::file_name` gives for a path, as text.
pub uninterp spec fn path_file_name(path: Seq<char>) -> Option<Seq<char>>;

/// What `Path::extension` gives for a path, as text.
pub uninterp spec fn path_extension(path: Seq<char>) -> Option<Seq<char>>;

/// What `Path::with_extension` gives for a path and an extension, as text.
pub uninterp spec fn path_with_extension(path: Seq<char>, extension: Seq<char>) -> Seq<char>;

/// What `Path::join` gives for a path and a second one, as text.
pub uninterp spec fn path_join(base: Seq<char>, leaf: Seq<char>) -> Seq<char>;

/// What `str::to_lowercase` gives for a text.
pub uninterp spec fn lowercase(text: Seq<char>) -> Seq<char>;

/// Whether `text` is free of the characters that separate the components of a
/// path on some platform.
pub open spec fn no_separator(text: Seq<char>) -> bool {
    forall|i: int| 0 <= i < text.len() ==> text[i] != '/' && text[i] != '\\'
}

/// Calls `Path::parent`: the path without its last component, or `None`
/// where there is none. Claims only that the result is `path_parent` of the
/// argument.
#[verifier::external_body]
pub(crate) fn parent(path: &str) -> (r: Option<String>)
    ensures
        text_of(r) == path_parent(path@),
{
    match std::path::Path::new(path).parent() {
        Some(p) => Some(p.to_string_lossy().into_owned()),
        None => None,
    }
}

/// Calls `Path::file_stem`: the last component without its extension, or
/// `None` where the path has no file name. Claims only that the result is
/// `path_file_stem` of the argument.
#[verifier::external_body]
pub(crate) fn file_stem(path: &str) -> (r: Option<String>)
    ensures
        text_of(r) == path_file_stem(path@),
{
    match std::path::Path::new(path).file_stem() {
        Some(s) => Some(s.to_string_lossy().into_owned()),
        None => None,
    }
}

/// Calls `Path::file_name`: the last component, or `None` where the path
/// ends in `..`. Claims only that the result is `path_file_name` of the
/// argument.
#[verifier::external_body]
pub(crate) fn file_name(path: &str) -> (r: Option<String>)
    ensures
        text_of(r) == path_file_name(path@),
{
    match std::path::Path::new(path).file_name() {
        Some(s) => Some(s.to_string_lossy().into_owned()),
        None => None,
    }
}

/// Calls `Path::extension`: what follows the last dot of the file name, or
/// `None` where there is no such part. Claims only that the result is
/// `path_extension` of the argument.
#[verifier::external_body]
pub(crate) fn extension(path: &str) -> (r: Option<String>)
    ensures
        text_of(r) == path_extension(path@),
{
    match std::path::Path::new(path).extension() {
        Some(s) => Some(s.to_string_lossy().into_owned()),
        None => None,
    }
}

/// Calls `Path::with_extension`: the path with the extension of its file
/// name replaced. The standard library panics on an extension that holds a
/// separator, so such an extension is not admitted. Claims only that the
/// result is `path_with_extension` of the arguments.
#[verifier::external_body]
pub(crate) fn with_extension(path: &str, extension: &str) -> (r: String)
    requires
        no_separator(extension@),
    ensures
        r@ == path_with_extension(path@, extension@),
{
    std::path::Path::new(path).with_extension(extension).to_string_lossy().into_owned()
}

/// Calls `Path::join`: `leaf` adjoined to `base`. Claims only that the
/// result is `path_join` of the arguments.
#[verifier::external_body]
pub(crate) fn join(base: &str, leaf: &str) -> (r: String)
    ensures
        r@ == path_join(base@, leaf@),
{
    std::path::Path::new(base).join(leaf).to_string_lossy().into_owned()
}

/// Calls `str::to_lowercase`: the text with each character in lower case.
/// Claims only that the result is `lowercase` of the argument.
#[verifier::external_body]
pub(crate) fn to_lowercase(text: &str) -> (r: String)
    ensures
        r@ == lowercase(text@),
{
    text.to_lowercase()
}

} // verus!
