//! Filesystem paths, carried through the library as the standard library's `PathBuf`.
//!
//! A path is modelled by the bytes it holds. Joining a relative component extends those
//! bytes, and a path reads as text exactly when its bytes are valid UTF-8.
//!
//! Paths are those of Unix, where the separator is `/`: the program runs its servers in tmux.

use vstd::prelude::*;
use vstd::string::*;
use vstd::utf8::*;

verus! {

#[verifier::external_type_specification]
#[verifier::external_body]
pub struct ExPathBuf(std::path::PathBuf);

#[verifier::external_type_specification]
#[verifier::external_body]
pub struct ExIoError(std::io::Error);

/// The bytes a path holds.
pub uninterp spec fn path_bytes(path: std::path::PathBuf) -> Seq<u8>;

/// The byte of the path separator, `/`.
pub open spec fn separator() -> u8 {
    47u8
}

/// `joined` is `base` extended by `component`: with a separator between them where the base
/// is not empty and does not end with one. Where the base is empty or already ends with a
/// separator, whether a second one is written is left open.
pub open spec fn adjoined(base: Seq<u8>, component: Seq<u8>, joined: Seq<u8>) -> bool {
    if base.len() > 0 && base.last() != separator() {
        joined == base + seq![separator()] + component
    } else {
        ||| joined == base + component
        ||| joined == base + seq![separator()] + component
    }
}

/// A path component given as text that does not start at the root.
pub open spec fn relative(component: Seq<char>) -> bool {
    component.len() == 0 || component[0] != '/'
}

/// A path given as bytes that does not start at the root.
pub open spec fn relative_bytes(component: Seq<u8>) -> bool {
    component.len() == 0 || component[0] != separator()
}

/// `joined` is `base` extended by the component named by `name`.
pub open spec fn joined_as(base: std::path::PathBuf, name: Seq<char>, joined: std::path::PathBuf) -> bool {
    adjoined(path_bytes(base), encode_utf8(name), path_bytes(joined))
}

/// `Path::join` with a text: where the text is a relative path, the result extends the base
/// path with it, with a separator between them where the base does not end with one
/// (`"/tmp"` joined with `"file.bk"` gives `"/tmp/file.bk"`, `"/etc"` joined with `"passwd"`
/// gives `"/etc/passwd"`). For an empty base, or one that ends with a separator, whether the
/// separator is written is left unsaid here. An absolute path replaces the base.
#[verifier::external_body]
pub(crate) fn join(base: &std::path::PathBuf, component: &str) -> (joined: std::path::PathBuf)
    ensures
        relative(component@) ==> adjoined(
            path_bytes(*base),
            component.spec_bytes(),
            path_bytes(joined),
        ),
        !relative(component@) ==> path_bytes(joined) == component.spec_bytes(),
{
    base.join(component)
}

/// The text that `Path::display` shows for a path's bytes: the bytes read as UTF-8, with each
/// sequence that is not valid UTF-8 replaced by U+FFFD.
pub uninterp spec fn lossy_text(bytes: Seq<u8>) -> Seq<char>;

/// `Path::display`, written to a string: the text of the path, read lossily. Where its bytes
/// are valid UTF-8, that is exactly their text.
#[verifier::external_body]
pub(crate) fn display_text(path: &std::path::PathBuf) -> (text: String)
    ensures
        text@ == lossy_text(path_bytes(*path)),
        valid_utf8(path_bytes(*path)) ==> text@ == decode_utf8(path_bytes(*path)),
{
    path.display().to_string()
}

/// `PathBuf::push`: where the pushed path is relative, the path is extended by it, with a
/// separator between them where the path does not end with one, as [`join`] does. Where it
/// is absolute it replaces the path.
#[verifier::external_body]
pub(crate) fn push(path: &mut std::path::PathBuf, component: &std::path::PathBuf)
    ensures
        relative_bytes(path_bytes(*component)) ==> adjoined(
            path_bytes(*old(path)),
            path_bytes(*component),
            path_bytes(*final(path)),
        ),
        !relative_bytes(path_bytes(*component)) ==> path_bytes(*final(path)) == path_bytes(
            *component,
        ),
{
    path.push(component)
}

/// `PathBuf::from` a text: the path holds the text's bytes.
#[verifier::external_body]
pub(crate) fn path_from_text(text: &str) -> (path: std::path::PathBuf)
    ensures
        path_bytes(path) == text.spec_bytes(),
{
    std::path::PathBuf::from(text)
}

/// `PathBuf::clone`: a copy of a path, holding the same bytes.
#[verifier::external_body]
pub(crate) fn clone_path(path: &std::path::PathBuf) -> (copy: std::path::PathBuf)
    ensures
        path_bytes(copy) == path_bytes(*path),
{
    path.clone()
}

/// `Path::to_str`: the path as text when its bytes are valid UTF-8, nothing otherwise.
#[verifier::external_body]
pub(crate) fn to_str(path: &std::path::PathBuf) -> (text: Option<&str>)
    ensures
        text.is_some() <==> valid_utf8(path_bytes(*path)),
        text matches Some(s) ==> s.spec_bytes() == path_bytes(*path),
{
    path.to_str()
}

/// The final component of a path, as `Path::file_name` gives it: the file or directory name
/// the path ends with, or nothing where it ends in `..` or has no name.
pub uninterp spec fn final_component(path: Seq<u8>) -> Option<Seq<u8>>;

/// `Path::file_name`, the name held as a path of its own.
#[verifier::external_body]
pub(crate) fn file_name(path: &std::path::PathBuf) -> (name: Option<std::path::PathBuf>)
    ensures
        match (name, final_component(path_bytes(*path))) {
            (Some(n), Some(b)) => path_bytes(n) == b,
            (None, None) => true,
            _ => false,
        },
{
    path.file_name().map(std::path::PathBuf::from)
}

/// `str::from_utf8`: the bytes as text where they are valid UTF-8.
#[verifier::external_body]
pub(crate) fn text_of_bytes(bytes: &[u8]) -> (text: Option<&str>)
    ensures
        text is Some <==> valid_utf8(bytes@),
        text matches Some(s) ==> s.spec_bytes() == bytes@,
{
    std::str::from_utf8(bytes).ok()
}

} // verus!
