//! The std path functions the library uses, on paths held as strings.
use vstd::prelude::*;

verus! {

/// What `Path::extension` gives for a path: the part of the file name after
/// its last `.`, if the name has one that does not start it.
pub uninterp spec fn extension_of(p: Seq<char>) -> Option<Seq<char>>;

/// `Path::extension` from std, on a UTF-8 path.
#[verifier::external_body]
pub(crate) fn path_extension(p: &str) -> (r: Option<String>)
    ensures
        match r {
            Some(e) => extension_of(p@) == Some(e@),
            None => extension_of(p@) is None,
        },
{
    std::path::Path::new(p).extension().map(|e| e.to_string_lossy().to_string())
}

/// What `Path::file_name` gives for a path: its final component, unless
/// the path ends in `..` or is a root.
pub uninterp spec fn file_name_of(p: Seq<char>) -> Option<Seq<char>>;

/// `Path::file_name` from std, on a UTF-8 path.
#[verifier::external_body]
pub(crate) fn path_file_name(p: &str) -> (r: Option<String>)
    ensures
        match r {
            Some(n) => file_name_of(p@) == Some(n@),
            None => file_name_of(p@) is None,
        },
{
    std::path::Path::new(p).file_name().map(|n| n.to_string_lossy().to_string())
}

/// What `Path::file_stem` gives for a path: its file name without the
/// extension, if it has a file name.
pub uninterp spec fn file_stem_of(p: Seq<char>) -> Option<Seq<char>>;

/// `Path::file_stem` from std, on a UTF-8 path.
#[verifier::external_body]
pub(crate) fn path_file_stem(p: &str) -> (r: Option<String>)
    ensures
        match r {
            Some(n) => file_stem_of(p@) == Some(n@),
            None => file_stem_of(p@) is None,
        },
{
    std::path::Path::new(p).file_stem().map(|n| n.to_string_lossy().to_string())
}

/// What `Path::parent` gives for a path: the path without its final
/// component, if it has one.
pub uninterp spec fn parent_of(p: Seq<char>) -> Option<Seq<char>>;

/// `Path::parent` from std, on a UTF-8 path.
#[verifier::external_body]
pub(crate) fn path_parent(p: &str) -> (r: Option<String>)
    ensures
        match r {
            Some(n) => parent_of(p@) == Some(n@),
            None => parent_of(p@) is None,
        },
{
    std::path::Path::new(p).parent().map(|n| n.to_string_lossy().to_string())
}

/// What `Path::join` gives on Unix: `rest` itself when it is absolute (it
/// starts with `/`); otherwise `rest` appended to `base`, with a `/`
/// between them unless `base` is empty or already ends in one.
pub open spec fn joined(base: Seq<char>, rest: Seq<char>) -> Seq<char> {
    if rest.len() > 0 && rest[0] == '/' {
        rest
    } else if base.len() == 0 || base.last() == '/' {
        base + rest
    } else {
        base + seq!['/'] + rest
    }
}

/// `Path::join` from std, on UTF-8 paths under Unix: an absolute `rest`
/// replaces `base`, and otherwise a separator is added to `base` where it
/// has none at its end before `rest` is appended (as `PathBuf::push` does).
#[verifier::external_body]
pub(crate) fn path_join(base: &str, rest: &str) -> (r: String)
    ensures
        r@ == joined(base@, rest@),
{
    std::path::Path::new(base).join(rest).to_string_lossy().to_string()
}

/// `Path::exists` from std: whether the file system has an entry at the
/// path. Nothing is stated of the answer, which depends on the disk.
#[verifier::external_body]
pub(crate) fn path_exists(p: &str) -> bool {
    std::path::Path::new(p).exists()
}

/// `dirs::home_dir`: the user's home directory, if it can be found. Nothing
/// is stated of the answer, which depends on the environment.
#[verifier::external_body]
pub(crate) fn home_dir() -> Option<String> {
    dirs::home_dir().map(|h| h.to_string_lossy().to_string())
}

} // verus!
