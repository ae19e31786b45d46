use vstd::prelude::*;
use crate::error::Circle9Error;

verus! {

/// The final component of a path, as `std::path::Path::file_name` gives it.
pub uninterp spec fn file_name_of(path: Seq<char>) -> Option<Seq<char>>;

/// Relies on std::path::Path::file_name: the final component of `path`, or
/// `None` when the path ends in `..` or is a root or empty.
#[verifier::external_body]
pub(crate) fn file_name(path: &str) -> (r: Option<String>)
    ensures
        r is Some <==> file_name_of(path@) is Some,
        r is Some ==> r->Some_0@ == file_name_of(path@)->Some_0,
{
    std::path::Path::new(path).file_name().and_then(|n| n.to_str()).map(|n| n.to_string())
}

/// The final component of a path without its extension, as
/// `std::path::Path::file_stem` gives it.
pub uninterp spec fn file_stem_of(path: Seq<char>) -> Option<Seq<char>>;

/// The extension of a path's final component, as
/// `std::path::Path::extension` gives it.
pub uninterp spec fn extension_of(path: Seq<char>) -> Option<Seq<char>>;

/// Relies on std::path::Path::file_stem: the final component of `path`
/// without its extension, if it has a final component.
#[verifier::external_body]
pub(crate) fn file_stem(path: &str) -> (r: Option<String>)
    ensures
        r is Some <==> file_stem_of(path@) is Some,
        r is Some ==> r->Some_0@ == file_stem_of(path@)->Some_0,
{
    std::path::Path::new(path).file_stem().and_then(|n| n.to_str()).map(|n| n.to_string())
}

/// Relies on std::path::Path::extension: the part of the final component of
/// `path` after its last dot, if it has one.
#[verifier::external_body]
pub(crate) fn extension(path: &str) -> (r: Option<String>)
    ensures
        r is Some <==> extension_of(path@) is Some,
        r is Some ==> r->Some_0@ == extension_of(path@)->Some_0,
{
    std::path::Path::new(path).extension().and_then(|n| n.to_str()).map(|n| n.to_string())
}

/// The name shown for a file: its path's final component, or `unknown`.
pub open spec fn display_name(path: Seq<char>) -> Seq<char> {
    match file_name_of(path) {
        Some(n) => n,
        None => "unknown"@,
    }
}

/// The name shown for the file at `path`.
pub fn display_file_name(path: &str) -> (r: String)
    ensures
        r@ == display_name(path@),
{
    match file_name(path) {
        Some(n) => n,
        None => String::from_str("unknown"),
    }
}

/// Whether `c` separates path components: `/`, or `\` as on Windows.
pub open spec fn is_separator(c: char) -> bool {
    c == '/' || c == '\\'
}

/// Whether `p` has a `..` component, components being separated by `/` or
/// `\`.
pub open spec fn has_parent_component(p: Seq<char>) -> bool {
    exists|i: int|
        0 <= i && i + 2 <= p.len() && #[trigger] p[i] == '.' && p[i + 1] == '.' && (i == 0
            || is_separator(p[i - 1])) && (i + 2 == p.len() || is_separator(p[i + 2]))
}

fn separates(c: char) -> (r: bool)
    ensures
        r == is_separator(c),
{
    c == '/' || c == '\\'
}

/// Rejects a path that climbs out of its base through a `..` component,
/// whichever of the two separators surrounds it.
pub fn validate_path(path: &str) -> (r: Result<(), Circle9Error>)
    ensures
        r is Ok <==> !has_parent_component(path@),
        r is Err ==> r->Err_0 is InvalidPath,
{
    let n: usize = path.unicode_len();
    let mut i: usize = 0;
    while n >= 2 && i <= n - 2
        invariant
            n == path@.len(),
            i <= n,
            forall|j: int|
                0 <= j < i && j + 2 <= path@.len() ==> !(#[trigger] path@[j] == '.' && path@[j + 1]
                    == '.' && (j == 0 || is_separator(path@[j - 1])) && (j + 2 == path@.len()
                    || is_separator(path@[j + 2]))),
        decreases n - i,
    {
        if path.get_char(i) == '.' && path.get_char(i + 1) == '.' {
            let starts = i == 0 || separates(path.get_char(i - 1));
            let ends = i + 2 == n || separates(path.get_char(i + 2));
            if starts && ends {
                return Err(Circle9Error::InvalidPath(String::from_str("Path traversal detected")));
            }
        }
        i = i + 1;
    }
    Ok(())
}

} // verus!
