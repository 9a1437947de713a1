//! Naming and identifying the files dropped onto the waveform.
//!
//! Paths are held as their UTF-8 text.
use vstd::prelude::*;

verus! {

/// `Path::file_name`: the final component of `path`, unless the path ends in `..` or is a
/// root or empty.
pub uninterp spec fn final_component(path: Seq<char>) -> Option<Seq<char>>;

/// `Path::file_name`, as text; the contract names the result and says nothing more of it.
#[verifier::external_body]
fn path_file_name(path: &String) -> (name: Option<String>)
    ensures
        match name {
            Some(text) => final_component(path@) == Some(text@),
            None => final_component(path@) is None,
        },
{
    std::path::Path::new(path).file_name().map(|name| name.to_string_lossy().to_string())
}

/// The file name of `path`, or the whole path when it has none.
pub fn file_name_or_path(path: &String) -> (label: String)
    ensures
        label@ == match final_component(path@) {
            Some(name) => name,
            None => path@,
        },
{
    match path_file_name(path) {
        Some(name) => name,
        None => path.clone(),
    }
}

/// `Path == Path`: the two paths have the same components.
pub uninterp spec fn same_components(left: Seq<char>, right: Seq<char>) -> bool;

/// `Path`'s equality, which compares components; the contract names the result and says
/// nothing more of it.
#[verifier::external_body]
pub(crate) fn paths_equal(left: &String, right: &String) -> (equal: bool)
    ensures
        equal == same_components(left@, right@),
{
    std::path::Path::new(left) == std::path::Path::new(right)
}

/// Whether two paths name the same file: their canonical forms are equal when both could be
/// resolved, and otherwise the paths themselves are.
pub fn paths_refer_to_same_file(
    left: &String,
    right: &String,
    left_canonical: Option<&String>,
    right_canonical: Option<&String>,
) -> (same: bool)
    ensures
        same == match (left_canonical, right_canonical) {
            (Some(l), Some(r)) => same_components(l@, r@),
            _ => same_components(left@, right@),
        },
{
    match (left_canonical, right_canonical) {
        (Some(l), Some(r)) => paths_equal(l, r),
        _ => paths_equal(left, right),
    }
}

} // verus!
