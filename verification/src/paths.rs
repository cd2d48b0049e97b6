//! Questions about file paths, answered by the path library for the
//! platform that the crate is built for. How a path falls into components
//! differs between platforms; within a build, equal paths get equal
//! answers.

use vstd::prelude::*;
use vstd::string::*;
use cargo_metadata::camino::{Utf8Component, Utf8Path};
use crate::text::opt_text;

verus! {

/// `std::path::StripPrefixError`: the error of `strip_prefix`, which says
/// no more than that the prefix was not found.
#[verifier::external_type_specification]
#[verifier::external_body]
pub struct ExStripPrefixError(std::path::StripPrefixError);

/// The part of `path` that lies below `base`: the path that, joined onto
/// `base`, gives `path`; nothing where `path` does not begin with the
/// components of `base`.
pub uninterp spec fn path_below(path: Seq<char>, base: Seq<char>) -> Option<Seq<char>>;

/// The first component of `path`, where it is the name of a file or
/// directory; nothing where the path is empty or begins with a root, a
/// prefix, `.` or `..`.
pub uninterp spec fn first_name(path: Seq<char>) -> Option<Seq<char>>;

/// `path` without its last component; nothing where the path ends in a
/// root or a prefix, or is empty.
pub uninterp spec fn parent_of(path: Seq<char>) -> Option<Seq<char>>;

/// The last component of `path`, where it is the name of a file or
/// directory; nothing where the path ends in `..` or in a root.
pub uninterp spec fn file_name_of(path: Seq<char>) -> Option<Seq<char>>;

/// `Utf8Path::strip_prefix` of camino: the part of `path` that lies below
/// `base`, or an error where `path` does not start with the components of
/// `base`. The result is the one that `path_below` names.
#[verifier::external_body]
pub(crate) fn strip_prefix(path: &str, base: &str) -> (rest: Result<
    String,
    std::path::StripPrefixError,
>)
    ensures
        match rest {
            Ok(below) => path_below(path@, base@) == Some(below@),
            Err(_) => path_below(path@, base@) is None,
        },
{
    Utf8Path::new(path).strip_prefix(base).map(|rest| rest.as_str().to_owned())
}

/// `Utf8Path::components` of camino, asked for the first component: its
/// text where it is a normal component, that is a file or directory name,
/// and nothing where the path is empty or begins with a root, a prefix,
/// `.` or `..`. The result is the one that `first_name` names.
#[verifier::external_body]
pub(crate) fn first_normal_component(path: &str) -> (name: Option<String>)
    ensures
        opt_text(name) == first_name(path@),
{
    match Utf8Path::new(path).components().next() {
        Some(Utf8Component::Normal(name)) => Some(name.to_owned()),
        Some(Utf8Component::Prefix(_)) => None,
        Some(Utf8Component::RootDir) => None,
        Some(Utf8Component::CurDir) => None,
        Some(Utf8Component::ParentDir) => None,
        None => None,
    }
}

/// `Utf8Path::parent` of camino: the path without its last component, if
/// it has one. The result is the one that `parent_of` names.
#[verifier::external_body]
pub(crate) fn parent(path: &str) -> (dir: Option<String>)
    ensures
        opt_text(dir) == parent_of(path@),
{
    Utf8Path::new(path).parent().map(|dir| dir.as_str().to_owned())
}

/// `Utf8Path::file_name` of camino: the last component of the path where
/// it is a file or directory name. The result is the one that
/// `file_name_of` names.
#[verifier::external_body]
pub(crate) fn file_name(path: &str) -> (name: Option<String>)
    ensures
        opt_text(name) == file_name_of(path@),
{
    Utf8Path::new(path).file_name().map(|name| name.to_owned())
}

} // verus!
