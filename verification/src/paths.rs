//! Paths as text, and the three questions the browser asks of them.
//!
//! A path is held as a `String`. What is its parent, what is its last
//! component, and do two texts spell the same path: those are answered by
//! `std::path::Path`, which this module calls and does not re-derive. Each
//! answer has a name below, so that contracts can speak of it.

use vstd::prelude::*;
use std::path::Path;

verus! {

/// What `std::path::Path::parent` gives for the path spelled `path`: the path
/// without its last component, or `None` where there is none to take off.
pub uninterp spec fn parent_path(path: Seq<char>) -> Option<Seq<char>>;

/// What `std::path::Path::file_name` gives for the path spelled `path`: its
/// last component, or `None` where the path ends in `..` or has none.
pub uninterp spec fn file_name(path: Seq<char>) -> Option<Seq<char>>;

/// Whether `std::path::Path` holds the paths spelled `a` and `b` equal,
/// which it decides component by component.
pub uninterp spec fn same_components(a: Seq<char>, b: Seq<char>) -> bool;

/// Whether two texts name the same path: they are the same text, or
/// `std::path::Path` finds the same components in both.
pub open spec fn same_path(a: Seq<char>, b: Seq<char>) -> bool {
    a == b || same_components(a, b)
}

/// The last component of a path as shown to the user, empty where the path
/// has none.
pub open spec fn base_name(path: Seq<char>) -> Seq<char> {
    match file_name(path) {
        Some(name) => name,
        None => Seq::empty(),
    }
}

/// The path `n` levels above `path`, if the path has that many levels.
pub open spec fn ancestor(path: Seq<char>, n: nat) -> Option<Seq<char>>
    decreases n,
{
    if n == 0 {
        Some(path)
    } else {
        match parent_path(path) {
            Some(parent) => ancestor(parent, (n - 1) as nat),
            None => None,
        }
    }
}

/// `root` lies exactly `n` levels above `path`.
pub open spec fn reaches(root: Seq<char>, path: Seq<char>, n: nat) -> bool {
    ancestor(path, n) matches Some(top) && same_path(top, root)
}

/// `path` is `root` or lies below it: going up from `path` some number of
/// levels, possibly none, arrives at `root`.
pub open spec fn is_within(root: Seq<char>, path: Seq<char>) -> bool {
    exists|n: nat| reaches(root, path, n)
}

/// Calls `std::path::Path::parent` on `path`. The parent of a path is a
/// leading part of its text, so it comes back as text unchanged; the contract
/// claims no more than that the result is what [`parent_path`] names.
#[verifier::external_body]
pub(crate) fn parent_of(path: &String) -> (parent: Option<String>)
    ensures
        parent.deep_view() == parent_path(path@),
{
    Path::new(path).parent().map(|p| p.to_string_lossy().into_owned())
}

/// Calls `std::path::Path::file_name` on `path`. The component is a part of
/// the path's text and comes back as text unchanged; the contract claims no
/// more than that the result is what [`file_name`] names.
#[verifier::external_body]
pub(crate) fn file_name_of(path: &String) -> (name: Option<String>)
    ensures
        name.deep_view() == file_name(path@),
{
    Path::new(path).file_name().map(|n| n.to_string_lossy().into_owned())
}

/// Compares two paths with `==` of `std::path::Path`. The contract claims
/// that equal texts compare equal, and that the answer is otherwise what
/// [`same_components`] names.
#[verifier::external_body]
pub(crate) fn is_same_path(a: &String, b: &String) -> (same: bool)
    ensures
        same == (a@ == b@ || same_components(a@, b@)),
{
    Path::new(a) == Path::new(b)
}

/// A path counts as lying within itself.
pub proof fn lemma_within_itself(root: Seq<char>)
    ensures
        is_within(root, root),
{
    assert(reaches(root, root, 0));
}

/// Whatever lies within `root` has its children within `root` too.
pub proof fn lemma_child_is_within(root: Seq<char>, dir: Seq<char>, child: Seq<char>)
    requires
        is_within(root, dir),
        parent_path(child) == Some(dir),
    ensures
        is_within(root, child),
{
    let n = choose|n: nat| reaches(root, dir, n);
    assert(reaches(root, child, n + 1));
}

/// Going up from a path that lies strictly below `root` stays within `root`,
/// and arrives at another path than the one left.
pub proof fn lemma_parent_is_within(root: Seq<char>, path: Seq<char>)
    requires
        is_within(root, path),
        !same_path(path, root),
    ensures
        parent_path(path) matches Some(parent) && is_within(root, parent) && parent != path,
{
    let n = choose|n: nat| reaches(root, path, n);
    assert(n > 0);
    let parent = parent_path(path).unwrap();
    assert(reaches(root, parent, (n - 1) as nat));
    if parent == path {
        lemma_fixed_point(path, n);
    }
}

/// A path that is its own parent is every one of its ancestors.
proof fn lemma_fixed_point(path: Seq<char>, n: nat)
    requires
        parent_path(path) == Some(path),
    ensures
        ancestor(path, n) == Some(path),
    decreases n,
{
    if n > 0 {
        lemma_fixed_point(path, (n - 1) as nat);
    }
}

} // verus!
