//! The model a traversal works on.
//!
//! A traversal examines one filesystem object, fans out over the
//! children of a directory, combines their outcomes, and applies a
//! policy's directory-level action afterwards. The engine is specified
//! and verified against a snapshot of the tree under examination: each
//! node is a non-directory object with its allocated size, a directory
//! whose enumeration either yields its children or fails, or an object
//! whose examination itself fails. Every other part of the two policies
//! is defined over this model.

use vstd::prelude::*;

verus! {

/// A snapshot of one filesystem object under traversal.
pub enum FsTree {
    /// A non-directory object (regular file, device, symbolic link),
    /// with its real allocated size.
    File { size: u64 },
    /// A directory. When enumeration fails, `listable` is false and the
    /// children are unobservable.
    Dir { listable: bool, children: Vec<FsTree> },
    /// An object whose examination fails outright; `not_found` is set
    /// when the failure says the object does not exist.
    Denied { not_found: bool },
}

/// The children a directory snapshot holds; empty for anything else.
pub open spec fn children_of(t: FsTree) -> Seq<FsTree> {
    match t {
        FsTree::Dir { children, .. } => children@,
        _ => seq![],
    }
}

/// A directory whose enumeration succeeds.
pub open spec fn is_listable_dir(t: FsTree) -> bool {
    t matches FsTree::Dir { listable: true, .. }
}

/// The sum of the sizes of every non-directory object reachable in the
/// snapshot (children of an unenumerable directory are unobservable).
pub open spec fn file_sum(t: FsTree) -> nat
    decreases t,
{
    match t {
        FsTree::File { size } => size as nat,
        FsTree::Dir { listable, children } => if listable {
            forest_file_sum(children@)
        } else {
            0
        },
        FsTree::Denied { .. } => 0,
    }
}

pub open spec fn forest_file_sum(s: Seq<FsTree>) -> nat
    decreases s,
{
    if s.len() == 0 {
        0
    } else {
        forest_file_sum(s.drop_last()) + file_sum(s.last())
    }
}

/// The height of a snapshot: directories stand one level above their
/// tallest child.
pub open spec fn height_of(t: FsTree) -> nat
    decreases t,
{
    match t {
        FsTree::Dir { children, .. } => 1 + forest_height(children@),
        _ => 0,
    }
}

pub open spec fn forest_height(s: Seq<FsTree>) -> nat
    decreases s,
{
    if s.len() == 0 {
        0
    } else if forest_height(s.drop_last()) >= height_of(s.last()) {
        forest_height(s.drop_last())
    } else {
        height_of(s.last())
    }
}

/// A snapshot node together with its path text: the model's work
/// entry, under the same contract as the live ones.
pub struct SnapshotEntry {
    pub path: String,
    pub tree: FsTree,
}

impl crate::work_entry::WorkEntry for SnapshotEntry {
    fn is_dir(&self) -> Result<bool, crate::work_entry::AccessError> {
        match &self.tree {
            FsTree::File { .. } => Ok(false),
            FsTree::Dir { .. } => Ok(true),
            FsTree::Denied { not_found } => Err(
                crate::work_entry::AccessError { not_found: *not_found, message: String::new() },
            ),
        }
    }

    fn path(&self) -> String {
        self.path.clone()
    }
}

/// No tree in a forest is taller than the forest.
pub proof fn lemma_forest_height(s: Seq<FsTree>, i: int)
    requires
        0 <= i < s.len(),
    ensures
        height_of(s[i]) <= forest_height(s),
    decreases s.len(),
{
    if i == s.len() - 1 {
    } else {
        lemma_forest_height(s.drop_last(), i);
        assert(s.drop_last()[i] == s[i]);
    }
}

/// No tree in a forest holds more file bytes than the whole forest.
pub proof fn lemma_forest_file_sum(s: Seq<FsTree>, i: int)
    requires
        0 <= i < s.len(),
    ensures
        file_sum(s[i]) <= forest_file_sum(s),
    decreases s.len(),
{
    if i == s.len() - 1 {
    } else {
        lemma_forest_file_sum(s.drop_last(), i);
        assert(s.drop_last()[i] == s[i]);
    }
}

} // verus!
