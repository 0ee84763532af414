//! Work entries and path classification.
//!
//! A work entry is one filesystem object under examination, exposing its
//! path and its directory-ness. Path classification decides the deletion
//! safety gates: whether a path's final component is the current or the
//! parent directory token, and whether a path resolves to the
//! filesystem root.

use vstd::prelude::*;

verus! {

/// The classification of a path's final component.
#[derive(Clone, Copy, Debug, PartialEq, Eq, Structural)]
pub enum PathComponent {
    /// The leading separator of an absolute path with no later component.
    RootDir,
    /// The current-directory token `.`.
    CurDir,
    /// The parent-directory token `..`.
    ParentDir,
    /// An ordinary name.
    Normal,
}

/// Start of the path segment that ends just before `hi`: the least index
/// so that no separator occurs between it and `hi`.
pub open spec fn spec_seg_start(s: Seq<char>, hi: int) -> int
    decreases hi,
{
    if hi <= 0 {
        0
    } else if s[hi - 1] == '/' {
        hi
    } else {
        spec_seg_start(s, hi - 1)
    }
}

/// The last path component of `s[0..end)`, ignoring trailing separators
/// and `.` segments; `None` when only separators and `.` segments occur.
pub open spec fn spec_last_comp_upto(s: Seq<char>, end: int) -> Option<PathComponent>
    decreases end,
{
    if end <= 0 {
        None
    } else if s[end - 1] == '/' {
        spec_last_comp_upto(s, end - 1)
    } else {
        let lo = spec_seg_start(s, end);
        if end - lo == 1 && s[lo] == '.' {
            spec_last_comp_upto(s, lo)
        } else if end - lo == 2 && s[lo] == '.' && s[lo + 1] == '.' {
            Some(PathComponent::ParentDir)
        } else {
            Some(PathComponent::Normal)
        }
    }
}

/// The last component of a path: a named or parent-directory segment
/// when one occurs; otherwise the root for an absolute path, the
/// current directory for a non-empty relative path, and nothing for an
/// empty path.
pub open spec fn spec_last_component(s: Seq<char>) -> Option<PathComponent> {
    match spec_last_comp_upto(s, s.len() as int) {
        Some(c) => Some(c),
        None => if s.len() == 0 {
            None
        } else if s[0] == '/' {
            Some(PathComponent::RootDir)
        } else {
            Some(PathComponent::CurDir)
        },
    }
}

/// A path whose final component is the current or the parent directory
/// token; recursive deletion refuses such a path.
pub open spec fn is_curdir_or_parent_spec(s: Seq<char>) -> bool {
    spec_last_component(s) == Some(PathComponent::CurDir) || spec_last_component(s) == Some(
        PathComponent::ParentDir,
    )
}

fn seg_start(s: &str, hi: usize) -> (lo: usize)
    requires
        hi <= s@.len(),
    ensures
        lo == spec_seg_start(s@, hi as int),
        lo <= hi,
        hi > 0 && s@[hi - 1] != '/' ==> lo < hi,
    decreases hi,
{
    if hi == 0 {
        0
    } else if s.get_char(hi - 1) == '/' {
        hi
    } else {
        seg_start(s, hi - 1)
    }
}

fn last_comp_upto(s: &str, end: usize) -> (r: Option<PathComponent>)
    requires
        end <= s@.len(),
    ensures
        r == spec_last_comp_upto(s@, end as int),
    decreases end,
{
    if end == 0 {
        None
    } else if s.get_char(end - 1) == '/' {
        last_comp_upto(s, end - 1)
    } else {
        let lo = seg_start(s, end);
        if end - lo == 1 && s.get_char(lo) == '.' {
            last_comp_upto(s, lo)
        } else if end - lo == 2 && s.get_char(lo) == '.' && s.get_char(lo + 1) == '.' {
            Some(PathComponent::ParentDir)
        } else {
            Some(PathComponent::Normal)
        }
    }
}

/// An owned path under examination, as the text of its components.
pub struct EntryPath {
    text: String,
}

impl View for EntryPath {
    type V = Seq<char>;

    closed spec fn view(&self) -> Seq<char> {
        self.text@
    }
}

impl EntryPath {
    pub fn new(text: String) -> (r: Self)
        ensures
            r@ == text@,
    {
        EntryPath { text }
    }

    pub fn as_str(&self) -> (r: &str)
        ensures
            r@ == self@,
    {
        self.text.as_str()
    }

    pub fn to_text(&self) -> (r: String)
        ensures
            r@ == self@,
    {
        self.text.clone()
    }

    /// Classifies this path's final component.
    pub fn last_component(&self) -> (r: Option<PathComponent>)
        ensures
            r == spec_last_component(self@),
    {
        let s = self.text.as_str();
        let n = s.unicode_len();
        match last_comp_upto(s, n) {
            Some(c) => Some(c),
            None => if n == 0 {
                None
            } else if s.get_char(0) == '/' {
                Some(PathComponent::RootDir)
            } else {
                Some(PathComponent::CurDir)
            },
        }
    }
}

/// Relies on std's `Path::canonicalize`: resolves a path to its
/// canonical absolute form, failing when the path does not exist or a
/// component cannot be resolved. The outcome depends on the state of
/// the filesystem, so nothing is promised of the text that comes back;
/// a result that is not valid UTF-8 is treated as a failure.
#[verifier::external_body]
fn canonical_path_text(p: &str) -> (r: Option<String>) {
    match std::path::Path::new(p).canonicalize() {
        Ok(c) => match c.to_str() {
            Some(t) => Some(t.to_owned()),
            None => None,
        },
        Err(_) => None,
    }
}

/// The canonical text of the filesystem root: a single separator.
pub fn is_canonical_root(s: &str) -> (r: bool)
    ensures
        r <==> s@ == "/"@,
{
    proof {
        reveal_strlit("/");
    }
    let n = s.unicode_len();
    if n == 1 && s.get_char(0) == '/' {
        proof {
            assert(s@ =~= "/"@);
        }
        true
    } else {
        proof {
            if s@ == "/"@ {
                assert(s@.len() == 1);
                assert(s@[0] == '/');
            }
        }
        false
    }
}

/// Classification a path offers about itself before deletion descends
/// into it.
pub trait WorkEntryPathExt {
    /// The characters of the path under classification.
    spec fn path_chars(&self) -> Seq<char>;

    /// Whether the path resolves to the filesystem root. The answer
    /// comes from resolving the path on the live filesystem, so no more
    /// is promised of it.
    fn is_root(&self) -> bool;

    /// Whether the final component is the current or parent directory
    /// token.
    fn is_curdir_or_parent(&self) -> (r: bool)
        ensures
            r == is_curdir_or_parent_spec(self.path_chars()),
    ;
}

impl WorkEntryPathExt for EntryPath {
    open spec fn path_chars(&self) -> Seq<char> {
        self@
    }

    fn is_root(&self) -> bool {
        match canonical_path_text(self.text.as_str()) {
            Some(c) => is_canonical_root(c.as_str()),
            None => false,
        }
    }

    fn is_curdir_or_parent(&self) -> (r: bool) {
        match self.last_component() {
            Some(PathComponent::CurDir) => true,
            Some(PathComponent::ParentDir) => true,
            _ => false,
        }
    }
}

/// The failure a work entry reports when it cannot be examined.
#[derive(Clone, Debug)]
pub struct AccessError {
    /// The underlying object does not exist (the error force mode
    /// tolerates).
    pub not_found: bool,
    /// The underlying system error text.
    pub message: String,
}

/// One filesystem object to examine: a top-level argument or a child
/// discovered while enumerating a directory, under one contract. The
/// directory query never follows symbolic links, so a link to a
/// directory is not a directory here.
pub trait WorkEntry {
    /// Whether the object is a directory; fails when it cannot be
    /// examined at all.
    fn is_dir(&self) -> Result<bool, AccessError>;

    /// An owned copy of the object's path text.
    fn path(&self) -> String;
}

} // verus!
