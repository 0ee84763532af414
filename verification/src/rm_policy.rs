//! The deletion policy: an `rm`-style walk over a snapshot.
//!
//! Each entry ends removed, skipped by a safety gate, or failed. Under
//! recursive mode a directory's children are fully resolved before its
//! own removal is attempted; the safety gate refuses the filesystem
//! root and dot-component paths before anything beneath them is
//! touched. Force mode tolerates objects that are already gone; every
//! other failure raises the shared error flag and emits one diagnostic.

use vstd::prelude::*;
use crate::traverse::FsTree;
use crate::traverse::height_of;
use crate::traverse::forest_height;
use crate::traverse::lemma_forest_height;

verus! {

/// Options of one deletion run.
#[derive(Clone, Copy, Debug)]
pub struct RmOptions {
    /// Tolerate objects that are already gone, and print nothing for
    /// them.
    pub force: bool,
    /// Ask once before a risky run begins.
    pub interactive_once: bool,
    /// Descend into directories and remove them after their contents.
    pub recursive: bool,
    /// Remove empty directories without descending.
    pub rmdir: bool,
    /// Print one line per successful removal.
    pub verbose: bool,
}

/// The failure one entry of a deletion run reports.
#[derive(Clone, Copy, Debug, PartialEq, Eq, Structural)]
pub enum RmErrorKind {
    /// The entry could not be examined.
    Access,
    /// The entry does not exist.
    NotFound,
    /// The directory could not be enumerated.
    Enumeration,
    /// A directory under neither recursive nor directory mode.
    IsADirectory,
    /// The safety gate refused the filesystem root.
    DangerousRoot,
    /// The safety gate refused a dot-component path.
    DotRefused,
    /// The directory still held entries when its removal was tried.
    DirNotEmpty,
}

/// One observable event of a deletion run, in order of occurrence.
#[derive(Clone, Copy, Debug, PartialEq, Eq, Structural)]
pub enum RmEvent {
    /// A verbose line for a removed non-directory.
    RemovedFile,
    /// A verbose line for a removed directory.
    RemovedDir,
    /// A diagnostic line.
    Diag { kind: RmErrorKind },
}

/// Whether the walk removes the entry itself (and so everything
/// beneath it).
pub open spec fn rm_removed(t: FsTree, is_root: bool, is_dot: bool, o: RmOptions) -> bool
    decreases t, 0int,
{
    match t {
        FsTree::File { .. } => true,
        FsTree::Denied { .. } => false,
        FsTree::Dir { listable, children } => {
            if o.recursive {
                !is_root && !is_dot && listable && rm_forest_removed(children@, o)
            } else if o.rmdir {
                !is_dot && children@.len() == 0
            } else {
                false
            }
        },
    }
}

pub open spec fn rm_forest_removed(s: Seq<FsTree>, o: RmOptions) -> bool
    decreases s, 1int,
{
    if s.len() == 0 {
        true
    } else {
        rm_forest_removed(s.drop_last(), o) && rm_removed(s.last(), false, false, o)
    }
}

/// How many filesystem objects the walk removes beneath and including
/// the entry.
pub open spec fn rm_removed_count(t: FsTree, is_root: bool, is_dot: bool, o: RmOptions) -> nat
    decreases t, 0int,
{
    match t {
        FsTree::File { .. } => 1,
        FsTree::Denied { .. } => 0,
        FsTree::Dir { listable, children } => {
            if o.recursive {
                if is_root || is_dot || !listable {
                    0
                } else {
                    rm_forest_count(children@, o) + if rm_forest_removed(children@, o) {
                        1nat
                    } else {
                        0nat
                    }
                }
            } else if o.rmdir {
                if !is_dot && children@.len() == 0 {
                    1
                } else {
                    0
                }
            } else {
                0
            }
        },
    }
}

pub open spec fn rm_forest_count(s: Seq<FsTree>, o: RmOptions) -> nat
    decreases s, 1int,
{
    if s.len() == 0 {
        0
    } else {
        rm_forest_count(s.drop_last(), o) + rm_removed_count(s.last(), false, false, o)
    }
}

/// Whether walking the entry raises the shared error flag.
pub open spec fn rm_err(t: FsTree, is_root: bool, is_dot: bool, o: RmOptions) -> bool
    decreases t, 0int,
{
    match t {
        FsTree::File { .. } => false,
        FsTree::Denied { not_found } => !(not_found && o.force),
        FsTree::Dir { listable, children } => {
            if o.recursive {
                if is_root || is_dot {
                    true
                } else if !listable {
                    true
                } else {
                    rm_forest_err(children@, o) || !rm_forest_removed(children@, o)
                }
            } else if o.rmdir {
                is_dot || children@.len() > 0
            } else {
                true
            }
        },
    }
}

pub open spec fn rm_forest_err(s: Seq<FsTree>, o: RmOptions) -> bool
    decreases s, 1int,
{
    if s.len() == 0 {
        false
    } else {
        rm_forest_err(s.drop_last(), o) || rm_err(s.last(), false, false, o)
    }
}

/// The verbose events a successful removal emits.
pub open spec fn rm_verbose_seq(is_dir: bool, verbose: bool) -> Seq<RmEvent> {
    if verbose {
        if is_dir {
            seq![RmEvent::RemovedDir]
        } else {
            seq![RmEvent::RemovedFile]
        }
    } else {
        seq![]
    }
}

/// The events walking the entry emits, in order: everything beneath a
/// directory first, then the entry's own verbose line or diagnostic.
pub open spec fn rm_events(t: FsTree, is_root: bool, is_dot: bool, o: RmOptions) -> Seq<RmEvent>
    decreases t, 0int,
{
    match t {
        FsTree::File { .. } => rm_verbose_seq(false, o.verbose),
        FsTree::Denied { not_found } => if not_found && o.force {
            seq![]
        } else if not_found {
            seq![RmEvent::Diag { kind: RmErrorKind::NotFound }]
        } else {
            seq![RmEvent::Diag { kind: RmErrorKind::Access }]
        },
        FsTree::Dir { listable, children } => {
            if o.recursive {
                if is_root {
                    seq![RmEvent::Diag { kind: RmErrorKind::DangerousRoot }]
                } else if is_dot {
                    seq![RmEvent::Diag { kind: RmErrorKind::DotRefused }]
                } else if !listable {
                    seq![RmEvent::Diag { kind: RmErrorKind::Enumeration }]
                } else {
                    rm_forest_events(children@, o) + (if rm_forest_removed(children@, o) {
                        rm_verbose_seq(true, o.verbose)
                    } else {
                        seq![RmEvent::Diag { kind: RmErrorKind::DirNotEmpty }]
                    })
                }
            } else if o.rmdir {
                if is_dot {
                    seq![RmEvent::Diag { kind: RmErrorKind::DotRefused }]
                } else if children@.len() == 0 {
                    rm_verbose_seq(true, o.verbose)
                } else {
                    seq![RmEvent::Diag { kind: RmErrorKind::DirNotEmpty }]
                }
            } else {
                seq![RmEvent::Diag { kind: RmErrorKind::IsADirectory }]
            }
        },
    }
}

pub open spec fn rm_forest_events(s: Seq<FsTree>, o: RmOptions) -> Seq<RmEvent>
    decreases s, 1int,
{
    if s.len() == 0 {
        seq![]
    } else {
        rm_forest_events(s.drop_last(), o) + rm_events(s.last(), false, false, o)
    }
}

/// Walks one entry of a snapshot: returns whether the entry itself was
/// removed, appends the events it emits, and raises the error flag on
/// any unsuppressed failure beneath it. Children discovered inside a
/// directory are never the filesystem root and never a dot component,
/// so the walk classifies only the entry it was given.
pub fn handle_entry(
    t: &FsTree,
    is_root: bool,
    is_dot: bool,
    o: &RmOptions,
    events: &mut Vec<RmEvent>,
    has_err: &mut bool,
) -> (removed: bool)
    ensures
        removed == rm_removed(*t, is_root, is_dot, *o),
        final(events)@ == old(events)@ + rm_events(*t, is_root, is_dot, *o),
        *final(has_err) == (*old(has_err) || rm_err(*t, is_root, is_dot, *o)),
    decreases height_of(*t),
{
    match t {
        FsTree::File { .. } => {
            if o.verbose {
                events.push(RmEvent::RemovedFile);
            }
            proof {
                assert(final(events)@ =~= old(events)@ + rm_events(*t, is_root, is_dot, *o));
            }
            true
        },
        FsTree::Denied { not_found } => {
            if *not_found && o.force {
                proof {
                    assert(final(events)@ =~= old(events)@ + rm_events(*t, is_root, is_dot, *o));
                }
            } else if *not_found {
                events.push(RmEvent::Diag { kind: RmErrorKind::NotFound });
                *has_err = true;
                proof {
                    assert(final(events)@ =~= old(events)@ + rm_events(*t, is_root, is_dot, *o));
                }
            } else {
                events.push(RmEvent::Diag { kind: RmErrorKind::Access });
                *has_err = true;
                proof {
                    assert(final(events)@ =~= old(events)@ + rm_events(*t, is_root, is_dot, *o));
                }
            }
            false
        },
        FsTree::Dir { listable, children } => {
            let removed: bool;
            if o.recursive {
                if is_root {
                    events.push(RmEvent::Diag { kind: RmErrorKind::DangerousRoot });
                    *has_err = true;
                    removed = false;
                } else if is_dot {
                    events.push(RmEvent::Diag { kind: RmErrorKind::DotRefused });
                    *has_err = true;
                    removed = false;
                } else if !*listable {
                    events.push(RmEvent::Diag { kind: RmErrorKind::Enumeration });
                    *has_err = true;
                    removed = false;
                } else {
                    let ghost cs = children@;
                    let ghost events0 = events@;
                    let ghost err0 = *has_err;
                    let mut all_removed: bool = true;
                    let mut i: usize = 0;
                    while i < children.len()
                        invariant
                            cs == children@,
                            i <= children.len(),
                            height_of(*t) == 1 + forest_height(cs),
                            all_removed == rm_forest_removed(cs.take(i as int), *o),
                            events@ == events0 + rm_forest_events(cs.take(i as int), *o),
                            *has_err == (err0 || rm_forest_err(cs.take(i as int), *o)),
                        decreases children.len() - i,
                    {
                        proof {
                            lemma_forest_height(cs, i as int);
                        }
                        let sub_removed = handle_entry(
                            &children[i],
                            false,
                            false,
                            o,
                            events,
                            has_err,
                        );
                        proof {
                            assert(cs.take(i + 1).drop_last() =~= cs.take(i as int));
                            assert(cs.take(i + 1).last() == cs[i as int]);
                            assert(events@ =~= events0 + rm_forest_events(cs.take(i + 1), *o));
                        }
                        all_removed = all_removed && sub_removed;
                        i += 1;
                    }
                    proof {
                        assert(cs.take(children@.len() as int) =~= cs);
                    }
                    if all_removed {
                        // every child is gone: the directory removal succeeds
                        if o.verbose {
                            events.push(RmEvent::RemovedDir);
                        }
                        removed = true;
                    } else {
                        // something beneath is left: the removal fails naturally
                        events.push(RmEvent::Diag { kind: RmErrorKind::DirNotEmpty });
                        *has_err = true;
                        removed = false;
                    }
                }
            } else if o.rmdir {
                if is_dot {
                    events.push(RmEvent::Diag { kind: RmErrorKind::DotRefused });
                    *has_err = true;
                    removed = false;
                } else if children.len() == 0 {
                    if o.verbose {
                        events.push(RmEvent::RemovedDir);
                    }
                    removed = true;
                } else {
                    events.push(RmEvent::Diag { kind: RmErrorKind::DirNotEmpty });
                    *has_err = true;
                    removed = false;
                }
            } else {
                events.push(RmEvent::Diag { kind: RmErrorKind::IsADirectory });
                *has_err = true;
                removed = false;
            }
            proof {
                assert(final(events)@ =~= old(events)@ + rm_events(*t, is_root, is_dot, *o));
            }
            removed
        },
    }
}

/// What the policy does with one examined entry.
#[derive(Clone, Copy, Debug, PartialEq, Eq, Structural)]
pub enum RmAction {
    /// Unlink a non-directory.
    RemoveFile,
    /// Refuse the filesystem root before descending.
    RefuseRoot,
    /// Refuse a dot-component path.
    RefuseDot,
    /// Resolve the children, then remove the directory.
    DescendRemoveDir,
    /// Remove the directory without descending.
    RemoveDirOnly,
    /// Fail: a directory under neither recursive nor directory mode.
    FailIsDirectory,
}

/// The action the options select for one examined entry.
pub open spec fn plan_entry_spec(is_dir: bool, is_root: bool, is_dot: bool, o: RmOptions)
    -> RmAction {
    if !is_dir {
        RmAction::RemoveFile
    } else if o.recursive {
        if is_root {
            RmAction::RefuseRoot
        } else if is_dot {
            RmAction::RefuseDot
        } else {
            RmAction::DescendRemoveDir
        }
    } else if o.rmdir {
        if is_dot {
            RmAction::RefuseDot
        } else {
            RmAction::RemoveDirOnly
        }
    } else {
        RmAction::FailIsDirectory
    }
}

pub fn plan_entry(is_dir: bool, is_root: bool, is_dot: bool, o: &RmOptions) -> (r: RmAction)
    ensures
        r == plan_entry_spec(is_dir, is_root, is_dot, *o),
{
    if !is_dir {
        RmAction::RemoveFile
    } else if o.recursive {
        if is_root {
            RmAction::RefuseRoot
        } else if is_dot {
            RmAction::RefuseDot
        } else {
            RmAction::DescendRemoveDir
        }
    } else if o.rmdir {
        if is_dot {
            RmAction::RefuseDot
        } else {
            RmAction::RemoveDirOnly
        }
    } else {
        RmAction::FailIsDirectory
    }
}

/// Whether a failure is tolerated silently: only a not-found failure,
/// and only under force.
pub fn error_suppressed(not_found: bool, force: bool) -> (r: bool)
    ensures
        r == (not_found && force),
{
    not_found && force
}

/// Whether the once-only confirmation gate applies to a run: only when
/// enabled, and only when the run is risky (recursive, or more than
/// three top-level arguments).
pub fn needs_confirmation(o: &RmOptions, n_args: usize) -> (r: bool)
    ensures
        r == (o.interactive_once && (o.recursive || n_args > 3)),
{
    o.interactive_once && (o.recursive || n_args > 3)
}

/// Recursive deletion refuses the filesystem root and dot-component
/// paths outright: the walk fails, touches nothing beneath the path,
/// and emits exactly the one safety diagnostic.
pub proof fn lemma_safety_gate(t: FsTree, is_root: bool, is_dot: bool, o: RmOptions)
    requires
        t is Dir,
        o.recursive,
        is_root || is_dot,
    ensures
        rm_err(t, is_root, is_dot, o),
        !rm_removed(t, is_root, is_dot, o),
        rm_removed_count(t, is_root, is_dot, o) == 0,
        rm_events(t, is_root, is_dot, o) =~= seq![
            RmEvent::Diag {
                kind: if is_root {
                    RmErrorKind::DangerousRoot
                } else {
                    RmErrorKind::DotRefused
                },
            },
        ],
{
}

/// Removing a directory under neither recursive nor directory mode
/// always fails with an is-a-directory error and touches nothing
/// beneath it.
pub proof fn lemma_default_mode_keeps_directory(t: FsTree, is_root: bool, is_dot: bool, o: RmOptions)
    requires
        t is Dir,
        !o.recursive,
        !o.rmdir,
    ensures
        rm_err(t, is_root, is_dot, o),
        !rm_removed(t, is_root, is_dot, o),
        rm_removed_count(t, is_root, is_dot, o) == 0,
        rm_events(t, is_root, is_dot, o) =~= seq![
            RmEvent::Diag { kind: RmErrorKind::IsADirectory },
        ],
{
}

/// Force tolerates an object that is already gone: the walk neither
/// raises the error flag nor emits any event, so a run over it exits
/// successfully — and so does running it again, which sees the same
/// missing object.
pub proof fn lemma_force_tolerates_missing(is_root: bool, is_dot: bool, o: RmOptions)
    requires
        o.force,
    ensures
        !rm_err(FsTree::Denied { not_found: true }, is_root, is_dot, o),
        rm_events(FsTree::Denied { not_found: true }, is_root, is_dot, o) =~= Seq::<
            RmEvent,
        >::empty(),
        rm_removed_count(FsTree::Denied { not_found: true }, is_root, is_dot, o) == 0,
{
}

} // verus!
