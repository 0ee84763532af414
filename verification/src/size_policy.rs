//! The size-aggregation policy: a `du`-style walk over a snapshot.
//!
//! The walk stats each entry, recurses into directories, sums child
//! outcomes (optionally excluding subdirectory contributions), reports
//! the entries the depth and threshold filter admits, and records one
//! diagnostic per failed entry or failed enumeration while raising the
//! shared error flag.

use vstd::prelude::*;
use crate::traverse::FsTree;
use crate::traverse::file_sum;
use crate::traverse::forest_file_sum;
use crate::traverse::height_of;
use crate::traverse::forest_height;
use crate::traverse::children_of;
use crate::traverse::is_listable_dir;
use crate::traverse::lemma_forest_height;
use crate::traverse::lemma_forest_file_sum;
use crate::size_unit::format_size_spec;
use crate::size_unit::format_size;
use crate::size_unit::dec_str;
use crate::size_unit::u64_to_string;

verus! {

/// Options of one size-aggregation run.
#[derive(Clone, Copy, Debug)]
pub struct DuOptions {
    /// Report non-directory entries too.
    pub all: bool,
    /// Format reported sizes for human reading.
    pub human_readable: bool,
    /// Report only the top-level arguments.
    pub summarize: bool,
    /// Report no entry deeper than this; unset means unlimited.
    pub max_depth: Option<u32>,
    /// Do not let subdirectory outcomes propagate into their parent.
    pub separate_dirs: bool,
    /// Report a grand total after all arguments.
    pub total: bool,
    /// Signed size filter: non-negative keeps outcomes at least its
    /// value, negative keeps outcomes at most its magnitude.
    pub threshold: i64,
}

/// One reported entry: its depth, directory-ness and outcome.
#[derive(Clone, Copy, Debug, PartialEq, Eq, Structural)]
pub struct Report {
    pub depth: u32,
    pub is_dir: bool,
    pub size: u64,
}

/// One diagnostic of a size-aggregation run.
#[derive(Clone, Copy, Debug, PartialEq, Eq, Structural)]
pub enum DuDiag {
    /// An entry could not be examined at all.
    EntryAccess,
    /// A directory could not be enumerated.
    Enumeration,
}

/// The deepest level the filter reports: zero under summarize, the
/// configured bound when one is set, and otherwise the entry's own
/// depth (no bound at all).
pub open spec fn effective_max_depth(o: DuOptions, depth: int) -> int {
    if o.summarize {
        0
    } else {
        match o.max_depth {
            Some(d) => d as int,
            None => depth,
        }
    }
}

/// The threshold test: a non-negative threshold keeps outcomes at
/// least its value, a negative one keeps outcomes at most its
/// magnitude.
pub open spec fn threshold_ok(size: nat, t: int) -> bool {
    if t < 0 {
        size <= -t
    } else {
        size >= t
    }
}

/// Whether an entry's line is reported: it is within the depth bound,
/// it is a top-level argument or a directory (or all entries are
/// reported), and its outcome passes the threshold test.
pub open spec fn should_report_spec(depth: int, is_dir: bool, size: nat, o: DuOptions) -> bool {
    depth <= effective_max_depth(o, depth) && (depth == 0 || is_dir || o.all) && threshold_ok(
        size,
        o.threshold as int,
    )
}

/// The outcome of walking one entry: a non-directory's real size, the
/// combined outcome of a readable directory's children, and zero for a
/// failed entry or an unenumerable directory.
pub open spec fn du_outcome(t: FsTree, sep: bool) -> nat
    decreases t, 0int,
{
    match t {
        FsTree::File { size } => size as nat,
        FsTree::Denied { .. } => 0,
        FsTree::Dir { listable, children } => if listable {
            du_forest_sum(children@, sep)
        } else {
            0
        },
    }
}

pub open spec fn du_forest_sum(s: Seq<FsTree>, sep: bool) -> nat
    decreases s, 1int,
{
    if s.len() == 0 {
        0
    } else {
        du_forest_sum(s.drop_last(), sep) + du_contrib(s.last(), sep)
    }
}

/// What one child adds to its parent's aggregate: nothing for a
/// subdirectory when separate directories is set, its outcome
/// otherwise.
pub open spec fn du_contrib(t: FsTree, sep: bool) -> nat
    decreases t, 1int,
{
    if sep && (t is Dir) {
        0
    } else {
        du_outcome(t, sep)
    }
}

/// The report an entry itself emits: one line when the filter admits
/// it, none otherwise.
pub open spec fn report_entry_seq(depth: int, is_dir: bool, size: nat, o: DuOptions) -> Seq<
    Report,
> {
    if should_report_spec(depth, is_dir, size, o) {
        seq![Report { depth: depth as u32, is_dir: is_dir, size: size as u64 }]
    } else {
        seq![]
    }
}

/// The full report log of walking one entry at the given depth:
/// children first (one level deeper), then the entry's own line.
pub open spec fn du_log(t: FsTree, depth: int, o: DuOptions) -> Seq<Report>
    decreases t, 0int,
{
    match t {
        FsTree::File { size } => report_entry_seq(depth, false, size as nat, o),
        FsTree::Denied { .. } => seq![],
        FsTree::Dir { listable, children } => {
            let beneath: Seq<Report> = if listable {
                du_forest_log(children@, depth + 1, o)
            } else {
                seq![]
            };
            beneath + report_entry_seq(depth, true, du_outcome(t, o.separate_dirs), o)
        },
    }
}

pub open spec fn du_forest_log(s: Seq<FsTree>, depth: int, o: DuOptions) -> Seq<Report>
    decreases s, 1int,
{
    if s.len() == 0 {
        seq![]
    } else {
        du_forest_log(s.drop_last(), depth, o) + du_log(s.last(), depth, o)
    }
}

/// Whether walking an entry raises the shared error flag.
pub open spec fn du_err(t: FsTree) -> bool
    decreases t, 0int,
{
    match t {
        FsTree::File { .. } => false,
        FsTree::Denied { .. } => true,
        FsTree::Dir { listable, children } => !listable || du_forest_err(children@),
    }
}

pub open spec fn du_forest_err(s: Seq<FsTree>) -> bool
    decreases s, 1int,
{
    if s.len() == 0 {
        false
    } else {
        du_forest_err(s.drop_last()) || du_err(s.last())
    }
}

/// The diagnostics walking an entry emits, in order.
pub open spec fn du_diags(t: FsTree) -> Seq<DuDiag>
    decreases t, 0int,
{
    match t {
        FsTree::File { .. } => seq![],
        FsTree::Denied { .. } => seq![DuDiag::EntryAccess],
        FsTree::Dir { listable, children } => if listable {
            du_forest_diags(children@)
        } else {
            seq![DuDiag::Enumeration]
        },
    }
}

pub open spec fn du_forest_diags(s: Seq<FsTree>) -> Seq<DuDiag>
    decreases s, 1int,
{
    if s.len() == 0 {
        seq![]
    } else {
        du_forest_diags(s.drop_last()) + du_diags(s.last())
    }
}

/// An entry's outcome never exceeds the file bytes beneath it.
pub proof fn lemma_du_outcome_le_file_sum(t: FsTree, sep: bool)
    ensures
        du_outcome(t, sep) <= file_sum(t),
    decreases t, 0int,
{
    match t {
        FsTree::Dir { listable, children } => {
            if listable {
                lemma_du_forest_le_file(children@, sep);
            }
        },
        _ => {},
    }
}

pub proof fn lemma_du_forest_le_file(s: Seq<FsTree>, sep: bool)
    ensures
        du_forest_sum(s, sep) <= forest_file_sum(s),
    decreases s, 1int,
{
    if s.len() > 0 {
        lemma_du_forest_le_file(s.drop_last(), sep);
        lemma_du_outcome_le_file_sum(s.last(), sep);
        assert(du_contrib(s.last(), sep) <= du_outcome(s.last(), sep));
        assert(du_forest_sum(s, sep) == du_forest_sum(s.drop_last(), sep) + du_contrib(
            s.last(),
            sep,
        ));
        assert(forest_file_sum(s) == forest_file_sum(s.drop_last()) + file_sum(s.last()));
    }
}

/// A prefix of a forest holds no more file bytes than the forest.
pub proof fn lemma_forest_file_sum_prefix(s: Seq<FsTree>, i: int)
    requires
        0 <= i <= s.len(),
    ensures
        forest_file_sum(s.take(i)) <= forest_file_sum(s),
    decreases s.len() - i,
{
    if i == s.len() {
        assert(s.take(i) =~= s);
    } else {
        lemma_forest_file_sum_prefix(s, i + 1);
        assert(s.take(i + 1).drop_last() =~= s.take(i));
        assert(s.take(i + 1).last() == s[i]);
    }
}

/// With separate directories disabled, an entry's outcome is exactly
/// the sum of the real sizes of every non-directory object beneath it.
pub proof fn lemma_outcome_is_subtree_file_sum(t: FsTree)
    ensures
        du_outcome(t, false) == file_sum(t),
    decreases t, 0int,
{
    match t {
        FsTree::Dir { listable, children } => {
            if listable {
                lemma_forest_outcome_is_file_sum(children@);
            }
        },
        _ => {},
    }
}

pub proof fn lemma_forest_outcome_is_file_sum(s: Seq<FsTree>)
    ensures
        du_forest_sum(s, false) == forest_file_sum(s),
    decreases s, 1int,
{
    if s.len() > 0 {
        lemma_forest_outcome_is_file_sum(s.drop_last());
        lemma_outcome_is_subtree_file_sum(s.last());
        assert(du_contrib(s.last(), false) == du_outcome(s.last(), false));
        assert(du_forest_sum(s, false) == du_forest_sum(s.drop_last(), false) + du_contrib(
            s.last(),
            false,
        ));
        assert(forest_file_sum(s) == forest_file_sum(s.drop_last()) + file_sum(s.last()));
    }
}

/// Children are walked one level deeper than their directory: the log
/// of a readable directory is its children's logs taken at depth + 1,
/// followed by the directory's own report at its own depth.
pub proof fn lemma_child_depth(t: FsTree, depth: int, o: DuOptions)
    requires
        is_listable_dir(t),
    ensures
        du_log(t, depth, o) == du_forest_log(children_of(t), depth + 1, o) + report_entry_seq(
            depth,
            true,
            du_outcome(t, o.separate_dirs),
            o,
        ),
{
}

/// Every reported line passes the threshold filter: under a
/// non-negative threshold no reported outcome is smaller, and under a
/// negative threshold no reported outcome exceeds its magnitude.
pub proof fn lemma_threshold_filter(t: FsTree, depth: int, o: DuOptions, i: int)
    requires
        0 <= i < du_log(t, depth, o).len(),
        file_sum(t) <= u64::MAX,
    ensures
        threshold_ok(du_log(t, depth, o)[i].size as nat, o.threshold as int),
    decreases t, 0int,
{
    match t {
        FsTree::File { size } => {},
        FsTree::Denied { .. } => {},
        FsTree::Dir { listable, children } => {
            let beneath: Seq<Report> = if listable {
                du_forest_log(children@, depth + 1, o)
            } else {
                seq![]
            };
            if i < beneath.len() {
                lemma_forest_threshold_filter(children@, depth + 1, o, i);
            } else {
                lemma_du_outcome_le_file_sum(t, o.separate_dirs);
            }
        },
    }
}

pub proof fn lemma_forest_threshold_filter(s: Seq<FsTree>, depth: int, o: DuOptions, i: int)
    requires
        0 <= i < du_forest_log(s, depth, o).len(),
        forest_file_sum(s) <= u64::MAX,
    ensures
        threshold_ok(du_forest_log(s, depth, o)[i].size as nat, o.threshold as int),
    decreases s, 1int,
{
    if s.len() > 0 {
        let front = du_forest_log(s.drop_last(), depth, o);
        if i < front.len() {
            lemma_forest_threshold_filter(s.drop_last(), depth, o, i);
        } else {
            lemma_forest_file_sum(s, s.len() - 1);
            lemma_threshold_filter(s.last(), depth, o, i - front.len());
        }
    }
}

/// A directory whose enumeration fails contributes exactly one
/// diagnostic, however many workers observe the failure.
pub proof fn lemma_one_diagnostic_per_failed_directory(t: FsTree)
    requires
        t is Dir,
        !(t matches FsTree::Dir { listable: true, .. }),
    ensures
        du_diags(t) =~= seq![DuDiag::Enumeration],
{
}


/// Top-level arguments are walked at depth zero and every line a walk
/// at some depth logs lies at that depth or deeper: no entry is ever
/// attributed to a level above the one it was reached at.
pub proof fn lemma_log_depths(t: FsTree, depth: int, o: DuOptions, i: int)
    requires
        0 <= depth,
        depth + height_of(t) <= u32::MAX,
        0 <= i < du_log(t, depth, o).len(),
    ensures
        du_log(t, depth, o)[i].depth >= depth,
    decreases t, 0int,
{
    match t {
        FsTree::File { size } => {},
        FsTree::Denied { .. } => {},
        FsTree::Dir { listable, children } => {
            let beneath: Seq<Report> = if listable {
                du_forest_log(children@, depth + 1, o)
            } else {
                seq![]
            };
            if i < beneath.len() {
                lemma_forest_log_depths(children@, depth + 1, o, i);
            }
        },
    }
}

pub proof fn lemma_forest_log_depths(s: Seq<FsTree>, depth: int, o: DuOptions, i: int)
    requires
        0 <= depth,
        depth + forest_height(s) <= u32::MAX,
        0 <= i < du_forest_log(s, depth, o).len(),
    ensures
        du_forest_log(s, depth, o)[i].depth >= depth,
    decreases s, 1int,
{
    if s.len() > 0 {
        let front = du_forest_log(s.drop_last(), depth, o);
        if i < front.len() {
            lemma_forest_log_depths(s.drop_last(), depth, o, i);
        } else {
            lemma_forest_height(s, s.len() - 1);
            lemma_log_depths(s.last(), depth, o, i - front.len());
        }
    }
}

/// The depth and threshold filter, as the walk evaluates it per entry.
pub fn should_report(depth: u32, is_dir: bool, size: u64, o: &DuOptions) -> (r: bool)
    ensures
        r == should_report_spec(depth as int, is_dir, size as nat, *o),
{
    let eff: u32 = if o.summarize {
        0
    } else {
        match o.max_depth {
            Some(d) => d,
            None => depth,
        }
    };
    let depth_ok = depth <= eff;
    let kind_ok = depth == 0 || is_dir || o.all;
    let th = o.threshold;
    let th_ok = if th < 0 {
        let mag: u64 = ((-(th + 1)) as u64) + 1;
        size <= mag
    } else {
        size >= th as u64
    };
    depth_ok && kind_ok && th_ok
}

/// What one child adds to its parent's aggregate.
pub fn child_contribution(sub_is_dir: bool, sub_size: u64, separate_dirs: bool) -> (r: u64)
    ensures
        r == (if separate_dirs && sub_is_dir {
            0u64
        } else {
            sub_size
        }),
{
    if sub_is_dir && separate_dirs {
        0
    } else {
        sub_size
    }
}

/// Walks one entry of a snapshot at the given depth: returns its
/// directory-ness and outcome, appends the admitted report lines and
/// the diagnostics, and raises the error flag on any failure beneath.
pub fn handle_entry(
    t: &FsTree,
    depth: u32,
    o: &DuOptions,
    log: &mut Vec<Report>,
    diags: &mut Vec<DuDiag>,
    has_err: &mut bool,
) -> (r: (bool, u64))
    requires
        file_sum(*t) <= u64::MAX,
        depth + height_of(*t) <= u32::MAX,
    ensures
        r.0 == (*t is Dir),
        r.1 == du_outcome(*t, o.separate_dirs),
        final(log)@ == old(log)@ + du_log(*t, depth as int, *o),
        final(diags)@ == old(diags)@ + du_diags(*t),
        *final(has_err) == (*old(has_err) || du_err(*t)),
    decreases height_of(*t),
{
    match t {
        FsTree::File { size } => {
            if should_report(depth, false, *size, o) {
                log.push(
                    Report { depth, is_dir: false, size: *size },
                );
            }
            proof {
                assert(final(log)@ =~= old(log)@ + du_log(*t, depth as int, *o));
                assert(final(diags)@ =~= old(diags)@ + du_diags(*t));
            }
            (false, *size)
        },
        FsTree::Denied { .. } => {
            diags.push(DuDiag::EntryAccess);
            *has_err = true;
            proof {
                assert(final(log)@ =~= old(log)@ + du_log(*t, depth as int, *o));
                assert(final(diags)@ =~= old(diags)@ + du_diags(*t));
            }
            (false, 0)
        },
        FsTree::Dir { listable, children } => {
            let ghost cs = children@;
            let mut sum: u64 = 0;
            if *listable {
                let ghost log0 = log@;
                let ghost diags0 = diags@;
                let ghost err0 = *has_err;
                let mut i: usize = 0;
                while i < children.len()
                    invariant
                        cs == children@,
                        i <= children.len(),
                        forest_file_sum(cs) <= u64::MAX,
                        depth + 1 + forest_height(cs) <= u32::MAX,
                        height_of(*t) == 1 + forest_height(cs),
                        sum == du_forest_sum(cs.take(i as int), o.separate_dirs),
                        log@ == log0 + du_forest_log(cs.take(i as int), depth + 1, *o),
                        diags@ == diags0 + du_forest_diags(cs.take(i as int)),
                        *has_err == (err0 || du_forest_err(cs.take(i as int))),
                    decreases children.len() - i,
                {
                    proof {
                        lemma_forest_file_sum(cs, i as int);
                        lemma_forest_height(cs, i as int);
                    }
                    let (sub_is_dir, sub_size) = handle_entry(
                        &children[i],
                        depth + 1,
                        o,
                        log,
                        diags,
                        has_err,
                    );
                    let add = child_contribution(sub_is_dir, sub_size, o.separate_dirs);
                    proof {
                        assert(cs.take(i + 1).drop_last() =~= cs.take(i as int));
                        assert(cs.take(i + 1).last() == cs[i as int]);
                        lemma_du_forest_le_file(cs.take(i + 1), o.separate_dirs);
                        lemma_forest_file_sum_prefix(cs, i + 1);
                        assert(du_forest_sum(cs.take(i + 1), o.separate_dirs) == du_forest_sum(
                            cs.take(i as int),
                            o.separate_dirs,
                        ) + du_contrib(cs[i as int], o.separate_dirs));
                        assert(du_contrib(cs[i as int], o.separate_dirs) == add);
                        assert(du_forest_sum(cs.take(i + 1), o.separate_dirs) == sum + add);
                        assert(log@ =~= log0 + du_forest_log(cs.take(i + 1), depth + 1, *o));
                        assert(diags@ =~= diags0 + du_forest_diags(cs.take(i + 1)));
                    }
                    sum = sum + add;
                    i += 1;
                }
                proof {
                    assert(cs.take(children@.len() as int) =~= cs);
                }
            } else {
                diags.push(DuDiag::Enumeration);
                *has_err = true;
            }
            let reported = should_report(depth, true, sum, o);
            if reported {
                log.push(Report { depth, is_dir: true, size: sum });
            }
            proof {
                assert(final(log)@ =~= old(log)@ + du_log(*t, depth as int, *o));
                assert(final(diags)@ =~= old(diags)@ + du_diags(*t));
            }
            (true, sum)
        },
    }
}

/// The outcome sum of a sequence of top-level arguments.
pub open spec fn outcome_sum(s: Seq<u64>) -> nat
    decreases s,
{
    if s.len() == 0 {
        0
    } else {
        outcome_sum(s.drop_last()) + s.last() as nat
    }
}

/// The grand total over all top-level outcomes.
pub fn grand_total(outcomes: &Vec<u64>) -> (r: u64)
    requires
        outcome_sum(outcomes@) <= u64::MAX,
    ensures
        r == outcome_sum(outcomes@),
{
    let mut total: u64 = 0;
    let mut i: usize = 0;
    while i < outcomes.len()
        invariant
            i <= outcomes.len(),
            outcome_sum(outcomes@) <= u64::MAX,
            total == outcome_sum(outcomes@.take(i as int)),
        decreases outcomes.len() - i,
    {
        proof {
            assert(outcomes@.take(i + 1).drop_last() =~= outcomes@.take(i as int));
            assert(outcomes@.take(i + 1).last() == outcomes@[i as int]);
            lemma_outcome_sum_prefix(outcomes@, i + 1);
        }
        total = total + outcomes[i];
        i += 1;
    }
    proof {
        assert(outcomes@.take(outcomes@.len() as int) =~= outcomes@);
    }
    total
}

pub proof fn lemma_outcome_sum_prefix(s: Seq<u64>, i: int)
    requires
        0 <= i <= s.len(),
    ensures
        outcome_sum(s.take(i)) <= outcome_sum(s),
    decreases s.len() - i,
{
    if i == s.len() {
        assert(s.take(i) =~= s);
    } else {
        lemma_outcome_sum_prefix(s, i + 1);
        assert(s.take(i + 1).drop_last() =~= s.take(i));
        assert(s.take(i + 1).last() == s[i]);
    }
}

/// The size field of one report line: the count of 1024-byte blocks,
/// rounded up, or the human-readable form.
pub fn report_field(size: u64, human_readable: bool) -> (r: String)
    ensures
        human_readable ==> r@ == format_size_spec(size as int),
        !human_readable ==> r@ == dec_str(((size + 1023) / 1024) as int),
{
    if human_readable {
        format_size(size)
    } else {
        u64_to_string(crate::size_unit::div_ceil_1024(size))
    }
}

} // verus!
