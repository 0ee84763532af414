use coreutilsp::traverse::{FsTree, SnapshotEntry};
use coreutilsp::size_policy::{DuOptions, DuDiag, Report};
use coreutilsp::rm_policy::{RmOptions, RmEvent, RmErrorKind, RmAction};
use coreutilsp::work_entry::WorkEntry;

fn du_opts() -> DuOptions {
    DuOptions {
        all: false,
        human_readable: false,
        summarize: false,
        max_depth: None,
        separate_dirs: false,
        total: false,
        threshold: 0,
    }
}

fn rm_opts() -> RmOptions {
    RmOptions {
        force: false,
        interactive_once: false,
        recursive: false,
        rmdir: false,
        verbose: false,
    }
}

fn file(size: u64) -> FsTree {
    FsTree::File { size }
}

fn dir(children: Vec<FsTree>) -> FsTree {
    FsTree::Dir { listable: true, children }
}

fn sealed_dir() -> FsTree {
    FsTree::Dir { listable: false, children: vec![] }
}

fn du_run(t: &FsTree, o: &DuOptions) -> ((bool, u64), Vec<Report>, Vec<DuDiag>, bool) {
    let mut log: Vec<Report> = Vec::new();
    let mut diags: Vec<DuDiag> = Vec::new();
    let mut err = false;
    let r = coreutilsp::size_policy::handle_entry(t, 0, o, &mut log, &mut diags, &mut err);
    (r, log, diags, err)
}

fn rm_run(t: &FsTree, is_root: bool, is_dot: bool, o: &RmOptions) -> (bool, Vec<RmEvent>, bool) {
    let mut events: Vec<RmEvent> = Vec::new();
    let mut err = false;
    let removed = coreutilsp::rm_policy::handle_entry(t, is_root, is_dot, o, &mut events, &mut err);
    (removed, events, err)
}

#[test]
fn du_sums_files_and_reports_post_order() {
    let t = dir(vec![file(100), file(200), dir(vec![file(50)])]);
    let ((is_dir, size), log, diags, err) = du_run(&t, &du_opts());
    assert!(is_dir);
    assert_eq!(size, 350);
    assert!(!err);
    assert!(diags.is_empty());
    // only directories are reported by default: the subdirectory first,
    // its parent after it, each at its own depth
    assert_eq!(log.len(), 2);
    assert_eq!(log[0], Report { depth: 1, is_dir: true, size: 50 });
    assert_eq!(log[1], Report { depth: 0, is_dir: true, size: 350 });
}

#[test]
fn du_all_reports_files_one_level_deeper_than_parent() {
    let mut o = du_opts();
    o.all = true;
    let t = dir(vec![dir(vec![file(7)])]);
    let (_, log, _, _) = du_run(&t, &o);
    assert_eq!(log.len(), 3);
    assert_eq!(log[0], Report { depth: 2, is_dir: false, size: 7 });
    assert_eq!(log[1], Report { depth: 1, is_dir: true, size: 7 });
    assert_eq!(log[2], Report { depth: 0, is_dir: true, size: 7 });
}

#[test]
fn du_separate_dirs_keeps_child_report_but_not_parent_aggregate() {
    let mut o = du_opts();
    o.separate_dirs = true;
    let t = dir(vec![file(100), dir(vec![file(50)])]);
    let ((_, size), log, _, _) = du_run(&t, &o);
    assert_eq!(size, 100);
    // the subdirectory's own report still reflects its full subtree
    assert_eq!(log[0], Report { depth: 1, is_dir: true, size: 50 });
    assert_eq!(log[1], Report { depth: 0, is_dir: true, size: 100 });
}

#[test]
fn du_threshold_filters_reports() {
    let t = dir(vec![file(100), dir(vec![file(50)])]);
    let mut o = du_opts();
    o.threshold = 100;
    let (_, log, _, _) = du_run(&t, &o);
    assert_eq!(log.len(), 1);
    assert_eq!(log[0], Report { depth: 0, is_dir: true, size: 150 });
    o.threshold = -60;
    let (_, log, _, _) = du_run(&t, &o);
    assert_eq!(log.len(), 1);
    assert_eq!(log[0], Report { depth: 1, is_dir: true, size: 50 });
}

#[test]
fn du_summarize_reports_only_the_argument() {
    let mut o = du_opts();
    o.summarize = true;
    let t = dir(vec![dir(vec![file(1)]), file(2)]);
    let (_, log, _, _) = du_run(&t, &o);
    assert_eq!(log.len(), 1);
    assert_eq!(log[0], Report { depth: 0, is_dir: true, size: 3 });
}

#[test]
fn du_max_depth_bounds_reports() {
    let mut o = du_opts();
    o.max_depth = Some(0);
    let t = dir(vec![dir(vec![file(1)])]);
    let (_, log, _, _) = du_run(&t, &o);
    assert_eq!(log.len(), 1);
    assert_eq!(log[0].depth, 0);
}

#[test]
fn du_denied_entry_is_one_diagnostic_and_zero_size() {
    let t = dir(vec![FsTree::Denied { not_found: false }, file(10)]);
    let ((_, size), _, diags, err) = du_run(&t, &du_opts());
    assert_eq!(size, 10);
    assert!(err);
    assert_eq!(diags, vec![DuDiag::EntryAccess]);
}

#[test]
fn du_unlistable_directory_is_exactly_one_diagnostic() {
    let t = dir(vec![sealed_dir(), file(3)]);
    let ((_, size), _, diags, err) = du_run(&t, &du_opts());
    assert_eq!(size, 3);
    assert!(err);
    assert_eq!(diags, vec![DuDiag::Enumeration]);
}

#[test]
fn du_grand_total() {
    let outcomes = vec![1, 2, 3];
    assert_eq!(coreutilsp::size_policy::grand_total(&outcomes), 6);
    let none: Vec<u64> = Vec::new();
    assert_eq!(coreutilsp::size_policy::grand_total(&none), 0);
}

#[test]
fn du_report_field() {
    assert_eq!(coreutilsp::size_policy::report_field(0, false), "0");
    assert_eq!(coreutilsp::size_policy::report_field(1, false), "1");
    assert_eq!(coreutilsp::size_policy::report_field(1024, false), "1");
    assert_eq!(coreutilsp::size_policy::report_field(1025, false), "2");
    assert_eq!(coreutilsp::size_policy::report_field(1048576, true), "1.0M");
}

#[test]
fn rm_default_mode_refuses_directory() {
    let t = dir(vec![file(1)]);
    let (removed, events, err) = rm_run(&t, false, false, &rm_opts());
    assert!(!removed);
    assert!(err);
    assert_eq!(events, vec![RmEvent::Diag { kind: RmErrorKind::IsADirectory }]);
}

#[test]
fn rm_recursive_refuses_root_and_touches_nothing() {
    let mut o = rm_opts();
    o.recursive = true;
    o.verbose = true;
    let t = dir(vec![file(1), dir(vec![file(2)])]);
    let (removed, events, err) = rm_run(&t, true, false, &o);
    assert!(!removed);
    assert!(err);
    // nothing beneath was removed: the only event is the safety diagnostic
    assert_eq!(events, vec![RmEvent::Diag { kind: RmErrorKind::DangerousRoot }]);
}

#[test]
fn rm_recursive_refuses_dot_path() {
    let mut o = rm_opts();
    o.recursive = true;
    o.verbose = true;
    let t = dir(vec![file(1)]);
    let (removed, events, err) = rm_run(&t, false, true, &o);
    assert!(!removed);
    assert!(err);
    assert_eq!(events, vec![RmEvent::Diag { kind: RmErrorKind::DotRefused }]);
}

#[test]
fn rm_force_tolerates_missing_twice() {
    let mut o = rm_opts();
    o.force = true;
    let t = FsTree::Denied { not_found: true };
    // first run: success, nothing printed
    let (removed, events, err) = rm_run(&t, false, false, &o);
    assert!(!removed);
    assert!(!err);
    assert!(events.is_empty());
    // second run over the still-missing path: the same success
    let (removed, events, err) = rm_run(&t, false, false, &o);
    assert!(!removed);
    assert!(!err);
    assert!(events.is_empty());
}

#[test]
fn rm_missing_without_force_fails() {
    let t = FsTree::Denied { not_found: true };
    let (_, events, err) = rm_run(&t, false, false, &rm_opts());
    assert!(err);
    assert_eq!(events, vec![RmEvent::Diag { kind: RmErrorKind::NotFound }]);
}

#[test]
fn rm_recursive_removes_in_post_order() {
    let mut o = rm_opts();
    o.recursive = true;
    o.verbose = true;
    let t = dir(vec![file(1), dir(vec![file(2)])]);
    let (removed, events, err) = rm_run(&t, false, false, &o);
    assert!(removed);
    assert!(!err);
    assert_eq!(events, vec![
        RmEvent::RemovedFile,
        RmEvent::RemovedFile,
        RmEvent::RemovedDir,
        RmEvent::RemovedDir,
    ]);
}

#[test]
fn rm_recursive_failed_child_leaves_directory() {
    let mut o = rm_opts();
    o.recursive = true;
    let t = dir(vec![FsTree::Denied { not_found: false }]);
    let (removed, events, err) = rm_run(&t, false, false, &o);
    assert!(!removed);
    assert!(err);
    assert_eq!(events, vec![
        RmEvent::Diag { kind: RmErrorKind::Access },
        RmEvent::Diag { kind: RmErrorKind::DirNotEmpty },
    ]);
}

#[test]
fn rm_rmdir_mode_removes_only_empty_directories() {
    let mut o = rm_opts();
    o.rmdir = true;
    let empty = dir(vec![]);
    let (removed, _, err) = rm_run(&empty, false, false, &o);
    assert!(removed);
    assert!(!err);
    let full = dir(vec![file(1)]);
    let (removed, events, err) = rm_run(&full, false, false, &o);
    assert!(!removed);
    assert!(err);
    assert_eq!(events, vec![RmEvent::Diag { kind: RmErrorKind::DirNotEmpty }]);
    let (removed, events, err) = rm_run(&empty, false, true, &o);
    assert!(!removed);
    assert!(err);
    assert_eq!(events, vec![RmEvent::Diag { kind: RmErrorKind::DotRefused }]);
}

#[test]
fn rm_plan_entry_and_confirmation() {
    let mut o = rm_opts();
    assert_eq!(coreutilsp::rm_policy::plan_entry(false, false, false, &o), RmAction::RemoveFile);
    assert_eq!(coreutilsp::rm_policy::plan_entry(true, false, false, &o),
        RmAction::FailIsDirectory);
    o.recursive = true;
    assert_eq!(coreutilsp::rm_policy::plan_entry(true, true, false, &o), RmAction::RefuseRoot);
    assert_eq!(coreutilsp::rm_policy::plan_entry(true, false, true, &o), RmAction::RefuseDot);
    assert_eq!(coreutilsp::rm_policy::plan_entry(true, false, false, &o),
        RmAction::DescendRemoveDir);
    o.recursive = false;
    o.rmdir = true;
    assert_eq!(coreutilsp::rm_policy::plan_entry(true, false, false, &o),
        RmAction::RemoveDirOnly);
    o.interactive_once = true;
    assert!(!coreutilsp::rm_policy::needs_confirmation(&o, 2));
    assert!(coreutilsp::rm_policy::needs_confirmation(&o, 4));
    o.recursive = true;
    assert!(coreutilsp::rm_policy::needs_confirmation(&o, 1));
    o.interactive_once = false;
    assert!(!coreutilsp::rm_policy::needs_confirmation(&o, 100));
    assert!(coreutilsp::rm_policy::error_suppressed(true, true));
    assert!(!coreutilsp::rm_policy::error_suppressed(true, false));
    assert!(!coreutilsp::rm_policy::error_suppressed(false, true));
}

#[test]
fn diagnostic_messages_name_command_path_and_error() {
    assert_eq!(
        coreutilsp::diag::cannot_access_message("padu", "a/b", "denied"),
        "padu: cannot access 'a/b': denied"
    );
    assert_eq!(
        coreutilsp::diag::cannot_read_dir_message("padu", "a", "denied"),
        "padu: cannot read directory 'a': denied"
    );
    assert_eq!(
        coreutilsp::diag::cannot_remove_message("rm-par", "a", "busy"),
        "rm-par: cannot remove 'a': busy"
    );
    assert_eq!(coreutilsp::diag::prefixed_message("rm-par", "oops"), "rm-par: oops");
    assert_eq!(coreutilsp::diag::removed_message(true, "d"), "removed directory 'd'");
    assert_eq!(coreutilsp::diag::removed_message(false, "f"), "removed 'f'");
    assert_eq!(
        coreutilsp::diag::dangerous_recursive_message("/"),
        "it is dangerous to operate recursively on '/'"
    );
    assert_eq!(
        coreutilsp::diag::refusing_dot_message("."),
        "refusing to remove '.' or '..' directory: skipping '.'"
    );
}

#[test]
fn snapshot_entry_answers_like_its_node() {
    let e = SnapshotEntry { path: "a".to_string(), tree: file(1) };
    assert_eq!(e.is_dir().unwrap(), false);
    assert_eq!(e.path(), "a");
    let d = SnapshotEntry { path: "b".to_string(), tree: dir(vec![]) };
    assert_eq!(d.is_dir().unwrap(), true);
    let x = SnapshotEntry { path: "c".to_string(), tree: FsTree::Denied { not_found: true } };
    assert!(x.is_dir().unwrap_err().not_found);
}

#[test]
fn du_denied_argument_reports_nothing() {
    let t = FsTree::Denied { not_found: false };
    let ((is_dir, size), log, diags, err) = du_run(&t, &du_opts());
    assert!(!is_dir);
    assert_eq!(size, 0);
    assert!(log.is_empty());
    assert_eq!(diags, vec![DuDiag::EntryAccess]);
    assert!(err);
}

#[test]
fn rm_plain_file_is_removed() {
    let mut o = rm_opts();
    o.verbose = true;
    let (removed, events, err) = rm_run(&file(9), false, false, &o);
    assert!(removed);
    assert!(!err);
    assert_eq!(events, vec![RmEvent::RemovedFile]);
    let quiet = rm_run(&file(9), false, false, &rm_opts());
    assert!(quiet.1.is_empty());
}

#[test]
fn du_threshold_boundaries_are_inclusive() {
    let t = dir(vec![file(100)]);
    let mut o = du_opts();
    o.threshold = 100;
    let (_, log, _, _) = du_run(&t, &o);
    assert_eq!(log.len(), 1);
    o.threshold = 101;
    let (_, log, _, _) = du_run(&t, &o);
    assert!(log.is_empty());
    o.threshold = -100;
    let (_, log, _, _) = du_run(&t, &o);
    assert_eq!(log.len(), 1);
    o.threshold = -99;
    let (_, log, _, _) = du_run(&t, &o);
    assert!(log.is_empty());
}
