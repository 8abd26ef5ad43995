use crucible::catalog::{SnapshotMode, SnapshotRow, SnapshotState};
use crucible::error::{ErrorKind, RpcCode};
use crucible::gc::{ids_less, select_gc_candidates};
use crucible::orchestrator::{check_delete, effective_keep_latest, gc_report, plan_garbage_collection, plan_restore, CreateStage, StepOutcome};
use crucible::reaper::plan_reaper;
use crucible::store::{SnapshotStore, StoreOp};

fn s(x: &str) -> String {
    x.to_string()
}

fn ready(id: &str, sandbox: &str, created_at: i64, parent: Option<&str>, size: u64) -> SnapshotRow {
    let mut r = SnapshotRow::creating(id, "local_lima", sandbox, SnapshotMode::Full, created_at);
    r.parent_snapshot_id = parent.map(s);
    r.mark_ready(size).unwrap();
    r
}

fn ids(c: &[(String, u64)]) -> Vec<String> {
    c.iter().map(|p| p.0.clone()).collect()
}

fn op_ids(ops: &[StoreOp]) -> Vec<String> {
    ops.iter().map(|o| format!("{:?}", o)).collect()
}

#[test]
fn snapshot_happy_path() {
    let store = SnapshotStore::new(s("/tmp/crucible_snapshots"));
    let id = s("snap1");
    let mut stage = CreateStage::start(true, true);
    assert!(matches!(stage, CreateStage::BeginStore));
    let begin = store.begin_snapshot(&id, false);
    assert_eq!(begin.path, "/tmp/crucible_snapshots/.tmp/snap1");
    assert_eq!(op_ids(&begin.ops), vec![s("CreateStaging(\"snap1\")")]);
    stage = stage.advance(StepOutcome::Succeeded(0));
    assert!(matches!(stage, CreateStage::InsertCreating));
    let mut row = SnapshotRow::creating("snap1", "local_lima", "sb1", SnapshotMode::Full, 100);
    stage = stage.advance(StepOutcome::Succeeded(0));
    assert!(matches!(stage, CreateStage::ProviderCreate));
    stage = stage.advance(StepOutcome::Succeeded(4096));
    assert!(matches!(stage, CreateStage::CommitStore { size_bytes: 4096 }));
    let commit = store.commit_snapshot(&id, true, false).ok().unwrap();
    assert_eq!(commit.path, "/tmp/crucible_snapshots/snap1");
    assert_eq!(
        op_ids(&commit.ops),
        vec![s("WriteMarker(\"snap1\")"), s("SyncStaging(\"snap1\")"), s("Publish(\"snap1\")")]
    );
    assert_eq!(store.final_marker("snap1"), "/tmp/crucible_snapshots/snap1/COMPLETE");
    stage = stage.advance(StepOutcome::Succeeded(0));
    let size = match stage {
        CreateStage::MarkReady { size_bytes } => size_bytes,
        _ => panic!("expected MarkReady"),
    };
    row.mark_ready(size).unwrap();
    stage = stage.advance(StepOutcome::Succeeded(0));
    assert!(matches!(stage, CreateStage::Succeeded { size_bytes: 4096 }));
    assert!(stage.is_final());
    assert_eq!(row.state, SnapshotState::Ready);
    assert!(row.size_bytes > 0);
    assert_eq!(row.root_snapshot_id, "snap1");
}

#[test]
fn provider_failure_cleans_up() {
    let store = SnapshotStore::new(s("/b"));
    let id = s("snap2");
    let mut row = SnapshotRow::creating("snap2", "p", "sb1", SnapshotMode::Full, 1);
    let stage = CreateStage::ProviderCreate.advance(StepOutcome::Failed(s("boom")));
    let error = match &stage {
        CreateStage::AbortStore { error } => error.clone(),
        _ => panic!("expected AbortStore"),
    };
    assert_eq!(error, "provider snapshot failed: boom");
    assert_eq!(op_ids(&store.abort_snapshot(&id, true)), vec![s("RemoveStaging(\"snap2\")")]);
    let stage = stage.advance(StepOutcome::Succeeded(0));
    assert!(matches!(stage, CreateStage::MarkFailed { .. }));
    row.mark_failed(error).unwrap();
    assert_eq!(row.state, SnapshotState::Failed);
    assert_eq!(row.last_error, Some(s("provider snapshot failed: boom")));
    let stage = stage.advance(StepOutcome::Succeeded(0));
    match stage {
        CreateStage::Failed { error } => {
            assert_eq!(error.kind, ErrorKind::Internal);
            assert_eq!(error.code(), RpcCode::Internal);
        },
        _ => panic!("expected Failed"),
    }
}

#[test]
fn restore_before_commit_is_refused() {
    let r = plan_restore(Some(SnapshotState::Creating), None, s(""));
    assert_eq!(r.err().unwrap().kind, ErrorKind::FailedPrecondition);
}

#[test]
fn restore_errors_and_target_choice() {
    assert_eq!(plan_restore(None, None, s("")).err().unwrap().kind, ErrorKind::NotFound);
    assert_eq!(plan_restore(Some(SnapshotState::Ready), None, s("")).err().unwrap().kind, ErrorKind::Internal);
    let plan = plan_restore(Some(SnapshotState::Ready), Some(s("/b/x")), s("target")).ok().unwrap();
    assert_eq!(plan.snapshot_dir, "/b/x");
    assert_eq!(plan.new_sandbox_id, "target");
    let plan = plan_restore(Some(SnapshotState::Ready), Some(s("/b/x")), s("")).ok().unwrap();
    assert_eq!(plan.new_sandbox_id.len(), 36);
}

#[test]
fn gc_protects_ancestors() {
    let rows = vec![
        ready("A", "S", 1, None, 10),
        ready("B", "S", 2, Some("A"), 10),
        ready("C", "S", 3, Some("B"), 10),
        ready("D", "S", 4, Some("C"), 10),
    ];
    assert!(select_gc_candidates(&rows, &vec![], 1).is_empty());
}

#[test]
fn gc_reclaims_leaves() {
    let rows = vec![ready("A", "S", 1, None, 7), ready("B", "S", 2, Some("A"), 11), ready("C", "S", 3, Some("A"), 13)];
    assert_eq!(select_gc_candidates(&rows, &vec![], 1), vec![(s("B"), 11)]);
}

#[test]
fn gc_ties_break_by_larger_id() {
    let rows = vec![ready("a1", "S", 5, None, 1), ready("a2", "S", 5, None, 2)];
    assert_eq!(select_gc_candidates(&rows, &vec![], 1), vec![(s("a1"), 1)]);
    assert!(ids_less(&s("a1"), &s("a2")));
    assert!(ids_less(&s("a"), &s("ab")));
    assert!(!ids_less(&s("b"), &s("ab")));
    assert!(!ids_less(&s("x"), &s("x")));
}

#[test]
fn gc_respects_pins_refs_and_windows_per_sandbox() {
    let mut pinned = ready("P", "S", 1, None, 1);
    pinned.pinned = true;
    let rows = vec![
        pinned,
        ready("R", "S", 2, None, 2),
        ready("O", "S", 3, None, 3),
        ready("N", "S", 4, None, 4),
        ready("T", "T", 1, None, 5),
        SnapshotRow::creating("K", "p", "S", SnapshotMode::Full, 0),
    ];
    let refs = vec![s("R")];
    assert_eq!(select_gc_candidates(&rows, &refs, 1), vec![(s("O"), 3)]);
    assert!(select_gc_candidates(&rows, &refs, 2).is_empty());
}

#[test]
fn gc_dry_run_selects_the_same_and_deletes_nothing() {
    let rows = vec![ready("A", "S", 1, None, 7), ready("B", "S", 2, Some("A"), 11), ready("C", "S", 3, Some("A"), 13)];
    let dry = plan_garbage_collection(&rows, &vec![], 1, true);
    let real = plan_garbage_collection(&rows, &vec![], 1, false);
    assert_eq!(dry.candidates, real.candidates);
    assert!(dry.deletions.is_empty());
    assert_eq!(real.deletions, vec![s("B")]);
}

#[test]
fn gc_zero_window_is_clamped_to_five() {
    assert_eq!(effective_keep_latest(0), 5);
    assert_eq!(effective_keep_latest(3), 3);
    let rows: Vec<SnapshotRow> = (0..7).map(|i| ready(&format!("s{}", i), "S", i, None, 1)).collect();
    let plan = plan_garbage_collection(&rows, &vec![], 0, true);
    assert_eq!(ids(&plan.candidates), vec![s("s0"), s("s1")]);
}

#[test]
fn gc_report_counts_only_successful_deletions() {
    let cands = vec![(s("a"), 10), (s("b"), 20), (s("c"), 30)];
    let report = gc_report(&cands, &vec![true, false, true]);
    assert_eq!(report.deleted_snapshot_ids, vec![s("a"), s("c")]);
    assert_eq!(report.reclaimed_bytes, 40);
    let big = vec![(s("x"), u64::MAX), (s("y"), 5)];
    assert_eq!(gc_report(&big, &vec![true, true]).reclaimed_bytes, u64::MAX);
}

#[test]
fn store_paths_and_plans() {
    let store = SnapshotStore::new(s("/b"));
    assert_eq!(store.layout_dirs(), vec![s("/b"), s("/b/.tmp")]);
    assert_eq!(store.staging_marker("i"), "/b/.tmp/i/COMPLETE");
    let begin = store.begin_snapshot(&s("i"), true);
    assert_eq!(op_ids(&begin.ops), vec![s("RemoveStaging(\"i\")"), s("CreateStaging(\"i\")")]);
    let commit = store.commit_snapshot(&s("i"), true, true).ok().unwrap();
    assert_eq!(commit.ops.len(), 4);
    assert!(matches!(&commit.ops[2], StoreOp::RemoveFinal(x) if x == "i"));
    let err = store.commit_snapshot(&s("i"), false, false).err().unwrap();
    assert_eq!(err.kind, ErrorKind::Internal);
    assert_eq!(op_ids(&store.delete_snapshot(&s("i"), true)), vec![s("RemoveFinal(\"i\")")]);
    assert!(store.delete_snapshot(&s("i"), false).is_empty());
    assert_eq!(store.get_snapshot_dir("i", true), Some(s("/b/i")));
    assert_eq!(store.get_snapshot_dir("i", false), None);
}

#[test]
fn store_abort_twice_does_nothing_more() {
    let store = SnapshotStore::new(s("/b"));
    assert_eq!(store.abort_snapshot(&s("i"), true).len(), 1);
    assert!(store.abort_snapshot(&s("i"), false).is_empty());
}

#[test]
fn catalog_states_round_trip_through_text() {
    for st in [SnapshotState::Creating, SnapshotState::Ready, SnapshotState::Failed, SnapshotState::Deleted] {
        assert_eq!(SnapshotState::parse(st.as_str()), Some(st));
    }
    assert_eq!(SnapshotState::parse("READY"), Some(SnapshotState::Ready));
    assert_eq!(SnapshotState::parse("ready"), None);
    assert_eq!(SnapshotMode::from_wire(2), SnapshotMode::MemoryOnly);
    assert_eq!(SnapshotMode::from_wire(1), SnapshotMode::Full);
    assert_eq!(SnapshotMode::from_wire(9), SnapshotMode::Full);
    assert_eq!(SnapshotMode::MemoryOnly.as_str(), "MEMORY_ONLY");
}

#[test]
fn catalog_transitions_are_guarded() {
    let mut r = SnapshotRow::creating("x", "p", "S", SnapshotMode::Full, 0);
    assert_eq!(r.state, SnapshotState::Creating);
    assert!(r.parent_snapshot_id.is_none());
    assert_eq!(r.mark_ready(9).is_ok(), true);
    assert_eq!(r.mark_ready(10).err().unwrap().kind, ErrorKind::FailedPrecondition);
    assert_eq!(r.size_bytes, 9);
    assert_eq!(r.mark_failed(s("late")).err().unwrap().kind, ErrorKind::FailedPrecondition);
    r.mark_deleted();
    assert_eq!(r.state, SnapshotState::Deleted);
}

#[test]
fn create_unsupported_provider_is_refused() {
    match CreateStage::start(true, false) {
        CreateStage::Failed { error } => assert_eq!(error.kind, ErrorKind::Unsupported),
        _ => panic!("expected Failed"),
    }
    match CreateStage::start(false, true) {
        CreateStage::Failed { error } => assert_eq!(error.kind, ErrorKind::NotFound),
        _ => panic!("expected Failed"),
    }
}

#[test]
fn create_commit_failure_marks_failed() {
    let stage = CreateStage::CommitStore { size_bytes: 5 }.advance(StepOutcome::Failed(s("disk full")));
    match &stage {
        CreateStage::MarkFailed { error } => assert_eq!(error, "failed to commit snapshot: disk full"),
        _ => panic!("expected MarkFailed"),
    }
    match stage.advance(StepOutcome::Failed(s("ignored"))) {
        CreateStage::Failed { error } => assert_eq!(error.message, "failed to commit snapshot: disk full"),
        _ => panic!("expected Failed"),
    }
}

#[test]
fn reaper_restores_agreement() {
    let rows = vec![
        ready("ok", "S", 1, None, 1),
        ready("lost", "S", 2, None, 1),
        ready("unmarked", "S", 3, None, 1),
        SnapshotRow::creating("busy", "p", "S", SnapshotMode::Full, 4),
    ];
    let staging = vec![s("busy"), s("stale")];
    let finals = vec![(s("ok"), true), (s("unmarked"), false), (s("orphan"), true)];
    let plan = plan_reaper(&rows, &staging, &finals);
    assert_eq!(plan.demote, vec![s("lost"), s("unmarked")]);
    assert_eq!(plan.remove_finals, vec![s("unmarked"), s("orphan")]);
    assert_eq!(plan.remove_staging, vec![s("stale")]);
}

#[test]
fn mode_text_and_demotion() {
    assert_eq!(SnapshotMode::parse("MEMORY_ONLY"), SnapshotMode::MemoryOnly);
    assert_eq!(SnapshotMode::parse("FULL"), SnapshotMode::Full);
    let mut r = ready("d", "S", 1, None, 3);
    r.demote(s("gone")).unwrap();
    assert_eq!(r.state, SnapshotState::Failed);
    assert_eq!(r.last_error, Some(s("gone")));
    assert_eq!(r.demote(s("again")).err().unwrap().kind, ErrorKind::FailedPrecondition);
}

#[test]
fn explicit_delete_needs_unpinned_unreferenced_row() {
    assert_eq!(check_delete(None, 0).err().unwrap().kind, ErrorKind::NotFound);
    let mut r = ready("x", "S", 1, None, 1);
    assert!(check_delete(Some(&r), 0).is_ok());
    assert_eq!(check_delete(Some(&r), 2).err().unwrap().kind, ErrorKind::FailedPrecondition);
    r.pinned = true;
    assert_eq!(check_delete(Some(&r), 0).err().unwrap().kind, ErrorKind::FailedPrecondition);
}

#[test]
fn snapshot_ids_are_distinct_path_components() {
    let a = crucible::ids::new_snapshot_id();
    let b = crucible::ids::new_snapshot_id();
    assert_ne!(a, b);
    assert_eq!(a.len(), 36);
    assert!(!a.contains('/'));
    let store = SnapshotStore::new(s("/b"));
    assert_ne!(store.final_dir(&a), store.final_dir(&b));
    assert_ne!(store.staging_dir(&a), store.staging_dir(&b));
}

#[test]
fn readiness_follows_the_marker() {
    let store = SnapshotStore::new(s("/b"));
    assert!(store.is_snapshot_ready(&s("i"), true));
    assert!(!store.is_snapshot_ready(&s("i"), false));
}
