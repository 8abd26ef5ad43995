use vstd::prelude::*;
use crate::catalog::{SnapshotRow, SnapshotState};
use crate::error::{CoreError, ErrorKind};
use crate::executor::views;
use crate::gc::{candidates, pair_views, select_gc_candidates};
use crate::ids::{fresh_id, is_uuid_text};

verus! {

/// Retention window used when a request asks for none.
pub const DEFAULT_KEEP_LATEST: u32 = 5;

pub open spec fn spec_effective_keep(requested: u32) -> u32 {
    if requested > 0 { requested } else { DEFAULT_KEEP_LATEST }
}

/// The retention window actually applied: zero stands for the default.
pub fn effective_keep_latest(requested: u32) -> (r: u32)
    ensures
        r == spec_effective_keep(requested),
        requested == 0 ==> r == 5,
{
    if requested > 0 { requested } else { DEFAULT_KEEP_LATEST }
}

/// Where a snapshot creation stands; each non-final stage names the next step to run.
#[derive(Clone, Debug)]
pub enum CreateStage {
    /// Open the staging directory.
    BeginStore,
    /// Record the snapshot as CREATING in the catalog.
    InsertCreating,
    /// Ask the provider to write the snapshot into the staging directory.
    ProviderCreate,
    /// Publish the staging directory.
    CommitStore { size_bytes: u64 },
    /// Record the snapshot as READY with its size.
    MarkReady { size_bytes: u64 },
    /// Remove the staging directory after a provider failure.
    AbortStore { error: String },
    /// Record the snapshot as FAILED with the error.
    MarkFailed { error: String },
    /// The snapshot is READY.
    Succeeded { size_bytes: u64 },
    /// The creation failed with this error.
    Failed { error: CoreError },
}

/// The result of running the step that a stage names. A successful provider step carries
/// the size it reports; other successful steps carry zero.
#[derive(Clone, Debug)]
pub enum StepOutcome {
    Succeeded(u64),
    Failed(String),
}

impl CreateStage {
    /// Whether the creation has ended.
    pub open spec fn spec_is_final(&self) -> bool {
        self is Succeeded || self is Failed
    }

    /// The stage a creation starts in: refused as `NotFound` when the sandbox is not live,
    /// and as `Unsupported` when the provider cannot snapshot.
    pub fn start(sandbox_live: bool, snapshot_capable: bool) -> (r: CreateStage)
        ensures
            !sandbox_live ==> r is Failed && r->Failed_error.kind == ErrorKind::NotFound,
            sandbox_live && !snapshot_capable ==> r is Failed && r->Failed_error.kind == ErrorKind::Unsupported,
            sandbox_live && snapshot_capable ==> r is BeginStore,
    {
        if !sandbox_live {
            CreateStage::Failed { error: CoreError::new(ErrorKind::NotFound, "no such sandbox") }
        } else if snapshot_capable {
            CreateStage::BeginStore
        } else {
            CreateStage::Failed { error: CoreError::new(ErrorKind::Unsupported, "provider does not support snapshots") }
        }
    }

    /// Whether the creation has ended.
    pub fn is_final(&self) -> (r: bool)
        ensures
            r == self.spec_is_final(),
    {
        match self {
            CreateStage::Succeeded { .. } | CreateStage::Failed { .. } => true,
            _ => false,
        }
    }

    /// The stage after running this stage's step with the given outcome. The order is
    /// begin, record CREATING, provider, commit, record READY; a provider failure aborts the
    /// staging directory and records FAILED, a commit failure records FAILED, and every
    /// failure ends as `Internal`. Final stages do not move.
    pub fn advance(self, outcome: StepOutcome) -> (r: CreateStage)
        ensures
            self.spec_is_final() ==> r == self,
            self is BeginStore ==> match outcome {
                StepOutcome::Succeeded(_) => r is InsertCreating,
                StepOutcome::Failed(e) => r is Failed && r->Failed_error.kind == ErrorKind::Internal
                    && r->Failed_error.message@ == "failed to prepare staging dir: "@ + e@,
            },
            self is InsertCreating ==> match outcome {
                StepOutcome::Succeeded(_) => r is ProviderCreate,
                StepOutcome::Failed(e) => r is Failed && r->Failed_error.kind == ErrorKind::Internal
                    && r->Failed_error.message@ == "catalog error: "@ + e@,
            },
            self is ProviderCreate ==> match outcome {
                StepOutcome::Succeeded(size) => r == (CreateStage::CommitStore { size_bytes: size }),
                StepOutcome::Failed(e) => r is AbortStore && r->AbortStore_error@ == "provider snapshot failed: "@ + e@,
            },
            self is CommitStore ==> match outcome {
                StepOutcome::Succeeded(_) => r == (CreateStage::MarkReady { size_bytes: self->CommitStore_size_bytes }),
                StepOutcome::Failed(e) => r is MarkFailed && r->MarkFailed_error@ == "failed to commit snapshot: "@ + e@,
            },
            self is AbortStore ==> r is MarkFailed && r->MarkFailed_error@ == self->AbortStore_error@,
            self is MarkFailed ==> r is Failed && r->Failed_error.kind == ErrorKind::Internal
                && r->Failed_error.message@ == self->MarkFailed_error@,
            self is MarkReady ==> match outcome {
                StepOutcome::Succeeded(_) => r == (CreateStage::Succeeded { size_bytes: self->MarkReady_size_bytes }),
                StepOutcome::Failed(e) => r is Failed && r->Failed_error.kind == ErrorKind::Internal
                    && r->Failed_error.message@ == "catalog finalize error: "@ + e@,
            },
    {
        match self {
            CreateStage::BeginStore => match outcome {
                StepOutcome::Succeeded(_) => CreateStage::InsertCreating,
                StepOutcome::Failed(e) => CreateStage::Failed {
                    error: CoreError::with_detail(ErrorKind::Internal, "failed to prepare staging dir: ", e.as_str()),
                },
            },
            CreateStage::InsertCreating => match outcome {
                StepOutcome::Succeeded(_) => CreateStage::ProviderCreate,
                StepOutcome::Failed(e) => CreateStage::Failed {
                    error: CoreError::with_detail(ErrorKind::Internal, "catalog error: ", e.as_str()),
                },
            },
            CreateStage::ProviderCreate => match outcome {
                StepOutcome::Succeeded(size) => CreateStage::CommitStore { size_bytes: size },
                StepOutcome::Failed(e) => CreateStage::AbortStore { error: prefixed("provider snapshot failed: ", e.as_str()) },
            },
            CreateStage::CommitStore { size_bytes } => match outcome {
                StepOutcome::Succeeded(_) => CreateStage::MarkReady { size_bytes },
                StepOutcome::Failed(e) => CreateStage::MarkFailed { error: prefixed("failed to commit snapshot: ", e.as_str()) },
            },
            CreateStage::AbortStore { error } => CreateStage::MarkFailed { error },
            CreateStage::MarkFailed { error } => CreateStage::Failed { error: CoreError { kind: ErrorKind::Internal, message: error } },
            CreateStage::MarkReady { size_bytes } => match outcome {
                StepOutcome::Succeeded(_) => CreateStage::Succeeded { size_bytes },
                StepOutcome::Failed(e) => CreateStage::Failed {
                    error: CoreError::with_detail(ErrorKind::Internal, "catalog finalize error: ", e.as_str()),
                },
            },
            CreateStage::Succeeded { size_bytes } => CreateStage::Succeeded { size_bytes },
            CreateStage::Failed { error } => CreateStage::Failed { error },
        }
    }
}

fn prefixed(prefix: &str, detail: &str) -> (r: String)
    ensures
        r@ == prefix@ + detail@,
{
    let mut s = String::from_str(prefix);
    s.append(detail);
    s
}

/// What a restore hands to the provider: the ready directory and the new sandbox's id.
pub struct RestorePlan {
    pub snapshot_dir: String,
    pub new_sandbox_id: String,
}

/// Decides a restore from the snapshot's catalog state (`None` when the row is absent)
/// and its ready directory (`None` when the store has none with a marker). An absent row
/// is `NotFound`, a row that is not READY is `FailedPrecondition`, a READY row without
/// its directory is `Internal`. The new sandbox takes `target` when it is not empty, else
/// a fresh identifier.
pub fn plan_restore(state: Option<SnapshotState>, snapshot_dir: Option<String>, target: String) -> (r: Result<RestorePlan, CoreError>)
    ensures
        state is None ==> r is Err && r->Err_0.kind == ErrorKind::NotFound,
        state is Some && state->Some_0 != SnapshotState::Ready ==> r is Err && r->Err_0.kind == ErrorKind::FailedPrecondition,
        state == Some(SnapshotState::Ready) && snapshot_dir is None ==> r is Err && r->Err_0.kind == ErrorKind::Internal,
        state == Some(SnapshotState::Ready) && snapshot_dir is Some ==> {
            &&& r is Ok
            &&& r->Ok_0.snapshot_dir@ == snapshot_dir->Some_0@
            &&& (target@.len() > 0 ==> r->Ok_0.new_sandbox_id@ == target@)
            &&& (target@.len() == 0 ==> is_uuid_text(r->Ok_0.new_sandbox_id@))
        },
{
    let s = match state {
        None => {
            return Err(CoreError::new(ErrorKind::NotFound, "snapshot not found"));
        },
        Some(s) => s,
    };
    if s != SnapshotState::Ready {
        return Err(CoreError::new(ErrorKind::FailedPrecondition, "snapshot is not READY"));
    }
    let dir = match snapshot_dir {
        None => {
            return Err(CoreError::new(ErrorKind::Internal, "snapshot directory missing COMPLETE marker"));
        },
        Some(d) => d,
    };
    let new_sandbox_id = if target.unicode_len() == 0 { fresh_id() } else { target };
    Ok(RestorePlan { snapshot_dir: dir, new_sandbox_id })
}

/// The identifiers of identifier and size pairs.
pub open spec fn pair_ids(v: Seq<(Seq<char>, u64)>) -> Seq<Seq<char>> {
    v.map_values(|p: (Seq<char>, u64)| p.0)
}

/// A garbage-collection pass: the selected candidates, and the snapshots to delete.
pub struct GcPlan {
    pub candidates: Vec<(String, u64)>,
    pub deletions: Vec<String>,
}

/// Candidates of a pass with the given request, and the identifiers it deletes (none on a dry run).
pub open spec fn spec_gc_plan(rows: Seq<SnapshotRow>, refs: Seq<String>, keep_latest: u32, dry_run: bool)
    -> (Seq<(Seq<char>, u64)>, Seq<Seq<char>>)
{
    let c = candidates(rows, refs, spec_effective_keep(keep_latest) as nat);
    (c, if dry_run { seq![] } else { pair_ids(c) })
}

/// Plans a garbage-collection pass over the catalog rows and references: candidates are
/// selected with the requested window (zero meaning the default), and every candidate is
/// deleted unless this is a dry run.
pub fn plan_garbage_collection(rows: &Vec<SnapshotRow>, refs: &Vec<String>, keep_latest: u32, dry_run: bool) -> (r: GcPlan)
    ensures
        (pair_views(r.candidates@), views(r.deletions@)) == spec_gc_plan(rows@, refs@, keep_latest, dry_run),
{
    let keep = effective_keep_latest(keep_latest);
    let cands = select_gc_candidates(rows, refs, keep);
    let mut deletions: Vec<String> = Vec::new();
    if !dry_run {
        let mut i: usize = 0;
        while i < cands.len()
            invariant
                i <= cands@.len(),
                views(deletions@) == pair_ids(pair_views(cands@)).take(i as int),
            decreases cands@.len() - i,
        {
            let ghost before = views(deletions@);
            deletions.push(String::from_str(cands[i].0.as_str()));
            proof {
                assert(views(deletions@) =~= before.push(cands@[i as int].0@));
                assert(pair_ids(pair_views(cands@))[i as int] == cands@[i as int].0@);
                assert(views(deletions@) =~= pair_ids(pair_views(cands@)).take(i as int + 1));
            }
            i = i + 1;
        }
        assert(pair_ids(pair_views(cands@)).take(i as int) =~= pair_ids(pair_views(cands@)));
    } else {
        assert(views(deletions@) =~= Seq::<Seq<char>>::empty());
    }
    GcPlan { candidates: cands, deletions }
}

/// A dry run selects the same candidates as a real pass over the same catalog and deletes nothing.
pub proof fn lemma_dry_run_matches_real_run(rows: Seq<SnapshotRow>, refs: Seq<String>, keep_latest: u32)
    ensures
        spec_gc_plan(rows, refs, keep_latest, true).0 == spec_gc_plan(rows, refs, keep_latest, false).0,
        spec_gc_plan(rows, refs, keep_latest, true).1.len() == 0,
{
}

/// A window of zero is the default window.
pub proof fn lemma_zero_window_is_default(rows: Seq<SnapshotRow>, refs: Seq<String>, dry_run: bool)
    ensures
        spec_gc_plan(rows, refs, 0, dry_run) == spec_gc_plan(rows, refs, DEFAULT_KEEP_LATEST, dry_run),
{
}

/// Total size, capped at `u64::MAX`, of the candidates among the first `n` whose deletion succeeded.
pub open spec fn reclaimed_upto(cands: Seq<(Seq<char>, u64)>, ok: Seq<bool>, n: int) -> nat
    decreases n,
{
    if n <= 0 {
        0
    } else {
        let prev = reclaimed_upto(cands, ok, n - 1);
        let add: nat = if ok[n - 1] { cands[n - 1].1 as nat } else { 0 };
        if prev + add > u64::MAX { u64::MAX as nat } else { prev + add }
    }
}

/// Identifiers of the candidates among the first `n` whose deletion succeeded.
pub open spec fn deleted_upto(cands: Seq<(Seq<char>, u64)>, ok: Seq<bool>, n: int) -> Seq<Seq<char>>
    decreases n,
{
    if n <= 0 {
        seq![]
    } else {
        deleted_upto(cands, ok, n - 1) + if ok[n - 1] { seq![cands[n - 1].0] } else { seq![] }
    }
}

/// What a garbage-collection pass reports.
pub struct GcReport {
    pub deleted_snapshot_ids: Vec<String>,
    pub reclaimed_bytes: u64,
}

/// The report of a pass: the candidates whose deletion succeeded (`deleted[i]` for the
/// i-th candidate) and the sum of their sizes, saturating at `u64::MAX`.
pub fn gc_report(cands: &Vec<(String, u64)>, deleted: &Vec<bool>) -> (r: GcReport)
    requires
        deleted@.len() == cands@.len(),
    ensures
        views(r.deleted_snapshot_ids@) == deleted_upto(pair_views(cands@), deleted@, cands@.len() as int),
        r.reclaimed_bytes as nat == reclaimed_upto(pair_views(cands@), deleted@, cands@.len() as int),
{
    let ghost pv = pair_views(cands@);
    let mut ids: Vec<String> = Vec::new();
    let mut total: u64 = 0;
    let mut i: usize = 0;
    while i < cands.len()
        invariant
            i <= cands@.len(),
            deleted@.len() == cands@.len(),
            pv == pair_views(cands@),
            views(ids@) == deleted_upto(pv, deleted@, i as int),
            total as nat == reclaimed_upto(pv, deleted@, i as int),
        decreases cands@.len() - i,
    {
        if deleted[i] {
            ids.push(String::from_str(cands[i].0.as_str()));
            total = total.saturating_add(cands[i].1);
        }
        proof {
            assert(views(ids@) =~= deleted_upto(pv, deleted@, i as int + 1));
        }
        i = i + 1;
    }
    GcReport { deleted_snapshot_ids: ids, reclaimed_bytes: total }
}

} // verus!

verus! {

/// Decides an explicit delete from the snapshot's row (`None` when absent) and how many
/// references name it: an absent row is `NotFound`; a referenced or pinned snapshot is
/// `FailedPrecondition`; otherwise the store directory and then the row may be removed.
pub fn check_delete(row: Option<&SnapshotRow>, ref_count: u64) -> (r: Result<(), CoreError>)
    ensures
        row is None ==> r is Err && r->Err_0.kind == ErrorKind::NotFound,
        row is Some ==> (r is Ok <==> ref_count == 0 && !row->Some_0.pinned),
        row is Some && r is Err ==> r->Err_0.kind == ErrorKind::FailedPrecondition,
{
    match row {
        None => Err(CoreError::new(ErrorKind::NotFound, "snapshot not found")),
        Some(r) => {
            if ref_count > 0 {
                Err(CoreError::new(ErrorKind::FailedPrecondition, "snapshot is referenced"))
            } else if r.pinned {
                Err(CoreError::new(ErrorKind::FailedPrecondition, "snapshot is pinned"))
            } else {
                Ok(())
            }
        },
    }
}

} // verus!
