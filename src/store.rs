use vstd::prelude::*;
use crate::error::{CoreError, ErrorKind};
use crate::ids::is_path_component;

verus! {

/// The base directory as the store sees it: which staging directories and which final
/// directories exist, each with whether it holds the `COMPLETE` marker.
pub struct StoreView {
    pub staging: Map<Seq<char>, bool>,
    pub finals: Map<Seq<char>, bool>,
}

/// One filesystem step on the directories of a snapshot.
#[derive(Clone, Debug)]
pub enum StoreOp {
    /// Remove the staging directory and everything in it.
    RemoveStaging(String),
    /// Create the staging directory (nothing happens if it exists).
    CreateStaging(String),
    /// Write the empty `COMPLETE` marker into the staging directory.
    WriteMarker(String),
    /// Flush the staging directory to disk; best effort.
    SyncStaging(String),
    /// Remove the final directory and everything in it.
    RemoveFinal(String),
    /// Rename the staging directory to the final directory.
    Publish(String),
}

/// The effect of one step on the base directory.
pub open spec fn apply_op(v: StoreView, op: StoreOp) -> StoreView {
    match op {
        StoreOp::RemoveStaging(id) => StoreView { staging: v.staging.remove(id@), ..v },
        StoreOp::CreateStaging(id) => if v.staging.contains_key(id@) {
            v
        } else {
            StoreView { staging: v.staging.insert(id@, false), ..v }
        },
        StoreOp::WriteMarker(id) => if v.staging.contains_key(id@) {
            StoreView { staging: v.staging.insert(id@, true), ..v }
        } else {
            v
        },
        StoreOp::SyncStaging(_) => v,
        StoreOp::RemoveFinal(id) => StoreView { finals: v.finals.remove(id@), ..v },
        StoreOp::Publish(id) => if v.staging.contains_key(id@) {
            StoreView { staging: v.staging.remove(id@), finals: v.finals.insert(id@, v.staging[id@]) }
        } else {
            v
        },
    }
}

/// The effect of a sequence of steps, applied in order.
pub open spec fn apply_ops(v: StoreView, ops: Seq<StoreOp>) -> StoreView
    decreases ops.len(),
{
    if ops.len() == 0 {
        v
    } else {
        apply_op(apply_ops(v, ops.drop_last()), ops.last())
    }
}

/// `begin`: an empty staging directory, whatever was staged before under the same id.
pub open spec fn spec_begin(v: StoreView, id: Seq<char>) -> StoreView {
    StoreView { staging: v.staging.insert(id, false), ..v }
}

/// `commit`: the staged content, with the marker, becomes the final directory.
pub open spec fn spec_commit(v: StoreView, id: Seq<char>) -> StoreView {
    StoreView { staging: v.staging.remove(id), finals: v.finals.insert(id, true) }
}

/// `abort`: no staging directory for the id.
pub open spec fn spec_abort(v: StoreView, id: Seq<char>) -> StoreView {
    StoreView { staging: v.staging.remove(id), ..v }
}

/// `delete`: no final directory for the id.
pub open spec fn spec_delete(v: StoreView, id: Seq<char>) -> StoreView {
    StoreView { finals: v.finals.remove(id), ..v }
}

/// Whether a final directory with the marker exists for the id.
pub open spec fn spec_is_ready(v: StoreView, id: Seq<char>) -> bool {
    v.finals.contains_key(id) && v.finals[id]
}

/// The staging area inside a base directory.
pub open spec fn spec_tmp_root(base: Seq<char>) -> Seq<char> {
    base + "/.tmp"@
}

/// The staging directory of a snapshot.
pub open spec fn spec_staging_dir(base: Seq<char>, id: Seq<char>) -> Seq<char> {
    base + "/.tmp/"@ + id
}

/// The final directory of a snapshot.
pub open spec fn spec_final_dir(base: Seq<char>, id: Seq<char>) -> Seq<char> {
    base + "/"@ + id
}

/// A crash-consistent directory store of snapshots with a two-phase publish.
pub struct SnapshotStore {
    base_dir: String,
}

/// Steps to run in order, and the directory they lead to.
pub struct StorePlan {
    pub ops: Vec<StoreOp>,
    pub path: String,
}


impl SnapshotStore {
    /// The base directory.
    pub closed spec fn base(&self) -> Seq<char> {
        self.base_dir@
    }

    /// A store rooted at `base_dir`; the caller creates the base and staging directories.
    pub fn new(base_dir: String) -> (r: SnapshotStore)
        ensures
            r.base() == base_dir@,
    {
        SnapshotStore { base_dir }
    }

    /// The base directory.
    pub fn base_dir(&self) -> (r: String)
        ensures
            r@ == self.base(),
    {
        String::from_str(self.base_dir.as_str())
    }

    /// The directories that must exist before the store is used: the base and its staging area.
    pub fn layout_dirs(&self) -> (r: Vec<String>)
        ensures
            r@.len() == 2,
            r@[0]@ == self.base(),
            r@[1]@ == spec_tmp_root(self.base()),
    {
        let mut out: Vec<String> = Vec::new();
        out.push(String::from_str(self.base_dir.as_str()));
        let mut tmp = String::from_str(self.base_dir.as_str());
        tmp.append("/.tmp");
        out.push(tmp);
        out
    }

    /// The staging directory of a snapshot.
    pub fn staging_dir(&self, id: &str) -> (r: String)
        ensures
            r@ == spec_staging_dir(self.base(), id@),
    {
        let mut s = String::from_str(self.base_dir.as_str());
        s.append("/.tmp/");
        s.append(id);
        s
    }

    /// The final directory of a snapshot.
    pub fn final_dir(&self, id: &str) -> (r: String)
        ensures
            r@ == spec_final_dir(self.base(), id@),
    {
        let mut s = String::from_str(self.base_dir.as_str());
        s.append("/");
        s.append(id);
        s
    }

    /// The marker file inside a snapshot's staging directory.
    pub fn staging_marker(&self, id: &str) -> (r: String)
        ensures
            r@ == spec_staging_dir(self.base(), id@) + "/COMPLETE"@,
    {
        let mut s = self.staging_dir(id);
        s.append("/COMPLETE");
        s
    }

    /// The marker file inside a snapshot's final directory.
    pub fn final_marker(&self, id: &str) -> (r: String)
        ensures
            r@ == spec_final_dir(self.base(), id@) + "/COMPLETE"@,
    {
        let mut s = self.final_dir(id);
        s.append("/COMPLETE");
        s
    }

    /// Phase one: (re)creates an empty staging directory, removing a leftover one first
    /// so that retries are safe. `staging_exists` tells whether one is there now.
    pub fn begin_snapshot(&self, id: &String, staging_exists: bool) -> (r: StorePlan)
        ensures
            r.path@ == spec_staging_dir(self.base(), id@),
            forall|v: StoreView| v.staging.contains_key(id@) == staging_exists
                ==> #[trigger] apply_ops(v, r.ops@) == spec_begin(v, id@),
    {
        let mut ops: Vec<StoreOp> = Vec::new();
        if staging_exists {
            ops.push(StoreOp::RemoveStaging(id.clone()));
        }
        ops.push(StoreOp::CreateStaging(id.clone()));
        proof {
            reveal_with_fuel(apply_ops, 5);
            assert forall|v: StoreView| v.staging.contains_key(id@) == staging_exists
                implies #[trigger] apply_ops(v, ops@) == spec_begin(v, id@) by {
                if staging_exists {
                    assert(ops@.drop_last().drop_last() =~= Seq::<StoreOp>::empty());
                    let v1 = apply_ops(v, ops@.drop_last());
                    assert(v1.staging =~= v.staging.remove(id@));
                    assert(apply_ops(v, ops@).staging =~= spec_begin(v, id@).staging);
                } else {
                    assert(ops@.drop_last() =~= Seq::<StoreOp>::empty());
                    assert(apply_ops(v, ops@).staging =~= spec_begin(v, id@).staging);
                }
            }
        }
        StorePlan { ops, path: self.staging_dir(id.as_str()) }
    }

    /// Phase two: writes the marker into the staging directory, flushes it, replaces any
    /// final directory of the same id, and renames staging into final. Committing without
    /// a staging directory is an `Internal` error.
    pub fn commit_snapshot(&self, id: &String, staging_exists: bool, final_exists: bool) -> (r: Result<StorePlan, CoreError>)
        ensures
            r is Err <==> !staging_exists,
            r is Err ==> r->Err_0.kind == ErrorKind::Internal,
            r is Ok ==> r->Ok_0.path@ == spec_final_dir(self.base(), id@),
            r is Ok ==> forall|v: StoreView| v.staging.contains_key(id@) == staging_exists
                && v.finals.contains_key(id@) == final_exists
                ==> #[trigger] apply_ops(v, r->Ok_0.ops@) == spec_commit(v, id@),
    {
        if !staging_exists {
            return Err(CoreError::with_detail(ErrorKind::Internal, "cannot commit missing snapshot staging dir: ", id.as_str()));
        }
        let mut ops: Vec<StoreOp> = Vec::new();
        ops.push(StoreOp::WriteMarker(id.clone()));
        ops.push(StoreOp::SyncStaging(id.clone()));
        if final_exists {
            ops.push(StoreOp::RemoveFinal(id.clone()));
        }
        ops.push(StoreOp::Publish(id.clone()));
        proof {
            reveal_with_fuel(apply_ops, 5);
            assert forall|v: StoreView| v.staging.contains_key(id@) == staging_exists
                && v.finals.contains_key(id@) == final_exists
                implies #[trigger] apply_ops(v, ops@) == spec_commit(v, id@) by {
                let first2 = if final_exists { ops@.drop_last().drop_last() } else { ops@.drop_last() };
                assert(first2.drop_last().drop_last() =~= Seq::<StoreOp>::empty());
                let v1 = apply_ops(v, first2.drop_last());
                assert(v1.staging =~= v.staging.insert(id@, true));
                let v2 = apply_ops(v, first2);
                assert(v2 == v1);
                if final_exists {
                    let v3 = apply_ops(v, ops@.drop_last());
                    assert(v3.finals =~= v.finals.remove(id@));
                }
                assert(apply_ops(v, ops@).staging =~= spec_commit(v, id@).staging);
                assert(apply_ops(v, ops@).finals =~= spec_commit(v, id@).finals);
            }
        }
        Ok(StorePlan { ops, path: self.final_dir(id.as_str()) })
    }

    /// Removes the staging directory if there is one; idempotent.
    pub fn abort_snapshot(&self, id: &String, staging_exists: bool) -> (r: Vec<StoreOp>)
        ensures
            forall|v: StoreView| v.staging.contains_key(id@) == staging_exists
                ==> #[trigger] apply_ops(v, r@) == spec_abort(v, id@),
    {
        let mut ops: Vec<StoreOp> = Vec::new();
        if staging_exists {
            ops.push(StoreOp::RemoveStaging(id.clone()));
        }
        proof {
            reveal_with_fuel(apply_ops, 5);
            assert forall|v: StoreView| v.staging.contains_key(id@) == staging_exists
                implies #[trigger] apply_ops(v, ops@) == spec_abort(v, id@) by {
                if staging_exists {
                    assert(ops@.drop_last() =~= Seq::<StoreOp>::empty());
                }
                assert(apply_ops(v, ops@).staging =~= spec_abort(v, id@).staging);
            }
        }
        ops
    }

    /// Removes the final directory if there is one; idempotent.
    pub fn delete_snapshot(&self, id: &String, final_exists: bool) -> (r: Vec<StoreOp>)
        ensures
            forall|v: StoreView| v.finals.contains_key(id@) == final_exists
                ==> #[trigger] apply_ops(v, r@) == spec_delete(v, id@),
    {
        let mut ops: Vec<StoreOp> = Vec::new();
        if final_exists {
            ops.push(StoreOp::RemoveFinal(id.clone()));
        }
        proof {
            reveal_with_fuel(apply_ops, 5);
            assert forall|v: StoreView| v.finals.contains_key(id@) == final_exists
                implies #[trigger] apply_ops(v, ops@) == spec_delete(v, id@) by {
                if final_exists {
                    assert(ops@.drop_last() =~= Seq::<StoreOp>::empty());
                }
                assert(apply_ops(v, ops@).finals =~= spec_delete(v, id@).finals);
            }
        }
        ops
    }

    /// Whether a snapshot is ready on disk: its final directory holds the `COMPLETE`
    /// marker, as `marker_exists` tells.
    pub fn is_snapshot_ready(&self, id: &String, marker_exists: bool) -> (r: bool)
        ensures
            forall|v: StoreView| (v.finals.contains_key(id@) && v.finals[id@]) == marker_exists
                ==> #[trigger] spec_is_ready(v, id@) == r,
    {
        marker_exists
    }

    /// The final directory of a ready snapshot: present exactly when its `COMPLETE`
    /// marker exists, as `marker_exists` tells.
    pub fn get_snapshot_dir(&self, id: &str, marker_exists: bool) -> (r: Option<String>)
        ensures
            marker_exists <==> r is Some,
            r is Some ==> r->Some_0@ == spec_final_dir(self.base(), id@),
    {
        if marker_exists {
            Some(self.final_dir(id))
        } else {
            None
        }
    }
}

} // verus!

verus! {

/// Beginning, committing and then deleting a snapshot whose id the base directory does not
/// hold leaves the base directory as it was.
pub proof fn lemma_begin_commit_delete_restores(v: StoreView, id: Seq<char>)
    requires
        !v.staging.contains_key(id),
        !v.finals.contains_key(id),
    ensures
        spec_delete(spec_commit(spec_begin(v, id), id), id) == v,
{
    let r = spec_delete(spec_commit(spec_begin(v, id), id), id);
    assert(r.staging =~= v.staging);
    assert(r.finals =~= v.finals);
}

/// Aborting twice has the effect of aborting once.
pub proof fn lemma_abort_idempotent(v: StoreView, id: Seq<char>)
    ensures
        spec_abort(spec_abort(v, id), id) == spec_abort(v, id),
{
    assert(spec_abort(spec_abort(v, id), id).staging =~= spec_abort(v, id).staging);
}

/// After a commit the store reports the snapshot ready, whatever was there before.
pub proof fn lemma_committed_is_ready(v: StoreView, id: Seq<char>)
    ensures
        spec_is_ready(spec_commit(spec_begin(v, id), id), id),
{
}

proof fn lemma_components_not_nested(p: Seq<char>, a: Seq<char>, b: Seq<char>)
    requires
        is_path_component(a),
        is_path_component(b),
        a != b,
    ensures
        p + a != p + b,
        !(p + a + "/"@).is_prefix_of(p + b),
{
    assert("/"@ =~= seq!['/']) by { reveal_strlit("/"); }
    if p + a == p + b {
        assert((p + a).subrange(p.len() as int, (p + a).len() as int) =~= a);
        assert((p + b).subrange(p.len() as int, (p + b).len() as int) =~= b);
    }
    if (p + a + "/"@).is_prefix_of(p + b) {
        let at = (p.len() + a.len()) as int;
        assert((p + a + "/"@)[at] == '/');
        assert((p + b)[at] == b[a.len() as int]);
    }
}

/// Snapshots with different identifiers that are single path components get different
/// staging directories and different final directories, none inside another.
pub proof fn lemma_distinct_ids_disjoint_dirs(base: Seq<char>, a: Seq<char>, b: Seq<char>)
    requires
        is_path_component(a),
        is_path_component(b),
        a != b,
    ensures
        spec_final_dir(base, a) != spec_final_dir(base, b),
        !(spec_final_dir(base, a) + "/"@).is_prefix_of(spec_final_dir(base, b)),
        spec_staging_dir(base, a) != spec_staging_dir(base, b),
        !(spec_staging_dir(base, a) + "/"@).is_prefix_of(spec_staging_dir(base, b)),
{
    lemma_components_not_nested(base + "/"@, a, b);
    lemma_components_not_nested(base + "/.tmp/"@, a, b);
    assert(spec_final_dir(base, a) =~= (base + "/"@) + a);
    assert(spec_final_dir(base, b) =~= (base + "/"@) + b);
    assert(spec_staging_dir(base, a) =~= (base + "/.tmp/"@) + a);
    assert(spec_staging_dir(base, b) =~= (base + "/.tmp/"@) + b);
}

} // verus!
