use vstd::prelude::*;
use crate::catalog::{SnapshotRow, SnapshotState};
use crate::executor::views;
use crate::store::{StoreView, spec_is_ready};

verus! {

/// The listing of final directories shows `id` with its `COMPLETE` marker.
pub open spec fn listed_ready(finals: Seq<(String, bool)>, id: Seq<char>) -> bool {
    exists|k: int| 0 <= k < finals.len() && #[trigger] finals[k].0@ == id && finals[k].1
}

/// Some row has identifier `id` and the given state.
pub open spec fn has_row(rows: Seq<SnapshotRow>, id: Seq<char>, state: SnapshotState) -> bool {
    exists|i: int| 0 <= i < rows.len() && #[trigger] rows[i].snapshot_id@ == id && rows[i].state == state
}

/// A READY row is demoted when its final directory is missing or lacks the marker.
pub open spec fn must_demote(rows: Seq<SnapshotRow>, finals: Seq<(String, bool)>, i: int) -> bool {
    rows[i].state == SnapshotState::Ready && !listed_ready(finals, rows[i].snapshot_id@)
}

/// A final directory is removed unless it has the marker and a READY row.
pub open spec fn must_remove_final(rows: Seq<SnapshotRow>, finals: Seq<(String, bool)>, k: int) -> bool {
    !(finals[k].1 && has_row(rows, finals[k].0@, SnapshotState::Ready))
}

/// A staging directory is removed unless a CREATING row owns it.
pub open spec fn must_remove_staging(rows: Seq<SnapshotRow>, staging: Seq<String>, k: int) -> bool {
    !has_row(rows, staging[k]@, SnapshotState::Creating)
}

/// What a recovery pass does: rows to demote to FAILED, directories to remove.
pub struct ReaperPlan {
    pub demote: Vec<String>,
    pub remove_finals: Vec<String>,
    pub remove_staging: Vec<String>,
}

fn is_listed_ready(finals: &Vec<(String, bool)>, id: &String) -> (r: bool)
    ensures
        r == listed_ready(finals@, id@),
{
    let mut k: usize = 0;
    while k < finals.len()
        invariant
            k <= finals@.len(),
            forall|m: int| 0 <= m < k ==> !(finals@[m].0@ == id@ && finals@[m].1),
        decreases finals@.len() - k,
    {
        if finals[k].1 && finals[k].0 == *id {
            return true;
        }
        k = k + 1;
    }
    false
}

fn has_row_exec(rows: &Vec<SnapshotRow>, id: &String, state: SnapshotState) -> (r: bool)
    ensures
        r == has_row(rows@, id@, state),
{
    let mut i: usize = 0;
    while i < rows.len()
        invariant
            i <= rows@.len(),
            forall|m: int| 0 <= m < i ==> !(rows@[m].snapshot_id@ == id@ && rows@[m].state == state),
        decreases rows@.len() - i,
    {
        if rows[i].state == state && rows[i].snapshot_id == *id {
            return true;
        }
        i = i + 1;
    }
    false
}

/// Plans the recovery pass run at start-up, from the catalog rows and the listings of the
/// staging area and of the final directories (each with whether it holds the marker):
/// READY rows whose final directory is missing or unmarked are demoted to FAILED, final
/// directories without the marker or without a READY row are removed, and staging
/// directories without a CREATING row are removed.
pub fn plan_reaper(rows: &Vec<SnapshotRow>, staging: &Vec<String>, finals: &Vec<(String, bool)>) -> (r: ReaperPlan)
    ensures
        forall|id: Seq<char>| views(r.demote@).contains(id) <==>
            exists|i: int| 0 <= i < rows@.len() && #[trigger] rows@[i].snapshot_id@ == id && must_demote(rows@, finals@, i),
        forall|id: Seq<char>| views(r.remove_finals@).contains(id) <==>
            exists|k: int| 0 <= k < finals@.len() && #[trigger] finals@[k].0@ == id && must_remove_final(rows@, finals@, k),
        forall|id: Seq<char>| views(r.remove_staging@).contains(id) <==>
            exists|k: int| 0 <= k < staging@.len() && #[trigger] staging@[k]@ == id && must_remove_staging(rows@, staging@, k),
{
    let mut demote: Vec<String> = Vec::new();
    let mut i: usize = 0;
    while i < rows.len()
        invariant
            i <= rows@.len(),
            forall|id: Seq<char>| views(demote@).contains(id) <==>
                exists|m: int| 0 <= m < i && #[trigger] rows@[m].snapshot_id@ == id && must_demote(rows@, finals@, m),
        decreases rows@.len() - i,
    {
        let ghost before = views(demote@);
        if rows[i].state == SnapshotState::Ready && !is_listed_ready(finals, &rows[i].snapshot_id) {
            demote.push(String::from_str(rows[i].snapshot_id.as_str()));
            assert(views(demote@) =~= before.push(rows@[i as int].snapshot_id@));
        }
        proof {
            assert forall|id: Seq<char>| views(demote@).contains(id) <==>
                exists|m: int| 0 <= m < i + 1 && #[trigger] rows@[m].snapshot_id@ == id && must_demote(rows@, finals@, m) by {
                if views(demote@).contains(id) && !before.contains(id) {
                    assert(views(demote@).last() == id);
                    assert(rows@[i as int].snapshot_id@ == id && must_demote(rows@, finals@, i as int));
                }
                if exists|m: int| 0 <= m < i + 1 && #[trigger] rows@[m].snapshot_id@ == id && must_demote(rows@, finals@, m) {
                    let m = choose|m: int| 0 <= m < i + 1 && #[trigger] rows@[m].snapshot_id@ == id && must_demote(rows@, finals@, m);
                    if m == i {
                        assert(views(demote@).last() == id);
                    } else {
                        assert(before.contains(id));
                        let w = choose|w: int| 0 <= w < before.len() && before[w] == id;
                        assert(views(demote@)[w] == id);
                    }
                }
            }
        }
        i = i + 1;
    }
    let mut remove_finals: Vec<String> = Vec::new();
    let mut k: usize = 0;
    while k < finals.len()
        invariant
            k <= finals@.len(),
            forall|id: Seq<char>| views(remove_finals@).contains(id) <==>
                exists|m: int| 0 <= m < k && #[trigger] finals@[m].0@ == id && must_remove_final(rows@, finals@, m),
        decreases finals@.len() - k,
    {
        let ghost before = views(remove_finals@);
        if !(finals[k].1 && has_row_exec(rows, &finals[k].0, SnapshotState::Ready)) {
            remove_finals.push(String::from_str(finals[k].0.as_str()));
            assert(views(remove_finals@) =~= before.push(finals@[k as int].0@));
        }
        proof {
            assert forall|id: Seq<char>| views(remove_finals@).contains(id) <==>
                exists|m: int| 0 <= m < k + 1 && #[trigger] finals@[m].0@ == id && must_remove_final(rows@, finals@, m) by {
                if views(remove_finals@).contains(id) && !before.contains(id) {
                    assert(views(remove_finals@).last() == id);
                    assert(finals@[k as int].0@ == id && must_remove_final(rows@, finals@, k as int));
                }
                if exists|m: int| 0 <= m < k + 1 && #[trigger] finals@[m].0@ == id && must_remove_final(rows@, finals@, m) {
                    let m = choose|m: int| 0 <= m < k + 1 && #[trigger] finals@[m].0@ == id && must_remove_final(rows@, finals@, m);
                    if m == k {
                        assert(views(remove_finals@).last() == id);
                    } else {
                        assert(before.contains(id));
                        let w = choose|w: int| 0 <= w < before.len() && before[w] == id;
                        assert(views(remove_finals@)[w] == id);
                    }
                }
            }
        }
        k = k + 1;
    }
    let mut remove_staging: Vec<String> = Vec::new();
    let mut s: usize = 0;
    while s < staging.len()
        invariant
            s <= staging@.len(),
            forall|id: Seq<char>| views(remove_staging@).contains(id) <==>
                exists|m: int| 0 <= m < s && #[trigger] staging@[m]@ == id && must_remove_staging(rows@, staging@, m),
        decreases staging@.len() - s,
    {
        let ghost before = views(remove_staging@);
        if !has_row_exec(rows, &staging[s], SnapshotState::Creating) {
            remove_staging.push(String::from_str(staging[s].as_str()));
            assert(views(remove_staging@) =~= before.push(staging@[s as int]@));
        }
        proof {
            assert forall|id: Seq<char>| views(remove_staging@).contains(id) <==>
                exists|m: int| 0 <= m < s + 1 && #[trigger] staging@[m]@ == id && must_remove_staging(rows@, staging@, m) by {
                if views(remove_staging@).contains(id) && !before.contains(id) {
                    assert(views(remove_staging@).last() == id);
                    assert(staging@[s as int]@ == id && must_remove_staging(rows@, staging@, s as int));
                }
                if exists|m: int| 0 <= m < s + 1 && #[trigger] staging@[m]@ == id && must_remove_staging(rows@, staging@, m) {
                    let m = choose|m: int| 0 <= m < s + 1 && #[trigger] staging@[m]@ == id && must_remove_staging(rows@, staging@, m);
                    if m == s {
                        assert(views(remove_staging@).last() == id);
                    } else {
                        assert(before.contains(id));
                        let w = choose|w: int| 0 <= w < before.len() && before[w] == id;
                        assert(views(remove_staging@)[w] == id);
                    }
                }
            }
        }
        s = s + 1;
    }
    ReaperPlan { demote, remove_finals, remove_staging }
}

} // verus!

verus! {

/// The rows after a recovery pass: READY rows whose identifier is in `demote` become FAILED.
pub open spec fn demoted(rows: Seq<SnapshotRow>, demote: Seq<Seq<char>>) -> Seq<SnapshotRow> {
    rows.map_values(|r: SnapshotRow|
        if r.state == SnapshotState::Ready && demote.contains(r.snapshot_id@) {
            SnapshotRow { state: SnapshotState::Failed, ..r }
        } else {
            r
        })
}

/// The base directory after a recovery pass removed the listed directories.
pub open spec fn cleaned(v: StoreView, remove_finals: Seq<Seq<char>>, remove_staging: Seq<Seq<char>>) -> StoreView {
    StoreView {
        staging: v.staging.remove_keys(remove_staging.to_set()),
        finals: v.finals.remove_keys(remove_finals.to_set()),
    }
}

/// The listing of final directories describes the base directory exactly.
pub open spec fn listing_matches(v: StoreView, finals: Seq<(String, bool)>) -> bool {
    &&& forall|id: Seq<char>| v.finals.contains_key(id) <==> exists|k: int| 0 <= k < finals.len() && #[trigger] finals[k].0@ == id
    &&& forall|k: int| 0 <= k < finals.len() ==> v.finals[#[trigger] finals[k].0@] == finals[k].1
}

/// The catalog and the store agree: every READY row has a final directory with the
/// marker, and every final directory has the marker and a READY row.
pub open spec fn catalog_matches_store(rows: Seq<SnapshotRow>, v: StoreView) -> bool {
    &&& forall|i: int| 0 <= i < rows.len() && #[trigger] rows[i].state == SnapshotState::Ready
        ==> spec_is_ready(v, rows[i].snapshot_id@)
    &&& forall|id: Seq<char>| #[trigger] v.finals.contains_key(id) ==> v.finals[id] && has_row(rows, id, SnapshotState::Ready)
}

/// After a recovery pass planned from an exact listing, a row is READY exactly when its
/// final directory exists and holds the marker.
pub proof fn lemma_reaper_converges(
    rows: Seq<SnapshotRow>,
    staging: Seq<String>,
    finals: Seq<(String, bool)>,
    v: StoreView,
    demote: Seq<Seq<char>>,
    remove_finals: Seq<Seq<char>>,
    remove_staging: Seq<Seq<char>>,
)
    requires
        listing_matches(v, finals),
        forall|id: Seq<char>| demote.contains(id) <==>
            exists|i: int| 0 <= i < rows.len() && #[trigger] rows[i].snapshot_id@ == id && must_demote(rows, finals, i),
        forall|id: Seq<char>| remove_finals.contains(id) <==>
            exists|k: int| 0 <= k < finals.len() && #[trigger] finals[k].0@ == id && must_remove_final(rows, finals, k),
    ensures
        catalog_matches_store(demoted(rows, demote), cleaned(v, remove_finals, remove_staging)),
{
    let rows2 = demoted(rows, demote);
    let v2 = cleaned(v, remove_finals, remove_staging);
    assert forall|i: int| 0 <= i < rows2.len() && #[trigger] rows2[i].state == SnapshotState::Ready
        implies spec_is_ready(v2, rows2[i].snapshot_id@) by {
        let id = rows[i].snapshot_id@;
        assert(rows2[i] == rows[i]);
        assert(!must_demote(rows, finals, i));
        let k = choose|k: int| 0 <= k < finals.len() && #[trigger] finals[k].0@ == id && finals[k].1;
        assert(v.finals.contains_key(id));
        assert(v.finals[id]);
        assert(has_row(rows, id, SnapshotState::Ready));
        assert forall|k2: int| 0 <= k2 < finals.len() && #[trigger] finals[k2].0@ == id
            implies !must_remove_final(rows, finals, k2) by {
            assert(v.finals[finals[k2].0@] == finals[k2].1);
        }
        assert(!remove_finals.contains(id));
        assert(!remove_finals.to_set().contains(id));
    }
    assert forall|id: Seq<char>| #[trigger] v2.finals.contains_key(id)
        implies v2.finals[id] && has_row(rows2, id, SnapshotState::Ready) by {
        assert(v.finals.contains_key(id));
        assert(!remove_finals.to_set().contains(id));
        assert(!remove_finals.contains(id));
        let k = choose|k: int| 0 <= k < finals.len() && #[trigger] finals[k].0@ == id;
        assert(!must_remove_final(rows, finals, k));
        assert(v.finals[finals[k].0@] == finals[k].1);
        assert(listed_ready(finals, id));
        let i = choose|i: int| 0 <= i < rows.len() && #[trigger] rows[i].snapshot_id@ == id && rows[i].state == SnapshotState::Ready;
        assert(!must_demote(rows, finals, i));
        assert(!demote.contains(id));
        assert(rows2[i] == rows[i]);
        assert(rows2[i].snapshot_id@ == id && rows2[i].state == SnapshotState::Ready);
    }
}

} // verus!
