use vstd::prelude::*;
use crate::catalog::{SnapshotRow, SnapshotState};

verus! {

/// Position of the first row at or after `start` whose identifier is `id`.
pub open spec fn index_from(rows: Seq<SnapshotRow>, id: Seq<char>, start: int) -> Option<int>
    decreases rows.len() - start,
{
    if start < 0 || start >= rows.len() {
        None
    } else if rows[start].snapshot_id@ == id {
        Some(start)
    } else {
        index_from(rows, id, start + 1)
    }
}

/// Position of the row that row `i` names as its parent, if that row is present.
pub open spec fn parent_index(rows: Seq<SnapshotRow>, i: int) -> Option<int> {
    match rows[i].parent_snapshot_id {
        Some(p) => index_from(rows, p@, 0),
        None => None,
    }
}

/// The row reached from row `j` by following `k` parent edges.
pub open spec fn ancestor_at(rows: Seq<SnapshotRow>, j: int, k: nat) -> Option<int>
    decreases k,
{
    if k == 0 {
        Some(j)
    } else {
        match ancestor_at(rows, j, (k - 1) as nat) {
            Some(a) => parent_index(rows, a),
            None => None,
        }
    }
}

/// Strict lexicographic order of identifiers, by code point.
pub open spec fn id_less(a: Seq<char>, b: Seq<char>) -> bool
    decreases a.len(),
{
    if a.len() == 0 {
        b.len() > 0
    } else if b.len() == 0 {
        false
    } else if a[0] != b[0] {
        (a[0] as u32) < (b[0] as u32)
    } else {
        id_less(a.drop_first(), b.drop_first())
    }
}

/// Row `a` is more recent than row `b`: created later, or at the same time with a larger identifier.
pub open spec fn newer(a: SnapshotRow, b: SnapshotRow) -> bool {
    a.created_at > b.created_at || (a.created_at == b.created_at && id_less(b.snapshot_id@, a.snapshot_id@))
}

/// Row `j` competes with row `i` for the retention window of `i`'s sandbox and is more recent.
pub open spec fn ahead_of(rows: Seq<SnapshotRow>, j: int, i: int) -> bool {
    &&& rows[j].state == SnapshotState::Ready
    &&& rows[j].source_sandbox_id@ == rows[i].source_sandbox_id@
    &&& newer(rows[j], rows[i])
}

/// How many of the first `upto` rows are ahead of row `i`.
pub open spec fn ahead_count(rows: Seq<SnapshotRow>, i: int, upto: int) -> nat
    decreases upto,
{
    if upto <= 0 {
        0
    } else {
        ahead_count(rows, i, upto - 1) + if ahead_of(rows, upto - 1, i) { 1nat } else { 0nat }
    }
}

/// Row `i` is among the `keep` most recent READY rows of its sandbox.
pub open spec fn in_window(rows: Seq<SnapshotRow>, i: int, keep: nat) -> bool {
    rows[i].state == SnapshotState::Ready && ahead_count(rows, i, rows.len() as int) < keep
}

/// Some reference names `id`.
pub open spec fn referenced(refs: Seq<String>, id: Seq<char>) -> bool {
    exists|k: int| 0 <= k < refs.len() && #[trigger] refs[k]@ == id
}

/// Row `i` is pinned, referenced, or inside its sandbox's retention window.
pub open spec fn directly_protected(rows: Seq<SnapshotRow>, refs: Seq<String>, keep: nat, i: int) -> bool {
    rows[i].pinned || referenced(refs, rows[i].snapshot_id@) || in_window(rows, i, keep)
}

/// Row `i` is directly protected or an ancestor of a directly protected row.
pub open spec fn protected(rows: Seq<SnapshotRow>, refs: Seq<String>, keep: nat, i: int) -> bool {
    exists|j: int, k: nat|
        #![trigger ancestor_at(rows, j, k), directly_protected(rows, refs, keep, j)]
        0 <= j < rows.len() && directly_protected(rows, refs, keep, j) && ancestor_at(rows, j, k) == Some(i)
}

/// Row `i` may be reclaimed: it is READY and not protected.
pub open spec fn is_candidate(rows: Seq<SnapshotRow>, refs: Seq<String>, keep: nat, i: int) -> bool {
    rows[i].state == SnapshotState::Ready && !protected(rows, refs, keep, i)
}

/// Identifier and size of each candidate among the first `n` rows, in row order.
pub open spec fn candidates_upto(rows: Seq<SnapshotRow>, refs: Seq<String>, keep: nat, n: int) -> Seq<(Seq<char>, u64)>
    decreases n,
{
    if n <= 0 {
        seq![]
    } else {
        candidates_upto(rows, refs, keep, n - 1) + if is_candidate(rows, refs, keep, n - 1) {
            seq![(rows[n - 1].snapshot_id@, rows[n - 1].size_bytes)]
        } else {
            seq![]
        }
    }
}

/// Identifier and size of every candidate, in row order.
pub open spec fn candidates(rows: Seq<SnapshotRow>, refs: Seq<String>, keep: nat) -> Seq<(Seq<char>, u64)> {
    candidates_upto(rows, refs, keep, rows.len() as int)
}

/// The views of identifier and size pairs.
pub open spec fn pair_views(v: Seq<(String, u64)>) -> Seq<(Seq<char>, u64)> {
    v.map_values(|p: (String, u64)| (p.0@, p.1))
}

proof fn lemma_index_from_range(rows: Seq<SnapshotRow>, id: Seq<char>, start: int)
    ensures
        index_from(rows, id, start) is Some ==> {
            let p = index_from(rows, id, start)->Some_0;
            &&& 0 <= start <= p < rows.len()
            &&& rows[p].snapshot_id@ == id
        },
    decreases rows.len() - start,
{
    if start >= 0 && start < rows.len() && rows[start].snapshot_id@ != id {
        lemma_index_from_range(rows, id, start + 1);
    }
}

proof fn lemma_parent_in_range(rows: Seq<SnapshotRow>, i: int)
    requires
        0 <= i < rows.len(),
    ensures
        parent_index(rows, i) is Some ==> 0 <= parent_index(rows, i)->Some_0 < rows.len(),
{
    if let Some(p) = rows[i].parent_snapshot_id {
        lemma_index_from_range(rows, p@, 0);
    }
}

/// Following `k1` and then `k2` parent edges is following `k1 + k2` edges.
pub proof fn lemma_ancestor_compose(rows: Seq<SnapshotRow>, j: int, k1: nat, k2: nat)
    requires
        ancestor_at(rows, j, k1) is Some,
    ensures
        ancestor_at(rows, ancestor_at(rows, j, k1)->Some_0, k2) == ancestor_at(rows, j, k1 + k2),
    decreases k2,
{
    if k2 > 0 {
        lemma_ancestor_compose(rows, j, k1, (k2 - 1) as nat);
        assert((k1 + k2 - 1) as nat == k1 + (k2 - 1) as nat);
    }
}

proof fn lemma_ancestor_in_range(rows: Seq<SnapshotRow>, j: int, k: nat)
    requires
        0 <= j < rows.len(),
    ensures
        ancestor_at(rows, j, k) is Some ==> 0 <= ancestor_at(rows, j, k)->Some_0 < rows.len(),
    decreases k,
{
    if k > 0 {
        lemma_ancestor_in_range(rows, j, (k - 1) as nat);
        if let Some(a) = ancestor_at(rows, j, (k - 1) as nat) {
            lemma_parent_in_range(rows, a);
        }
    }
}

/// A set of rows closed under the parent edge holds every ancestor of each of its rows.
proof fn lemma_closed_holds_ancestors(rows: Seq<SnapshotRow>, marked: Seq<bool>, j: int, k: nat)
    requires
        marked.len() == rows.len(),
        0 <= j < rows.len(),
        marked[j],
        forall|x: int| 0 <= x < rows.len() && marked[x] && (#[trigger] parent_index(rows, x)) is Some
            ==> marked[parent_index(rows, x)->Some_0],
    ensures
        ancestor_at(rows, j, k) is Some ==> marked[ancestor_at(rows, j, k)->Some_0],
    decreases k,
{
    if k > 0 {
        lemma_closed_holds_ancestors(rows, marked, j, (k - 1) as nat);
        lemma_ancestor_in_range(rows, j, (k - 1) as nat);
    }
}

spec fn count_false(s: Seq<bool>) -> nat
    decreases s.len(),
{
    if s.len() == 0 {
        0
    } else {
        count_false(s.drop_last()) + if s.last() { 0nat } else { 1nat }
    }
}

proof fn lemma_count_false_mark(s: Seq<bool>, i: int)
    requires
        0 <= i < s.len(),
        !s[i],
    ensures
        count_false(s.update(i, true)) + 1 == count_false(s),
    decreases s.len(),
{
    if i == s.len() - 1 {
        assert(s.update(i, true).drop_last() =~= s.drop_last());
    } else {
        lemma_count_false_mark(s.drop_last(), i);
        assert(s.update(i, true).drop_last() =~= s.drop_last().update(i, true));
    }
}

/// Position of the first row whose identifier is `id`.
fn find_row(rows: &Vec<SnapshotRow>, id: &String) -> (r: Option<usize>)
    ensures
        match r {
            Some(p) => index_from(rows@, id@, 0) == Some(p as int),
            None => index_from(rows@, id@, 0) is None,
        },
{
    let mut i: usize = 0;
    while i < rows.len()
        invariant
            i <= rows@.len(),
            index_from(rows@, id@, 0) == index_from(rows@, id@, i as int),
        decreases rows@.len() - i,
    {
        if rows[i].snapshot_id == *id {
            return Some(i);
        }
        i = i + 1;
    }
    None
}

fn parent_of(rows: &Vec<SnapshotRow>, i: usize) -> (r: Option<usize>)
    requires
        i < rows@.len(),
    ensures
        match r {
            Some(p) => parent_index(rows@, i as int) == Some(p as int) && p < rows@.len(),
            None => parent_index(rows@, i as int) is None,
        },
{
    proof {
        lemma_parent_in_range(rows@, i as int);
    }
    match &rows[i].parent_snapshot_id {
        Some(p) => find_row(rows, p),
        None => None,
    }
}

proof fn lemma_id_less_step(a: Seq<char>, b: Seq<char>, i: int)
    requires
        0 <= i < a.len(),
        i < b.len(),
        a[i] == b[i],
    ensures
        id_less(a.skip(i), b.skip(i)) == id_less(a.skip(i + 1), b.skip(i + 1)),
{
    assert(a.skip(i).drop_first() =~= a.skip(i + 1));
    assert(b.skip(i).drop_first() =~= b.skip(i + 1));
}

/// Whether `a` sorts strictly before `b`.
pub fn ids_less(a: &String, b: &String) -> (r: bool)
    ensures
        r == id_less(a@, b@),
{
    let la = a.as_str().unicode_len();
    let lb = b.as_str().unicode_len();
    let mut i: usize = 0;
    assert(a@.skip(0) =~= a@);
    assert(b@.skip(0) =~= b@);
    while i < la && i < lb
        invariant
            la == a@.len(),
            lb == b@.len(),
            i <= la,
            i <= lb,
            id_less(a@, b@) == id_less(a@.skip(i as int), b@.skip(i as int)),
        decreases la - i,
    {
        let ca = a.as_str().get_char(i);
        let cb = b.as_str().get_char(i);
        if ca != cb {
            assert(a@.skip(i as int)[0] == ca);
            assert(b@.skip(i as int)[0] == cb);
            return (ca as u32) < (cb as u32);
        }
        proof {
            lemma_id_less_step(a@, b@, i as int);
        }
        i = i + 1;
    }
    i < lb
}

fn is_newer(a: &SnapshotRow, b: &SnapshotRow) -> (r: bool)
    ensures
        r == newer(*a, *b),
{
    a.created_at > b.created_at || (a.created_at == b.created_at && ids_less(&b.snapshot_id, &a.snapshot_id))
}

fn is_referenced(refs: &Vec<String>, id: &String) -> (r: bool)
    ensures
        r == referenced(refs@, id@),
{
    let mut k: usize = 0;
    while k < refs.len()
        invariant
            k <= refs@.len(),
            forall|m: int| 0 <= m < k ==> refs@[m]@ != id@,
        decreases refs@.len() - k,
    {
        if refs[k] == *id {
            return true;
        }
        k = k + 1;
    }
    false
}

fn count_ahead(rows: &Vec<SnapshotRow>, i: usize) -> (r: u64)
    requires
        i < rows@.len(),
    ensures
        r == ahead_count(rows@, i as int, rows@.len() as int),
{
    let mut count: u64 = 0;
    let mut j: usize = 0;
    while j < rows.len()
        invariant
            i < rows@.len(),
            j <= rows@.len(),
            count == ahead_count(rows@, i as int, j as int),
            count <= j,
        decreases rows@.len() - j,
    {
        if rows[j].state == SnapshotState::Ready
            && rows[j].source_sandbox_id == rows[i].source_sandbox_id
            && is_newer(&rows[j], &rows[i])
        {
            count = count + 1;
        }
        j = j + 1;
    }
    count
}

fn is_directly_protected(rows: &Vec<SnapshotRow>, refs: &Vec<String>, keep: u32, i: usize) -> (r: bool)
    requires
        i < rows@.len(),
    ensures
        r == directly_protected(rows@, refs@, keep as nat, i as int),
{
    let row = &rows[i];
    if row.pinned || is_referenced(refs, &row.snapshot_id) {
        return true;
    }
    row.state == SnapshotState::Ready && count_ahead(rows, i) < keep as u64
}

/// Marks every row that is protected: the directly protected rows and all their ancestors.
fn protected_rows(rows: &Vec<SnapshotRow>, refs: &Vec<String>, keep: u32) -> (r: Vec<bool>)
    ensures
        r@.len() == rows@.len(),
        forall|i: int| 0 <= i < rows@.len() ==> r@[i] == protected(rows@, refs@, keep as nat, i),
{
    let n = rows.len();
    let ghost rs = rows@;
    let ghost kp = keep as nat;
    let mut marked: Vec<bool> = Vec::new();
    let mut z: usize = 0;
    while z < n
        invariant
            z <= n,
            n == rs.len(),
            marked@.len() == z,
            forall|x: int| 0 <= x < z ==> !marked@[x],
        decreases n - z,
    {
        marked.push(false);
        z = z + 1;
    }
    let mut j: usize = 0;
    while j < n
        invariant
            j <= n,
            n == rs.len(),
            rs == rows@,
            kp == keep as nat,
            marked@.len() == n,
            forall|x: int| 0 <= x < n && marked@[x] ==> protected(rs, refs@, kp, x),
            forall|x: int| 0 <= x < n && marked@[x] && (#[trigger] parent_index(rs, x)) is Some
                ==> marked@[parent_index(rs, x)->Some_0],
            forall|x: int| 0 <= x < j && directly_protected(rs, refs@, kp, x) ==> marked@[x],
        decreases n - j,
    {
        let direct = is_directly_protected(rows, refs, keep, j);
        if direct {
            assert(directly_protected(rs, refs@, kp, j as int));
            let mut cur: usize = j;
            let mut done = false;
            let ghost mut depth: nat = 0;
            let ghost mut prev: Option<int> = None;
            while !done
                invariant
                    j < n,
                    n == rs.len(),
                    rs == rows@,
                    kp == keep as nat,
                    marked@.len() == n,
                    cur < n,
                    directly_protected(rs, refs@, kp, j as int),
                    ancestor_at(rs, j as int, depth) == Some(cur as int),
                    forall|x: int| 0 <= x < n && marked@[x] ==> protected(rs, refs@, kp, x),
                    forall|x: int| 0 <= x < n && marked@[x] && Some(x) != prev && (#[trigger] parent_index(rs, x)) is Some
                        ==> marked@[parent_index(rs, x)->Some_0],
                    forall|x: int| 0 <= x < j && directly_protected(rs, refs@, kp, x) ==> marked@[x],
                    prev is None ==> cur == j && (done ==> marked@[j as int]),
                    prev is Some ==> marked@[j as int],
                    prev is Some && !done ==> marked@[prev->Some_0] && parent_index(rs, prev->Some_0) == Some(cur as int),
                    prev is Some && done ==> parent_index(rs, prev->Some_0) is None
                        || marked@[parent_index(rs, prev->Some_0)->Some_0],
                decreases count_false(marked@) + if done { 0nat } else { 1nat },
            {
                if marked[cur] {
                    done = true;
                } else {
                    proof {
                        lemma_count_false_mark(marked@, cur as int);
                        assert(protected(rs, refs@, kp, cur as int)) by {
                            assert(0 <= j < rs.len() && directly_protected(rs, refs@, kp, j as int)
                                && ancestor_at(rs, j as int, depth) == Some(cur as int));
                        }
                    }
                    let ghost old_prev = prev;
                    let ghost old_marked = marked@;
                    marked.set(cur, true);
                    proof {
                        prev = Some(cur as int);
                        assert forall|x: int| 0 <= x < n && marked@[x] && Some(x) != prev && (#[trigger] parent_index(rs, x)) is Some
                            implies marked@[parent_index(rs, x)->Some_0] by {
                            lemma_parent_in_range(rs, x);
                            if Some(x) != old_prev {
                                assert(old_marked[x]);
                            } else {
                                assert(parent_index(rs, x) == Some(cur as int));
                            }
                        }
                    }
                    match parent_of(rows, cur) {
                        Some(p) => {
                            proof {
                                assert(ancestor_at(rs, j as int, depth + 1) == Some(p as int));
                                depth = depth + 1;
                            }
                            cur = p;
                        },
                        None => {
                            done = true;
                        },
                    }
                }
            }
            proof {
                assert(marked@[j as int]);
                assert forall|x: int| 0 <= x < n && marked@[x] && (#[trigger] parent_index(rs, x)) is Some
                    implies marked@[parent_index(rs, x)->Some_0] by {
                    if Some(x) != prev {
                    } else {
                        lemma_parent_in_range(rs, x);
                    }
                }
            }
        }
        j = j + 1;
    }
    proof {
        assert forall|i: int| 0 <= i < n implies marked@[i] == protected(rs, refs@, kp, i) by {
            if protected(rs, refs@, kp, i) {
                let (w, k) = choose|w: int, k: nat|
                    0 <= w < rs.len() && directly_protected(rs, refs@, kp, w) && ancestor_at(rs, w, k) == Some(i);
                lemma_closed_holds_ancestors(rs, marked@, w, k);
            }
        }
    }
    marked
}

/// Selects the snapshots that garbage collection may reclaim: every READY row that is
/// neither pinned, nor referenced, nor among the `keep_latest` most recent READY rows of
/// its sandbox, nor an ancestor of such a row. Identifiers and sizes come in row order.
pub fn select_gc_candidates(rows: &Vec<SnapshotRow>, refs: &Vec<String>, keep_latest: u32) -> (r: Vec<(String, u64)>)
    ensures
        pair_views(r@) == candidates(rows@, refs@, keep_latest as nat),
{
    let marked = protected_rows(rows, refs, keep_latest);
    let mut out: Vec<(String, u64)> = Vec::new();
    let mut i: usize = 0;
    while i < rows.len()
        invariant
            i <= rows@.len(),
            marked@.len() == rows@.len(),
            forall|x: int| 0 <= x < rows@.len() ==> marked@[x] == protected(rows@, refs@, keep_latest as nat, x),
            pair_views(out@) == candidates_upto(rows@, refs@, keep_latest as nat, i as int),
        decreases rows@.len() - i,
    {
        let ghost before = pair_views(out@);
        if rows[i].state == SnapshotState::Ready && !marked[i] {
            out.push((String::from_str(rows[i].snapshot_id.as_str()), rows[i].size_bytes));
            proof {
                assert(pair_views(out@) =~= before.push((rows@[i as int].snapshot_id@, rows@[i as int].size_bytes)));
            }
        }
        proof {
            assert(pair_views(out@) =~= candidates_upto(rows@, refs@, keep_latest as nat, i as int + 1));
        }
        i = i + 1;
    }
    out
}

} // verus!

verus! {

proof fn lemma_candidate_entries(rows: Seq<SnapshotRow>, refs: Seq<String>, keep: nat, n: int, e: int)
    requires
        0 <= n <= rows.len(),
        0 <= e < candidates_upto(rows, refs, keep, n).len(),
    ensures
        exists|i: int| 0 <= i < n && #[trigger] is_candidate(rows, refs, keep, i)
            && candidates_upto(rows, refs, keep, n)[e] == (rows[i].snapshot_id@, rows[i].size_bytes),
    decreases n,
{
    let prev = candidates_upto(rows, refs, keep, n - 1);
    if e < prev.len() {
        lemma_candidate_entries(rows, refs, keep, n - 1, e);
        let i = choose|i: int| 0 <= i < n - 1 && #[trigger] is_candidate(rows, refs, keep, i)
            && prev[e] == (rows[i].snapshot_id@, rows[i].size_bytes);
        assert(candidates_upto(rows, refs, keep, n)[e] == prev[e]);
        assert(is_candidate(rows, refs, keep, i));
    } else {
        assert(is_candidate(rows, refs, keep, n - 1));
    }
}

/// Every snapshot that garbage collection selects is a READY row that is not an ancestor
/// of any protected row (pinned, referenced, in a retention window, or an ancestor of one).
pub proof fn lemma_gc_spares_protected_ancestors(rows: Seq<SnapshotRow>, refs: Seq<String>, keep: nat, e: int)
    requires
        0 <= e < candidates(rows, refs, keep).len(),
    ensures
        exists|i: int| #![trigger rows[i]]
            0 <= i < rows.len()
            && candidates(rows, refs, keep)[e] == (rows[i].snapshot_id@, rows[i].size_bytes)
            && rows[i].state == SnapshotState::Ready
            && forall|p: int, k: nat| 0 <= p < rows.len() && protected(rows, refs, keep, p)
                ==> ancestor_at(rows, p, k) != Some(i),
{
    lemma_candidate_entries(rows, refs, keep, rows.len() as int, e);
    let i = choose|i: int| 0 <= i < rows.len() && #[trigger] is_candidate(rows, refs, keep, i)
        && candidates(rows, refs, keep)[e] == (rows[i].snapshot_id@, rows[i].size_bytes);
    assert forall|p: int, k: nat| 0 <= p < rows.len() && protected(rows, refs, keep, p)
        implies ancestor_at(rows, p, k) != Some(i) by {
        if ancestor_at(rows, p, k) == Some(i) {
            let (j, k1) = choose|j: int, k1: nat|
                0 <= j < rows.len() && directly_protected(rows, refs, keep, j) && ancestor_at(rows, j, k1) == Some(p);
            lemma_ancestor_compose(rows, j, k1, k);
            assert(ancestor_at(rows, j, k1 + k) == Some(i));
            assert(protected(rows, refs, keep, i));
        }
    }
    assert(rows[i].state == SnapshotState::Ready);
}

/// No two rows share an identifier.
pub open spec fn unique_ids(rows: Seq<SnapshotRow>) -> bool {
    forall|i: int, j: int| 0 <= i < rows.len() && 0 <= j < rows.len() && i != j
        ==> rows[i].snapshot_id@ != rows[j].snapshot_id@
}

/// Garbage collection never selects a snapshot that is still being created.
pub proof fn lemma_gc_skips_creating(rows: Seq<SnapshotRow>, refs: Seq<String>, keep: nat, e: int)
    requires
        unique_ids(rows),
        0 <= e < candidates(rows, refs, keep).len(),
    ensures
        forall|i: int| 0 <= i < rows.len() && #[trigger] rows[i].snapshot_id@ == candidates(rows, refs, keep)[e].0
            ==> rows[i].state != SnapshotState::Creating,
{
    lemma_candidate_entries(rows, refs, keep, rows.len() as int, e);
    let i0 = choose|i: int| 0 <= i < rows.len() && #[trigger] is_candidate(rows, refs, keep, i)
        && candidates(rows, refs, keep)[e] == (rows[i].snapshot_id@, rows[i].size_bytes);
    assert forall|i: int| 0 <= i < rows.len() && #[trigger] rows[i].snapshot_id@ == candidates(rows, refs, keep)[e].0
        implies rows[i].state != SnapshotState::Creating by {
        if i != i0 {
            assert(rows[i].snapshot_id@ != rows[i0].snapshot_id@);
        }
    }
}

} // verus!

verus! {

/// Following `k` parent edges from row `i` ends at a parentless row that row `i` records as its root.
pub open spec fn root_reached(rows: Seq<SnapshotRow>, i: int, k: nat) -> bool {
    match ancestor_at(rows, i, k) {
        Some(a) => rows[a].parent_snapshot_id is None && rows[i].root_snapshot_id@ == rows[a].snapshot_id@,
        None => false,
    }
}

/// Row `i` records as its root the root reached by chasing its parent links.
pub open spec fn has_consistent_root(rows: Seq<SnapshotRow>, i: int) -> bool {
    exists|k: nat| #[trigger] root_reached(rows, i, k)
}

/// Every row's recorded root is the root reached by chasing its parent links.
pub open spec fn roots_consistent(rows: Seq<SnapshotRow>) -> bool {
    forall|i: int| 0 <= i < rows.len() ==> #[trigger] has_consistent_root(rows, i)
}

/// Two rows agree on identifier, parent link and recorded root.
pub open spec fn same_links(a: SnapshotRow, b: SnapshotRow) -> bool {
    &&& a.snapshot_id@ == b.snapshot_id@
    &&& a.parent_snapshot_id == b.parent_snapshot_id
    &&& a.root_snapshot_id@ == b.root_snapshot_id@
}

proof fn lemma_index_from_push(rows: Seq<SnapshotRow>, x: SnapshotRow, id: Seq<char>, s: int)
    requires
        0 <= s,
        x.snapshot_id@ != id || index_from(rows, id, s) is Some,
    ensures
        index_from(rows.push(x), id, s) == index_from(rows, id, s),
    decreases rows.len() - s,
{
    if s < rows.len() {
        assert(rows.push(x)[s] == rows[s]);
        if rows[s].snapshot_id@ != id {
            lemma_index_from_push(rows, x, id, s + 1);
        }
    } else {
        if s == rows.len() {
            assert(rows.push(x)[s] == x);
            assert(index_from(rows.push(x), id, s + 1) is None);
        }
    }
}

proof fn lemma_index_from_update(rows: Seq<SnapshotRow>, j: int, y: SnapshotRow, id: Seq<char>, s: int)
    requires
        0 <= j < rows.len(),
        0 <= s,
        same_links(rows[j], y),
    ensures
        index_from(rows.update(j, y), id, s) == index_from(rows, id, s),
    decreases rows.len() - s,
{
    if s < rows.len() {
        if rows[s].snapshot_id@ != id {
            lemma_index_from_update(rows, j, y, id, s + 1);
        }
    }
}

proof fn lemma_ancestor_push(rows: Seq<SnapshotRow>, x: SnapshotRow, i: int, k: nat)
    requires
        0 <= i < rows.len(),
        forall|m: int| 0 <= m < rows.len() && (#[trigger] rows[m].parent_snapshot_id) is Some
            ==> rows[m].parent_snapshot_id->Some_0@ != x.snapshot_id@,
    ensures
        ancestor_at(rows.push(x), i, k) == ancestor_at(rows, i, k),
    decreases k,
{
    if k > 0 {
        lemma_ancestor_push(rows, x, i, (k - 1) as nat);
        lemma_ancestor_in_range(rows, i, (k - 1) as nat);
        if let Some(a) = ancestor_at(rows, i, (k - 1) as nat) {
            assert(rows.push(x)[a] == rows[a]);
            if let Some(p) = rows[a].parent_snapshot_id {
                lemma_index_from_push(rows, x, p@, 0);
            }
        }
    }
}

proof fn lemma_ancestor_update(rows: Seq<SnapshotRow>, j: int, y: SnapshotRow, i: int, k: nat)
    requires
        0 <= j < rows.len(),
        0 <= i < rows.len(),
        same_links(rows[j], y),
    ensures
        ancestor_at(rows.update(j, y), i, k) == ancestor_at(rows, i, k),
    decreases k,
{
    if k > 0 {
        lemma_ancestor_update(rows, j, y, i, (k - 1) as nat);
        lemma_ancestor_in_range(rows, i, (k - 1) as nat);
        if let Some(a) = ancestor_at(rows, i, (k - 1) as nat) {
            if let Some(p) = rows[a].parent_snapshot_id {
                lemma_index_from_update(rows, j, y, p@, 0);
            }
        }
    }
}

/// Recording a new parentless snapshot that is its own root keeps every root consistent,
/// when its identifier is new and no row names it as parent.
pub proof fn lemma_insert_keeps_roots(rows: Seq<SnapshotRow>, x: SnapshotRow)
    requires
        roots_consistent(rows),
        x.parent_snapshot_id is None,
        x.root_snapshot_id@ == x.snapshot_id@,
        forall|m: int| 0 <= m < rows.len() ==> (#[trigger] rows[m]).snapshot_id@ != x.snapshot_id@,
        forall|m: int| 0 <= m < rows.len() && (#[trigger] rows[m].parent_snapshot_id) is Some
            ==> rows[m].parent_snapshot_id->Some_0@ != x.snapshot_id@,
    ensures
        roots_consistent(rows.push(x)),
{
    let r2 = rows.push(x);
    assert forall|i: int| 0 <= i < r2.len() implies #[trigger] has_consistent_root(r2, i) by {
        if i < rows.len() {
            assert(has_consistent_root(rows, i));
            let k = choose|k: nat| #[trigger] root_reached(rows, i, k);
            lemma_ancestor_push(rows, x, i, k);
            lemma_ancestor_in_range(rows, i, k);
            assert(r2[i] == rows[i]);
            let a = ancestor_at(rows, i, k)->Some_0;
            assert(r2[a] == rows[a]);
            assert(root_reached(r2, i, k));
        } else {
            assert(root_reached(r2, i, 0));
        }
    }
}

/// Replacing a row by one with the same identifier, parent and root (as a state change
/// does) keeps every root consistent.
pub proof fn lemma_state_change_keeps_roots(rows: Seq<SnapshotRow>, j: int, y: SnapshotRow)
    requires
        roots_consistent(rows),
        0 <= j < rows.len(),
        same_links(rows[j], y),
    ensures
        roots_consistent(rows.update(j, y)),
{
    let r2 = rows.update(j, y);
    assert forall|i: int| 0 <= i < r2.len() implies #[trigger] has_consistent_root(r2, i) by {
        assert(has_consistent_root(rows, i));
        let k = choose|k: nat| #[trigger] root_reached(rows, i, k);
        lemma_ancestor_update(rows, j, y, i, k);
        lemma_ancestor_in_range(rows, i, k);
        assert(root_reached(r2, i, k));
    }
}

} // verus!
