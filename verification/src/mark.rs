use vstd::prelude::*;

use crate::row::{row_present, PathId, RowState};

verus! {

/// Whether row state `r` is bound to one of the desired paths.
pub open spec fn serves_desired(r: RowState, paths: Seq<PathId>) -> bool {
    match r.path_spec() {
        Some(p) => paths.contains(p),
        None => false,
    }
}

/// The indices of the rows free for reassignment — `Null` rows and rows bound
/// to a path that is no longer desired — in ascending order.
pub open spec fn free_rows(rows: Seq<RowState>, paths: Seq<PathId>) -> Seq<int>
    decreases rows.len(),
{
    if rows.len() == 0 {
        Seq::empty()
    } else {
        let pre = free_rows(rows.drop_last(), paths);
        if serves_desired(rows.last(), paths) {
            pre
        } else {
            pre.push(rows.len() - 1)
        }
    }
}

/// The desired paths not yet bound to any row, in first-occurrence order,
/// each listed once.
pub open spec fn missing_paths(paths: Seq<PathId>, rows: Seq<RowState>) -> Seq<PathId>
    decreases paths.len(),
{
    if paths.len() == 0 {
        Seq::empty()
    } else {
        let m = missing_paths(paths.drop_last(), rows);
        let p = paths.last();
        if row_present(rows, p) || m.contains(p) {
            m
        } else {
            m.push(p)
        }
    }
}

/// The rows after binding the first `k` missing paths to the first `k` free
/// slots, in order.
pub open spec fn assign_upto(
    rows: Seq<RowState>,
    f: Seq<int>,
    m: Seq<PathId>,
    k: int,
) -> Seq<RowState>
    decreases k,
{
    if k <= 0 {
        rows
    } else {
        assign_upto(rows, f, m, k - 1).update(f[k - 1], RowState::NeedLoad(m[k - 1]))
    }
}

/// How many paths a marking pass binds: every missing path, as far as free
/// slots reach.
pub open spec fn mark_count(rows: Seq<RowState>, paths: Seq<PathId>) -> int {
    let f = free_rows(rows, paths);
    let m = missing_paths(paths, rows);
    if m.len() <= f.len() {
        m.len() as int
    } else {
        f.len() as int
    }
}

/// The row states after a marking pass for the desired set `paths`: rows
/// already serving a desired path are left as they are; each desired path not
/// yet bound is assigned to the next free slot in ascending row order and
/// transitions to `NeedLoad`.
pub open spec fn mark_spec(rows: Seq<RowState>, paths: Seq<PathId>) -> Seq<RowState> {
    assign_upto(rows, free_rows(rows, paths), missing_paths(paths, rows), mark_count(rows, paths))
}

/// `f` lists exactly the rows of `rows` not serving a desired path, strictly
/// ascending.
pub open spec fn free_ok(rows: Seq<RowState>, paths: Seq<PathId>, f: Seq<int>) -> bool {
    &&& forall|k: int|
        0 <= k < f.len() ==> 0 <= #[trigger] f[k] < rows.len() && !serves_desired(
            rows[f[k]],
            paths,
        )
    &&& forall|k1: int, k2: int| 0 <= k1 < k2 < f.len() ==> f[k1] < f[k2]
    &&& forall|i: int|
        0 <= i < rows.len() && !serves_desired(#[trigger] rows[i], paths) ==> f.contains(i)
}

/// `m` lists exactly the desired paths not bound to any row, without
/// repetition.
pub open spec fn missing_ok(paths: Seq<PathId>, rows: Seq<RowState>, m: Seq<PathId>) -> bool {
    &&& forall|k: int|
        0 <= k < m.len() ==> paths.contains(#[trigger] m[k]) && !row_present(rows, m[k])
    &&& forall|k1: int, k2: int| 0 <= k1 < k2 < m.len() ==> m[k1] != m[k2]
    &&& forall|p: PathId| paths.contains(p) && !row_present(rows, p) ==> m.contains(p)
}

pub proof fn lemma_free_rows_props(rows: Seq<RowState>, paths: Seq<PathId>)
    ensures
        free_ok(rows, paths, free_rows(rows, paths)),
    decreases rows.len(),
{
    if rows.len() > 0 {
        let d = rows.drop_last();
        lemma_free_rows_props(d, paths);
        let pre = free_rows(d, paths);
        let f = free_rows(rows, paths);
        assert forall|k: int|
            0 <= k < f.len() implies 0 <= #[trigger] f[k] < rows.len() && !serves_desired(
            rows[f[k]],
            paths,
        ) by {
            if k < pre.len() {
                assert(f[k] == pre[k]);
                assert(d[pre[k]] == rows[pre[k]]);
            } else {
                assert(f[k] == rows.len() - 1);
            }
        }
        assert forall|i: int|
            0 <= i < rows.len() && !serves_desired(#[trigger] rows[i], paths) implies f.contains(
            i,
        ) by {
            if i < rows.len() - 1 {
                assert(d[i] == rows[i]);
                assert(pre.contains(i));
                let k = choose|k: int| 0 <= k < pre.len() && pre[k] == i;
                assert(f[k] == i);
            } else {
                assert(!serves_desired(rows.last(), paths));
                assert(f[f.len() - 1] == i);
            }
        }
    }
}

pub proof fn lemma_missing_props(paths: Seq<PathId>, rows: Seq<RowState>)
    ensures
        missing_ok(paths, rows, missing_paths(paths, rows)),
    decreases paths.len(),
{
    if paths.len() > 0 {
        let d = paths.drop_last();
        lemma_missing_props(d, rows);
        let md = missing_paths(d, rows);
        let m = missing_paths(paths, rows);
        let p = paths.last();
        assert forall|k: int|
            0 <= k < m.len() implies paths.contains(#[trigger] m[k]) && !row_present(
            rows,
            m[k],
        ) by {
            if k < md.len() {
                assert(m[k] == md[k]);
                assert(d.contains(md[k]));
                let t = choose|t: int| 0 <= t < d.len() && d[t] == md[k];
                assert(paths[t] == md[k]);
            } else {
                assert(m[k] == p);
                assert(paths[paths.len() - 1] == p);
            }
        }
        assert forall|q: PathId| paths.contains(q) && !row_present(rows, q) implies m.contains(
            q,
        ) by {
            let t = choose|t: int| 0 <= t < paths.len() && paths[t] == q;
            if t < paths.len() - 1 {
                assert(d[t] == q);
                assert(d.contains(q));
                assert(md.contains(q));
                let k = choose|k: int| 0 <= k < md.len() && md[k] == q;
                assert(m[k] == q);
            } else {
                // q is the last desired path
                if md.contains(q) {
                    let k = choose|k: int| 0 <= k < md.len() && md[k] == q;
                    assert(m[k] == q);
                } else {
                    assert(m == md.push(p));
                    assert(m[m.len() - 1] == q);
                }
            }
        }
    }
}

/// Binding `k` paths only reads the first `k` entries of the path list.
pub proof fn lemma_assign_prefix(
    rows: Seq<RowState>,
    f: Seq<int>,
    m1: Seq<PathId>,
    m2: Seq<PathId>,
    k: int,
)
    requires
        forall|i: int| 0 <= i < k ==> m1[i] == m2[i],
    ensures
        assign_upto(rows, f, m1, k) == assign_upto(rows, f, m2, k),
    decreases k,
{
    if k > 0 {
        lemma_assign_prefix(rows, f, m1, m2, k - 1);
    }
}

/// After binding `k` paths, slots `f[0..k]` hold `NeedLoad(m[0..k])` and all
/// other rows are unchanged.
pub proof fn lemma_assign_upto_props(rows: Seq<RowState>, f: Seq<int>, m: Seq<PathId>, k: int)
    requires
        0 <= k <= f.len(),
        k <= m.len(),
        forall|t: int| 0 <= t < f.len() ==> 0 <= #[trigger] f[t] < rows.len(),
        forall|t1: int, t2: int| 0 <= t1 < t2 < f.len() ==> f[t1] != f[t2],
    ensures
        assign_upto(rows, f, m, k).len() == rows.len(),
        forall|i: int|
            0 <= i < rows.len() && (forall|t: int| 0 <= t < k ==> f[t] != i)
                ==> #[trigger] assign_upto(rows, f, m, k)[i] == rows[i],
        forall|t: int|
            0 <= t < k ==> #[trigger] assign_upto(rows, f, m, k)[f[t]] == RowState::NeedLoad(m[t]),
    decreases k,
{
    if k > 0 {
        lemma_assign_upto_props(rows, f, m, k - 1);
        let prev = assign_upto(rows, f, m, k - 1);
        let cur = assign_upto(rows, f, m, k);
        assert(cur == prev.update(f[k - 1], RowState::NeedLoad(m[k - 1])));
        assert forall|t: int| 0 <= t < k implies #[trigger] cur[f[t]] == RowState::NeedLoad(
            m[t],
        ) by {
            if t < k - 1 {
                assert(f[t] != f[k - 1]);
                assert(cur[f[t]] == prev[f[t]]);
            }
        }
    }
}

/// After binding `k` paths, a desired path is bound to some row exactly when
/// it was bound before or is among the `k` bound now.
pub proof fn lemma_assign_present(
    rows: Seq<RowState>,
    paths: Seq<PathId>,
    f: Seq<int>,
    m: Seq<PathId>,
    k: int,
    p: PathId,
)
    requires
        0 <= k <= f.len(),
        k <= m.len(),
        free_ok(rows, paths, f),
        paths.contains(p),
    ensures
        row_present(assign_upto(rows, f, m, k), p) <==> (row_present(rows, p) || exists|t: int|
            0 <= t < k && m[t] == p),
{
    assert forall|t1: int, t2: int| 0 <= t1 < t2 < f.len() implies f[t1] != f[t2] by {}
    lemma_assign_upto_props(rows, f, m, k);
    let cur = assign_upto(rows, f, m, k);
    if row_present(cur, p) {
        let i = choose|i: int| 0 <= i < cur.len() && cur[i].path_spec() == Some(p);
        if exists|t: int| 0 <= t < k && f[t] == i {
            let t = choose|t: int| 0 <= t < k && f[t] == i;
            assert(cur[i] == RowState::NeedLoad(m[t]));
            assert(m[t] == p);
        } else {
            assert(cur[i] == rows[i]);
        }
    }
    if row_present(rows, p) {
        let i = choose|i: int| 0 <= i < rows.len() && rows[i].path_spec() == Some(p);
        assert(serves_desired(rows[i], paths));
        assert forall|t: int| 0 <= t < k implies f[t] != i by {
            if f[t] == i {
                assert(!serves_desired(rows[i], paths));
            }
        }
        assert(cur[i] == rows[i]);
        assert(row_present(cur, p));
    }
    if exists|t: int| 0 <= t < k && m[t] == p {
        let t = choose|t: int| 0 <= t < k && m[t] == p;
        assert(cur[f[t]] == RowState::NeedLoad(p));
        assert(row_present(cur, p));
    }
}

/// A marking pass touches no row's existence: the row count is unchanged.
pub proof fn lemma_mark_len(rows: Seq<RowState>, paths: Seq<PathId>)
    ensures
        mark_spec(rows, paths).len() == rows.len(),
{
    lemma_free_rows_props(rows, paths);
    let f = free_rows(rows, paths);
    let m = missing_paths(paths, rows);
    assert forall|t1: int, t2: int| 0 <= t1 < t2 < f.len() implies f[t1] != f[t2] by {}
    lemma_assign_upto_props(rows, f, m, mark_count(rows, paths));
}

/// A marking pass never evicts a row already serving a desired path.
pub proof fn lemma_mark_no_evict(rows: Seq<RowState>, paths: Seq<PathId>, i: int)
    requires
        0 <= i < rows.len(),
        serves_desired(rows[i], paths),
    ensures
        mark_spec(rows, paths).len() == rows.len(),
        mark_spec(rows, paths)[i] == rows[i],
{
    lemma_free_rows_props(rows, paths);
    lemma_missing_props(paths, rows);
    let f = free_rows(rows, paths);
    let m = missing_paths(paths, rows);
    let k = mark_count(rows, paths);
    assert forall|t1: int, t2: int| 0 <= t1 < t2 < f.len() implies f[t1] != f[t2] by {}
    lemma_assign_upto_props(rows, f, m, k);
    assert forall|t: int| 0 <= t < k implies f[t] != i by {
        if f[t] == i {
            assert(!serves_desired(rows[i], paths));
        }
    }
}

/// A marking pass never binds one path to two rows: row uniqueness is
/// preserved.
pub proof fn lemma_mark_unique(rows: Seq<RowState>, paths: Seq<PathId>)
    requires
        crate::row::rows_unique(rows),
    ensures
        crate::row::rows_unique(mark_spec(rows, paths)),
{
    lemma_free_rows_props(rows, paths);
    lemma_missing_props(paths, rows);
    let f = free_rows(rows, paths);
    let m = missing_paths(paths, rows);
    let k = mark_count(rows, paths);
    assert forall|t1: int, t2: int| 0 <= t1 < t2 < f.len() implies f[t1] != f[t2] by {}
    lemma_assign_upto_props(rows, f, m, k);
    let cur = mark_spec(rows, paths);
    assert forall|i: int, j: int|
        0 <= i < cur.len() && 0 <= j < cur.len() && i != j && cur[i].path_spec() is Some implies cur[i].path_spec()
        != cur[j].path_spec() by {
        if exists|t: int| 0 <= t < k && f[t] == i {
            let ti = choose|t: int| 0 <= t < k && f[t] == i;
            assert(cur[i] == RowState::NeedLoad(m[ti]));
            if exists|t: int| 0 <= t < k && f[t] == j {
                let tj = choose|t: int| 0 <= t < k && f[t] == j;
                assert(cur[j] == RowState::NeedLoad(m[tj]));
                assert(ti != tj);
                assert(m[ti] != m[tj]);
            } else {
                assert(cur[j] == rows[j]);
                if cur[j].path_spec() == Some(m[ti]) {
                    assert(row_present(rows, m[ti]));
                    assert(!row_present(rows, m[ti]));
                }
            }
        } else {
            assert(cur[i] == rows[i]);
            if exists|t: int| 0 <= t < k && f[t] == j {
                let tj = choose|t: int| 0 <= t < k && f[t] == j;
                assert(cur[j] == RowState::NeedLoad(m[tj]));
                if cur[i].path_spec() == Some(m[tj]) {
                    assert(row_present(rows, m[tj]));
                    assert(!row_present(rows, m[tj]));
                }
            } else {
                assert(cur[j] == rows[j]);
            }
        }
    }
}

/// After a marking pass a desired path is bound to some row exactly when it
/// already was, or when the free slots reached its place in the missing list.
pub proof fn lemma_mark_present(rows: Seq<RowState>, paths: Seq<PathId>, p: PathId)
    requires
        paths.contains(p),
    ensures
        row_present(mark_spec(rows, paths), p) <==> (row_present(rows, p) || exists|t: int|
            0 <= t < mark_count(rows, paths) && missing_paths(paths, rows)[t] == p),
{
    lemma_free_rows_props(rows, paths);
    lemma_assign_present(
        rows,
        paths,
        free_rows(rows, paths),
        missing_paths(paths, rows),
        mark_count(rows, paths),
        p,
    );
}

/// When the free slots suffice for every missing path, a marking pass leaves
/// every desired path bound to some row.
pub proof fn lemma_mark_all_present(rows: Seq<RowState>, paths: Seq<PathId>, p: PathId)
    requires
        paths.contains(p),
        missing_paths(paths, rows).len() <= free_rows(rows, paths).len(),
    ensures
        row_present(mark_spec(rows, paths), p),
{
    lemma_missing_props(paths, rows);
    lemma_mark_present(rows, paths, p);
    if !row_present(rows, p) {
        let m = missing_paths(paths, rows);
        assert(m.contains(p));
        let t = choose|t: int| 0 <= t < m.len() && m[t] == p;
        assert(0 <= t < mark_count(rows, paths) && m[t] == p);
    }
}

fn contains_path(paths: &Vec<PathId>, p: PathId) -> (r: bool)
    ensures
        r == paths@.contains(p),
{
    let n: usize = paths.len();
    let mut i: usize = 0;
    while i < n
        invariant
            i <= n,
            n == paths@.len(),
            forall|k: int| 0 <= k < i ==> paths@[k] != p,
        decreases n - i,
    {
        if paths[i] == p {
            return true;
        }
        i += 1;
    }
    false
}

fn row_bound_to(rows: &Vec<RowState>, p: PathId) -> (r: bool)
    ensures
        r == row_present(rows@, p),
{
    let n: usize = rows.len();
    let mut i: usize = 0;
    while i < n
        invariant
            i <= n,
            n == rows@.len(),
            forall|k: int| 0 <= k < i ==> rows@[k].path_spec() != Some(p),
        decreases n - i,
    {
        if rows[i].same_path(p) {
            return true;
        }
        i += 1;
    }
    false
}

/// A marking pass over the row states for the desired set `paths`: rows
/// already serving a desired path are left untouched; every desired path not
/// yet bound is assigned, in first-occurrence order, to the next free slot in
/// ascending row order, which transitions to `NeedLoad`.
pub fn mark_rows(rows: &mut Vec<RowState>, paths: &Vec<PathId>)
    ensures
        final(rows)@ == mark_spec(old(rows)@, paths@),
{
    let ghost rows0 = rows@;
    let n: usize = rows.len();

    // collect the free slots, ascending
    let mut free: Vec<usize> = Vec::new();
    let mut i: usize = 0;
    while i < n
        invariant
            i <= n,
            n == rows@.len(),
            rows@ == rows0,
            free@.len() == free_rows(rows0.take(i as int), paths@).len(),
            forall|k: int|
                0 <= k < free@.len() ==> #[trigger] free@[k] as int == free_rows(
                    rows0.take(i as int),
                    paths@,
                )[k],
        decreases n - i,
    {
        proof {
            assert(rows0.take(i + 1 as int).drop_last() =~= rows0.take(i as int));
            assert(rows0.take(i + 1 as int).last() == rows0[i as int]);
        }
        let serves: bool = match rows[i].path() {
            Some(p) => contains_path(paths, p),
            None => false,
        };
        if !serves {
            free.push(i);
        }
        i += 1;
    }
    proof {
        assert(rows0.take(n as int) =~= rows0);
        lemma_free_rows_props(rows0, paths@);
        lemma_missing_props(paths@, rows0);
    }
    let ghost fseq = free_rows(rows0, paths@);

    // bind each missing desired path to the next free slot
    let fcount: usize = free.len();
    let pcount: usize = paths.len();
    let mut assigned: usize = 0;
    let mut j: usize = 0;
    while j < pcount
        invariant
            j <= pcount,
            pcount == paths@.len(),
            n == rows@.len(),
            n == rows0.len(),
            fcount == free@.len(),
            assigned <= fcount,
            fseq == free_rows(rows0, paths@),
            fcount == fseq.len(),
            forall|k: int| 0 <= k < fcount ==> #[trigger] free@[k] as int == fseq[k],
            free_ok(rows0, paths@, fseq),
            missing_ok(paths@, rows0, missing_paths(paths@, rows0)),
            assigned as int == ({
                let mj = missing_paths(paths@.take(j as int), rows0);
                if mj.len() <= fcount {
                    mj.len() as int
                } else {
                    fcount as int
                }
            }),
            assigned <= missing_paths(paths@.take(j as int), rows0).len(),
            rows@ == assign_upto(
                rows0,
                fseq,
                missing_paths(paths@.take(j as int), rows0),
                assigned as int,
            ),
        decreases pcount - j,
    {
        let ghost mj = missing_paths(paths@.take(j as int), rows0);
        let ghost mj1 = missing_paths(paths@.take(j + 1 as int), rows0);
        proof {
            assert(paths@.take(j + 1 as int).drop_last() =~= paths@.take(j as int));
            assert(paths@.take(j + 1 as int).last() == paths@[j as int]);
        }
        let p = paths[j];
        if assigned < fcount {
            proof {
                lemma_assign_present(rows0, paths@, fseq, mj, assigned as int, p);
                assert(paths@.contains(p)) by {
                    assert(paths@[j as int] == p);
                }
            }
            let bound = row_bound_to(rows, p);
            if !bound {
                proof {
                    // p is neither bound in the original rows nor among the
                    // paths assigned so far, so it is the next missing path
                    assert(!row_present(rows0, p));
                    assert(!mj.contains(p)) by {
                        if mj.contains(p) {
                            let t = choose|t: int| 0 <= t < mj.len() && mj[t] == p;
                            assert(t < assigned as int);
                            assert(row_present(rows@, p));
                        }
                    }
                    assert(mj1 == mj.push(p));
                }
                let slot: usize = free[assigned];
                proof {
                    assert(slot as int == fseq[assigned as int]);
                    assert(0 <= fseq[assigned as int] < rows0.len());
                }
                rows.set(slot, RowState::NeedLoad(p));
                proof {
                    lemma_assign_prefix(rows0, fseq, mj, mj1, assigned as int);
                    assert(rows@ == assign_upto(rows0, fseq, mj1, assigned + 1 as int));
                }
                assigned += 1;
            } else {
                proof {
                    // p is already bound: either it was bound at the start or
                    // an earlier iteration bound it, so the missing list does
                    // not grow
                    assert(row_present(rows0, p) || mj.contains(p));
                    assert(mj1 == mj);
                }
            }
        } else {
            proof {
                // free slots are exhausted; the missing list may grow but the
                // bound count stays at the number of free slots
                assert(mj1 == mj || mj1 == mj.push(paths@[j as int]));
                lemma_assign_prefix(rows0, fseq, mj, mj1, assigned as int);
            }
        }
        j += 1;
    }
    proof {
        assert(paths@.take(pcount as int) =~= paths@);
    }
}

} // verus!
