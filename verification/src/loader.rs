use vstd::prelude::*;

use crate::mark::{mark_spec, missing_paths, free_rows};
use crate::row::{rows_unique, PathId, RowState};

verus! {

/// One row an in-flight load must recompute: the row index and the path it
/// was bound to when the load began.
#[derive(Clone, Copy, PartialEq, Eq, Structural, Debug)]
pub struct LoadTarget {
    pub row: usize,
    pub path: PathId,
}

/// One freshly computed row ready to merge into the shared buffer.
pub struct LoadedRow {
    pub row: usize,
    pub path: PathId,
    pub cells: Vec<u32>,
}

/// The rows an in-flight load must recompute: every `NeedLoad` row with its
/// path, in ascending row order.
pub open spec fn load_targets_spec(rows: Seq<RowState>) -> Seq<LoadTarget>
    decreases rows.len(),
{
    if rows.len() == 0 {
        Seq::empty()
    } else {
        let pre = load_targets_spec(rows.drop_last());
        match rows.last() {
            RowState::NeedLoad(p) => pre.push(
                LoadTarget { row: (rows.len() - 1) as usize, path: p },
            ),
            _ => pre,
        }
    }
}

/// The active row count: highest-indexed non-`Null` row plus one, or zero when
/// every row is unused. Bounds how many rows the GPU shader considers.
pub open spec fn active_count_spec(rows: Seq<RowState>) -> int
    decreases rows.len(),
{
    if rows.len() == 0 {
        0
    } else if !(rows.last() is Null) {
        rows.len() as int
    } else {
        active_count_spec(rows.drop_last())
    }
}

/// What a completed load leaves of one row: a `NeedLoad` row flips to `Loaded`
/// exactly when the load computed it for the same path it is still bound to;
/// every other row — including one a concurrent marking pass rebound while the
/// load was in flight — is left as it stands.
pub open spec fn finish_cell(r: RowState, i: int, loaded: Seq<LoadTarget>) -> RowState {
    match r {
        RowState::NeedLoad(p) => {
            if exists|k: int| 0 <= k < loaded.len() && loaded[k].row == i && loaded[k].path == p {
                RowState::Loaded(p)
            } else {
                r
            }
        },
        _ => r,
    }
}

/// The row states after a completed load verified its targets row by row.
pub open spec fn finish_rows_spec(rows: Seq<RowState>, loaded: Seq<LoadTarget>) -> Seq<RowState> {
    Seq::new(rows.len(), |i: int| finish_cell(rows[i], i, loaded))
}

/// The target list is complete: every `NeedLoad` row appears in it.
pub proof fn lemma_targets_complete(rows: Seq<RowState>, i: int)
    requires
        rows.len() <= usize::MAX,
        0 <= i < rows.len(),
        rows[i] is NeedLoad,
    ensures
        exists|k: int|
            0 <= k < load_targets_spec(rows).len() && #[trigger] load_targets_spec(rows)[k].row
                == i && load_targets_spec(rows)[k].path == rows[i].path_spec().unwrap(),
    decreases rows.len(),
{
    let t = load_targets_spec(rows);
    if i == rows.len() - 1 {
        assert(rows.last() == rows[i]);
        assert(t[t.len() - 1].row == i);
    } else {
        let d = rows.drop_last();
        assert(d[i] == rows[i]);
        lemma_targets_complete(d, i);
        let pre = load_targets_spec(d);
        let k = choose|k: int|
            0 <= k < pre.len() && #[trigger] pre[k].row == i && pre[k].path
                == d[i].path_spec().unwrap();
        assert(t[k] == pre[k]);
    }
}

/// A completed load touches no path binding: it only promotes `NeedLoad` rows
/// to `Loaded`.
pub proof fn lemma_finish_preserves_paths(rows: Seq<RowState>, loaded: Seq<LoadTarget>)
    ensures
        finish_rows_spec(rows, loaded).len() == rows.len(),
        forall|i: int|
            0 <= i < rows.len() ==> #[trigger] finish_rows_spec(rows, loaded)[i].path_spec()
                == rows[i].path_spec(),
{
}

/// A completed load preserves row uniqueness.
pub proof fn lemma_finish_unique(rows: Seq<RowState>, loaded: Seq<LoadTarget>)
    requires
        rows_unique(rows),
    ensures
        rows_unique(finish_rows_spec(rows, loaded)),
{
    lemma_finish_preserves_paths(rows, loaded);
}

/// A load that finishes against the very row states its targets were computed
/// from leaves no row in `NeedLoad`.
pub proof fn lemma_finish_clears_need_load(rows: Seq<RowState>)
    requires
        rows.len() <= usize::MAX,
    ensures
        forall|i: int|
            0 <= i < rows.len() ==> !(#[trigger] finish_rows_spec(
                rows,
                load_targets_spec(rows),
            )[i] is NeedLoad),
{
    assert forall|i: int|
        0 <= i < rows.len() implies !(#[trigger] finish_rows_spec(
        rows,
        load_targets_spec(rows),
    )[i] is NeedLoad) by {
        if rows[i] is NeedLoad {
            lemma_targets_complete(rows, i);
        }
    }
}

/// The row states after one full round: a marking pass for the desired set
/// `paths`, then a load over that pass's targets completing undisturbed.
pub open spec fn settled_rows(rows: Seq<RowState>, paths: Seq<PathId>) -> Seq<RowState> {
    finish_rows_spec(mark_spec(rows, paths), load_targets_spec(mark_spec(rows, paths)))
}

/// A path in the desired set of the latest marking pass is, once a load
/// derived from that pass completes undisturbed, represented by exactly one
/// row, in state `Loaded` — never two. Requires the pass to have had a free
/// slot for every missing desired path; uniqueness itself needs no such slack.
pub proof fn lemma_desired_path_loaded_once(
    rows: Seq<RowState>,
    paths: Seq<PathId>,
    p: PathId,
)
    requires
        rows.len() <= usize::MAX,
        rows_unique(rows),
        paths.contains(p),
        missing_paths(paths, rows).len() <= free_rows(rows, paths).len(),
    ensures
        rows_unique(settled_rows(rows, paths)),
        exists|i: int|
            0 <= i < settled_rows(rows, paths).len() && #[trigger] settled_rows(rows, paths)[i]
                == RowState::Loaded(p) && (forall|j: int|
                0 <= j < settled_rows(rows, paths).len() && j != i
                    ==> #[trigger] settled_rows(rows, paths)[j].path_spec() != Some(p)),
{
    let marked = mark_spec(rows, paths);
    let fin = settled_rows(rows, paths);
    crate::mark::lemma_mark_len(rows, paths);
    crate::mark::lemma_mark_all_present(rows, paths, p);
    crate::mark::lemma_mark_unique(rows, paths);
    lemma_finish_unique(marked, load_targets_spec(marked));
    lemma_finish_preserves_paths(marked, load_targets_spec(marked));
    lemma_finish_clears_need_load(marked);
    let i = choose|i: int| 0 <= i < marked.len() && marked[i].path_spec() == Some(p);
    assert(fin[i].path_spec() == Some(p));
    assert(!(fin[i] is NeedLoad));
    assert(fin[i] == RowState::Loaded(p));
    assert forall|j: int| 0 <= j < fin.len() && j != i implies #[trigger] fin[j].path_spec()
        != Some(p) by {
        if fin[j].path_spec() == Some(p) {
            assert(fin[i].path_spec() == fin[j].path_spec());
        }
    }
}

} // verus!
