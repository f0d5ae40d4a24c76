use vstd::prelude::*;

use crate::loader::{
    active_count_spec, finish_cell, finish_rows_spec, lemma_finish_clears_need_load,
    load_targets_spec, LoadTarget, LoadedRow,
};
use crate::mark::{mark_rows, mark_spec};
use crate::row::{NodeId, PathId, RowState};
use crate::state::{LoadState, PathViewState, RenderState};
use crate::steps::MAX_WIDTH;
use crate::view::{
    clamped_center, enforce_spec, sat_add, scaled, shifted_center, zoomed_radius, ViewWindow,
    FACTOR_ONE, HALF_UNIT, UNIT,
};

verus! {

/// Tallest raster: one row per simultaneously displayable path.
pub const MAX_HEIGHT: usize = 4096;

/// The path-view core: the per-row load states, the shared flat buffer of row
/// pixel data (node identifiers per pixel, zero meaning no data), the view
/// navigator, the single-flight load and render flags, and the fence of the
/// in-flight GPU dispatch, if any.
pub struct PathViewRenderer {
    pub width: usize,
    pub height: usize,
    pub view: ViewWindow,
    pub state: PathViewState,
    pub row_states: Vec<RowState>,
    pub path_data: Vec<u32>,
    pub path_count: usize,
    pub fence_id: Option<u64>,
    pub initialized: bool,
}

proof fn lemma_rows_disjoint(width: int, r1: int, c1: int, r2: int)
    requires
        width >= 1,
        0 <= c1 < width,
        0 <= r1,
        0 <= r2,
        r1 != r2,
    ensures
        !(r2 * width <= r1 * width + c1 < r2 * width + width),
{
    assert(!(r2 * width <= r1 * width + c1 < r2 * width + width)) by (nonlinear_arith)
        requires
            width >= 1,
            0 <= c1 < width,
            0 <= r1,
            0 <= r2,
            r1 != r2,
    ;
}

proof fn lemma_cell_in_range(w: int, h: int, r: int, c: int)
    requires
        w >= 1,
        0 <= c < w,
        0 <= r < h,
    ensures
        0 <= r * w + c < w * h,
{
    assert(0 <= r * w + c < w * h) by (nonlinear_arith)
        requires
            w >= 1,
            0 <= c < w,
            0 <= r < h,
    ;
}

impl PathViewRenderer {
    /// Structural soundness: the row array matches the raster height, the
    /// buffer matches the raster area, the active count stays within the
    /// rows, and the view window respects its limits.
    pub open spec fn wf(self) -> bool {
        &&& 1 <= self.width <= MAX_WIDTH
        &&& 1 <= self.height <= MAX_HEIGHT
        &&& self.row_states@.len() == self.height
        &&& self.path_data@.len() == self.width * self.height
        &&& self.path_count <= self.height
        &&& self.view.clamped()
    }

    /// A fresh path view: all rows unused, the buffer empty, the window
    /// covering the whole domain, nothing in flight, a first reload requested.
    pub fn new(width: usize, height: usize) -> (s: Self)
        requires
            1 <= width <= MAX_WIDTH,
            1 <= height <= MAX_HEIGHT,
        ensures
            s.wf(),
            s.width == width,
            s.height == height,
            forall|i: int| 0 <= i < height ==> s.row_states@[i] == RowState::Null,
            forall|i: int| 0 <= i < s.path_data@.len() ==> s.path_data@[i] == 0,
            s.path_count == 0,
            s.view.center == HALF_UNIT,
            s.view.radius == HALF_UNIT,
            s.view.translation == 0,
            s.view.scaling == 0,
            s.state.loading == LoadState::Idle,
            s.state.rendering == RenderState::Idle,
            s.state.should_reload == true,
            s.state.should_rerender == false,
            s.fence_id is None,
            !s.initialized,
    {
        let mut rows: Vec<RowState> = Vec::new();
        let mut i: usize = 0;
        while i < height
            invariant
                i <= height,
                rows@.len() == i,
                forall|k: int| 0 <= k < i ==> rows@[k] == RowState::Null,
            decreases height - i,
        {
            rows.push(RowState::Null);
            i += 1;
        }
        proof {
            crate::steps::lemma_mul_bound(
                width as int,
                height as int,
                MAX_WIDTH as int,
                MAX_HEIGHT as int,
            );
        }
        let total: usize = width * height;
        let mut data: Vec<u32> = Vec::new();
        let mut j: usize = 0;
        while j < total
            invariant
                j <= total,
                data@.len() == j,
                forall|k: int| 0 <= k < j ==> data@[k] == 0,
            decreases total - j,
        {
            data.push(0u32);
            j += 1;
        }
        PathViewRenderer {
            width,
            height,
            view: ViewWindow::default(),
            state: PathViewState::default(),
            row_states: rows,
            path_data: data,
            path_count: 0,
            fence_id: None,
            initialized: false,
        }
    }

    pub fn initialized(&self) -> (r: bool)
        ensures
            r == self.initialized,
    {
        self.initialized
    }

    pub fn fence_id(&self) -> (r: Option<u64>)
        ensures
            r == self.fence_id,
    {
        self.fence_id
    }

    pub fn loading_idle(&self) -> (r: bool)
        ensures
            r == (self.state.loading == LoadState::Idle),
    {
        matches!(self.state.loading, LoadState::Idle)
    }

    pub fn is_loading(&self) -> (r: bool)
        ensures
            r == (self.state.loading == LoadState::Loading),
    {
        matches!(self.state.loading, LoadState::Loading)
    }

    pub fn render_idle(&self) -> (r: bool)
        ensures
            r == (self.state.rendering == RenderState::Idle),
    {
        matches!(self.state.rendering, RenderState::Idle)
    }

    pub fn is_rendering(&self) -> (r: bool)
        ensures
            r == (self.state.rendering == RenderState::Rendering),
    {
        matches!(self.state.rendering, RenderState::Rendering)
    }

    pub fn should_rerender(&self) -> (r: bool)
        ensures
            r == self.state.should_rerender,
    {
        self.state.should_rerender
    }

    pub fn force_reload(&mut self)
        ensures
            *final(self) == (PathViewRenderer {
                state: (PathViewState { should_reload: true, ..old(self).state }),
                ..*old(self)
            }),
    {
        self.state.should_reload = true;
    }

    pub fn force_rerender(&mut self)
        ensures
            *final(self) == (PathViewRenderer {
                state: (PathViewState { should_rerender: true, ..old(self).state }),
                ..*old(self)
            }),
    {
        self.state.should_rerender = true;
    }

    /// The sole gate the frame loop uses before starting a load: true exactly
    /// when no load is in flight and at least one row awaits one.
    pub open spec fn should_reload_spec(self) -> bool {
        self.state.loading == LoadState::Idle && exists|i: int|
            0 <= i < self.row_states@.len() && (#[trigger] self.row_states@[i]) is NeedLoad
    }

    /// True exactly when no load is in flight and some row still needs one.
    pub fn should_reload(&self) -> (r: bool)
        ensures
            r == self.should_reload_spec(),
    {
        if matches!(self.state.loading, LoadState::Loading) {
            return false;
        }
        let n: usize = self.row_states.len();
        let mut i: usize = 0;
        while i < n
            invariant
                i <= n,
                n == self.row_states@.len(),
                self.state.loading == LoadState::Idle,
                forall|k: int| 0 <= k < i ==> !((#[trigger] self.row_states@[k]) is NeedLoad),
            decreases n - i,
        {
            if matches!(self.row_states[i], RowState::NeedLoad(_)) {
                proof {
                    assert((self.row_states@[i as int]) is NeedLoad);
                }
                return true;
            }
            i += 1;
        }
        false
    }

    /// The first row bound to `path`, if any.
    pub fn find_path_row(&self, path: PathId) -> (r: Option<usize>)
        ensures
            (match r {
                Some(ix) => ix < self.row_states@.len() && self.row_states@[ix as int].path_spec()
                    == Some(path) && forall|k: int|
                    0 <= k < ix ==> (#[trigger] self.row_states@[k]).path_spec() != Some(path),
                None => forall|k: int|
                    0 <= k < self.row_states@.len() ==> (#[trigger] self.row_states@[k]).path_spec()
                        != Some(path),
            }),
    {
        let n: usize = self.row_states.len();
        let mut i: usize = 0;
        while i < n
            invariant
                i <= n,
                n == self.row_states@.len(),
                forall|k: int|
                    0 <= k < i ==> (#[trigger] self.row_states@[k]).path_spec() != Some(path),
            decreases n - i,
        {
            if self.row_states[i].same_path(path) {
                return Some(i);
            }
            i += 1;
        }
        None
    }

    /// A marking pass for the desired set `paths`: rows already serving a
    /// desired path are left as they are; each desired path not yet bound is
    /// assigned to the next free slot in ascending row order, which becomes
    /// `NeedLoad`. Only row state changes; the buffer and flags are untouched.
    pub fn mark_load_paths(&mut self, paths: &Vec<PathId>)
        ensures
            final(self).row_states@ == mark_spec(old(self).row_states@, paths@),
            *final(self) == (PathViewRenderer {
                row_states: final(self).row_states,
                ..*old(self)
            }),
            old(self).wf() ==> final(self).wf(),
            crate::row::rows_unique(old(self).row_states@) ==> crate::row::rows_unique(
                final(self).row_states@,
            ),
    {
        proof {
            crate::mark::lemma_mark_len(self.row_states@, paths@);
            if crate::row::rows_unique(self.row_states@) {
                crate::mark::lemma_mark_unique(self.row_states@, paths@);
            }
        }
        mark_rows(&mut self.row_states, paths);
    }

    /// Pan the window: the delta joins the transient translation and the
    /// coordinate-space center, limits are enforced, and a rerender is due.
    pub fn pan(&mut self, delta: i64)
        requires
            old(self).wf(),
        ensures
            final(self).wf(),
            final(self).view == enforce_spec(
                ViewWindow {
                    center: shifted_center(old(self).view.center, delta),
                    radius: old(self).view.radius,
                    translation: sat_add(old(self).view.translation, delta),
                    scaling: old(self).view.scaling,
                },
            ),
            final(self).state == (PathViewState { should_rerender: true, ..old(self).state }),
            *final(self) == (PathViewRenderer {
                view: final(self).view,
                state: final(self).state,
                ..*old(self)
            }),
    {
        self.view.pan(delta);
        self.state.should_rerender = true;
    }

    /// Zoom the window by the fixed-point `factor`; a rerender becomes due
    /// exactly when the clamped radius actually changed.
    pub fn zoom(&mut self, factor: u64) -> (changed: bool)
        requires
            old(self).wf(),
        ensures
            final(self).wf(),
            changed == (zoomed_radius(old(self).view.radius, factor) != old(self).view.radius),
            final(self).view.radius == zoomed_radius(old(self).view.radius, factor),
            final(self).view.center == clamped_center(
                old(self).view.center,
                final(self).view.radius,
            ),
            final(self).view.translation == old(self).view.translation,
            final(self).view.scaling == (if changed {
                scaled(old(self).view.scaling, factor)
            } else {
                old(self).view.scaling
            }),
            final(self).state == (PathViewState {
                should_rerender: old(self).state.should_rerender || changed,
                ..old(self).state
            }),
            *final(self) == (PathViewRenderer {
                view: final(self).view,
                state: final(self).state,
                ..*old(self)
            }),
    {
        let changed = self.view.zoom(factor);
        if changed {
            self.state.should_rerender = true;
        }
        changed
    }

    /// Reset the window to cover the whole domain; both a reload and a
    /// rerender become due.
    pub fn reset_zoom(&mut self)
        ensures
            final(self).view.center == HALF_UNIT,
            final(self).view.radius == HALF_UNIT,
            final(self).view.translation == old(self).view.translation,
            final(self).view.scaling == old(self).view.scaling,
            final(self).state == (PathViewState {
                should_reload: true,
                should_rerender: true,
                ..old(self).state
            }),
            *final(self) == (PathViewRenderer {
                view: final(self).view,
                state: final(self).state,
                ..*old(self)
            }),
            old(self).wf() ==> final(self).wf(),
    {
        self.view.reset_zoom();
        self.state.should_reload = true;
        self.state.should_rerender = true;
    }

    /// Set the window to cover `[left, right]` (each clamped to the domain);
    /// both a reload and a rerender become due.
    pub fn set_visible_range(&mut self, left: u64, right: u64)
        ensures
            final(self).view.clamped(),
            final(self).view.center == (crate::view::clamp_unit(if left <= right {
                left
            } else {
                right
            }) + crate::view::clamp_unit(if left <= right {
                right
            } else {
                left
            })) / 2,
            final(self).view.radius == (crate::view::clamp_unit(if left <= right {
                right
            } else {
                left
            }) - crate::view::clamp_unit(if left <= right {
                left
            } else {
                right
            })) / 2,
            final(self).view.translation == old(self).view.translation,
            final(self).view.scaling == old(self).view.scaling,
            final(self).state == (PathViewState {
                should_reload: true,
                should_rerender: true,
                ..old(self).state
            }),
            *final(self) == (PathViewRenderer {
                view: final(self).view,
                state: final(self).state,
                ..*old(self)
            }),
            old(self).wf() ==> final(self).wf(),
    {
        self.view.set_visible_range(left, right);
        self.state.should_reload = true;
        self.state.should_rerender = true;
    }

    /// The coordinate bounds of the visible window, `(left, right)`.
    pub fn visible_window(&self) -> (w: (u64, u64))
        requires
            self.wf(),
        ensures
            w.0 == self.view.center - self.view.radius,
            w.1 == self.view.center + self.view.radius,
            w.0 <= w.1 <= UNIT,
    {
        (self.view.center - self.view.radius, self.view.center + self.view.radius)
    }

    /// The active row count: highest-indexed non-`Null` row plus one. The GPU
    /// shader only considers rows below this count.
    pub fn active_row_count(&self) -> (n: usize)
        ensures
            n == active_count_spec(self.row_states@),
    {
        let len: usize = self.row_states.len();
        let mut count: usize = 0;
        let mut i: usize = 0;
        while i < len
            invariant
                i <= len,
                len == self.row_states@.len(),
                count == active_count_spec(self.row_states@.take(i as int)),
            decreases len - i,
        {
            proof {
                assert(self.row_states@.take(i + 1 as int).drop_last() =~= self.row_states@.take(
                    i as int,
                ));
                assert(self.row_states@.take(i + 1 as int).last() == self.row_states@[i as int]);
            }
            if !self.row_states[i].is_null() {
                count = i + 1;
            }
            i += 1;
        }
        proof {
            assert(self.row_states@.take(len as int) =~= self.row_states@);
        }
        count
    }

    /// The rows an in-flight load must recompute: every `NeedLoad` row with
    /// its path, in ascending row order.
    pub fn load_targets(&self) -> (t: Vec<LoadTarget>)
        ensures
            t@ == load_targets_spec(self.row_states@),
            forall|k: int|
                0 <= k < t@.len() ==> (#[trigger] t@[k].row) < self.row_states@.len(),
    {
        let len: usize = self.row_states.len();
        let mut t: Vec<LoadTarget> = Vec::new();
        let mut i: usize = 0;
        while i < len
            invariant
                i <= len,
                len == self.row_states@.len(),
                t@ == load_targets_spec(self.row_states@.take(i as int)),
                forall|k: int| 0 <= k < t@.len() ==> (#[trigger] t@[k].row) < i,
            decreases len - i,
        {
            proof {
                assert(self.row_states@.take(i + 1 as int).drop_last() =~= self.row_states@.take(
                    i as int,
                ));
                assert(self.row_states@.take(i + 1 as int).last() == self.row_states@[i as int]);
            }
            match self.row_states[i] {
                RowState::NeedLoad(p) => {
                    t.push(LoadTarget { row: i, path: p });
                },
                _ => {},
            }
            i += 1;
        }
        proof {
            assert(self.row_states@.take(len as int) =~= self.row_states@);
        }
        t
    }

    /// Try to start a load. Starting while one is in flight is a silent
    /// no-op: the single-flight invariant is enforced here, not by callers.
    pub fn begin_load(&mut self) -> (started: bool)
        ensures
            started == (old(self).state.loading == LoadState::Idle),
            started ==> *final(self) == (PathViewRenderer {
                state: (PathViewState { loading: LoadState::Loading, ..old(self).state }),
                ..*old(self)
            }),
            !started ==> *final(self) == *old(self),
    {
        match self.state.loading {
            LoadState::Loading => false,
            LoadState::Idle => {
                self.state.loading = LoadState::Loading;
                true
            },
        }
    }

    /// Abandon an in-flight load, as when the GPU copy could not be queued:
    /// the load state returns to idle and nothing else changes — in
    /// particular no row is promoted to `Loaded`.
    pub fn abort_load(&mut self)
        ensures
            *final(self) == (PathViewRenderer {
                state: (PathViewState { loading: LoadState::Idle, ..old(self).state }),
                ..*old(self)
            }),
    {
        self.state.loading = LoadState::Idle;
    }

    /// Overwrite one row of the buffer with freshly computed cells.
    fn write_row(&mut self, row: usize, cells: &Vec<u32>)
        requires
            old(self).wf(),
            row < old(self).height,
            cells@.len() == old(self).width,
        ensures
            final(self).wf(),
            *final(self) == (PathViewRenderer {
                path_data: final(self).path_data,
                ..*old(self)
            }),
            final(self).path_data@.len() == old(self).path_data@.len(),
            forall|idx: int|
                0 <= idx < old(self).path_data@.len() && !(row * old(self).width <= idx < row
                    * old(self).width + old(self).width)
                    ==> #[trigger] final(self).path_data@[idx] == old(self).path_data@[idx],
            forall|c: int|
                0 <= c < old(self).width ==> final(self).path_data@[row * old(self).width + c]
                    == #[trigger] cells@[c],
    {
        let width: usize = self.width;
        let total: usize = self.path_data.len();
        proof {
            assert(
                (row as int) * (width as int) + (width as int) <= (width as int) * (
                self.height as int)
            ) by (nonlinear_arith)
                requires
                    0 <= (row as int) < (self.height as int),
                    0 <= (width as int),
            ;
        }
        let start: usize = row * width;
        let mut c: usize = 0;
        while c < width
            invariant
                c <= width,
                width == old(self).width,
                start == row * width,
                cells@.len() == width,
                total == self.path_data@.len(),
                start + width <= total,
                self.path_data@.len() == old(self).path_data@.len(),
                *self == (PathViewRenderer { path_data: self.path_data, ..*old(self) }),
                forall|idx: int|
                    0 <= idx < self.path_data@.len() && !(start <= idx < start + c)
                        ==> #[trigger] self.path_data@[idx] == old(self).path_data@[idx],
                forall|k: int|
                    0 <= k < c ==> self.path_data@[start + k] == #[trigger] cells@[k],
            decreases width - c,
        {
            let v: u32 = cells[c];
            self.path_data.set(start + c, v);
            c += 1;
        }
    }

    /// Merge freshly computed rows into the shared buffer and record the
    /// active row count, as the load task does under exclusive access. Rows
    /// not among the merged ones keep their previous pixels.
    pub fn merge_loaded_rows(&mut self, loaded: &Vec<LoadedRow>, active: usize)
        requires
            old(self).wf(),
            active <= old(self).height,
            forall|k: int|
                0 <= k < loaded@.len() ==> (#[trigger] loaded@[k].row) < old(self).height,
            forall|k: int|
                0 <= k < loaded@.len() ==> (#[trigger] loaded@[k].cells@.len()) == old(self).width,
            forall|k1: int, k2: int|
                0 <= k1 < k2 < loaded@.len() ==> loaded@[k1].row != loaded@[k2].row,
        ensures
            final(self).wf(),
            *final(self) == (PathViewRenderer {
                path_data: final(self).path_data,
                path_count: active,
                ..*old(self)
            }),
            final(self).path_data@.len() == old(self).path_data@.len(),
            forall|k: int, c: int|
                0 <= k < loaded@.len() && 0 <= c < old(self).width
                    ==> final(self).path_data@[loaded@[k].row * old(self).width + c]
                    == #[trigger] loaded@[k].cells@[c],
            forall|idx: int|
                0 <= idx < old(self).path_data@.len() && (forall|k: int|
                    0 <= k < loaded@.len() ==> !((#[trigger] loaded@[k].row) * old(self).width
                        <= idx < loaded@[k].row * old(self).width + old(self).width))
                    ==> #[trigger] final(self).path_data@[idx] == old(self).path_data@[idx],
    {
        let n: usize = loaded.len();
        let ghost w = old(self).width as int;
        let mut k: usize = 0;
        while k < n
            invariant
                k <= n,
                n == loaded@.len(),
                w == old(self).width as int,
                self.wf(),
                *self == (PathViewRenderer { path_data: self.path_data, ..*old(self) }),
                self.path_data@.len() == old(self).path_data@.len(),
                forall|t: int| 0 <= t < n ==> (#[trigger] loaded@[t].row) < old(self).height,
                forall|t: int|
                    0 <= t < n ==> (#[trigger] loaded@[t].cells@.len()) == old(self).width,
                forall|t1: int, t2: int|
                    0 <= t1 < t2 < n ==> loaded@[t1].row != loaded@[t2].row,
                forall|t: int, c: int|
                    0 <= t < k && 0 <= c < w ==> self.path_data@[loaded@[t].row * w + c]
                        == #[trigger] loaded@[t].cells@[c],
                forall|idx: int|
                    0 <= idx < self.path_data@.len() && (forall|t: int|
                        0 <= t < k ==> !((#[trigger] loaded@[t].row) * w <= idx < loaded@[t].row
                            * w + w))
                        ==> #[trigger] self.path_data@[idx] == old(self).path_data@[idx],
            decreases n - k,
        {
            let ghost prev = self.path_data@;
            let item = &loaded[k];
            self.write_row(item.row, &item.cells);
            proof {
                let rk = loaded@[k as int].row as int;
                assert forall|t: int, c: int|
                    0 <= t < k + 1 && 0 <= c < w implies self.path_data@[loaded@[t].row * w + c]
                    == #[trigger] loaded@[t].cells@[c] by {
                    let rt = loaded@[t].row as int;
                    lemma_cell_in_range(w, old(self).height as int, rt, c);
                    if t < k {
                        lemma_rows_disjoint(w, rt, c, rk);
                        assert(self.path_data@[rt * w + c] == prev[rt * w + c]);
                    }
                }
                assert forall|idx: int|
                    0 <= idx < self.path_data@.len() && (forall|t: int|
                        0 <= t < k + 1 ==> !((#[trigger] loaded@[t].row) * w <= idx
                            < loaded@[t].row * w + w)) implies #[trigger] self.path_data@[idx]
                    == old(self).path_data@[idx] by {
                    assert(!(rk * w <= idx < rk * w + w));
                    assert(self.path_data@[idx] == prev[idx]);
                }
            }
            k += 1;
        }
        self.path_count = active;
    }

    /// Complete a load whose GPU copy succeeded: flip each target row to
    /// `Loaded` if it still shows the same path — a row a concurrent marking
    /// pass rebound while the load was in flight is left at whatever that
    /// pass set — return the load state to idle, reset the transient pan and
    /// zoom to identity, and ask for a rerender. When the targets are exactly
    /// the rows that needed a load, none is left needing one afterwards.
    pub fn finish_load(&mut self, loaded: &Vec<LoadTarget>)
        requires
            old(self).wf(),
            forall|k: int|
                0 <= k < loaded@.len() ==> (#[trigger] loaded@[k].row) < old(self).height,
        ensures
            final(self).wf(),
            final(self).row_states@ == finish_rows_spec(old(self).row_states@, loaded@),
            final(self).state == (PathViewState {
                loading: LoadState::Idle,
                should_rerender: true,
                ..old(self).state
            }),
            final(self).view == (ViewWindow {
                translation: 0,
                scaling: FACTOR_ONE,
                ..old(self).view
            }),
            *final(self) == (PathViewRenderer {
                row_states: final(self).row_states,
                state: final(self).state,
                view: final(self).view,
                ..*old(self)
            }),
            loaded@ == load_targets_spec(old(self).row_states@)
                ==> !final(self).should_reload_spec(),
            crate::row::rows_unique(old(self).row_states@) ==> crate::row::rows_unique(
                final(self).row_states@,
            ),
    {
        proof {
            if crate::row::rows_unique(self.row_states@) {
                crate::loader::lemma_finish_unique(self.row_states@, loaded@);
            }
        }
        let ghost rows0 = self.row_states@;
        let n: usize = loaded.len();
        let mut k: usize = 0;
        while k < n
            invariant
                k <= n,
                n == loaded@.len(),
                rows0.len() == old(self).height,
                self.row_states@.len() == rows0.len(),
                forall|t: int| 0 <= t < n ==> (#[trigger] loaded@[t].row) < rows0.len(),
                *self == (PathViewRenderer { row_states: self.row_states, ..*old(self) }),
                forall|i: int|
                    0 <= i < rows0.len() ==> #[trigger] self.row_states@[i] == finish_cell(
                        rows0[i],
                        i,
                        loaded@.take(k as int),
                    ),
            decreases n - k,
        {
            let ghost pre = self.row_states@;
            let t: LoadTarget = loaded[k];
            let cur: RowState = self.row_states[t.row];
            let flip: bool = match cur {
                RowState::NeedLoad(p) => p == t.path,
                _ => false,
            };
            if flip {
                self.row_states.set(t.row, RowState::Loaded(t.path));
            }
            proof {
                let lk = loaded@.take(k as int);
                let lk1 = loaded@.take(k + 1 as int);
                assert(lk1.drop_last() =~= lk);
                assert(lk1.last() == loaded@[k as int]);
                assert forall|i: int|
                    0 <= i < rows0.len() implies #[trigger] self.row_states@[i] == finish_cell(
                    rows0[i],
                    i,
                    lk1,
                ) by {
                    let ti = loaded@[k as int].row as int;
                    if i != ti {
                        assert(self.row_states@[i] == pre[i]);
                        // the one new target names another row, so the cell
                        // spec does not change at i
                        if rows0[i] is NeedLoad {
                            let p = rows0[i].path_spec().unwrap();
                            if exists|j: int|
                                0 <= j < lk1.len() && lk1[j].row == i && lk1[j].path == p {
                                let j = choose|j: int|
                                    0 <= j < lk1.len() && lk1[j].row == i && lk1[j].path == p;
                                assert(j < k as int);
                                assert(lk[j] == lk1[j]);
                            }
                        }
                    } else {
                        if rows0[i] is NeedLoad {
                            let p = rows0[i].path_spec().unwrap();
                            if exists|j: int|
                                0 <= j < lk.len() && lk[j].row == i && lk[j].path == p {
                                // already promoted by an earlier target
                                let j = choose|j: int|
                                    0 <= j < lk.len() && lk[j].row == i && lk[j].path == p;
                                assert(lk1[j] == lk[j]);
                                assert(finish_cell(rows0[i], i, lk) == RowState::Loaded(p));
                                assert(self.row_states@[i] == pre[i]);
                            } else {
                                if loaded@[k as int].path == p {
                                    assert(finish_cell(rows0[i], i, lk) == rows0[i]);
                                    assert(pre[i] == rows0[i]);
                                    assert(lk1[k as int].row == i && lk1[k as int].path == p);
                                    assert(self.row_states@[i] == RowState::Loaded(p));
                                } else {
                                    assert(pre[i] == rows0[i]);
                                    assert(self.row_states@[i] == pre[i]);
                                    if exists|j: int|
                                        0 <= j < lk1.len() && lk1[j].row == i && lk1[j].path
                                            == p {
                                        let j = choose|j: int|
                                            0 <= j < lk1.len() && lk1[j].row == i && lk1[j].path
                                                == p;
                                        assert(j < k as int);
                                        assert(lk[j] == lk1[j]);
                                    }
                                }
                            }
                        } else {
                            assert(pre[i] == rows0[i]);
                            assert(self.row_states@[i] == pre[i]);
                        }
                    }
                }
            }
            k += 1;
        }
        proof {
            assert(loaded@.take(n as int) =~= loaded@);
            assert(self.row_states@ =~= finish_rows_spec(rows0, loaded@));
        }
        self.state.loading = LoadState::Idle;
        self.state.should_rerender = true;
        self.view.reset_transient();
        proof {
            if loaded@ == load_targets_spec(rows0) {
                lemma_finish_clears_need_load(rows0);
            }
        }
    }

    /// Read the node at pixel `(x, y)`: `None` for a coordinate outside the
    /// raster and for an empty cell.
    pub fn get_node_at(&self, x: usize, y: usize) -> (r: Option<NodeId>)
        requires
            self.wf(),
        ensures
            (if x < self.width && y < self.height && self.path_data@[y * self.width + x] != 0 {
                r == Some(NodeId((self.path_data@[y * self.width + x]) as u64))
            } else {
                r is None
            }),
    {
        if x >= self.width || y >= self.height {
            return None;
        }
        let total: usize = self.path_data.len();
        proof {
            assert(
                (y as int) * (self.width as int) + (x as int) < (self.width as int) * (
                self.height as int)
            ) by (nonlinear_arith)
                requires
                    0 <= x < self.width,
                    0 <= y < self.height,
            ;
        }
        let ix: usize = y * self.width + x;
        let raw: u32 = self.path_data[ix];
        if raw == 0 {
            None
        } else {
            Some(NodeId(raw as u64))
        }
    }
}

} // verus!
