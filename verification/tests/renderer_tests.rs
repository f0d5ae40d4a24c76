use path_view::view::{HALF_UNIT, UNIT};
use path_view::{LoadState, LoadedRow, NodeId, PathId, PathViewRenderer, RenderState, RowState};

#[test]
fn get_node_at_out_of_range_returns_no_data() {
    let r = PathViewRenderer::new(4, 3);
    assert_eq!(r.get_node_at(4, 0), None);
    assert_eq!(r.get_node_at(0, 3), None);
    assert_eq!(r.get_node_at(usize::MAX, usize::MAX), None);
    // a coordinate past the row width maps to no data even though the flat
    // buffer index would still fall inside a later row
    assert_eq!(r.get_node_at(5, 0), None);
}

#[test]
fn get_node_at_empty_cell_returns_no_data() {
    let r = PathViewRenderer::new(4, 3);
    assert_eq!(r.get_node_at(0, 0), None);
    assert_eq!(r.get_node_at(3, 2), None);
}

#[test]
fn get_node_at_reads_merged_cells() {
    let mut r = PathViewRenderer::new(4, 3);
    let loaded = vec![LoadedRow { row: 2, path: PathId(1), cells: vec![5, 0, 6, 7] }];
    r.merge_loaded_rows(&loaded, 3);
    assert_eq!(r.get_node_at(0, 2), Some(NodeId(5)));
    assert_eq!(r.get_node_at(1, 2), None);
    assert_eq!(r.get_node_at(2, 2), Some(NodeId(6)));
    assert_eq!(r.get_node_at(0, 0), None);
}

#[test]
fn merging_leaves_other_rows_untouched() {
    let mut r = PathViewRenderer::new(3, 3);
    r.merge_loaded_rows(&vec![LoadedRow { row: 0, path: PathId(1), cells: vec![1, 1, 1] }], 1);
    r.merge_loaded_rows(&vec![LoadedRow { row: 2, path: PathId(2), cells: vec![2, 2, 2] }], 3);
    assert_eq!(r.get_node_at(0, 0), Some(NodeId(1)));
    assert_eq!(r.get_node_at(1, 1), None);
    assert_eq!(r.get_node_at(2, 2), Some(NodeId(2)));
    assert_eq!(r.path_count, 3);
}

#[test]
fn a_fresh_renderer_is_idle_and_stale() {
    let r = PathViewRenderer::new(8, 4);
    assert_eq!(r.width, 8);
    assert_eq!(r.height, 4);
    assert!(r.loading_idle());
    assert!(!r.is_loading());
    assert!(r.render_idle());
    assert!(!r.is_rendering());
    assert!(!r.initialized());
    assert_eq!(r.fence_id(), None);
    assert!(r.state.should_reload);
    assert!(!r.should_rerender());
    assert_eq!(r.view.center, HALF_UNIT);
    assert_eq!(r.view.radius, HALF_UNIT);
    // no row needs a load yet, so the reload gate is closed
    assert!(!r.should_reload());
    for row in r.row_states.iter() {
        assert_eq!(*row, RowState::Null);
    }
}

#[test]
fn should_reload_requires_an_idle_load_and_a_stale_row() {
    let mut r = PathViewRenderer::new(8, 4);
    assert!(!r.should_reload());
    r.mark_load_paths(&vec![PathId(1)]);
    assert!(r.should_reload());
    assert!(r.begin_load());
    assert_eq!(r.state.loading, LoadState::Loading);
    assert!(!r.should_reload());
}

#[test]
fn navigation_marks_the_right_dirty_flags() {
    let mut r = PathViewRenderer::new(8, 4);
    r.pan(10);
    assert!(r.should_rerender());
    assert_eq!(r.state.rendering, RenderState::Idle);

    let mut r = PathViewRenderer::new(8, 4);
    r.state.should_reload = false;
    r.reset_zoom();
    assert!(r.state.should_reload);
    assert!(r.should_rerender());

    let mut r = PathViewRenderer::new(8, 4);
    r.state.should_reload = false;
    r.set_visible_range(0, UNIT / 4);
    assert!(r.state.should_reload);
    assert!(r.should_rerender());
    assert_eq!(r.view.center, UNIT / 8);
    assert_eq!(r.view.radius, UNIT / 8);

    // an identity zoom leaves the dirty flag alone
    let mut r = PathViewRenderer::new(8, 4);
    r.view.radius = HALF_UNIT / 2;
    let changed = r.zoom(path_view::view::FACTOR_ONE);
    assert!(!changed);
    assert!(!r.should_rerender());
}

#[test]
fn force_flags_set_and_stick() {
    let mut r = PathViewRenderer::new(8, 4);
    r.state.should_reload = false;
    r.force_reload();
    assert!(r.state.should_reload);
    r.force_rerender();
    assert!(r.should_rerender());
}

#[test]
fn visible_window_is_center_plus_minus_radius() {
    let mut r = PathViewRenderer::new(8, 4);
    r.set_visible_range(UNIT / 4, UNIT / 2);
    let (l, rt) = r.visible_window();
    assert_eq!(l, UNIT / 4);
    assert_eq!(rt, UNIT / 2);
}
