use path_view::steps::{compute_row, lower_bound, steps_valid};
use path_view::view::{FACTOR_ONE, UNIT};
use path_view::{
    LoadState, LoadTarget, LoadedRow, NodeId, PathId, PathStep, PathViewRenderer, RowState,
};

fn handle(node_id: u64) -> u64 {
    node_id << 1
}

fn steps_of(table: &[(u64, u64)]) -> Vec<PathStep> {
    table.iter().map(|&(h, pos)| PathStep { handle: h, pos }).collect()
}

#[test]
fn row_of_width_four_resolves_by_lower_insertion_point() {
    // steps (handle, cumulative position): [(h1, 0), (h2, 10), (h3, 20)],
    // visible window covering the whole path, row width 4
    let h1 = handle(1);
    let h2 = handle(2);
    let h3 = handle(3);
    let steps = steps_of(&[(h1, 0), (h2, 10), (h3, 20)]);
    let row = compute_row(&steps, 0, UNIT, 4);
    assert_eq!(row.len(), 4);
    // each column resolves to one of the three nodes
    for &cell in row.iter() {
        assert!(cell == 1 || cell == 2 || cell == 3);
    }
    // target coordinates are 1, 5, 10, 15; the lower insertion point against
    // positions [0, 10, 20] gives indexes 1, 1, 1, 2
    assert_eq!(row, vec![2, 2, 2, 3]);
}

#[test]
fn narrowed_window_shifts_the_columns() {
    let steps = steps_of(&[(handle(1), 0), (handle(2), 10), (handle(3), 20)]);
    // right half of the path only: targets 11, 12, 15, 17, all past the
    // second step's position, so every column lands on the last step
    let row = compute_row(&steps, UNIT / 2, UNIT, 4);
    assert_eq!(row, vec![3, 3, 3, 3]);
}

#[test]
fn single_step_path_fills_the_row_with_its_node() {
    let steps = steps_of(&[(handle(9), 0)]);
    let row = compute_row(&steps, 0, UNIT, 8);
    assert_eq!(row, vec![9; 8]);
}

#[test]
fn lower_bound_picks_the_first_equal_position() {
    let steps = steps_of(&[(handle(1), 5), (handle(2), 10), (handle(3), 10), (handle(4), 11)]);
    assert_eq!(lower_bound(&steps, 10), 1);
    assert_eq!(lower_bound(&steps, 0), 0);
    assert_eq!(lower_bound(&steps, 11), 3);
    assert_eq!(lower_bound(&steps, 12), 4);
}

#[test]
fn steps_valid_rejects_bad_tables() {
    assert!(!steps_valid(&steps_of(&[])));
    assert!(!steps_valid(&steps_of(&[(handle(1), 10), (handle(2), 5)])));
    // a handle whose node identifier is zero cannot fill a raster cell
    assert!(!steps_valid(&steps_of(&[(0, 0)])));
    assert!(steps_valid(&steps_of(&[(handle(1), 0), (handle(2), 7)])));
}

#[test]
fn full_load_round_clears_the_reload_gate() {
    let mut r = PathViewRenderer::new(4, 3);
    r.mark_load_paths(&vec![PathId(1), PathId(2)]);
    assert!(r.should_reload());

    assert!(r.begin_load());
    assert_eq!(r.state.loading, LoadState::Loading);
    // a second start while one is in flight is refused
    assert!(!r.begin_load());
    assert!(!r.should_reload());

    let targets = r.load_targets();
    assert_eq!(targets.len(), 2);
    assert_eq!(targets[0], LoadTarget { row: 0, path: PathId(1) });
    assert_eq!(targets[1], LoadTarget { row: 1, path: PathId(2) });
    let active = r.active_row_count();
    assert_eq!(active, 2);

    let steps_a = steps_of(&[(handle(1), 0), (handle(2), 10), (handle(3), 20)]);
    let steps_b = steps_of(&[(handle(7), 0), (handle(8), 100)]);
    assert!(steps_valid(&steps_a));
    assert!(steps_valid(&steps_b));
    let loaded = vec![
        LoadedRow { row: 0, path: PathId(1), cells: compute_row(&steps_a, 0, UNIT, 4) },
        LoadedRow { row: 1, path: PathId(2), cells: compute_row(&steps_b, 0, UNIT, 4) },
    ];
    r.merge_loaded_rows(&loaded, active);
    assert_eq!(r.path_count, 2);

    r.finish_load(&targets);
    assert_eq!(r.state.loading, LoadState::Idle);
    assert!(r.state.should_rerender);
    assert_eq!(r.row_states[0], RowState::Loaded(PathId(1)));
    assert_eq!(r.row_states[1], RowState::Loaded(PathId(2)));
    assert_eq!(r.view.translation, 0);
    assert_eq!(r.view.scaling, FACTOR_ONE);
    // no new marking happened in between, so nothing needs a reload
    assert!(!r.should_reload());

    // the merged pixels are readable
    assert_eq!(r.get_node_at(0, 0), Some(NodeId(2)));
    assert_eq!(r.get_node_at(3, 0), Some(NodeId(3)));
    assert_eq!(r.get_node_at(0, 1), Some(NodeId(8)));
}

#[test]
fn reassigned_row_is_not_promoted_by_a_stale_load() {
    let mut r = PathViewRenderer::new(4, 2);
    r.mark_load_paths(&vec![PathId(1)]);
    assert!(r.begin_load());
    let targets = r.load_targets();
    // while the load is in flight, a marking pass rebinds row 0
    r.row_states[0] = RowState::NeedLoad(PathId(9));
    r.finish_load(&targets);
    // the stale row keeps what the later pass set, and still needs a load
    assert_eq!(r.row_states[0], RowState::NeedLoad(PathId(9)));
    assert!(r.should_reload());
}

#[test]
fn abandoned_load_returns_to_idle_without_promotions() {
    let mut r = PathViewRenderer::new(4, 2);
    r.mark_load_paths(&vec![PathId(5)]);
    assert!(r.begin_load());
    r.abort_load();
    assert_eq!(r.state.loading, LoadState::Idle);
    assert_eq!(r.row_states[0], RowState::NeedLoad(PathId(5)));
    assert!(r.should_reload());
}

#[test]
fn active_row_count_is_highest_bound_row_plus_one() {
    let mut r = PathViewRenderer::new(4, 5);
    assert_eq!(r.active_row_count(), 0);
    r.row_states[3] = RowState::Loaded(PathId(1));
    assert_eq!(r.active_row_count(), 4);
    r.row_states[1] = RowState::NeedLoad(PathId(2));
    assert_eq!(r.active_row_count(), 4);
}

#[test]
fn longest_possible_path_does_not_overflow() {
    let steps = steps_of(&[(handle(1), 0), (handle(2), u64::MAX)]);
    let row = compute_row(&steps, 0, UNIT, 4);
    // every target coordinate lands past the first step's position
    assert_eq!(row, vec![2, 2, 2, 2]);
}

#[test]
fn widest_row_computes_every_column() {
    let steps = steps_of(&[(handle(1), 0), (handle(2), 10), (handle(3), 20)]);
    let row = compute_row(&steps, 0, UNIT, 65536);
    assert_eq!(row.len(), 65536);
    assert_eq!(row[0], 2);
    assert_eq!(row[65535], 3);
}
