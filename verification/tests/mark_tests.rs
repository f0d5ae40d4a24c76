use path_view::{PathId, PathViewRenderer, RowState};

fn renderer(height: usize) -> PathViewRenderer {
    PathViewRenderer::new(8, height)
}

fn ids(v: &[u64]) -> Vec<PathId> {
    v.iter().map(|&x| PathId(x)).collect()
}

#[test]
fn marks_paths_into_free_rows_in_ascending_order() {
    let mut r = renderer(4);
    r.mark_load_paths(&ids(&[7, 3, 9]));
    assert_eq!(r.row_states[0], RowState::NeedLoad(PathId(7)));
    assert_eq!(r.row_states[1], RowState::NeedLoad(PathId(3)));
    assert_eq!(r.row_states[2], RowState::NeedLoad(PathId(9)));
    assert_eq!(r.row_states[3], RowState::Null);
}

#[test]
fn never_evicts_a_row_serving_a_desired_path() {
    let mut r = renderer(4);
    r.row_states[1] = RowState::Loaded(PathId(3));
    r.mark_load_paths(&ids(&[3, 5]));
    // the row already serving path 3 is untouched; 5 takes the first free row
    assert_eq!(r.row_states[0], RowState::NeedLoad(PathId(5)));
    assert_eq!(r.row_states[1], RowState::Loaded(PathId(3)));
    assert_eq!(r.row_states[2], RowState::Null);
}

#[test]
fn reassigns_rows_whose_path_is_no_longer_desired() {
    let mut r = renderer(3);
    r.row_states[0] = RowState::Loaded(PathId(1));
    r.row_states[1] = RowState::Loaded(PathId(2));
    r.mark_load_paths(&ids(&[2, 8]));
    // row 0 served a path no longer desired and is the first free slot
    assert_eq!(r.row_states[0], RowState::NeedLoad(PathId(8)));
    assert_eq!(r.row_states[1], RowState::Loaded(PathId(2)));
    assert_eq!(r.row_states[2], RowState::Null);
}

#[test]
fn duplicate_desired_paths_get_one_row() {
    let mut r = renderer(4);
    r.mark_load_paths(&ids(&[6, 6, 6]));
    assert_eq!(r.row_states[0], RowState::NeedLoad(PathId(6)));
    assert_eq!(r.row_states[1], RowState::Null);
    assert_eq!(r.row_states[2], RowState::Null);
}

#[test]
fn repeated_marking_is_stable() {
    let mut r = renderer(4);
    r.mark_load_paths(&ids(&[4, 2]));
    let before = r.row_states.clone();
    r.mark_load_paths(&ids(&[4, 2]));
    assert_eq!(r.row_states, before);
}

#[test]
fn more_paths_than_rows_fills_every_row_once() {
    let mut r = renderer(2);
    r.mark_load_paths(&ids(&[10, 11, 12, 13]));
    assert_eq!(r.row_states[0], RowState::NeedLoad(PathId(10)));
    assert_eq!(r.row_states[1], RowState::NeedLoad(PathId(11)));
    // no path occupies two rows
    for i in 0..2 {
        for j in 0..2 {
            if i != j {
                assert_ne!(r.row_states[i].path(), r.row_states[j].path());
            }
        }
    }
}

#[test]
fn find_path_row_reports_the_bound_row() {
    let mut r = renderer(4);
    r.mark_load_paths(&ids(&[5, 6]));
    assert_eq!(r.find_path_row(PathId(6)), Some(1));
    assert_eq!(r.find_path_row(PathId(5)), Some(0));
    assert_eq!(r.find_path_row(PathId(99)), None);
}

#[test]
fn row_state_accessors() {
    let null = RowState::Null;
    let need = RowState::NeedLoad(PathId(4));
    let loaded = RowState::Loaded(PathId(4));
    assert!(null.is_null());
    assert!(!need.is_null());
    assert!(loaded.is_loaded());
    assert!(!need.is_loaded());
    assert!(loaded.is_loaded_path(PathId(4)));
    assert!(!loaded.is_loaded_path(PathId(5)));
    assert_eq!(need.path(), Some(PathId(4)));
    assert_eq!(null.path(), None);
    assert!(need.same_path(PathId(4)));
    assert!(!null.same_path(PathId(4)));
    assert_eq!(RowState::default(), RowState::Null);
}
