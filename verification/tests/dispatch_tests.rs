use path_view::{OverlayKind, PathId, PathViewRenderer, RenderState, RowState};

#[test]
fn dispatch_complete_fires_exactly_once_per_fence() {
    let mut r = PathViewRenderer::new(8, 4);
    let cmd = r.dispatch(OverlayKind::Rgb);
    assert!(cmd.is_some());
    assert_eq!(r.state.rendering, RenderState::Rendering);
    r.record_fence(17);

    // not signaled yet: nothing drains
    assert!(!r.dispatch_complete(false));
    assert_eq!(r.state.rendering, RenderState::Rendering);

    // the first signaled poll drains the fence
    assert!(r.dispatch_complete(true));
    assert_eq!(r.state.rendering, RenderState::Idle);
    assert_eq!(r.fence_id, None);
    assert!(r.initialized());

    // every later poll reports false until a new dispatch records a fence
    assert!(!r.dispatch_complete(true));
    assert!(!r.dispatch_complete(false));
    assert_eq!(r.state.rendering, RenderState::Idle);
}

#[test]
fn second_dispatch_while_rendering_is_rejected_silently() {
    let mut r = PathViewRenderer::new(8, 4);
    assert!(r.dispatch(OverlayKind::Value).is_some());
    assert!(r.dispatch(OverlayKind::Value).is_none());
    r.record_fence(3);
    assert!(r.dispatch(OverlayKind::Rgb).is_none());
    assert!(r.dispatch_complete(true));
    assert!(r.dispatch(OverlayKind::Rgb).is_some());
}

#[test]
fn dispatch_consumes_the_rerender_flag() {
    let mut r = PathViewRenderer::new(8, 4);
    r.force_rerender();
    assert!(r.should_rerender());
    assert!(r.dispatch(OverlayKind::Rgb).is_some());
    assert!(!r.should_rerender());
}

#[test]
fn dispatch_carries_the_push_constants() {
    let mut r = PathViewRenderer::new(16, 4);
    r.row_states[2] = RowState::Loaded(PathId(1));
    let active = r.active_row_count();
    r.merge_loaded_rows(&Vec::new(), active);
    r.pan(5);
    let cmd = r.dispatch(OverlayKind::Value).unwrap();
    assert_eq!(cmd.kind, OverlayKind::Value);
    assert_eq!(cmd.push.active_rows, 3);
    assert_eq!(cmd.push.width, 16);
    assert_eq!(cmd.push.height, 4);
    assert_eq!(cmd.push.reserved, 0);
    assert_eq!(cmd.push.translation, 5);
    assert_eq!(cmd.push.scaling, 0);
}

#[test]
fn failed_submission_restores_the_dirty_flag() {
    let mut r = PathViewRenderer::new(8, 4);
    r.force_rerender();
    assert!(r.dispatch(OverlayKind::Rgb).is_some());
    assert!(!r.should_rerender());
    r.abort_dispatch();
    assert_eq!(r.state.rendering, RenderState::Idle);
    assert!(r.should_rerender());
    // the next frame may retry
    assert!(r.dispatch(OverlayKind::Rgb).is_some());
}

#[test]
fn running_reports_an_unsignaled_fence() {
    let mut r = PathViewRenderer::new(8, 4);
    assert!(!r.running(false));
    assert!(r.dispatch(OverlayKind::Rgb).is_some());
    r.record_fence(1);
    assert!(r.running(false));
    assert!(!r.running(true));
}

#[test]
fn block_on_fence_drains_and_marks_initialized() {
    let mut r = PathViewRenderer::new(8, 4);
    r.block_on_fence();
    assert!(!r.initialized());

    assert!(r.dispatch(OverlayKind::Rgb).is_some());
    r.record_fence(11);
    r.force_rerender();
    r.block_on_fence();
    assert_eq!(r.fence_id, None);
    assert_eq!(r.state.rendering, RenderState::Idle);
    assert!(!r.should_rerender());
    assert!(r.initialized());
}
