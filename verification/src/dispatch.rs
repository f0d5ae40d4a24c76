use vstd::prelude::*;

use crate::renderer::PathViewRenderer;
use crate::state::{PathViewState, RenderState};

verus! {

/// Which of the two precompiled compute pipelines a dispatch selects: one for
/// RGB-valued overlays, one for scalar-valued ones.
#[derive(Clone, Copy, PartialEq, Eq, Structural, Debug)]
pub enum OverlayKind {
    Rgb,
    Value,
}

/// The push constants of one compute dispatch: how many rows the shader may
/// read, the raster dimensions, a reserved word, and the transient pan and
/// zoom the shader applies for visual smoothness between reloads.
#[derive(Clone, Copy, PartialEq, Eq, Structural, Debug)]
pub struct PushConstants {
    pub active_rows: u32,
    pub width: u32,
    pub height: u32,
    pub reserved: u32,
    pub translation: i64,
    pub scaling: u64,
}

/// Everything the host must record into a command buffer for one dispatch:
/// the pipeline selection and the push constants.
#[derive(Clone, Copy, PartialEq, Eq, Structural, Debug)]
pub struct DispatchCmd {
    pub kind: OverlayKind,
    pub push: PushConstants,
}

impl PathViewRenderer {
    /// A new dispatch may be issued: none is rendering and no fence is held.
    pub open spec fn can_dispatch(self) -> bool {
        self.state.rendering == RenderState::Idle && self.fence_id is None
    }

    /// The state after a completed dispatch has been drained: the fence is
    /// released, rendering is idle again, and the first completed frame marks
    /// the renderer initialized.
    pub open spec fn complete_spec(self) -> PathViewRenderer {
        PathViewRenderer {
            fence_id: None,
            initialized: true,
            state: PathViewState { rendering: RenderState::Idle, ..self.state },
            ..self
        }
    }

    /// Whether a non-blocking poll drains the dispatch: a fence is held and
    /// it reports signaled.
    pub open spec fn complete_fires(self, fence_ready: bool) -> bool {
        self.fence_id is Some && fence_ready
    }

    /// Try to issue a compute dispatch. While one is rendering or a fence is
    /// still held this is a silent no-op — repeated dirty flags coalesce into
    /// at most one outstanding dispatch. Otherwise the rerender flag is
    /// consumed, the render state turns to `Rendering`, and the returned
    /// command says what the host must record and submit.
    pub fn dispatch(&mut self, overlay_kind: OverlayKind) -> (cmd: Option<DispatchCmd>)
        requires
            old(self).wf(),
        ensures
            final(self).wf(),
            !old(self).can_dispatch() ==> cmd is None && *final(self) == *old(self),
            old(self).can_dispatch() ==> cmd == Some(
                DispatchCmd {
                    kind: overlay_kind,
                    push: PushConstants {
                        active_rows: old(self).path_count as u32,
                        width: old(self).width as u32,
                        height: old(self).height as u32,
                        reserved: 0,
                        translation: old(self).view.translation,
                        scaling: old(self).view.scaling,
                    },
                },
            ) && *final(self) == (PathViewRenderer {
                state: (PathViewState {
                    rendering: RenderState::Rendering,
                    should_rerender: false,
                    ..old(self).state
                }),
                ..*old(self)
            }),
    {
        if self.is_rendering() {
            return None;
        }
        if self.fence_id.is_some() {
            return None;
        }
        self.state.should_rerender = false;
        self.state.rendering = RenderState::Rendering;
        Some(
            DispatchCmd {
                kind: overlay_kind,
                push: PushConstants {
                    active_rows: self.path_count as u32,
                    width: self.width as u32,
                    height: self.height as u32,
                    reserved: 0,
                    translation: self.view.translation,
                    scaling: self.view.scaling,
                },
            },
        )
    }

    /// Store the fence of the dispatch just submitted. At most one fence may
    /// be outstanding per renderer.
    pub fn record_fence(&mut self, fence: u64)
        requires
            old(self).fence_id is None,
            old(self).state.rendering == RenderState::Rendering,
        ensures
            *final(self) == (PathViewRenderer { fence_id: Some(fence), ..*old(self) }),
    {
        self.fence_id = Some(fence);
    }

    /// Recover from a failed submission: rendering returns to idle and the
    /// rerender flag is restored, so the next frame's natural check retries.
    pub fn abort_dispatch(&mut self)
        requires
            old(self).fence_id is None,
        ensures
            *final(self) == (PathViewRenderer {
                state: (PathViewState {
                    rendering: RenderState::Idle,
                    should_rerender: true,
                    ..old(self).state
                }),
                ..*old(self)
            }),
    {
        self.state.rendering = RenderState::Idle;
        self.state.should_rerender = true;
    }

    /// Non-blocking poll, to be called every frame: `fence_ready` reports
    /// whether the held fence, if any, is signaled. Returns true exactly once
    /// per fence — when it first reports signaled — after which the fence is
    /// released and the render state reads idle.
    pub fn dispatch_complete(&mut self, fence_ready: bool) -> (done: bool)
        ensures
            done == old(self).complete_fires(fence_ready),
            done ==> *final(self) == old(self).complete_spec(),
            !done ==> *final(self) == *old(self),
    {
        match self.fence_id {
            Some(_) => {
                if fence_ready {
                    self.fence_id = None;
                    self.state.rendering = RenderState::Idle;
                    self.initialized = true;
                    true
                } else {
                    false
                }
            },
            None => false,
        }
    }

    /// Whether a dispatch is still in flight: a fence is held and it does not
    /// yet report signaled.
    pub fn running(&self, fence_ready: bool) -> (r: bool)
        ensures
            r == (self.fence_id is Some && !fence_ready),
    {
        match self.fence_id {
            Some(_) => !fence_ready,
            None => false,
        }
    }

    /// Drain after the host blocked on the held fence and freed it, as at
    /// shutdown: the fence is released, rendering is idle, the rerender flag
    /// clears, and the renderer counts as initialized. Without a held fence
    /// this is a no-op.
    pub fn block_on_fence(&mut self)
        ensures
            old(self).fence_id is Some ==> *final(self) == (PathViewRenderer {
                fence_id: None,
                initialized: true,
                state: (PathViewState {
                    rendering: RenderState::Idle,
                    should_rerender: false,
                    ..old(self).state
                }),
                ..*old(self)
            }),
            old(self).fence_id is None ==> *final(self) == *old(self),
    {
        match self.fence_id {
            Some(_) => {
                self.fence_id = None;
                self.state.rendering = RenderState::Idle;
                self.state.should_rerender = false;
                self.initialized = true;
            },
            None => {},
        }
    }
}

/// Draining a dispatch fires exactly once per fence: once a poll has reported
/// completion, the render state reads idle and every further poll reports
/// false until a new dispatch records a fence.
pub proof fn lemma_dispatch_complete_once(s: PathViewRenderer, ready1: bool, ready2: bool)
    requires
        s.complete_fires(ready1),
    ensures
        s.complete_spec().state.rendering == RenderState::Idle,
        !s.complete_spec().complete_fires(ready2),
{
}

} // verus!
