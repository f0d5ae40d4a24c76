use vstd::prelude::*;

verus! {

/// Whether a row load is in flight. At most one load may be in flight: a new
/// load is only started when `Idle`.
#[derive(Clone, Copy, PartialEq, Eq, Structural, Debug)]
pub enum LoadState {
    Idle,
    Loading,
}

/// Whether a GPU compute dispatch is in flight. At most one dispatch may be
/// outstanding at a time for this subsystem.
#[derive(Clone, Copy, PartialEq, Eq, Structural, Debug)]
pub enum RenderState {
    Idle,
    Rendering,
}

/// The process-wide flags of the path view: the two single-flight states and
/// the two dirty flags the frame loop polls each tick.
#[derive(Clone, Copy, PartialEq, Eq, Structural, Debug)]
pub struct PathViewState {
    pub loading: LoadState,
    pub rendering: RenderState,
    pub should_rerender: bool,
    pub should_reload: bool,
}

impl PathViewState {
    pub fn loading(&self) -> (r: LoadState)
        ensures
            r == self.loading,
    {
        self.loading
    }

    pub fn rendering(&self) -> (r: RenderState)
        ensures
            r == self.rendering,
    {
        self.rendering
    }

    pub fn should_reload(&self) -> (r: bool)
        ensures
            r == self.should_reload,
    {
        self.should_reload
    }

    pub fn should_rerender(&self) -> (r: bool)
        ensures
            r == self.should_rerender,
    {
        self.should_rerender
    }

    pub fn force_reload(&mut self)
        ensures
            *final(self) == (PathViewState { should_reload: true, ..*old(self) }),
    {
        self.should_reload = true;
    }

    pub fn force_rerender(&mut self)
        ensures
            *final(self) == (PathViewState { should_rerender: true, ..*old(self) }),
    {
        self.should_rerender = true;
    }
}

impl Default for PathViewState {
    /// Nothing is in flight at start; the raster begins stale and asks for a
    /// first reload.
    fn default() -> (s: PathViewState)
        ensures
            s.loading == LoadState::Idle,
            s.rendering == RenderState::Idle,
            s.should_reload == true,
            s.should_rerender == false,
    {
        PathViewState {
            loading: LoadState::Idle,
            rendering: RenderState::Idle,
            should_reload: true,
            should_rerender: false,
        }
    }
}

/// The per-path reload flag.
#[derive(Clone, Copy, PartialEq, Eq, Structural, Debug)]
pub struct PathState {
    pub should_reload: bool,
}

impl Default for PathState {
    /// A freshly tracked path starts stale.
    fn default() -> (s: PathState)
        ensures
            s.should_reload == true,
    {
        PathState { should_reload: true }
    }
}

} // verus!
