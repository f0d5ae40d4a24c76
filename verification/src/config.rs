use vstd::prelude::*;

verus! {

/// The application-level key inputs the host binds.
#[derive(Clone, Copy, PartialEq, Eq, Structural, Debug, Hash)]
pub enum AppInput {
    KeyClearSelection,
    KeyToggleTheme,
    KeyToggleOverlay,
}

/// Messages that toggle one of the render configuration flags.
#[derive(Clone, Copy, PartialEq, Eq, Structural, Debug)]
pub enum AppConfigMsg {
    ToggleSelectionEdgeDetect,
    ToggleSelectionEdgeBlur,
    ToggleSelectionOutline,
    ToggleNodesColor,
}

/// The render configuration options a host can expose by name.
#[derive(Clone, Copy, PartialEq, Eq, Structural, Debug, Hash)]
pub enum RenderConfigOpts {
    SelOutlineEdge,
    SelOutlineBlur,
    SelOutline,
    NodesColor,
}

/// The render configuration flags the toggle messages act on.
#[derive(Clone, Copy, PartialEq, Eq, Structural, Debug)]
pub struct RenderConfig {
    pub selection_edge_detect: bool,
    pub selection_edge_blur: bool,
    pub selection_edge: bool,
    pub nodes_color: bool,
}

impl RenderConfig {
    /// Apply one toggle message: exactly the named flag flips.
    pub fn apply_app_config_msg(&mut self, msg: &AppConfigMsg)
        ensures
            *final(self) == (match *msg {
                AppConfigMsg::ToggleSelectionEdgeDetect => RenderConfig {
                    selection_edge_detect: !old(self).selection_edge_detect,
                    ..*old(self)
                },
                AppConfigMsg::ToggleSelectionEdgeBlur => RenderConfig {
                    selection_edge_blur: !old(self).selection_edge_blur,
                    ..*old(self)
                },
                AppConfigMsg::ToggleSelectionOutline => RenderConfig {
                    selection_edge: !old(self).selection_edge,
                    ..*old(self)
                },
                AppConfigMsg::ToggleNodesColor => RenderConfig {
                    nodes_color: !old(self).nodes_color,
                    ..*old(self)
                },
            }),
    {
        match msg {
            AppConfigMsg::ToggleSelectionEdgeDetect => {
                self.selection_edge_detect = !self.selection_edge_detect;
            },
            AppConfigMsg::ToggleSelectionEdgeBlur => {
                self.selection_edge_blur = !self.selection_edge_blur;
            },
            AppConfigMsg::ToggleSelectionOutline => {
                self.selection_edge = !self.selection_edge;
            },
            AppConfigMsg::ToggleNodesColor => {
                self.nodes_color = !self.nodes_color;
            },
        }
    }
}

impl Default for RenderConfig {
    /// Every render feature starts enabled.
    fn default() -> (c: RenderConfig)
        ensures
            c.selection_edge_detect && c.selection_edge_blur && c.selection_edge
                && c.nodes_color,
    {
        RenderConfig {
            selection_edge_detect: true,
            selection_edge_blur: true,
            selection_edge: true,
            nodes_color: true,
        }
    }
}

/// Which overlay, if any, the node renderer samples, and whether it is shown.
#[derive(Clone, Copy, PartialEq, Eq, Structural, Debug)]
pub struct OverlayState {
    pub use_overlay: bool,
    pub current_overlay: Option<usize>,
}

impl OverlayState {
    pub fn use_overlay(&self) -> (r: bool)
        ensures
            r == self.use_overlay,
    {
        self.use_overlay
    }

    pub fn current_overlay(&self) -> (r: Option<usize>)
        ensures
            r == self.current_overlay,
    {
        self.current_overlay
    }

    pub fn set_use_overlay(&mut self, use_overlay: bool)
        ensures
            *final(self) == (OverlayState { use_overlay, ..*old(self) }),
    {
        self.use_overlay = use_overlay;
    }

    pub fn toggle_overlay(&mut self)
        ensures
            *final(self) == (OverlayState {
                use_overlay: !old(self).use_overlay,
                ..*old(self)
            }),
    {
        self.use_overlay = !self.use_overlay;
    }

    pub fn set_current_overlay(&mut self, overlay_id: Option<usize>)
        ensures
            *final(self) == (OverlayState { current_overlay: overlay_id, ..*old(self) }),
    {
        self.current_overlay = overlay_id;
    }
}

impl Default for OverlayState {
    /// No overlay is selected or shown at start.
    fn default() -> (s: OverlayState)
        ensures
            s.use_overlay == false,
            s.current_overlay is None,
    {
        OverlayState { use_overlay: false, current_overlay: None }
    }
}

} // verus!
