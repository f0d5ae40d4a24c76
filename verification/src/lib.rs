//! Row-cache loader, fence-gated compute dispatcher, and view navigation for a
//! horizontally-scrollable path raster: for a window of genomic coordinates,
//! which graph node each of several paths traverses at each pixel column.
//!
//! The raster itself is drawn by a GPU pipeline owned by the host program; this
//! crate holds the state and the decisions that drive it: which rows need
//! (re)computation, how a pixel column maps to a node of a path, when a load or
//! a dispatch may start, and how the visible coordinate window moves under
//! panning and zooming.

pub mod config;
pub mod dispatch;
pub mod loader;
pub mod mark;
pub mod renderer;
pub mod row;
pub mod state;
pub mod steps;
pub mod view;

pub use config::{AppConfigMsg, AppInput, OverlayState, RenderConfig, RenderConfigOpts};
pub use dispatch::{DispatchCmd, OverlayKind, PushConstants};
pub use loader::{LoadTarget, LoadedRow};
pub use renderer::PathViewRenderer;
pub use row::{NodeId, PathId, RowState};
pub use steps::PathStep;
pub use state::{LoadState, PathState, PathViewState, RenderState};
pub use view::ViewWindow;
