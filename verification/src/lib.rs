//! Policy core of a tiling window manager.
//!
//! This crate tracks windows, workspaces and monitors, decides which window
//! is active, assigns windows to workspaces and keeps all of that mutually
//! consistent while a surrounding compositor delivers events.  The compositor
//! itself (surfaces, input devices, rendering) and the input-inhibitor
//! collaborator live outside this crate: what they report about a window is
//! mirrored here as plain values, and what they must be told is handed back
//! to the caller as data (see [`wm::FocusAction`]).

pub mod config;
pub mod geometry;
pub mod gesture;
pub mod ids;
pub mod monitor;
pub mod window;
pub mod wm;
pub mod workspace;

pub use config::Config;
pub use config::DuplicateLayout;
pub use config::KeyboardLayout;
pub use geometry::Point;
pub use geometry::Rectangle;
pub use geometry::Size;
pub use gesture::Gesture;
pub use gesture::MoveGesture;
pub use gesture::ResizeGesture;
pub use ids::Id;
pub use ids::IdGenerator;
pub use monitor::Monitor;
pub use window::Window;
pub use window::WindowInfo;
pub use window::WindowState;
pub use window::WindowType;
pub use wm::FocusAction;
pub use wm::WindowManager;
pub use workspace::Workspace;
