//! Policy engine of a tiling window manager: the client registry with its
//! tiling and focus orderings, the monitor and tag model, the layouts, the
//! keychord state machine and the size-hint rules, each with a verified
//! contract.  Nothing here talks to a display server: operations take plain
//! values and hand back the protocol commands to issue.

pub mod animations;
pub mod bar;
pub mod client;
pub mod color;
pub mod config;
pub mod keyboard;
pub mod layout;
pub mod monitor;
pub mod overlay;
pub mod size_hints;
pub mod tags;
pub mod text;
pub mod window_list;
pub mod window_manager;

pub use crate::config::ColorScheme;
pub use crate::config::Config;
pub use crate::config::LayoutSymbolOverride;
pub use crate::config::WindowRule;
