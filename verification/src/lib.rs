//! Verified core of the ApexShot capture tool: frame format handling,
//! capture-menu state, monitor ordering, recent-capture discovery and
//! the decisions that drive the overlay's background workers.

pub mod audio;
pub mod background;
pub mod capture_menu;
pub mod countdown;
pub mod monitor_picker;
pub mod overlay_click;
pub mod pipewire_engine;
pub mod preview_launch;
pub mod qr;
pub mod recent_captures;
pub mod selection;
pub mod webcam;
mod raster;
