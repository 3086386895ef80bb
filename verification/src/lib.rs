//! Verified core of the Talos terminal user interface: layout budgets,
//! width-aware text measurement and wrapping, transcript projection,
//! composer editing, terminal lifecycle sequencing and small formatting
//! helpers.

mod chars;
pub mod composer;
pub mod style;
pub mod projection;
pub mod history;
pub mod lifecycle;
pub mod width;
pub mod layout;
pub mod budget;
pub mod formatting;
pub mod clipboard;
pub mod splash;
pub mod sidebar;
pub mod preview;
pub mod text;
pub mod editor;
pub mod credential;
pub mod panel;
pub mod placeholder;
pub mod activity;
pub mod viewport;
pub mod keys;
pub mod status;
pub mod pickers;
pub mod insertion;
pub mod summary;
pub mod todo;
pub mod hydration;
pub mod frame;
pub mod panel_view;
pub mod output;
pub mod history_lines;
