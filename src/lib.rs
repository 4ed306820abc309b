//! Workspace reconciliation for a status-bar workspace widget.
//!
//! - [`model`]: the workspace record, its displayed state and the messages.
//! - [`hyprland`]: the full-featured backend, which turns the raw workspace and
//!   monitor facts of the window manager into a sorted list of records, and
//!   builds the commands that switch workspaces.
//! - [`niri`]: the degraded backend, which reports nothing.
//! - [`controller`]: the widget's state machine; it decides, the caller acts.
//! - [`invariants`]: properties of reconciliation, proved.
//! - [`listener`]: the rule of the event listener that keeps the list fresh.
//! - [`window_title`]: the window-title widget's state.
pub mod model;
pub mod hyprland;
pub mod niri;
pub mod controller;
pub mod invariants;
pub mod listener;
pub mod window_title;
