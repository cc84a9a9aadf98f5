//! Review state, diff display and patch application.
pub mod actions;
pub mod app;
pub mod diff_view;
