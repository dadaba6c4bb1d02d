//! Data-driven list widgets and the decision logic of the X11 clipboard.

pub mod property;
pub mod transfer;
pub mod clipboard;
pub mod data;
pub mod list;
pub mod disable_if;
