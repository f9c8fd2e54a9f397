//! The decisions behind the user interface: record filters and user actions.

pub mod filter_sidebar;
pub mod top_bar;
pub mod bypass_modal;
