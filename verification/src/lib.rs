//! Core logic of the Feather browser shell: address-bar input resolution,
//! the tab store and its state machine, toolbar decisions and the
//! commands that the page toolbar sends back.

pub mod text;
pub mod address_bar;
pub mod tabs;
pub mod tab_store;
pub mod store_laws;
pub mod toolbar_ui;
pub mod platform;
pub mod ipc;
