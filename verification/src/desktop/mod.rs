//! State and decisions behind the desktop explorer: navigation history, tabs, recent
//! projects, search and display formatting.
pub mod address;
pub mod history;
pub mod navigation;
pub mod recent;
pub mod selection;
pub mod state;
pub mod tree;
pub mod views;
