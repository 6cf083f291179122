//! The verified core of a remote file browser and of the daemon it talks to.

pub mod action;
pub mod browser;
pub mod daemon;
pub mod drawn;
pub mod entry;
pub mod host_path;
pub mod listing;
pub mod message;
pub mod model;
pub mod order;
pub mod panel;
pub mod paths;
pub mod selection;
pub mod size;
pub mod status;
pub mod steps;
pub mod text;
pub mod transfer;
pub mod tree;
