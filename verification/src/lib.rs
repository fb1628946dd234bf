//! The decisions behind cydonia's workspace window, verified.

pub mod text;
pub mod paths;
pub mod chat;
pub mod activity;
pub mod panel;
pub mod external;
pub mod composer;
pub mod runs;
pub mod transcript;
pub mod permission;
pub mod detail;
pub mod switches;
pub mod board;
pub mod arrangement;
pub mod file;
pub mod members;
pub mod changes;
pub mod terminal;
pub mod files;
pub mod ribbon;
pub mod confirm;
pub mod gallery;
pub mod applications;
pub mod article;
pub mod menu;
pub mod identity;
