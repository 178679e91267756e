//! Icon-annotated, colorized, width-aware directory listing: the rendering core.

pub mod table;
pub mod icon;
pub mod ansi;
pub mod layout;
pub mod config;
pub mod color;
pub mod entry;
pub mod listing;
pub mod home;
