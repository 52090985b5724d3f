//! Extracts bookmarks from Chromium-family browser profiles: a verified
//! bookmark-tree walker that flattens each bookmark into a full folder path,
//! together with the browser catalog, profile listing, and the export batch
//! that accumulates records across profiles.

pub mod catalog;
pub mod laws;
pub mod profiles;
pub mod record;
pub mod sink;
pub mod tree;
pub mod walk;

