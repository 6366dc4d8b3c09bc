//! A verified core for a small journal ("blog") service.
//!
//! Entries live in a table-backed store (numeric ids) or a file-backed
//! store (titles derived from file names). A catalog layer lists and
//! fetches entries, normalizing titles and rendering markdown bodies to
//! HTML fragments; a presentation layer assembles the HTML pages and the
//! command-line output; the `cli` module gives each management command its
//! meaning as one step on the store.

pub mod catalog;
pub mod cli;
pub mod entry;
pub mod filestore;
pub mod pages;
pub mod render;
pub mod store;
pub mod text;
