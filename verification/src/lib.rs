//! The rules of a local note-taking store: two collections, notes and
//! categories, that are read in full, changed in memory and written back in
//! full.
//!
//! - [`model`]: the two record types and their views.
//! - [`note_store`] and [`category_store`]: what each operation makes of a
//!   collection.
//! - [`lexical`]: the order in which category names are listed.
//! - [`commands`]: the commands of the store, from the outcome of reading a
//!   file to the answer and the collection to write back.
//! - [`location`]: where the files are kept.
//! - [`error`]: the failures and their descriptions.
//! - [`laws`]: what holds of the operations for every collection.
//! - [`sequences`]: facts about sequences that the proofs share.
//!
//! Reading and writing files and the JSON encoding are the caller's part.

pub mod category_store;
pub mod commands;
pub mod error;
pub mod laws;
pub mod lexical;
pub mod location;
pub mod model;
pub mod note_store;
pub mod sequences;

pub use commands::ReadOutcome;
pub use error::{Collection, IoOperation, StoreError};
pub use location::{DirectoryStep, StorageLocation};
pub use model::{Category, CategoryView, Note, NoteView};
