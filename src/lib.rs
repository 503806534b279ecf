pub mod content;
pub mod laws;
pub mod library;
pub mod model;
pub mod order;
pub mod records;
pub mod schema;
pub mod seqs;

pub use library::Library;
pub use model::{LibraryView, StoreError};
pub use records::{BookMetadata, Bookmark, Collection, Highlight};
pub use schema::{initialize, MigrationOutcome, SchemaError};
pub use content::{finish_delete, DeleteOutcome, FileRemoval};
