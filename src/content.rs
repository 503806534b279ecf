use vstd::prelude::*;

verus! {

/// The directory, under the application's data directory, that holds the
/// content files of books.
pub const BOOKS_DIR: &'static str = "books";

/// The database file, under the application's data directory.
pub const DATABASE_FILE: &'static str = "highlights.db";

/// What came of removing a book's content file.
#[derive(Clone, Debug, PartialEq, Eq)]
pub enum FileRemoval {
    Removed,
    /// There was no file to remove.
    Absent,
    /// Removing it failed, with the message of the failure.
    Failed(String),
}

/// The end state of deleting a book, whose rows go before its file.
#[derive(Clone, Debug, PartialEq, Eq)]
pub enum DeleteOutcome {
    /// Rows and file are gone.
    Complete,
    /// The rows are gone but the file stayed behind.
    FileOrphaned { filename: String, message: String },
}

impl DeleteOutcome {
    /// A human-readable description of an orphaned file, empty when complete.
    pub fn message(&self) -> (r: String)
        ensures
            self is Complete ==> r@.len() == 0,
            self is FileOrphaned ==> r == self->FileOrphaned_message,
    {
        match self {
            DeleteOutcome::Complete => String::new(),
            DeleteOutcome::FileOrphaned { message, .. } => message.clone(),
        }
    }
}

/// Completes the deletion of a book whose rows are gone, given what became of
/// its content file. A file that was already absent counts as removed.
pub fn finish_delete(filename: String, removal: FileRemoval) -> (r: DeleteOutcome)
    ensures
        removal is Failed ==> r == (DeleteOutcome::FileOrphaned {
            filename: filename,
            message: removal->Failed_0,
        }),
        !(removal is Failed) ==> r == DeleteOutcome::Complete,
{
    match removal {
        FileRemoval::Failed(message) => DeleteOutcome::FileOrphaned { filename, message },
        _ => DeleteOutcome::Complete,
    }
}

} // verus!
