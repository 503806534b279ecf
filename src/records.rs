use vstd::prelude::*;

verus! {

/// A highlight: a captured excerpt of a book, referenced by the book's title.
#[derive(Clone, Debug, PartialEq, Eq)]
pub struct Highlight {
    pub id: i64,
    pub book_title: String,
    pub cfi: String,
    pub text: String,
    pub color: String,
    pub notes: String,
    /// Creation time in seconds since the Unix epoch.
    pub created_at: u64,
}

/// A bookmark: a labelled position in a book, referenced by the book's title.
#[derive(Clone, Debug, PartialEq, Eq)]
pub struct Bookmark {
    pub id: i64,
    pub book_title: String,
    pub cfi: String,
    pub label: String,
    /// Creation time in seconds since the Unix epoch.
    pub created_at: u64,
}

/// A named grouping of highlights.
#[derive(Clone, Debug, PartialEq, Eq)]
pub struct Collection {
    pub id: i64,
    pub name: String,
    pub emoji: String,
    /// Creation time in seconds since the Unix epoch.
    pub created_at: u64,
}

/// The catalog row of a book and its reading state.
#[derive(Clone, Debug, PartialEq, Eq)]
pub struct BookMetadata {
    pub id: i64,
    pub title: String,
    pub filename: String,
    pub last_cfi: String,
    pub cover: Option<String>,
    pub locations_data: Option<String>,
    /// The IEEE-754 bit pattern of the reading progress, a fraction in `[0, 1]`.
    /// The store keeps it as it was given and never computes with it.
    pub last_percentage_bits: u64,
    /// Creation time in seconds since the Unix epoch.
    pub created_at: u64,
}

pub fn copy_opt_string(s: &Option<String>) -> (r: Option<String>)
    ensures
        r == *s,
{
    match s {
        Some(v) => Some(v.clone()),
        None => None,
    }
}

impl Highlight {
    /// A field-by-field copy.
    pub fn copy(&self) -> (r: Highlight)
        ensures
            r == *self,
    {
        Highlight {
            id: self.id,
            book_title: self.book_title.clone(),
            cfi: self.cfi.clone(),
            text: self.text.clone(),
            color: self.color.clone(),
            notes: self.notes.clone(),
            created_at: self.created_at,
        }
    }
}

impl Bookmark {
    /// A field-by-field copy.
    pub fn copy(&self) -> (r: Bookmark)
        ensures
            r == *self,
    {
        Bookmark {
            id: self.id,
            book_title: self.book_title.clone(),
            cfi: self.cfi.clone(),
            label: self.label.clone(),
            created_at: self.created_at,
        }
    }
}

impl Collection {
    /// A field-by-field copy.
    pub fn copy(&self) -> (r: Collection)
        ensures
            r == *self,
    {
        Collection {
            id: self.id,
            name: self.name.clone(),
            emoji: self.emoji.clone(),
            created_at: self.created_at,
        }
    }
}

impl BookMetadata {
    /// A field-by-field copy.
    pub fn copy(&self) -> (r: BookMetadata)
        ensures
            r == *self,
    {
        BookMetadata {
            id: self.id,
            title: self.title.clone(),
            filename: self.filename.clone(),
            last_cfi: self.last_cfi.clone(),
            cover: copy_opt_string(&self.cover),
            locations_data: copy_opt_string(&self.locations_data),
            last_percentage_bits: self.last_percentage_bits,
            created_at: self.created_at,
        }
    }
}

} // verus!
