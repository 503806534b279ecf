use vstd::prelude::*;
use crate::order::name_lt;
use crate::records::{BookMetadata, Bookmark, Collection, Highlight};
use crate::seqs::{all, pairwise};

verus! {

/// Why a store operation did not take place.
#[derive(Clone, Copy, Debug, PartialEq, Eq)]
pub enum StoreError {
    /// The referenced title or id is not in the store.
    NotFound,
    /// A collection with this name already exists.
    DuplicateName,
    /// No identifier is left to give to a new row.
    IdsExhausted,
}

impl StoreError {
    /// A human-readable description of the failure.
    pub fn message(&self) -> (r: String)
        ensures
            *self == StoreError::NotFound ==> r@ == "not found"@,
            *self == StoreError::DuplicateName ==> r@ == "UNIQUE constraint failed: collections.name"@,
            *self == StoreError::IdsExhausted ==> r@ == "database or disk is full"@,
            r@.len() > 0,
    {
        match self {
            StoreError::NotFound => {
                proof {
                    reveal_strlit("not found");
                }
                String::from_str("not found")
            },
            StoreError::DuplicateName => {
                proof {
                    reveal_strlit("UNIQUE constraint failed: collections.name");
                }
                String::from_str("UNIQUE constraint failed: collections.name")
            },
            StoreError::IdsExhausted => {
                proof {
                    reveal_strlit("database or disk is full");
                }
                String::from_str("database or disk is full")
            },
        }
    }
}

/// The tables of the store, as mathematical sequences.
pub struct LibraryView {
    /// The catalog, newest first.
    pub books: Seq<BookMetadata>,
    /// All highlights, newest first.
    pub highlights: Seq<Highlight>,
    /// All bookmarks, newest first.
    pub bookmarks: Seq<Bookmark>,
    /// All collections, in ascending name order.
    pub collections: Seq<Collection>,
    /// The (highlight id, collection id) association pairs.
    pub links: Seq<(i64, i64)>,
    pub next_book_id: i64,
    pub next_highlight_id: i64,
    pub next_bookmark_id: i64,
    pub next_collection_id: i64,
    /// The latest creation time handed out; creation times never go back.
    pub clock: u64,
}

/// The creation time given to a row made at time `now`.
pub open spec fn stamp(clock: u64, now: u64) -> u64 {
    if now > clock {
        now
    } else {
        clock
    }
}

pub open spec fn book_order() -> spec_fn(BookMetadata, BookMetadata) -> bool {
    |a: BookMetadata, b: BookMetadata| a.title@ != b.title@ && a.created_at >= b.created_at && a.id != b.id
}

pub open spec fn highlight_order() -> spec_fn(Highlight, Highlight) -> bool {
    |a: Highlight, b: Highlight| a.created_at >= b.created_at && a.id != b.id
}

pub open spec fn bookmark_order() -> spec_fn(Bookmark, Bookmark) -> bool {
    |a: Bookmark, b: Bookmark| a.created_at >= b.created_at && a.id != b.id
}

pub open spec fn collection_order() -> spec_fn(Collection, Collection) -> bool {
    |a: Collection, b: Collection| name_lt(a.name@, b.name@) && a.id != b.id
}

pub open spec fn distinct_links() -> spec_fn((i64, i64), (i64, i64)) -> bool {
    |a: (i64, i64), b: (i64, i64)| a != b
}

pub open spec fn book_fits(next: i64, clock: u64) -> spec_fn(BookMetadata) -> bool {
    |b: BookMetadata| 0 < b.id < next && b.created_at <= clock
}

pub open spec fn highlight_fits(next: i64, clock: u64) -> spec_fn(Highlight) -> bool {
    |h: Highlight| 0 < h.id < next && h.created_at <= clock
}

pub open spec fn bookmark_fits(next: i64, clock: u64) -> spec_fn(Bookmark) -> bool {
    |b: Bookmark| 0 < b.id < next && b.created_at <= clock
}

pub open spec fn collection_fits(next: i64, clock: u64) -> spec_fn(Collection) -> bool {
    |c: Collection| 0 < c.id < next && c.created_at <= clock
}

/// Filters that the operations apply.
pub open spec fn titled(title: Seq<char>) -> spec_fn(Highlight) -> bool {
    |h: Highlight| h.book_title@ == title
}

pub open spec fn not_titled(title: Seq<char>) -> spec_fn(Highlight) -> bool {
    |h: Highlight| h.book_title@ != title
}

pub open spec fn book_not_titled(title: Seq<char>) -> spec_fn(BookMetadata) -> bool {
    |b: BookMetadata| b.title@ != title
}

pub open spec fn bookmark_titled(title: Seq<char>) -> spec_fn(Bookmark) -> bool {
    |b: Bookmark| b.book_title@ == title
}

pub open spec fn highlight_not_id(id: i64) -> spec_fn(Highlight) -> bool {
    |h: Highlight| h.id != id
}

pub open spec fn bookmark_not_id(id: i64) -> spec_fn(Bookmark) -> bool {
    |b: Bookmark| b.id != id
}

pub open spec fn collection_not_id(id: i64) -> spec_fn(Collection) -> bool {
    |c: Collection| c.id != id
}

pub open spec fn link_not_highlight(id: i64) -> spec_fn((i64, i64)) -> bool {
    |l: (i64, i64)| l.0 != id
}

pub open spec fn link_not_collection(id: i64) -> spec_fn((i64, i64)) -> bool {
    |l: (i64, i64)| l.1 != id
}

pub open spec fn link_not_pair(highlight_id: i64, collection_id: i64) -> spec_fn((i64, i64)) -> bool {
    |l: (i64, i64)| l != (highlight_id, collection_id)
}

/// Keeps the links whose highlight is not one of `title`'s in `highlights`.
pub open spec fn link_survives_book(highlights: Seq<Highlight>, title: Seq<char>) -> spec_fn(
    (i64, i64),
) -> bool {
    |l: (i64, i64)| !highlight_of_book(highlights, l.0, title)
}

/// Keeps the links whose highlight is not in `highlights`.
pub open spec fn link_not_among(highlights: Seq<Highlight>) -> spec_fn((i64, i64)) -> bool {
    |l: (i64, i64)| !has_highlight(highlights, l.0)
}

/// Highlights linked to `collection_id`.
pub open spec fn in_collection(links: Seq<(i64, i64)>, collection_id: i64) -> spec_fn(
    Highlight,
) -> bool {
    |h: Highlight| links.contains((h.id, collection_id))
}

/// Collections linked to `highlight_id`.
pub open spec fn holds_highlight(links: Seq<(i64, i64)>, highlight_id: i64) -> spec_fn(
    Collection,
) -> bool {
    |c: Collection| links.contains((highlight_id, c.id))
}

pub open spec fn has_book(books: Seq<BookMetadata>, title: Seq<char>) -> bool {
    exists|i: int| 0 <= i < books.len() && books[i].title@ == title
}

pub open spec fn has_highlight(highlights: Seq<Highlight>, id: i64) -> bool {
    exists|i: int| 0 <= i < highlights.len() && highlights[i].id == id
}

pub open spec fn highlight_of_book(highlights: Seq<Highlight>, id: i64, title: Seq<char>) -> bool {
    exists|i: int| 0 <= i < highlights.len() && highlights[i].id == id && highlights[i].book_title@ == title
}

pub open spec fn has_collection(collections: Seq<Collection>, id: i64) -> bool {
    exists|i: int| 0 <= i < collections.len() && collections[i].id == id
}

pub open spec fn has_collection_named(collections: Seq<Collection>, name: Seq<char>) -> bool {
    exists|i: int| 0 <= i < collections.len() && collections[i].name@ == name
}

/// A book row as `add_book` makes it.
pub open spec fn new_book(
    b: BookMetadata,
    id: i64,
    title: String,
    filename: String,
    cover: Option<String>,
    created_at: u64,
) -> bool {
    &&& b.id == id
    &&& b.title == title
    &&& b.filename == filename
    &&& b.last_cfi@ == Seq::<char>::empty()
    &&& b.cover == cover
    &&& b.locations_data.is_none()
    &&& b.last_percentage_bits == 0
    &&& b.created_at == created_at
}

/// The row of `b` with a new reading position.
pub open spec fn with_progress(b: BookMetadata, cfi: String, percentage_bits: u64) -> BookMetadata {
    BookMetadata { last_cfi: cfi, last_percentage_bits: percentage_bits, ..b }
}

pub open spec fn progress_of(title: Seq<char>, cfi: String, percentage_bits: u64) -> spec_fn(
    BookMetadata,
) -> BookMetadata {
    |b: BookMetadata|
        if b.title@ == title {
            with_progress(b, cfi, percentage_bits)
        } else {
            b
        }
}

pub open spec fn locations_of(title: Seq<char>, data: String) -> spec_fn(BookMetadata) -> BookMetadata {
    |b: BookMetadata|
        if b.title@ == title {
            BookMetadata { locations_data: Some(data), ..b }
        } else {
            b
        }
}

pub open spec fn notes_of(id: i64, notes: String) -> spec_fn(Highlight) -> Highlight {
    |h: Highlight|
        if h.id == id {
            Highlight { notes: notes, ..h }
        } else {
            h
        }
}

impl LibraryView {
    /// The invariant of the store: ids, titles and collection names are
    /// unique, listings keep their order, every id was issued and no link
    /// repeats.
    pub open spec fn wf(self) -> bool {
        &&& pairwise(self.books, book_order())
        &&& pairwise(self.highlights, highlight_order())
        &&& pairwise(self.bookmarks, bookmark_order())
        &&& pairwise(self.collections, collection_order())
        &&& pairwise(self.links, distinct_links())
        &&& all(self.books, book_fits(self.next_book_id, self.clock))
        &&& all(self.highlights, highlight_fits(self.next_highlight_id, self.clock))
        &&& all(self.bookmarks, bookmark_fits(self.next_bookmark_id, self.clock))
        &&& all(self.collections, collection_fits(self.next_collection_id, self.clock))
        &&& self.next_book_id > 0
        &&& self.next_highlight_id > 0
        &&& self.next_bookmark_id > 0
        &&& self.next_collection_id > 0
    }

    /// The highlights of the book `title`, newest first.
    pub open spec fn highlights_of(self, title: Seq<char>) -> Seq<Highlight> {
        self.highlights.filter(titled(title))
    }

    /// The bookmarks of the book `title`, newest first.
    pub open spec fn bookmarks_of(self, title: Seq<char>) -> Seq<Bookmark> {
        self.bookmarks.filter(bookmark_titled(title))
    }

    /// The highlights linked to a collection, newest first.
    pub open spec fn highlights_in(self, collection_id: i64) -> Seq<Highlight> {
        self.highlights.filter(in_collection(self.links, collection_id))
    }

    /// The collections linked to a highlight, by name.
    pub open spec fn collections_of(self, highlight_id: i64) -> Seq<Collection> {
        self.collections.filter(holds_highlight(self.links, highlight_id))
    }

    /// What `add_book` does: an existing title returns its row and changes
    /// nothing; a new title is prepended as a fresh row.
    pub open spec fn add_book_post(
        self,
        title: String,
        filename: String,
        cover: Option<String>,
        now: u64,
        post: LibraryView,
        r: Result<BookMetadata, StoreError>,
    ) -> bool {
        if has_book(self.books, title@) {
            &&& post == self
            &&& exists|i: int|
                0 <= i < self.books.len() && self.books[i].title@ == title@ && r == Ok::<
                    BookMetadata,
                    StoreError,
                >(self.books[i])
        } else if self.next_book_id == i64::MAX {
            post == self && r == Err::<BookMetadata, StoreError>(StoreError::IdsExhausted)
        } else {
            &&& r is Ok
            &&& new_book(r->Ok_0, self.next_book_id, title, filename, cover, stamp(self.clock, now))
            &&& post == (LibraryView {
                books: seq![r->Ok_0] + self.books,
                next_book_id: (self.next_book_id + 1) as i64,
                clock: stamp(self.clock, now),
                ..self
            })
        }
    }

    /// The store after `update_progress`.
    pub open spec fn after_progress(self, title: Seq<char>, cfi: String, percentage_bits: u64) -> LibraryView {
        LibraryView { books: self.books.map_values(progress_of(title, cfi, percentage_bits)), ..self }
    }

    /// The store after `delete_book` of a title in the catalog: the book, its
    /// highlights and their links go; bookmarks stay.
    pub open spec fn after_delete_book(self, title: Seq<char>) -> LibraryView {
        LibraryView {
            books: self.books.filter(book_not_titled(title)),
            highlights: self.highlights.filter(not_titled(title)),
            links: self.links.filter(link_survives_book(self.highlights, title)),
            ..self
        }
    }

    /// The store after `wipe_all`: books, highlights and bookmarks are gone,
    /// and so are the links of those highlights; collections stay, and no id
    /// is given out again.
    pub open spec fn after_wipe(self) -> LibraryView {
        LibraryView {
            books: Seq::empty(),
            highlights: Seq::empty(),
            bookmarks: Seq::empty(),
            links: self.links.filter(link_not_among(self.highlights)),
            ..self
        }
    }

    /// What `create_collection` does: a taken name is refused; otherwise the
    /// new collection takes its place in name order.
    pub open spec fn create_collection_post(
        self,
        name: String,
        emoji: String,
        now: u64,
        post: LibraryView,
        r: Result<Collection, StoreError>,
    ) -> bool {
        if has_collection_named(self.collections, name@) {
            post == self && r == Err::<Collection, StoreError>(StoreError::DuplicateName)
        } else if self.next_collection_id == i64::MAX {
            post == self && r == Err::<Collection, StoreError>(StoreError::IdsExhausted)
        } else {
            &&& r == Ok::<Collection, StoreError>(
                Collection {
                    id: self.next_collection_id,
                    name: name,
                    emoji: emoji,
                    created_at: stamp(self.clock, now),
                },
            )
            &&& exists|p: int|
                0 <= p <= self.collections.len() && post == (LibraryView {
                    collections: self.collections.insert(p, r->Ok_0),
                    next_collection_id: (self.next_collection_id + 1) as i64,
                    clock: stamp(self.clock, now),
                    ..self
                })
        }
    }

    /// What `link` does: both ends must exist; a pair already there is kept once.
    pub open spec fn link_post(
        self,
        highlight_id: i64,
        collection_id: i64,
        post: LibraryView,
        r: Result<(), StoreError>,
    ) -> bool {
        if !has_highlight(self.highlights, highlight_id) || !has_collection(
            self.collections,
            collection_id,
        ) {
            post == self && r == Err::<(), StoreError>(StoreError::NotFound)
        } else if self.links.contains((highlight_id, collection_id)) {
            post == self && r == Ok::<(), StoreError>(())
        } else {
            post == (LibraryView { links: self.links.push((highlight_id, collection_id)), ..self })
                && r == Ok::<(), StoreError>(())
        }
    }

    /// The store after `unlink`.
    pub open spec fn after_unlink(self, highlight_id: i64, collection_id: i64) -> LibraryView {
        LibraryView { links: self.links.filter(link_not_pair(highlight_id, collection_id)), ..self }
    }
}

/// Raising the id counters and the clock keeps every row of the annotation
/// and collection tables within bounds.
pub proof fn lemma_fits_grow(v: LibraryView, w: LibraryView)
    requires
        all(v.highlights, highlight_fits(v.next_highlight_id, v.clock)),
        all(v.bookmarks, bookmark_fits(v.next_bookmark_id, v.clock)),
        all(v.collections, collection_fits(v.next_collection_id, v.clock)),
        w.highlights == v.highlights,
        w.bookmarks == v.bookmarks,
        w.collections == v.collections,
        v.next_highlight_id <= w.next_highlight_id,
        v.next_bookmark_id <= w.next_bookmark_id,
        v.next_collection_id <= w.next_collection_id,
        v.clock <= w.clock,
    ensures
        all(w.highlights, highlight_fits(w.next_highlight_id, w.clock)),
        all(w.bookmarks, bookmark_fits(w.next_bookmark_id, w.clock)),
        all(w.collections, collection_fits(w.next_collection_id, w.clock)),
{
    assert forall|a: int| 0 <= a < w.highlights.len() implies #[trigger] highlight_fits(
        w.next_highlight_id,
        w.clock,
    )(w.highlights[a]) by {
        assert(highlight_fits(v.next_highlight_id, v.clock)(v.highlights[a]));
    }
    assert forall|a: int| 0 <= a < w.bookmarks.len() implies #[trigger] bookmark_fits(
        w.next_bookmark_id,
        w.clock,
    )(w.bookmarks[a]) by {
        assert(bookmark_fits(v.next_bookmark_id, v.clock)(v.bookmarks[a]));
    }
    assert forall|a: int| 0 <= a < w.collections.len() implies #[trigger] collection_fits(
        w.next_collection_id,
        w.clock,
    )(w.collections[a]) by {
        assert(collection_fits(v.next_collection_id, v.clock)(v.collections[a]));
    }
}

} // verus!
