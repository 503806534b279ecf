use vstd::prelude::*;
use crate::model::{
    book_fits, book_not_titled, book_order, bookmark_fits, bookmark_not_id, bookmark_order,
    bookmark_titled, collection_fits, collection_not_id, collection_order, distinct_links, has_book,
    has_collection, has_highlight, highlight_fits, highlight_not_id,
    highlight_of_book, highlight_order, holds_highlight, in_collection, lemma_fits_grow,
    link_not_among, link_not_collection, link_not_highlight, link_not_pair, link_survives_book, locations_of,
    not_titled, notes_of, progress_of, stamp, titled, LibraryView, StoreError,
};
use crate::order::{lemma_name_lt_total, lemma_name_lt_transitive, name_less, name_lt};
use crate::records::{BookMetadata, Bookmark, Collection, Highlight};
use crate::seqs::{all, check_all, check_pairwise, lemma_all_implies, lemma_prepend_all, lemma_prepend_pairwise, lemma_filter_all, lemma_filter_pairwise, lemma_filter_prefix_step, pairwise};

verus! {

/// The relational store of the library: catalog, annotations and collections.
/// A value of it is the single owner of the tables; operations that change it
/// take it by `&mut`, so they run one at a time.
pub struct Library {
    books: Vec<BookMetadata>,
    highlights: Vec<Highlight>,
    bookmarks: Vec<Bookmark>,
    collections: Vec<Collection>,
    links: Vec<(i64, i64)>,
    next_book_id: i64,
    next_highlight_id: i64,
    next_bookmark_id: i64,
    next_collection_id: i64,
    clock: u64,
}

impl View for Library {
    type V = LibraryView;

    closed spec fn view(&self) -> LibraryView {
        LibraryView {
            books: self.books@,
            highlights: self.highlights@,
            bookmarks: self.bookmarks@,
            collections: self.collections@,
            links: self.links@,
            next_book_id: self.next_book_id,
            next_highlight_id: self.next_highlight_id,
            next_bookmark_id: self.next_bookmark_id,
            next_collection_id: self.next_collection_id,
            clock: self.clock,
        }
    }
}

fn later(clock: u64, now: u64) -> (r: u64)
    ensures
        r == stamp(clock, now),
{
    if now > clock {
        now
    } else {
        clock
    }
}

fn books_in_order(a: &BookMetadata, b: &BookMetadata) -> (r: bool)
    ensures
        r == book_order()(*a, *b),
{
    a.title != b.title && a.created_at >= b.created_at && a.id != b.id
}

fn highlights_in_order(a: &Highlight, b: &Highlight) -> (r: bool)
    ensures
        r == highlight_order()(*a, *b),
{
    a.created_at >= b.created_at && a.id != b.id
}

fn bookmarks_in_order(a: &Bookmark, b: &Bookmark) -> (r: bool)
    ensures
        r == bookmark_order()(*a, *b),
{
    a.created_at >= b.created_at && a.id != b.id
}

fn collections_in_order(a: &Collection, b: &Collection) -> (r: bool)
    ensures
        r == collection_order()(*a, *b),
{
    name_less(a.name.as_str(), b.name.as_str()) && a.id != b.id
}

fn links_distinct(a: &(i64, i64), b: &(i64, i64)) -> (r: bool)
    ensures
        r == distinct_links()(*a, *b),
{
    !(a.0 == b.0 && a.1 == b.1)
}

fn book_fits_exec(b: &BookMetadata, next: i64, clock: u64) -> (r: bool)
    ensures
        r == book_fits(next, clock)(*b),
{
    0 < b.id && b.id < next && b.created_at <= clock
}

fn highlight_fits_exec(h: &Highlight, next: i64, clock: u64) -> (r: bool)
    ensures
        r == highlight_fits(next, clock)(*h),
{
    0 < h.id && h.id < next && h.created_at <= clock
}

fn bookmark_fits_exec(b: &Bookmark, next: i64, clock: u64) -> (r: bool)
    ensures
        r == bookmark_fits(next, clock)(*b),
{
    0 < b.id && b.id < next && b.created_at <= clock
}

fn collection_fits_exec(c: &Collection, next: i64, clock: u64) -> (r: bool)
    ensures
        r == collection_fits(next, clock)(*c),
{
    0 < c.id && c.id < next && c.created_at <= clock
}

impl Library {
    pub open spec fn wf(&self) -> bool {
        self@.wf()
    }

    /// An empty store.
    pub fn new() -> (r: Library)
        ensures
            r.wf(),
            r@.books.len() == 0,
            r@.highlights.len() == 0,
            r@.bookmarks.len() == 0,
            r@.collections.len() == 0,
            r@.links.len() == 0,
            r@.next_book_id == 1,
            r@.next_highlight_id == 1,
            r@.next_bookmark_id == 1,
            r@.next_collection_id == 1,
            r@.clock == 0,
    {
        Library {
            books: Vec::new(),
            highlights: Vec::new(),
            bookmarks: Vec::new(),
            collections: Vec::new(),
            links: Vec::new(),
            next_book_id: 1,
            next_highlight_id: 1,
            next_bookmark_id: 1,
            next_collection_id: 1,
            clock: 0,
        }
    }

    fn find_book(&self, title: &String) -> (r: Option<usize>)
        ensures
            r is Some ==> r->Some_0 < self@.books.len() && self@.books[r->Some_0 as int].title@
                == title@,
            r is None ==> !has_book(self@.books, title@),
    {
        let mut i: usize = 0;
        while i < self.books.len()
            invariant
                i <= self.books@.len(),
                forall|j: int| 0 <= j < i ==> self.books@[j].title@ != title@,
            decreases self.books@.len() - i,
        {
            if self.books[i].title == *title {
                return Some(i);
            }
            i = i + 1;
        }
        None
    }

    /// Adds a book to the catalog unless its title is there already; either
    /// way returns the title's row. An existing row is left as it is.
    pub fn add_book(&mut self, title: String, filename: String, cover: Option<String>, now: u64) -> (r:
        Result<BookMetadata, StoreError>)
        requires
            old(self).wf(),
        ensures
            final(self).wf(),
            old(self)@.add_book_post(title, filename, cover, now, final(self)@, r),
    {
        match self.find_book(&title) {
            Some(i) => {
                return Ok(self.books[i].copy());
            },
            None => {},
        }
        if self.next_book_id == i64::MAX {
            return Err(StoreError::IdsExhausted);
        }
        let at = later(self.clock, now);
        let book = BookMetadata {
            id: self.next_book_id,
            title,
            filename,
            last_cfi: String::new(),
            cover,
            locations_data: None,
            last_percentage_bits: 0,
            created_at: at,
        };
        let ret = book.copy();
        let ghost pre = self@;
        self.books.insert(0, book);
        self.next_book_id = self.next_book_id + 1;
        self.clock = at;
        proof {
            assert(self@.books =~= seq![ret] + pre.books);
            assert(pairwise(self@.books, book_order())) by {
                assert forall|a: int, b: int| 0 <= a < b < self@.books.len() implies #[trigger] book_order()(
                    self@.books[a],
                    self@.books[b],
                ) by {
                    if a > 0 {
                        assert(book_order()(pre.books[a - 1], pre.books[b - 1]));
                    } else {
                        assert(book_fits(pre.next_book_id, pre.clock)(pre.books[b - 1]));
                    }
                }
            }
            assert(all(self@.books, book_fits(self@.next_book_id, self@.clock))) by {
                assert forall|a: int| 0 <= a < self@.books.len() implies #[trigger] book_fits(
                    self@.next_book_id,
                    self@.clock,
                )(self@.books[a]) by {
                    if a > 0 {
                        assert(book_fits(pre.next_book_id, pre.clock)(pre.books[a - 1]));
                    }
                }
            }
            lemma_fits_grow(pre, self@);
        }
        Ok(ret)
    }

    /// The catalog, newest first.
    pub fn list_books(&self) -> (r: Vec<BookMetadata>)
        ensures
            r@ == self@.books,
    {
        let mut out: Vec<BookMetadata> = Vec::new();
        let mut i: usize = 0;
        while i < self.books.len()
            invariant
                i <= self.books@.len(),
                out@ == self.books@.subrange(0, i as int),
            decreases self.books@.len() - i,
        {
            out.push(self.books[i].copy());
            i = i + 1;
            assert(out@ =~= self.books@.subrange(0, i as int));
        }
        assert(out@ =~= self.books@);
        out
    }

    /// Records the reading position of the book `title`. An unknown title
    /// changes nothing and is no error.
    pub fn update_progress(&mut self, title: &String, cfi: String, percentage_bits: u64)
        requires
            old(self).wf(),
        ensures
            final(self).wf(),
            final(self)@ == old(self)@.after_progress(title@, cfi, percentage_bits),
    {
        let ghost f = progress_of(title@, cfi, percentage_bits);
        let mut out: Vec<BookMetadata> = Vec::new();
        let mut i: usize = 0;
        while i < self.books.len()
            invariant
                i <= self.books@.len(),
                out@.len() == i,
                f == progress_of(title@, cfi, percentage_bits),
                forall|j: int| 0 <= j < i ==> out@[j] == f(self.books@[j]),
            decreases self.books@.len() - i,
        {
            let mut b = self.books[i].copy();
            if b.title == *title {
                b.last_cfi = cfi.clone();
                b.last_percentage_bits = percentage_bits;
            }
            out.push(b);
            i = i + 1;
        }
        let ghost pre = self@;
        proof {
            assert(out@ =~= pre.books.map_values(f));
            self.lemma_books_same_keys(out@);
        }
        self.books = out;
    }

    /// Stores the pagination cache of the book `title`. An unknown title
    /// changes nothing and is no error.
    pub fn update_locations(&mut self, title: &String, data: String)
        requires
            old(self).wf(),
        ensures
            final(self).wf(),
            final(self)@ == (LibraryView {
                books: old(self)@.books.map_values(locations_of(title@, data)),
                ..old(self)@
            }),
    {
        let ghost f = locations_of(title@, data);
        let mut out: Vec<BookMetadata> = Vec::new();
        let mut i: usize = 0;
        while i < self.books.len()
            invariant
                i <= self.books@.len(),
                out@.len() == i,
                f == locations_of(title@, data),
                forall|j: int| 0 <= j < i ==> out@[j] == f(self.books@[j]),
            decreases self.books@.len() - i,
        {
            let mut b = self.books[i].copy();
            if b.title == *title {
                b.locations_data = Some(data.clone());
            }
            out.push(b);
            i = i + 1;
        }
        let ghost pre = self@;
        proof {
            assert(out@ =~= pre.books.map_values(f));
            self.lemma_books_same_keys(out@);
        }
        self.books = out;
    }

    /// A catalog whose rows keep their titles, ids and creation times keeps
    /// the invariant.
    proof fn lemma_books_same_keys(&self, books: Seq<BookMetadata>)
        requires
            self.wf(),
            books.len() == self@.books.len(),
            forall|j: int|
                0 <= j < books.len() ==> (#[trigger] books[j]).title@ == self@.books[j].title@
                    && books[j].id == self@.books[j].id && books[j].created_at
                    == self@.books[j].created_at,
        ensures
            (LibraryView { books: books, ..self@ }).wf(),
    {
        let v = self@;
        assert forall|a: int, b: int| 0 <= a < b < books.len() implies #[trigger] book_order()(
            books[a],
            books[b],
        ) by {
            assert(book_order()(v.books[a], v.books[b]));
        }
        assert forall|a: int| 0 <= a < books.len() implies #[trigger] book_fits(
            v.next_book_id,
            v.clock,
        )(books[a]) by {
            assert(book_fits(v.next_book_id, v.clock)(v.books[a]));
        }
    }

    fn highlight_of_book_exec(&self, id: i64, title: &String) -> (r: bool)
        ensures
            r == highlight_of_book(self@.highlights, id, title@),
    {
        let mut i: usize = 0;
        while i < self.highlights.len()
            invariant
                i <= self.highlights@.len(),
                forall|j: int|
                    0 <= j < i ==> !(self.highlights@[j].id == id && self.highlights@[j].book_title@
                        == title@),
            decreases self.highlights@.len() - i,
        {
            if self.highlights[i].id == id && self.highlights[i].book_title == *title {
                return true;
            }
            i = i + 1;
        }
        false
    }

    /// Deletes the book `title`: its highlights and their links, then its
    /// catalog row. Returns the name of its content file, which the caller
    /// removes next. Bookmarks of the book stay.
    pub fn delete_book(&mut self, title: &String) -> (r: Result<String, StoreError>)
        requires
            old(self).wf(),
        ensures
            final(self).wf(),
            !has_book(old(self)@.books, title@) ==> r == Err::<String, StoreError>(
                StoreError::NotFound,
            ) && final(self)@ == old(self)@,
            has_book(old(self)@.books, title@) ==> final(self)@ == old(self)@.after_delete_book(
                title@,
            ) && exists|i: int|
                0 <= i < old(self)@.books.len() && old(self)@.books[i].title@ == title@ && r
                    == Ok::<String, StoreError>(old(self)@.books[i].filename),
    {
        let idx = match self.find_book(title) {
            Some(i) => i,
            None => {
                return Err(StoreError::NotFound);
            },
        };
        let filename = self.books[idx].filename.clone();
        let ghost pre = self@;

        let ghost pl = link_survives_book(pre.highlights, title@);
        let mut links: Vec<(i64, i64)> = Vec::new();
        let mut i: usize = 0;
        while i < self.links.len()
            invariant
                self@ == pre,
                i <= self.links@.len(),
                pl == link_survives_book(pre.highlights, title@),
                links@ == self.links@.subrange(0, i as int).filter(pl),
            decreases self.links@.len() - i,
        {
            proof {
                lemma_filter_prefix_step(self.links@, pl, i as int);
            }
            let l = self.links[i];
            if !self.highlight_of_book_exec(l.0, title) {
                links.push(l);
            }
            i = i + 1;
        }
        assert(self.links@.subrange(0, self.links@.len() as int) =~= self.links@);

        let ghost ph = not_titled(title@);
        let mut highlights: Vec<Highlight> = Vec::new();
        let mut i: usize = 0;
        while i < self.highlights.len()
            invariant
                self@ == pre,
                i <= self.highlights@.len(),
                ph == not_titled(title@),
                highlights@ == self.highlights@.subrange(0, i as int).filter(ph),
            decreases self.highlights@.len() - i,
        {
            proof {
                lemma_filter_prefix_step(self.highlights@, ph, i as int);
            }
            if self.highlights[i].book_title != *title {
                highlights.push(self.highlights[i].copy());
            }
            i = i + 1;
        }
        assert(self.highlights@.subrange(0, self.highlights@.len() as int) =~= self.highlights@);

        let ghost pb = book_not_titled(title@);
        let mut books: Vec<BookMetadata> = Vec::new();
        let mut i: usize = 0;
        while i < self.books.len()
            invariant
                self@ == pre,
                i <= self.books@.len(),
                pb == book_not_titled(title@),
                books@ == self.books@.subrange(0, i as int).filter(pb),
            decreases self.books@.len() - i,
        {
            proof {
                lemma_filter_prefix_step(self.books@, pb, i as int);
            }
            if self.books[i].title != *title {
                books.push(self.books[i].copy());
            }
            i = i + 1;
        }
        assert(self.books@.subrange(0, self.books@.len() as int) =~= self.books@);

        self.links = links;
        self.highlights = highlights;
        self.books = books;
        proof {
            lemma_filter_pairwise(pre.links, pl, distinct_links());
            lemma_filter_pairwise(pre.highlights, ph, highlight_order());
            lemma_filter_pairwise(pre.books, pb, book_order());
            lemma_filter_all(pre.highlights, ph, highlight_fits(pre.next_highlight_id, pre.clock));
            lemma_filter_all(pre.books, pb, book_fits(pre.next_book_id, pre.clock));
        }
        Ok(filename)
    }

    /// Empties the catalog, the highlights and the bookmarks, and drops the
    /// links of those highlights. Collections stay, and ids already given out
    /// are not given again.
    pub fn wipe_all(&mut self)
        requires
            old(self).wf(),
        ensures
            final(self).wf(),
            final(self)@ == old(self)@.after_wipe(),
    {
        let ghost pre = self@;
        let ghost pl = link_not_among(pre.highlights);
        let mut links: Vec<(i64, i64)> = Vec::new();
        let mut i: usize = 0;
        while i < self.links.len()
            invariant
                self@ == pre,
                i <= self.links@.len(),
                pl == link_not_among(pre.highlights),
                links@ == self.links@.subrange(0, i as int).filter(pl),
            decreases self.links@.len() - i,
        {
            proof {
                lemma_filter_prefix_step(self.links@, pl, i as int);
            }
            let l = self.links[i];
            if !self.has_highlight_exec(l.0) {
                links.push(l);
            }
            i = i + 1;
        }
        assert(self.links@.subrange(0, self.links@.len() as int) =~= self.links@);
        self.links = links;
        self.books = Vec::new();
        self.highlights = Vec::new();
        self.bookmarks = Vec::new();
        proof {
            lemma_filter_pairwise(pre.links, pl, distinct_links());
        }
        assert(self@ =~= pre.after_wipe());
    }

    /// Records a highlight of the book `book_title` and returns it with its id
    /// and creation time. The title is not checked against the catalog.
    pub fn add_highlight(
        &mut self,
        book_title: String,
        cfi: String,
        text: String,
        color: String,
        notes: String,
        now: u64,
    ) -> (r: Result<Highlight, StoreError>)
        requires
            old(self).wf(),
        ensures
            final(self).wf(),
            old(self)@.next_highlight_id == i64::MAX ==> r == Err::<Highlight, StoreError>(
                StoreError::IdsExhausted,
            ) && final(self)@ == old(self)@,
            old(self)@.next_highlight_id < i64::MAX ==> r == Ok::<Highlight, StoreError>(
                (Highlight {
                    id: old(self)@.next_highlight_id,
                    book_title: book_title,
                    cfi: cfi,
                    text: text,
                    color: color,
                    notes: notes,
                    created_at: stamp(old(self)@.clock, now),
                }),
            ) && final(self)@ == (LibraryView {
                highlights: seq![r->Ok_0] + old(self)@.highlights,
                next_highlight_id: (old(self)@.next_highlight_id + 1) as i64,
                clock: stamp(old(self)@.clock, now),
                ..old(self)@
            }),
    {
        if self.next_highlight_id == i64::MAX {
            return Err(StoreError::IdsExhausted);
        }
        let at = later(self.clock, now);
        let h = Highlight {
            id: self.next_highlight_id,
            book_title,
            cfi,
            text,
            color,
            notes,
            created_at: at,
        };
        let ret = h.copy();
        let ghost pre = self@;
        self.highlights.insert(0, h);
        self.next_highlight_id = self.next_highlight_id + 1;
        self.clock = at;
        proof {
            let v = self@;
            assert(v.highlights =~= seq![ret] + pre.highlights);
            assert forall|i: int| 0 <= i < pre.highlights.len() implies #[trigger] highlight_order()(
                ret,
                pre.highlights[i],
            ) by {
                assert(highlight_fits(pre.next_highlight_id, pre.clock)(pre.highlights[i]));
            }
            lemma_prepend_pairwise(pre.highlights, ret, highlight_order());
            lemma_all_implies(
                pre.highlights,
                highlight_fits(pre.next_highlight_id, pre.clock),
                highlight_fits(v.next_highlight_id, v.clock),
            );
            lemma_prepend_all(pre.highlights, ret, highlight_fits(v.next_highlight_id, v.clock));
            self.lemma_other_tables_grow(pre);
        }
        Ok(ret)
    }

    /// Raising the clock keeps the rows of the other tables within bounds.
    proof fn lemma_other_tables_grow(&self, pre: LibraryView)
        requires
            pre.wf(),
            pre.clock <= self@.clock,
            pre.next_book_id <= self@.next_book_id,
            pre.next_highlight_id <= self@.next_highlight_id,
            pre.next_bookmark_id <= self@.next_bookmark_id,
            pre.next_collection_id <= self@.next_collection_id,
        ensures
            all(pre.books, book_fits(self@.next_book_id, self@.clock)),
            all(pre.highlights, highlight_fits(self@.next_highlight_id, self@.clock)),
            all(pre.bookmarks, bookmark_fits(self@.next_bookmark_id, self@.clock)),
            all(pre.collections, collection_fits(self@.next_collection_id, self@.clock)),
    {
        let v = self@;
        lemma_all_implies(pre.books, book_fits(pre.next_book_id, pre.clock), book_fits(v.next_book_id, v.clock));
        lemma_all_implies(
            pre.highlights,
            highlight_fits(pre.next_highlight_id, pre.clock),
            highlight_fits(v.next_highlight_id, v.clock),
        );
        lemma_all_implies(
            pre.bookmarks,
            bookmark_fits(pre.next_bookmark_id, pre.clock),
            bookmark_fits(v.next_bookmark_id, v.clock),
        );
        lemma_all_implies(
            pre.collections,
            collection_fits(pre.next_collection_id, pre.clock),
            collection_fits(v.next_collection_id, v.clock),
        );
    }

    /// The highlights of the book `book_title`, newest first.
    pub fn list_highlights(&self, book_title: &String) -> (r: Vec<Highlight>)
        ensures
            r@ == self@.highlights_of(book_title@),
    {
        let ghost p = titled(book_title@);
        let mut out: Vec<Highlight> = Vec::new();
        let mut i: usize = 0;
        while i < self.highlights.len()
            invariant
                i <= self.highlights@.len(),
                p == titled(book_title@),
                out@ == self.highlights@.subrange(0, i as int).filter(p),
            decreases self.highlights@.len() - i,
        {
            proof {
                lemma_filter_prefix_step(self.highlights@, p, i as int);
            }
            if self.highlights[i].book_title == *book_title {
                out.push(self.highlights[i].copy());
            }
            i = i + 1;
        }
        assert(self.highlights@.subrange(0, self.highlights@.len() as int) =~= self.highlights@);
        out
    }

    /// Every highlight, newest first.
    pub fn list_all_highlights(&self) -> (r: Vec<Highlight>)
        ensures
            r@ == self@.highlights,
    {
        let mut out: Vec<Highlight> = Vec::new();
        let mut i: usize = 0;
        while i < self.highlights.len()
            invariant
                i <= self.highlights@.len(),
                out@ == self.highlights@.subrange(0, i as int),
            decreases self.highlights@.len() - i,
        {
            out.push(self.highlights[i].copy());
            i = i + 1;
            assert(out@ =~= self.highlights@.subrange(0, i as int));
        }
        assert(out@ =~= self.highlights@);
        out
    }

    /// Replaces the notes of highlight `id`. An unknown id changes nothing.
    pub fn update_highlight_notes(&mut self, id: i64, notes: String)
        requires
            old(self).wf(),
        ensures
            final(self).wf(),
            final(self)@ == (LibraryView {
                highlights: old(self)@.highlights.map_values(notes_of(id, notes)),
                ..old(self)@
            }),
    {
        let ghost f = notes_of(id, notes);
        let mut out: Vec<Highlight> = Vec::new();
        let mut i: usize = 0;
        while i < self.highlights.len()
            invariant
                i <= self.highlights@.len(),
                out@.len() == i,
                f == notes_of(id, notes),
                forall|j: int| 0 <= j < i ==> out@[j] == f(self.highlights@[j]),
            decreases self.highlights@.len() - i,
        {
            let mut h = self.highlights[i].copy();
            if h.id == id {
                h.notes = notes.clone();
            }
            out.push(h);
            i = i + 1;
        }
        let ghost pre = self@;
        proof {
            assert(out@ =~= pre.highlights.map_values(f));
            assert forall|a: int, b: int| 0 <= a < b < out@.len() implies #[trigger] highlight_order()(
                out@[a],
                out@[b],
            ) by {
                assert(highlight_order()(pre.highlights[a], pre.highlights[b]));
            }
            assert forall|a: int| 0 <= a < out@.len() implies #[trigger] highlight_fits(
                pre.next_highlight_id,
                pre.clock,
            )(out@[a]) by {
                assert(highlight_fits(pre.next_highlight_id, pre.clock)(pre.highlights[a]));
            }
        }
        self.highlights = out;
    }

    /// Deletes highlight `id` and every link to it. An unknown id changes
    /// nothing.
    pub fn delete_highlight(&mut self, id: i64)
        requires
            old(self).wf(),
        ensures
            final(self).wf(),
            final(self)@ == (LibraryView {
                highlights: old(self)@.highlights.filter(highlight_not_id(id)),
                links: old(self)@.links.filter(link_not_highlight(id)),
                ..old(self)@
            }),
    {
        let ghost pre = self@;
        let ghost pl = link_not_highlight(id);
        let mut links: Vec<(i64, i64)> = Vec::new();
        let mut i: usize = 0;
        while i < self.links.len()
            invariant
                i <= self.links@.len(),
                pl == link_not_highlight(id),
                links@ == self.links@.subrange(0, i as int).filter(pl),
            decreases self.links@.len() - i,
        {
            proof {
                lemma_filter_prefix_step(self.links@, pl, i as int);
            }
            let l = self.links[i];
            if l.0 != id {
                links.push(l);
            }
            i = i + 1;
        }
        assert(self.links@.subrange(0, self.links@.len() as int) =~= self.links@);
        let ghost ph = highlight_not_id(id);
        let mut highlights: Vec<Highlight> = Vec::new();
        let mut i: usize = 0;
        while i < self.highlights.len()
            invariant
                i <= self.highlights@.len(),
                ph == highlight_not_id(id),
                highlights@ == self.highlights@.subrange(0, i as int).filter(ph),
            decreases self.highlights@.len() - i,
        {
            proof {
                lemma_filter_prefix_step(self.highlights@, ph, i as int);
            }
            if self.highlights[i].id != id {
                highlights.push(self.highlights[i].copy());
            }
            i = i + 1;
        }
        assert(self.highlights@.subrange(0, self.highlights@.len() as int) =~= self.highlights@);
        self.links = links;
        self.highlights = highlights;
        proof {
            lemma_filter_pairwise(pre.links, pl, distinct_links());
            lemma_filter_pairwise(pre.highlights, ph, highlight_order());
            lemma_filter_all(pre.highlights, ph, highlight_fits(pre.next_highlight_id, pre.clock));
        }
    }

    /// Records a bookmark of the book `book_title` and returns it with its id
    /// and creation time. The title is not checked against the catalog.
    pub fn add_bookmark(&mut self, book_title: String, cfi: String, label: String, now: u64) -> (r:
        Result<Bookmark, StoreError>)
        requires
            old(self).wf(),
        ensures
            final(self).wf(),
            old(self)@.next_bookmark_id == i64::MAX ==> r == Err::<Bookmark, StoreError>(
                StoreError::IdsExhausted,
            ) && final(self)@ == old(self)@,
            old(self)@.next_bookmark_id < i64::MAX ==> r == Ok::<Bookmark, StoreError>(
                (Bookmark {
                    id: old(self)@.next_bookmark_id,
                    book_title: book_title,
                    cfi: cfi,
                    label: label,
                    created_at: stamp(old(self)@.clock, now),
                }),
            ) && final(self)@ == (LibraryView {
                bookmarks: seq![r->Ok_0] + old(self)@.bookmarks,
                next_bookmark_id: (old(self)@.next_bookmark_id + 1) as i64,
                clock: stamp(old(self)@.clock, now),
                ..old(self)@
            }),
    {
        if self.next_bookmark_id == i64::MAX {
            return Err(StoreError::IdsExhausted);
        }
        let at = later(self.clock, now);
        let b = Bookmark { id: self.next_bookmark_id, book_title, cfi, label, created_at: at };
        let ret = b.copy();
        let ghost pre = self@;
        self.bookmarks.insert(0, b);
        self.next_bookmark_id = self.next_bookmark_id + 1;
        self.clock = at;
        proof {
            let v = self@;
            assert(v.bookmarks =~= seq![ret] + pre.bookmarks);
            assert forall|i: int| 0 <= i < pre.bookmarks.len() implies #[trigger] bookmark_order()(
                ret,
                pre.bookmarks[i],
            ) by {
                assert(bookmark_fits(pre.next_bookmark_id, pre.clock)(pre.bookmarks[i]));
            }
            lemma_prepend_pairwise(pre.bookmarks, ret, bookmark_order());
            self.lemma_other_tables_grow(pre);
            lemma_prepend_all(pre.bookmarks, ret, bookmark_fits(v.next_bookmark_id, v.clock));
        }
        Ok(ret)
    }

    /// The bookmarks of the book `book_title`, newest first.
    pub fn list_bookmarks(&self, book_title: &String) -> (r: Vec<Bookmark>)
        ensures
            r@ == self@.bookmarks_of(book_title@),
    {
        let ghost p = bookmark_titled(book_title@);
        let mut out: Vec<Bookmark> = Vec::new();
        let mut i: usize = 0;
        while i < self.bookmarks.len()
            invariant
                i <= self.bookmarks@.len(),
                p == bookmark_titled(book_title@),
                out@ == self.bookmarks@.subrange(0, i as int).filter(p),
            decreases self.bookmarks@.len() - i,
        {
            proof {
                lemma_filter_prefix_step(self.bookmarks@, p, i as int);
            }
            if self.bookmarks[i].book_title == *book_title {
                out.push(self.bookmarks[i].copy());
            }
            i = i + 1;
        }
        assert(self.bookmarks@.subrange(0, self.bookmarks@.len() as int) =~= self.bookmarks@);
        out
    }

    /// Every bookmark, newest first.
    pub fn list_all_bookmarks(&self) -> (r: Vec<Bookmark>)
        ensures
            r@ == self@.bookmarks,
    {
        let mut out: Vec<Bookmark> = Vec::new();
        let mut i: usize = 0;
        while i < self.bookmarks.len()
            invariant
                i <= self.bookmarks@.len(),
                out@ == self.bookmarks@.subrange(0, i as int),
            decreases self.bookmarks@.len() - i,
        {
            out.push(self.bookmarks[i].copy());
            i = i + 1;
            assert(out@ =~= self.bookmarks@.subrange(0, i as int));
        }
        assert(out@ =~= self.bookmarks@);
        out
    }

    /// Every (highlight id, collection id) link.
    pub fn list_links(&self) -> (r: Vec<(i64, i64)>)
        ensures
            r@ == self@.links,
    {
        let mut out: Vec<(i64, i64)> = Vec::new();
        let mut i: usize = 0;
        while i < self.links.len()
            invariant
                i <= self.links@.len(),
                out@ == self.links@.subrange(0, i as int),
            decreases self.links@.len() - i,
        {
            out.push(self.links[i]);
            i = i + 1;
            assert(out@ =~= self.links@.subrange(0, i as int));
        }
        assert(out@ =~= self.links@);
        out
    }

    /// Deletes bookmark `id`. An unknown id changes nothing.
    pub fn delete_bookmark(&mut self, id: i64)
        requires
            old(self).wf(),
        ensures
            final(self).wf(),
            final(self)@ == (LibraryView {
                bookmarks: old(self)@.bookmarks.filter(bookmark_not_id(id)),
                ..old(self)@
            }),
    {
        let ghost pre = self@;
        let ghost p = bookmark_not_id(id);
        let mut out: Vec<Bookmark> = Vec::new();
        let mut i: usize = 0;
        while i < self.bookmarks.len()
            invariant
                i <= self.bookmarks@.len(),
                p == bookmark_not_id(id),
                out@ == self.bookmarks@.subrange(0, i as int).filter(p),
            decreases self.bookmarks@.len() - i,
        {
            proof {
                lemma_filter_prefix_step(self.bookmarks@, p, i as int);
            }
            if self.bookmarks[i].id != id {
                out.push(self.bookmarks[i].copy());
            }
            i = i + 1;
        }
        assert(self.bookmarks@.subrange(0, self.bookmarks@.len() as int) =~= self.bookmarks@);
        self.bookmarks = out;
        proof {
            lemma_filter_pairwise(pre.bookmarks, p, bookmark_order());
            lemma_filter_all(pre.bookmarks, p, bookmark_fits(pre.next_bookmark_id, pre.clock));
        }
    }

    /// Creates a collection. A name already taken is refused with
    /// `DuplicateName`; otherwise the collection takes its place in name order.
    pub fn create_collection(&mut self, name: String, emoji: String, now: u64) -> (r: Result<
        Collection,
        StoreError,
    >)
        requires
            old(self).wf(),
        ensures
            final(self).wf(),
            old(self)@.create_collection_post(name, emoji, now, final(self)@, r),
    {
        let n = self.collections.len();
        let mut i: usize = 0;
        while i < n
            invariant
                self.wf(),
                n == self.collections@.len(),
                i <= n,
                forall|j: int| 0 <= j < i ==> self.collections@[j].name@ != name@,
            decreases n - i,
        {
            if self.collections[i].name == name {
                return Err(StoreError::DuplicateName);
            }
            i = i + 1;
        }
        if self.next_collection_id == i64::MAX {
            return Err(StoreError::IdsExhausted);
        }
        let mut p: usize = 0;
        let mut placed = false;
        while !placed && p < n
            invariant
                n == self.collections@.len(),
                p <= n,
                forall|j: int| 0 <= j < n ==> self.collections@[j].name@ != name@,
                forall|j: int| 0 <= j < p ==> name_lt(self.collections@[j].name@, name@),
                placed ==> p < n && name_lt(name@, self.collections@[p as int].name@),
            decreases n - p + (if placed {
                0int
            } else {
                1int
            }),
        {
            if name_less(name.as_str(), self.collections[p].name.as_str()) {
                placed = true;
            } else {
                proof {
                    lemma_name_lt_total(self.collections@[p as int].name@, name@);
                }
                p = p + 1;
            }
        }
        let at = later(self.clock, now);
        let c = Collection { id: self.next_collection_id, name, emoji, created_at: at };
        let ret = c.copy();
        let ghost pre = self@;
        self.collections.insert(p, c);
        self.next_collection_id = self.next_collection_id + 1;
        self.clock = at;
        proof {
            let v = self@;
            let t = pre.collections.insert(p as int, ret);
            assert(v.collections =~= t);
            assert forall|a: int, b: int| 0 <= a < b < t.len() implies #[trigger] collection_order()(
                t[a],
                t[b],
            ) by {
                if b < p {
                    assert(collection_order()(pre.collections[a], pre.collections[b]));
                } else if b == p {
                    assert(collection_fits(pre.next_collection_id, pre.clock)(pre.collections[a]));
                } else {
                    if a < p {
                        assert(collection_order()(pre.collections[a], pre.collections[b - 1]));
                    } else if a == p {
                        assert(collection_fits(pre.next_collection_id, pre.clock)(pre.collections[b - 1]));
                        if b - 1 > p {
                            assert(collection_order()(pre.collections[a], pre.collections[b - 1]));
                            lemma_name_lt_transitive(
                                ret.name@,
                                pre.collections[a].name@,
                                pre.collections[b - 1].name@,
                            );
                        }
                    } else {
                        assert(collection_order()(pre.collections[a - 1], pre.collections[b - 1]));
                    }
                }
            }
            self.lemma_other_tables_grow(pre);
            assert forall|a: int| 0 <= a < t.len() implies #[trigger] collection_fits(
                v.next_collection_id,
                v.clock,
            )(t[a]) by {
                if a < p {
                    assert(collection_fits(v.next_collection_id, v.clock)(pre.collections[a]));
                } else if a > p {
                    assert(collection_fits(v.next_collection_id, v.clock)(pre.collections[a - 1]));
                }
            }
            assert(v == (LibraryView {
                collections: pre.collections.insert(p as int, ret),
                next_collection_id: (pre.next_collection_id + 1) as i64,
                clock: stamp(pre.clock, now),
                ..pre
            }));
        }
        Ok(ret)
    }

    /// Every collection, in ascending name order.
    pub fn list_collections(&self) -> (r: Vec<Collection>)
        ensures
            r@ == self@.collections,
    {
        let mut out: Vec<Collection> = Vec::new();
        let mut i: usize = 0;
        while i < self.collections.len()
            invariant
                i <= self.collections@.len(),
                out@ == self.collections@.subrange(0, i as int),
            decreases self.collections@.len() - i,
        {
            out.push(self.collections[i].copy());
            i = i + 1;
            assert(out@ =~= self.collections@.subrange(0, i as int));
        }
        assert(out@ =~= self.collections@);
        out
    }

    /// Deletes the links to collection `id`, then the collection. An unknown id
    /// changes nothing.
    pub fn delete_collection(&mut self, id: i64)
        requires
            old(self).wf(),
        ensures
            final(self).wf(),
            final(self)@ == (LibraryView {
                collections: old(self)@.collections.filter(collection_not_id(id)),
                links: old(self)@.links.filter(link_not_collection(id)),
                ..old(self)@
            }),
    {
        let ghost pre = self@;
        let ghost pl = link_not_collection(id);
        let mut links: Vec<(i64, i64)> = Vec::new();
        let mut i: usize = 0;
        while i < self.links.len()
            invariant
                i <= self.links@.len(),
                pl == link_not_collection(id),
                links@ == self.links@.subrange(0, i as int).filter(pl),
            decreases self.links@.len() - i,
        {
            proof {
                lemma_filter_prefix_step(self.links@, pl, i as int);
            }
            let l = self.links[i];
            if l.1 != id {
                links.push(l);
            }
            i = i + 1;
        }
        assert(self.links@.subrange(0, self.links@.len() as int) =~= self.links@);
        let ghost pc = collection_not_id(id);
        let mut collections: Vec<Collection> = Vec::new();
        let mut i: usize = 0;
        while i < self.collections.len()
            invariant
                i <= self.collections@.len(),
                pc == collection_not_id(id),
                collections@ == self.collections@.subrange(0, i as int).filter(pc),
            decreases self.collections@.len() - i,
        {
            proof {
                lemma_filter_prefix_step(self.collections@, pc, i as int);
            }
            if self.collections[i].id != id {
                collections.push(self.collections[i].copy());
            }
            i = i + 1;
        }
        assert(self.collections@.subrange(0, self.collections@.len() as int) =~= self.collections@);
        self.links = links;
        self.collections = collections;
        proof {
            lemma_filter_pairwise(pre.links, pl, distinct_links());
            lemma_filter_pairwise(pre.collections, pc, collection_order());
            lemma_filter_all(pre.collections, pc, collection_fits(pre.next_collection_id, pre.clock));
        }
    }

    fn has_highlight_exec(&self, id: i64) -> (r: bool)
        ensures
            r == has_highlight(self@.highlights, id),
    {
        let mut i: usize = 0;
        while i < self.highlights.len()
            invariant
                i <= self.highlights@.len(),
                forall|j: int| 0 <= j < i ==> self.highlights@[j].id != id,
            decreases self.highlights@.len() - i,
        {
            if self.highlights[i].id == id {
                return true;
            }
            i = i + 1;
        }
        false
    }

    fn has_collection_exec(&self, id: i64) -> (r: bool)
        ensures
            r == has_collection(self@.collections, id),
    {
        let mut i: usize = 0;
        while i < self.collections.len()
            invariant
                i <= self.collections@.len(),
                forall|j: int| 0 <= j < i ==> self.collections@[j].id != id,
            decreases self.collections@.len() - i,
        {
            if self.collections[i].id == id {
                return true;
            }
            i = i + 1;
        }
        false
    }

    fn has_link(&self, highlight_id: i64, collection_id: i64) -> (r: bool)
        ensures
            r == self@.links.contains((highlight_id, collection_id)),
    {
        let mut i: usize = 0;
        while i < self.links.len()
            invariant
                i <= self.links@.len(),
                forall|j: int| 0 <= j < i ==> self.links@[j] != (highlight_id, collection_id),
            decreases self.links@.len() - i,
        {
            let l = self.links[i];
            if l.0 == highlight_id && l.1 == collection_id {
                assert(self.links@[i as int] == (highlight_id, collection_id));
                return true;
            }
            i = i + 1;
        }
        false
    }

    /// Puts highlight `highlight_id` into collection `collection_id`. Both must
    /// exist; linking a pair twice keeps one link.
    pub fn link(&mut self, highlight_id: i64, collection_id: i64) -> (r: Result<(), StoreError>)
        requires
            old(self).wf(),
        ensures
            final(self).wf(),
            old(self)@.link_post(highlight_id, collection_id, final(self)@, r),
    {
        if !self.has_highlight_exec(highlight_id) || !self.has_collection_exec(collection_id) {
            return Err(StoreError::NotFound);
        }
        if self.has_link(highlight_id, collection_id) {
            return Ok(());
        }
        let ghost pre = self@;
        self.links.push((highlight_id, collection_id));
        proof {
            let t = pre.links.push((highlight_id, collection_id));
            assert forall|a: int, b: int| 0 <= a < b < t.len() implies #[trigger] distinct_links()(
                t[a],
                t[b],
            ) by {
                if b < pre.links.len() {
                    assert(distinct_links()(pre.links[a], pre.links[b]));
                } else {
                    assert(pre.links.contains(pre.links[a]));
                }
            }
        }
        Ok(())
    }

    /// Takes highlight `highlight_id` out of collection `collection_id`. A
    /// missing link changes nothing.
    pub fn unlink(&mut self, highlight_id: i64, collection_id: i64)
        requires
            old(self).wf(),
        ensures
            final(self).wf(),
            final(self)@ == old(self)@.after_unlink(highlight_id, collection_id),
    {
        let ghost pre = self@;
        let ghost pl = link_not_pair(highlight_id, collection_id);
        let mut links: Vec<(i64, i64)> = Vec::new();
        let mut i: usize = 0;
        while i < self.links.len()
            invariant
                i <= self.links@.len(),
                pl == link_not_pair(highlight_id, collection_id),
                links@ == self.links@.subrange(0, i as int).filter(pl),
            decreases self.links@.len() - i,
        {
            proof {
                lemma_filter_prefix_step(self.links@, pl, i as int);
            }
            let l = self.links[i];
            if !(l.0 == highlight_id && l.1 == collection_id) {
                links.push(l);
            }
            i = i + 1;
        }
        assert(self.links@.subrange(0, self.links@.len() as int) =~= self.links@);
        self.links = links;
        proof {
            lemma_filter_pairwise(pre.links, pl, distinct_links());
        }
    }

    /// The highlights in collection `collection_id`, newest first.
    pub fn highlights_in(&self, collection_id: i64) -> (r: Vec<Highlight>)
        ensures
            r@ == self@.highlights_in(collection_id),
    {
        let ghost p = in_collection(self@.links, collection_id);
        let mut out: Vec<Highlight> = Vec::new();
        let mut i: usize = 0;
        while i < self.highlights.len()
            invariant
                i <= self.highlights@.len(),
                p == in_collection(self@.links, collection_id),
                out@ == self.highlights@.subrange(0, i as int).filter(p),
            decreases self.highlights@.len() - i,
        {
            proof {
                lemma_filter_prefix_step(self.highlights@, p, i as int);
            }
            if self.has_link(self.highlights[i].id, collection_id) {
                out.push(self.highlights[i].copy());
            }
            i = i + 1;
        }
        assert(self.highlights@.subrange(0, self.highlights@.len() as int) =~= self.highlights@);
        out
    }

    /// The collections that hold highlight `highlight_id`, in name order.
    pub fn collections_of(&self, highlight_id: i64) -> (r: Vec<Collection>)
        ensures
            r@ == self@.collections_of(highlight_id),
    {
        let ghost p = holds_highlight(self@.links, highlight_id);
        let mut out: Vec<Collection> = Vec::new();
        let mut i: usize = 0;
        while i < self.collections.len()
            invariant
                i <= self.collections@.len(),
                p == holds_highlight(self@.links, highlight_id),
                out@ == self.collections@.subrange(0, i as int).filter(p),
            decreases self.collections@.len() - i,
        {
            proof {
                lemma_filter_prefix_step(self.collections@, p, i as int);
            }
            if self.has_link(highlight_id, self.collections[i].id) {
                out.push(self.collections[i].copy());
            }
            i = i + 1;
        }
        assert(self.collections@.subrange(0, self.collections@.len() as int) =~= self.collections@);
        out
    }

    /// Rebuilds a store from rows read back from storage: tables in listing
    /// order, the next id of each table and the latest creation time. The
    /// rows are taken only if they meet the store's invariant.
    pub fn restore(
        books: Vec<BookMetadata>,
        highlights: Vec<Highlight>,
        bookmarks: Vec<Bookmark>,
        collections: Vec<Collection>,
        links: Vec<(i64, i64)>,
        next_book_id: i64,
        next_highlight_id: i64,
        next_bookmark_id: i64,
        next_collection_id: i64,
        clock: u64,
    ) -> (r: Option<Library>)
        ensures
            r is Some <==> (LibraryView {
                books: books@,
                highlights: highlights@,
                bookmarks: bookmarks@,
                collections: collections@,
                links: links@,
                next_book_id,
                next_highlight_id,
                next_bookmark_id,
                next_collection_id,
                clock,
            }).wf(),
            r is Some ==> r->Some_0@ == (LibraryView {
                books: books@,
                highlights: highlights@,
                bookmarks: bookmarks@,
                collections: collections@,
                links: links@,
                next_book_id,
                next_highlight_id,
                next_bookmark_id,
                next_collection_id,
                clock,
            }),
    {
        if next_book_id <= 0 || next_highlight_id <= 0 || next_bookmark_id <= 0 || next_collection_id <= 0 {
            return None;
        }
        let ok = check_pairwise(&books, books_in_order, Ghost(book_order())) && check_pairwise(
            &highlights,
            highlights_in_order,
            Ghost(highlight_order()),
        ) && check_pairwise(&bookmarks, bookmarks_in_order, Ghost(bookmark_order()))
            && check_pairwise(&collections, collections_in_order, Ghost(collection_order()))
            && check_pairwise(&links, links_distinct, Ghost(distinct_links())) && check_all(
            &books,
            book_fits_exec,
            next_book_id,
            clock,
            Ghost(book_fits(next_book_id, clock)),
        ) && check_all(
            &highlights,
            highlight_fits_exec,
            next_highlight_id,
            clock,
            Ghost(highlight_fits(next_highlight_id, clock)),
        ) && check_all(
            &bookmarks,
            bookmark_fits_exec,
            next_bookmark_id,
            clock,
            Ghost(bookmark_fits(next_bookmark_id, clock)),
        ) && check_all(
            &collections,
            collection_fits_exec,
            next_collection_id,
            clock,
            Ghost(collection_fits(next_collection_id, clock)),
        );
        if !ok {
            return None;
        }
        Some(
            Library {
                books,
                highlights,
                bookmarks,
                collections,
                links,
                next_book_id,
                next_highlight_id,
                next_bookmark_id,
                next_collection_id,
                clock,
            },
        )
    }
}

} // verus!
