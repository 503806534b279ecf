use shelf_store::{Library, StoreError};

fn s(x: &str) -> String {
    x.to_string()
}

fn library_with_book(title: &str, filename: &str) -> Library {
    let mut lib = Library::new();
    lib.add_book(s(title), s(filename), None, 100).unwrap();
    lib
}

#[test]
fn add_book_returns_fresh_row() {
    let mut lib = Library::new();
    let b = lib
        .add_book(s("Dune"), s("dune.epub"), Some(s("cover")), 42)
        .unwrap();
    assert_eq!(b.id, 1);
    assert_eq!(b.title, "Dune");
    assert_eq!(b.filename, "dune.epub");
    assert_eq!(b.last_cfi, "");
    assert_eq!(b.cover, Some(s("cover")));
    assert_eq!(b.locations_data, None);
    assert_eq!(b.last_percentage_bits, 0);
    assert_eq!(b.created_at, 42);
    assert_eq!(lib.list_books(), vec![b]);
}

#[test]
fn add_book_twice_is_idempotent() {
    let mut lib = Library::new();
    let first = lib.add_book(s("T"), s("a.epub"), Some(s("c1")), 10).unwrap();
    let second = lib.add_book(s("T"), s("b.epub"), Some(s("c2")), 20).unwrap();
    assert_eq!(first, second);
    let books = lib.list_books();
    assert_eq!(books.len(), 1);
    assert_eq!(books[0].filename, "a.epub");
    assert_eq!(books[0].cover, Some(s("c1")));
}

#[test]
fn delete_book_cascades_to_highlights() {
    let mut lib = library_with_book("T", "t.epub");
    for i in 0..3 {
        lib.add_highlight(s("T"), format!("cfi{i}"), s("text"), s("#facc15"), s(""), 200)
            .unwrap();
    }
    let other = lib
        .add_highlight(s("U"), s("cfi"), s("x"), s("#fff"), s(""), 201)
        .unwrap();
    let bm = lib.add_bookmark(s("T"), s("cfi"), s("mark"), 202).unwrap();
    let c = lib.create_collection(s("Favorites"), s("*"), 203).unwrap();
    let first = lib.list_highlights(&s("T"))[0].id;
    lib.link(first, c.id).unwrap();
    lib.link(other.id, c.id).unwrap();

    assert_eq!(lib.delete_book(&s("T")), Ok(s("t.epub")));
    assert!(lib.list_highlights(&s("T")).is_empty());
    assert!(lib.list_books().is_empty());
    assert_eq!(lib.list_all_highlights(), vec![other.clone()]);
    // bookmarks are not cascaded
    assert_eq!(lib.list_bookmarks(&s("T")), vec![bm]);
    // links of the deleted highlights are gone, others stay
    assert_eq!(lib.highlights_in(c.id), vec![other.clone()]);
    assert!(lib.collections_of(first).is_empty());
}

#[test]
fn delete_unknown_book_is_not_found() {
    let mut lib = library_with_book("T", "t.epub");
    assert_eq!(lib.delete_book(&s("missing")), Err(StoreError::NotFound));
    assert_eq!(lib.list_books().len(), 1);
}

#[test]
fn update_progress_of_unknown_title_changes_nothing() {
    let mut lib = library_with_book("T", "t.epub");
    let before = lib.list_books();
    lib.update_progress(&s("nonexistent"), s("cfi"), 0.5f64.to_bits());
    assert_eq!(lib.list_books(), before);
}

#[test]
fn update_progress_and_locations_of_known_title() {
    let mut lib = library_with_book("T", "t.epub");
    lib.update_progress(&s("T"), s("epubcfi(/6/4)"), 0.25f64.to_bits());
    lib.update_locations(&s("T"), s("[1,2,3]"));
    let b = &lib.list_books()[0];
    assert_eq!(b.last_cfi, "epubcfi(/6/4)");
    assert_eq!(f64::from_bits(b.last_percentage_bits), 0.25);
    assert_eq!(b.locations_data, Some(s("[1,2,3]")));
    assert_eq!(b.filename, "t.epub");
}

#[test]
fn collection_names_are_unique() {
    let mut lib = Library::new();
    let c = lib.create_collection(s("Favorites"), s("⭐"), 1).unwrap();
    assert_eq!(c.name, "Favorites");
    assert_eq!(c.emoji, "⭐");
    assert_eq!(
        lib.create_collection(s("Favorites"), s("🔥"), 2),
        Err(StoreError::DuplicateName)
    );
    let all = lib.list_collections();
    assert_eq!(all.len(), 1);
    assert_eq!(all[0].emoji, "⭐");
}

#[test]
fn link_twice_keeps_one_link_and_unlink_removes_it() {
    let mut lib = Library::new();
    let h = lib
        .add_highlight(s("T"), s("cfi"), s("x"), s("#facc15"), s(""), 5)
        .unwrap();
    let c = lib.create_collection(s("Quotes"), s("📌"), 6).unwrap();
    assert_eq!(lib.link(h.id, c.id), Ok(()));
    assert_eq!(lib.link(h.id, c.id), Ok(()));
    assert_eq!(lib.highlights_in(c.id), vec![h.clone()]);
    assert_eq!(lib.collections_of(h.id), vec![c.clone()]);
    lib.unlink(h.id, c.id);
    assert!(lib.highlights_in(c.id).is_empty());
    // unlinking again is a no-op
    lib.unlink(h.id, c.id);
    assert!(lib.collections_of(h.id).is_empty());
}

#[test]
fn link_with_unknown_end_is_not_found() {
    let mut lib = Library::new();
    let h = lib
        .add_highlight(s("T"), s("cfi"), s("x"), s("#facc15"), s(""), 5)
        .unwrap();
    assert_eq!(lib.link(h.id, 99), Err(StoreError::NotFound));
    let c = lib.create_collection(s("Q"), s("📌"), 6).unwrap();
    assert_eq!(lib.link(77, c.id), Err(StoreError::NotFound));
    assert!(lib.highlights_in(c.id).is_empty());
}

#[test]
fn wipe_all_empties_books_highlights_bookmarks() {
    let mut lib = library_with_book("T", "t.epub");
    lib.add_book(s("U"), s("u.epub"), None, 101).unwrap();
    let h = lib
        .add_highlight(s("T"), s("cfi"), s("x"), s("#facc15"), s(""), 102)
        .unwrap();
    lib.add_bookmark(s("T"), s("cfi"), s("b"), 103).unwrap();
    let c = lib.create_collection(s("Keep"), s("📌"), 104).unwrap();
    lib.link(h.id, c.id).unwrap();
    lib.wipe_all();
    assert!(lib.list_books().is_empty());
    assert!(lib.list_all_highlights().is_empty());
    assert!(lib.list_bookmarks(&s("T")).is_empty());
    assert!(lib.list_bookmarks(&s("U")).is_empty());
    // collections survive a wipe, the links of wiped highlights do not
    assert_eq!(lib.list_collections(), vec![c.clone()]);
    assert!(lib.list_links().is_empty());
    assert!(lib.highlights_in(c.id).is_empty());
    // ids are not reused after a wipe
    let again = lib.add_book(s("T"), s("t.epub"), None, 105).unwrap();
    assert_eq!(again.id, 3);
}

#[test]
fn books_listed_newest_first() {
    let mut lib = Library::new();
    lib.add_book(s("A"), s("a"), None, 100).unwrap();
    lib.add_book(s("B"), s("b"), None, 200).unwrap();
    lib.add_book(s("C"), s("c"), None, 300).unwrap();
    let titles: Vec<String> = lib.list_books().into_iter().map(|b| b.title).collect();
    assert_eq!(titles, vec![s("C"), s("B"), s("A")]);
}

#[test]
fn creation_times_never_go_back() {
    let mut lib = Library::new();
    lib.add_book(s("A"), s("a"), None, 300).unwrap();
    let b = lib.add_book(s("B"), s("b"), None, 100).unwrap();
    assert_eq!(b.created_at, 300);
    assert_eq!(lib.list_books()[0].title, "B");
}

#[test]
fn collections_listed_by_name() {
    let mut lib = Library::new();
    lib.create_collection(s("beta"), s("b"), 1).unwrap();
    lib.create_collection(s("Alpha"), s("a"), 2).unwrap();
    lib.create_collection(s("gamma"), s("g"), 3).unwrap();
    lib.create_collection(s("alpha"), s("a"), 4).unwrap();
    let names: Vec<String> = lib.list_collections().into_iter().map(|c| c.name).collect();
    assert_eq!(names, vec![s("Alpha"), s("alpha"), s("beta"), s("gamma")]);
}

#[test]
fn highlights_listed_newest_first_per_book() {
    let mut lib = Library::new();
    let a = lib.add_highlight(s("T"), s("1"), s("a"), s("c"), s(""), 1).unwrap();
    let b = lib.add_highlight(s("U"), s("2"), s("b"), s("c"), s(""), 2).unwrap();
    let c = lib.add_highlight(s("T"), s("3"), s("c"), s("c"), s(""), 3).unwrap();
    assert_eq!(lib.list_highlights(&s("T")), vec![c.clone(), a.clone()]);
    assert_eq!(lib.list_all_highlights(), vec![c, b, a]);
}

#[test]
fn update_notes_and_delete_highlight() {
    let mut lib = Library::new();
    let h = lib.add_highlight(s("T"), s("1"), s("a"), s("c"), s(""), 1).unwrap();
    let col = lib.create_collection(s("C"), s("📌"), 2).unwrap();
    lib.link(h.id, col.id).unwrap();
    lib.update_highlight_notes(h.id, s("a note"));
    assert_eq!(lib.list_all_highlights()[0].notes, "a note");
    lib.update_highlight_notes(999, s("nothing"));
    lib.delete_highlight(999);
    assert_eq!(lib.list_all_highlights().len(), 1);
    lib.delete_highlight(h.id);
    assert!(lib.list_all_highlights().is_empty());
    assert!(lib.collections_of(h.id).is_empty());
}

#[test]
fn delete_bookmark_and_collection() {
    let mut lib = Library::new();
    let b1 = lib.add_bookmark(s("T"), s("1"), s("one"), 1).unwrap();
    let b2 = lib.add_bookmark(s("T"), s("2"), s("two"), 2).unwrap();
    lib.delete_bookmark(b1.id);
    lib.delete_bookmark(12345);
    assert_eq!(lib.list_bookmarks(&s("T")), vec![b2]);
    let h = lib.add_highlight(s("T"), s("1"), s("a"), s("c"), s(""), 3).unwrap();
    let c = lib.create_collection(s("C"), s("📌"), 4).unwrap();
    lib.link(h.id, c.id).unwrap();
    lib.delete_collection(c.id);
    assert!(lib.list_collections().is_empty());
    assert!(lib.collections_of(h.id).is_empty());
    lib.delete_collection(c.id);
}
