use shelf_store::{finish_delete, DeleteOutcome, FileRemoval, Library, StoreError};

fn s(x: &str) -> String {
    x.to_string()
}

fn sample() -> Library {
    let mut lib = Library::new();
    lib.add_book(s("A"), s("a.epub"), None, 10).unwrap();
    lib.add_book(s("B"), s("b.epub"), Some(s("c")), 20).unwrap();
    let h = lib.add_highlight(s("A"), s("1"), s("t"), s("#fff"), s("n"), 30).unwrap();
    lib.add_bookmark(s("B"), s("2"), s("l"), 40).unwrap();
    let c = lib.create_collection(s("Z"), s("z"), 50).unwrap();
    lib.create_collection(s("M"), s("m"), 60).unwrap();
    lib.link(h.id, c.id).unwrap();
    lib
}

#[test]
fn restore_round_trips_listed_rows() {
    let lib = sample();
    let back = Library::restore(
        lib.list_books(),
        lib.list_all_highlights(),
        lib.list_all_bookmarks(),
        lib.list_collections(),
        lib.list_links(),
        3,
        2,
        2,
        3,
        60,
    )
    .expect("consistent rows");
    assert_eq!(back.list_books(), lib.list_books());
    assert_eq!(back.list_all_highlights(), lib.list_all_highlights());
    assert_eq!(back.list_all_bookmarks(), lib.list_all_bookmarks());
    assert_eq!(back.list_collections(), lib.list_collections());
    assert_eq!(back.list_links(), lib.list_links());
}

#[test]
fn restore_refuses_inconsistent_rows() {
    let lib = sample();
    // the id counters must lie above every id
    assert!(Library::restore(
        lib.list_books(),
        lib.list_all_highlights(),
        lib.list_all_bookmarks(),
        lib.list_collections(),
        lib.list_links(),
        2,
        2,
        2,
        3,
        60,
    )
    .is_none());
    // a title twice
    let mut books = lib.list_books();
    books.push(books[0].clone());
    books[2].id = 9;
    assert!(Library::restore(books, vec![], vec![], vec![], vec![], 10, 1, 1, 1, 60).is_none());
    // collections out of name order
    let mut cols = lib.list_collections();
    cols.reverse();
    assert!(Library::restore(vec![], vec![], vec![], cols, vec![], 1, 1, 1, 3, 60).is_none());
    // a time later than the clock
    assert!(Library::restore(lib.list_books(), vec![], vec![], vec![], vec![], 3, 1, 1, 1, 15).is_none());
}

#[test]
fn finish_delete_reports_orphaned_file() {
    assert_eq!(finish_delete(s("a.epub"), FileRemoval::Removed), DeleteOutcome::Complete);
    assert_eq!(finish_delete(s("a.epub"), FileRemoval::Absent), DeleteOutcome::Complete);
    let out = finish_delete(s("a.epub"), FileRemoval::Failed(s("permission denied")));
    assert_eq!(
        out,
        DeleteOutcome::FileOrphaned { filename: s("a.epub"), message: s("permission denied") }
    );
    assert_eq!(out.message(), "permission denied");
    assert_eq!(DeleteOutcome::Complete.message(), "");
}

#[test]
fn store_errors_have_messages() {
    assert_eq!(StoreError::NotFound.message(), "not found");
    assert!(StoreError::DuplicateName.message().contains("UNIQUE"));
    assert!(!StoreError::IdsExhausted.message().is_empty());
}

#[test]
fn restore_refuses_repeated_ids() {
    let lib = sample();
    let mut hs = lib.list_all_highlights();
    hs.push(hs[0].clone());
    assert!(Library::restore(vec![], hs, vec![], vec![], vec![], 1, 2, 1, 1, 60).is_none());
    let mut cols = lib.list_collections();
    cols[1].id = cols[0].id;
    assert!(Library::restore(vec![], vec![], vec![], cols, vec![], 1, 1, 1, 3, 60).is_none());
}
