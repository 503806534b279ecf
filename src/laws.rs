use vstd::prelude::*;
use crate::model::{
    book_order, collection_order, distinct_links, has_book, has_collection_named, has_highlight,
    highlight_order, in_collection, link_not_among, link_not_pair, not_titled, progress_of, titled,
    LibraryView, StoreError,
};
use crate::order::{lemma_name_lt_asymmetric, name_lt};
use crate::records::{BookMetadata, Collection};
use crate::seqs::{lemma_filter_contains_iff, lemma_filter_pairwise};

verus! {

broadcast use vstd::seq_lib::group_filter_ensures;

/// Adding a title that was just added returns the same row and changes
/// nothing, whatever filename or cover the second call names; the title then
/// has exactly one row.
pub proof fn law_add_book_idempotent(
    v0: LibraryView,
    title: String,
    filename1: String,
    cover1: Option<String>,
    now1: u64,
    v1: LibraryView,
    r1: Result<BookMetadata, StoreError>,
    title_again: String,
    filename2: String,
    cover2: Option<String>,
    now2: u64,
    v2: LibraryView,
    r2: Result<BookMetadata, StoreError>,
)
    requires
        v0.wf(),
        title_again@ == title@,
        v0.add_book_post(title, filename1, cover1, now1, v1, r1),
        r1 is Ok,
        v1.add_book_post(title_again, filename2, cover2, now2, v2, r2),
    ensures
        r2 == r1,
        v2 == v1,
        forall|i: int, j: int|
            0 <= i < v2.books.len() && 0 <= j < v2.books.len() && v2.books[i].title@ == title@
                && v2.books[j].title@ == title@ ==> i == j,
{
    if has_book(v0.books, title@) {
        assert forall|i: int, j: int|
            0 <= i < v0.books.len() && 0 <= j < v0.books.len() && v0.books[i].title@ == title@
                && v0.books[j].title@ == title@ implies i == j by {
            if i < j {
                assert(book_order()(v0.books[i], v0.books[j]));
            } else if j < i {
                assert(book_order()(v0.books[j], v0.books[i]));
            }
        }
    } else {
        let b = r1->Ok_0;
        assert(v1.books[0] == b);
        assert forall|i: int| 0 < i < v1.books.len() implies v1.books[i].title@ != title@ by {
            assert(v1.books[i] == v0.books[i - 1]);
        }
        assert(has_book(v1.books, title@));
    }
}

/// Deleting a book leaves no highlight of its title and no catalog row of it.
pub proof fn law_delete_book_cascades(v: LibraryView, title: Seq<char>)
    requires
        v.wf(),
        has_book(v.books, title),
    ensures
        v.after_delete_book(title).highlights_of(title).len() == 0,
        !has_book(v.after_delete_book(title).books, title),
{
    let w = v.after_delete_book(title);
    let kept = v.highlights.filter(not_titled(title));
    let hs = kept.filter(titled(title));
    if hs.len() > 0 {
        assert(titled(title)(hs[0]));
        assert(hs.contains(hs[0]));
        kept.lemma_filter_contains_rev(titled(title), hs[0]);
        let k = choose|k: int| 0 <= k < kept.len() && kept[k] == hs[0];
        assert(not_titled(title)(kept[k]));
    }
    if has_book(w.books, title) {
        let i = choose|i: int| 0 <= i < w.books.len() && w.books[i].title@ == title;
        assert(crate::model::book_not_titled(title)(w.books[i]));
    }
}

/// Updating the reading state of a title that is not in the catalog changes
/// nothing.
pub proof fn law_unknown_title_update_is_noop(
    v: LibraryView,
    title: Seq<char>,
    cfi: String,
    percentage_bits: u64,
)
    requires
        !has_book(v.books, title),
    ensures
        v.after_progress(title, cfi, percentage_bits) == v,
{
    let f = progress_of(title, cfi, percentage_bits);
    assert forall|i: int| 0 <= i < v.books.len() implies #[trigger] v.books.map_values(f)[i]
        == v.books[i] by {
        assert(v.books[i].title@ != title);
    }
    assert(v.books.map_values(f) =~= v.books);
}

/// Creating a collection under a name just used is refused and changes
/// nothing; the name then has exactly one collection.
pub proof fn law_collection_name_unique(
    v0: LibraryView,
    name: String,
    emoji1: String,
    now1: u64,
    v1: LibraryView,
    r1: Result<Collection, StoreError>,
    name_again: String,
    emoji2: String,
    now2: u64,
    v2: LibraryView,
    r2: Result<Collection, StoreError>,
)
    requires
        v0.wf(),
        name_again@ == name@,
        v0.create_collection_post(name, emoji1, now1, v1, r1),
        r1 is Ok,
        v1.create_collection_post(name_again, emoji2, now2, v2, r2),
    ensures
        r2 == Err::<Collection, StoreError>(StoreError::DuplicateName),
        v2 == v1,
        has_collection_named(v2.collections, name@),
        forall|i: int, j: int|
            0 <= i < v2.collections.len() && 0 <= j < v2.collections.len()
                && v2.collections[i].name@ == name@ && v2.collections[j].name@ == name@ ==> i == j,
{
    let c = r1->Ok_0;
    let p = choose|p: int|
        0 <= p <= v0.collections.len() && v1 == (LibraryView {
            collections: v0.collections.insert(p, c),
            next_collection_id: (v0.next_collection_id + 1) as i64,
            clock: crate::model::stamp(v0.clock, now1),
            ..v0
        });
    assert(v1.collections[p] == c);
    assert(has_collection_named(v1.collections, name@));
    assert forall|i: int| 0 <= i < v1.collections.len() && i != p implies v1.collections[i].name@
        != name@ by {
        if i < p {
            assert(v1.collections[i] == v0.collections[i]);
        } else {
            assert(v1.collections[i] == v0.collections[i - 1]);
        }
    }
}

/// Linking a pair that was just linked changes nothing, and the pair is then
/// linked exactly once.
pub proof fn law_link_idempotent(
    v0: LibraryView,
    highlight_id: i64,
    collection_id: i64,
    v1: LibraryView,
    r1: Result<(), StoreError>,
    v2: LibraryView,
    r2: Result<(), StoreError>,
)
    requires
        v0.wf(),
        v0.link_post(highlight_id, collection_id, v1, r1),
        r1 is Ok,
        v1.link_post(highlight_id, collection_id, v2, r2),
    ensures
        r2 == Ok::<(), StoreError>(()),
        v2 == v1,
        v2.links.contains((highlight_id, collection_id)),
        forall|i: int, j: int|
            0 <= i < v2.links.len() && 0 <= j < v2.links.len() && v2.links[i] == (
                highlight_id,
                collection_id,
            ) && v2.links[j] == (highlight_id, collection_id) ==> i == j,
{
    let pair = (highlight_id, collection_id);
    if !v0.links.contains(pair) {
        assert(v1.links[v1.links.len() - 1] == pair);
    }
    assert forall|i: int, j: int|
        0 <= i < v1.links.len() && 0 <= j < v1.links.len() && v1.links[i] == pair && v1.links[j]
            == pair implies i == j by {
        if i < v0.links.len() && j < v0.links.len() {
            if i < j {
                assert(distinct_links()(v0.links[i], v0.links[j]));
            } else if j < i {
                assert(distinct_links()(v0.links[j], v0.links[i]));
            }
        } else if i < v0.links.len() {
            assert(v0.links.contains(v0.links[i]));
        } else if j < v0.links.len() {
            assert(v0.links.contains(v0.links[j]));
        }
    }
}

/// After a pair is unlinked, the collection lists no highlight with that id.
pub proof fn law_unlink_removes(v: LibraryView, highlight_id: i64, collection_id: i64)
    ensures
        forall|k: int|
            0 <= k < v.after_unlink(highlight_id, collection_id).highlights_in(collection_id).len()
                ==> (#[trigger] v.after_unlink(highlight_id, collection_id).highlights_in(
                collection_id,
            )[k]).id != highlight_id,
{
    let w = v.after_unlink(highlight_id, collection_id);
    lemma_filter_contains_iff(v.links, link_not_pair(highlight_id, collection_id), (highlight_id, collection_id));
    assert forall|k: int| 0 <= k < w.highlights_in(collection_id).len() implies (
    #[trigger] w.highlights_in(collection_id)[k]).id != highlight_id by {
        assert(in_collection(w.links, collection_id)(w.highlights_in(collection_id)[k]));
    }
}

/// A wipe leaves the catalog, the highlights and the bookmarks of every title
/// empty, and no link to a highlight that was removed; collections stay.
pub proof fn law_wipe_empties(v: LibraryView, title: Seq<char>)
    ensures
        v.after_wipe().books.len() == 0,
        v.after_wipe().highlights.len() == 0,
        v.after_wipe().bookmarks_of(title).len() == 0,
        v.after_wipe().collections == v.collections,
        forall|k: int|
            0 <= k < v.after_wipe().links.len() ==> !has_highlight(
                v.highlights,
                (#[trigger] v.after_wipe().links[k]).0,
            ),
{
    v.after_wipe().bookmarks.lemma_filter_len(crate::model::bookmark_titled(title));
    assert forall|k: int| 0 <= k < v.after_wipe().links.len() implies !has_highlight(
        v.highlights,
        (#[trigger] v.after_wipe().links[k]).0,
    ) by {
        assert(link_not_among(v.highlights)(v.after_wipe().links[k]));
    }
}

/// Books are listed newest first and collections in ascending name order.
pub proof fn law_listing_order(v: LibraryView)
    requires
        v.wf(),
    ensures
        forall|i: int, j: int|
            0 <= i < j < v.books.len() ==> v.books[i].created_at >= v.books[j].created_at,
        forall|i: int, j: int|
            0 <= i < j < v.collections.len() ==> name_lt(v.collections[i].name@, v.collections[j].name@)
                && !name_lt(v.collections[j].name@, v.collections[i].name@),
{
    assert forall|i: int, j: int| 0 <= i < j < v.books.len() implies v.books[i].created_at
        >= v.books[j].created_at by {
        assert(book_order()(v.books[i], v.books[j]));
    }
    assert forall|i: int, j: int| 0 <= i < j < v.collections.len() implies name_lt(
        v.collections[i].name@,
        v.collections[j].name@,
    ) && !name_lt(v.collections[j].name@, v.collections[i].name@) by {
        assert(collection_order()(v.collections[i], v.collections[j]));
        lemma_name_lt_asymmetric(v.collections[i].name@, v.collections[j].name@);
    }
}

/// The highlights listed for a collection are distinct, newest first.
pub proof fn law_collection_listing_distinct(v: LibraryView, collection_id: i64)
    requires
        v.wf(),
    ensures
        forall|i: int, j: int|
            0 <= i < j < v.highlights_in(collection_id).len() ==> v.highlights_in(collection_id)[i].id
                != v.highlights_in(collection_id)[j].id && v.highlights_in(collection_id)[i].created_at
                >= v.highlights_in(collection_id)[j].created_at,
{
    let p = in_collection(v.links, collection_id);
    lemma_filter_pairwise(v.highlights, p, highlight_order());
    assert forall|i: int, j: int| 0 <= i < j < v.highlights_in(collection_id).len() implies v.highlights_in(
        collection_id,
    )[i].id != v.highlights_in(collection_id)[j].id && v.highlights_in(collection_id)[i].created_at
        >= v.highlights_in(collection_id)[j].created_at by {
        assert(highlight_order()(v.highlights.filter(p)[i], v.highlights.filter(p)[j]));
    }
}

/// After a wipe, adding any book succeeds while book ids are left.
pub proof fn law_add_after_wipe(
    v: LibraryView,
    title: String,
    filename: String,
    cover: Option<String>,
    now: u64,
    post: LibraryView,
    r: Result<BookMetadata, StoreError>,
)
    requires
        v.next_book_id < i64::MAX,
        v.after_wipe().add_book_post(title, filename, cover, now, post, r),
    ensures
        r is Ok,
        post.books.len() == 1,
{
}

} // verus!
