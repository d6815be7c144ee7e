use vstd::prelude::*;
use vstd::seq_lib::*;

use crate::models::{Book, Dup, Page};
use crate::store::{Store, StoreModel, has_link};

verus! {

/// The child predicate of the one-to-many relation: a page belongs to the
/// book its foreign key names.
pub open spec fn child_pred(book_id: i64) -> spec_fn(Page) -> bool {
    |p: Page| p.book_id == book_id
}

/// All children of one book, in insertion order.
pub open spec fn pages_of(m: StoreModel, book_id: i64) -> Seq<Page> {
    m.pages.filter(child_pred(book_id))
}

/// Loads the children of one book.
pub fn pages_for_book(store: &Store, book_id: i64) -> (r: Vec<Page>)
    ensures
        r@ == pages_of(store@, book_id),
{
    let mut out: Vec<Page> = Vec::new();
    let n = store.pages.len();
    let mut i: usize = 0;
    while i < n
        invariant
            n == store.pages.len(),
            i <= n,
            out@ == store@.pages.take(i as int).filter(child_pred(book_id)),
        decreases n - i,
    {
        proof {
            crate::seq_facts::lemma_filter_push(
                store@.pages.take(i as int),
                store@.pages[i as int],
                child_pred(book_id),
            );
            assert(store@.pages.take(i as int + 1) =~= store@.pages.take(i as int).push(
                store@.pages[i as int],
            ));
        }
        if store.pages[i].book_id == book_id {
            out.push(store.pages[i].dup());
        }
        i = i + 1;
    }
    proof {
        assert(store@.pages.take(n as int) =~= store@.pages);
    }
    out
}

/// Loads the children of a whole batch of parents and groups them: one entry
/// per requested parent, in request order; a parent with no children gets an
/// empty sequence, not an absent entry.
pub fn load_children(store: &Store, parent_ids: &Vec<i64>) -> (r: Vec<(i64, Vec<Page>)>)
    ensures
        r@.len() == parent_ids@.len(),
        forall|k: int|
            0 <= k < r@.len() ==> (#[trigger] r@[k]).0 == parent_ids@[k] && r@[k].1@ == pages_of(
                store@,
                parent_ids@[k],
            ),
{
    let mut out: Vec<(i64, Vec<Page>)> = Vec::new();
    let n = parent_ids.len();
    let mut i: usize = 0;
    while i < n
        invariant
            n == parent_ids.len(),
            i <= n,
            out@.len() == i,
            forall|k: int|
                0 <= k < i ==> (#[trigger] out@[k]).0 == parent_ids@[k] && out@[k].1@ == pages_of(
                    store@,
                    parent_ids@[k],
                ),
        decreases n - i,
    {
        let id = parent_ids[i];
        let children = pages_for_book(store, id);
        out.push((id, children));
        i = i + 1;
    }
    out
}

/// The predicate of the many-to-many relation: a book is related to an
/// author when the join table pairs them.
pub open spec fn related_pred(m: StoreModel, author_id: i64) -> spec_fn(Book) -> bool {
    |b: Book| has_link(m.book_authors, b.id, author_id)
}

/// All books related to one author through the join table.
pub open spec fn related_books(m: StoreModel, author_id: i64) -> Seq<Book> {
    m.books.filter(related_pred(m, author_id))
}

/// Loads the books of one author through the join table.
pub fn books_for_author(store: &Store, author_id: i64) -> (r: Vec<Book>)
    ensures
        r@ == related_books(store@, author_id),
{
    let mut out: Vec<Book> = Vec::new();
    let n = store.books.len();
    let mut i: usize = 0;
    while i < n
        invariant
            n == store.books.len(),
            i <= n,
            out@ == store@.books.take(i as int).filter(related_pred(store@, author_id)),
        decreases n - i,
    {
        proof {
            crate::seq_facts::lemma_filter_push(
                store@.books.take(i as int),
                store@.books[i as int],
                related_pred(store@, author_id),
            );
            assert(store@.books.take(i as int + 1) =~= store@.books.take(i as int).push(
                store@.books[i as int],
            ));
        }
        if crate::repo::link_exists(store, store.books[i].id, author_id) {
            out.push(store.books[i].dup());
        }
        i = i + 1;
    }
    proof {
        assert(store@.books.take(n as int) =~= store@.books);
    }
    out
}

/// Loads the related rows for a batch of owners through the join table and
/// groups them, with the same discipline as `load_children`.
pub fn load_many_to_many(store: &Store, owner_ids: &Vec<i64>) -> (r: Vec<(i64, Vec<Book>)>)
    ensures
        r@.len() == owner_ids@.len(),
        forall|k: int|
            0 <= k < r@.len() ==> (#[trigger] r@[k]).0 == owner_ids@[k] && r@[k].1@
                == related_books(store@, owner_ids@[k]),
{
    let mut out: Vec<(i64, Vec<Book>)> = Vec::new();
    let n = owner_ids.len();
    let mut i: usize = 0;
    while i < n
        invariant
            n == owner_ids.len(),
            i <= n,
            out@.len() == i,
            forall|k: int|
                0 <= k < i ==> (#[trigger] out@[k]).0 == owner_ids@[k] && out@[k].1@
                    == related_books(store@, owner_ids@[k]),
        decreases n - i,
    {
        let id = owner_ids[i];
        let related = books_for_author(store, id);
        out.push((id, related));
        i = i + 1;
    }
    out
}

} // verus!
