use vstd::prelude::*;
use vstd::seq_lib::*;

use crate::models::{Book, Dup, Page};
use crate::relations::{pages_for_book, pages_of};
use crate::repo::{find_book, lookup_book};
use crate::store::{Store, StoreModel};
use crate::RepoError;

verus! {

/// The inner-join rows one book contributes: one row per child page.
pub open spec fn inner_group(m: StoreModel) -> spec_fn(Book) -> Seq<(Page, Book)> {
    |b: Book| pages_of(m, b.id).map(|i: int, p: Page| (p, b))
}

/// The inner join of pages with books: a row per (page, owning book) pair,
/// so an owner with no pages contributes nothing.
pub open spec fn inner_join_rows(m: StoreModel) -> Seq<(Page, Book)> {
    m.books.flat_map(inner_group(m))
}

/// The left-join rows one book contributes: its pages, or a single row with
/// an absent page when it has none.
pub open spec fn left_group(m: StoreModel) -> spec_fn(Book) -> Seq<(Book, Option<Page>)> {
    |b: Book|
        if pages_of(m, b.id).len() == 0 {
            seq![(b, None::<Page>)]
        } else {
            pages_of(m, b.id).map(|i: int, p: Page| (b, Some(p)))
        }
}

/// The left join of books with pages: every book keeps at least one row.
pub open spec fn left_join_rows(m: StoreModel) -> Seq<(Book, Option<Page>)> {
    m.books.flat_map(left_group(m))
}

/// The inner join restricted to one owning book.
pub open spec fn inner_join_rows_for(m: StoreModel, id: i64) -> Seq<(Page, Book)> {
    match lookup_book(m.books, id) {
        Some(b) => inner_group(m)(b),
        None => Seq::empty(),
    }
}

/// The left join restricted to one owning book.
pub open spec fn left_join_rows_for(m: StoreModel, id: i64) -> Seq<(Book, Option<Page>)> {
    match lookup_book(m.books, id) {
        Some(b) => left_group(m)(b),
        None => Seq::empty(),
    }
}

/// Builds the inner-join rows of one book: its pages each paired with it.
fn inner_rows_of(store: &Store, b: &Book) -> (r: Vec<(Page, Book)>)
    ensures
        r@ == inner_group(store@)(*b),
{
    let ps = pages_for_book(store, b.id);
    let mut out: Vec<(Page, Book)> = Vec::new();
    let n = ps.len();
    let mut k: usize = 0;
    while k < n
        invariant
            n == ps.len(),
            ps@ == pages_of(store@, b.id),
            k <= n,
            out@.len() == k,
            forall|j: int| 0 <= j < k ==> #[trigger] out@[j] == (ps@[j], *b),
        decreases n - k,
    {
        out.push((ps[k].dup(), b.dup()));
        k = k + 1;
    }
    proof {
        assert(out@ =~= inner_group(store@)(*b));
    }
    out
}

/// Builds the left-join rows of one book: its pages, or one absent-page row.
fn left_rows_of(store: &Store, b: &Book) -> (r: Vec<(Book, Option<Page>)>)
    ensures
        r@ == left_group(store@)(*b),
{
    let ps = pages_for_book(store, b.id);
    let mut out: Vec<(Book, Option<Page>)> = Vec::new();
    if ps.len() == 0 {
        out.push((b.dup(), None));
        proof {
            assert(out@ =~= left_group(store@)(*b));
        }
        return out;
    }
    let n = ps.len();
    let mut k: usize = 0;
    while k < n
        invariant
            n == ps.len(),
            ps@ == pages_of(store@, b.id),
            k <= n,
            out@.len() == k,
            forall|j: int| 0 <= j < k ==> #[trigger] out@[j] == (*b, Some(ps@[j])),
        decreases n - k,
    {
        out.push((b.dup(), Some(ps[k].dup())));
        k = k + 1;
    }
    proof {
        assert(out@ =~= left_group(store@)(*b));
    }
    out
}

/// Inner join over the whole pair of tables.
pub fn inner_join_books_pages(store: &Store) -> (r: Vec<(Page, Book)>)
    ensures
        r@ == inner_join_rows(store@),
{
    let mut out: Vec<(Page, Book)> = Vec::new();
    let n = store.books.len();
    let mut i: usize = 0;
    while i < n
        invariant
            n == store.books.len(),
            i <= n,
            out@ == store@.books.take(i as int).flat_map(inner_group(store@)),
        decreases n - i,
    {
        let mut rows = inner_rows_of(store, &store.books[i]);
        proof {
            store@.books.lemma_flat_map_take_append(inner_group(store@), i as int);
        }
        out.append(&mut rows);
        i = i + 1;
    }
    proof {
        assert(store@.books.take(n as int) =~= store@.books);
    }
    out
}

/// Left join over the whole pair of tables.
pub fn left_join_books_pages(store: &Store) -> (r: Vec<(Book, Option<Page>)>)
    ensures
        r@ == left_join_rows(store@),
{
    let mut out: Vec<(Book, Option<Page>)> = Vec::new();
    let n = store.books.len();
    let mut i: usize = 0;
    while i < n
        invariant
            n == store.books.len(),
            i <= n,
            out@ == store@.books.take(i as int).flat_map(left_group(store@)),
        decreases n - i,
    {
        let mut rows = left_rows_of(store, &store.books[i]);
        proof {
            store@.books.lemma_flat_map_take_append(left_group(store@), i as int);
        }
        out.append(&mut rows);
        i = i + 1;
    }
    proof {
        assert(store@.books.take(n as int) =~= store@.books);
    }
    out
}

/// Inner join restricted to one owning book.
pub fn inner_join_for_book(store: &Store, id: i64) -> (r: Vec<(Page, Book)>)
    requires
        store@.wf(),
    ensures
        r@ == inner_join_rows_for(store@, id),
{
    match find_book(store, id) {
        Ok(b) => inner_rows_of(store, &b),
        Err(_) => Vec::new(),
    }
}

/// Left join restricted to one owning book.
pub fn left_join_for_book(store: &Store, id: i64) -> (r: Vec<(Book, Option<Page>)>)
    requires
        store@.wf(),
    ensures
        r@ == left_join_rows_for(store@, id),
{
    match find_book(store, id) {
        Ok(b) => left_rows_of(store, &b),
        Err(_) => Vec::new(),
    }
}

/// The owner a row stream names first, if any.
pub open spec fn first_book(rows: Seq<(Book, Option<Page>)>) -> Option<Book> {
    if rows.len() == 0 {
        None
    } else {
        Some(rows[0].0)
    }
}

/// The present pages of a left-join row stream, in row order.
pub open spec fn collected_pages(rows: Seq<(Book, Option<Page>)>) -> Seq<Page>
    decreases rows.len(),
{
    if rows.len() == 0 {
        Seq::empty()
    } else {
        let rest = collected_pages(rows.drop_last());
        match rows.last().1 {
            Some(p) => rest.push(p),
            None => rest,
        }
    }
}

/// Folds left-join rows of one owner back into the owner and its pages, the
/// assembly a one-query owner-with-children read ends with.
pub fn fold_book_rows(rows: &Vec<(Book, Option<Page>)>) -> (r: (Option<Book>, Vec<Page>))
    ensures
        r.0 == first_book(rows@),
        r.1@ == collected_pages(rows@),
{
    let mut found: Option<Book> = None;
    let mut pages: Vec<Page> = Vec::new();
    let n = rows.len();
    let mut i: usize = 0;
    while i < n
        invariant
            n == rows.len(),
            i <= n,
            found == first_book(rows@.take(i as int)),
            pages@ == collected_pages(rows@.take(i as int)),
        decreases n - i,
    {
        if found.is_none() {
            found = Some(rows[i].0.dup());
        }
        proof {
            assert(rows@.take(i as int + 1).drop_last() =~= rows@.take(i as int));
            assert(rows@.take(i as int + 1).last() == rows@[i as int]);
            if i > 0 {
                assert(rows@.take(i as int + 1)[0] == rows@.take(i as int)[0]);
            }
        }
        match &rows[i].1 {
            Some(p) => pages.push(p.dup()),
            None => {},
        }
        i = i + 1;
    }
    proof {
        assert(rows@.take(n as int) =~= rows@);
    }
    (found, pages)
}

} // verus!
