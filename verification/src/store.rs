use vstd::prelude::*;

use crate::models::{Author, Book, BookAuthor, Dup, Page, User, dup_vec};

verus! {

/// The relational state behind one connection: one column vector per table
/// plus the next key that each table's auto-assigned counter will hand out.
#[derive(Debug)]
pub struct Store {
    pub books: Vec<Book>,
    pub pages: Vec<Page>,
    pub users: Vec<User>,
    pub authors: Vec<Author>,
    pub book_authors: Vec<BookAuthor>,
    pub next_book_id: i64,
    pub next_page_id: i64,
    pub next_user_id: i64,
    pub next_author_id: i64,
}

/// Mathematical abstraction of a `Store`: each table as a sequence of rows
/// in insertion order, plus the key counters. All contracts and laws of the
/// repository are stated over this model.
pub struct StoreModel {
    pub books: Seq<Book>,
    pub pages: Seq<Page>,
    pub users: Seq<User>,
    pub authors: Seq<Author>,
    pub book_authors: Seq<BookAuthor>,
    pub next_book_id: i64,
    pub next_page_id: i64,
    pub next_user_id: i64,
    pub next_author_id: i64,
}

impl View for Store {
    type V = StoreModel;

    open spec fn view(&self) -> StoreModel {
        StoreModel {
            books: self.books@,
            pages: self.pages@,
            users: self.users@,
            authors: self.authors@,
            book_authors: self.book_authors@,
            next_book_id: self.next_book_id,
            next_page_id: self.next_page_id,
            next_user_id: self.next_user_id,
            next_author_id: self.next_author_id,
        }
    }
}

/// Keys are handed out in increasing order, so each table is sorted by its
/// key, every key is positive, and every key is below the table's counter.
pub open spec fn ids_ok(ids: Seq<i64>, next: i64) -> bool {
    &&& 0 < next
    &&& forall|i: int, j: int| 0 <= i < j < ids.len() ==> ids[i] < ids[j]
    &&& forall|i: int| 0 <= i < ids.len() ==> 0 < #[trigger] ids[i] < next
}

pub open spec fn book_ids(books: Seq<Book>) -> Seq<i64> {
    books.map(|i: int, b: Book| b.id)
}

pub open spec fn page_ids(pages: Seq<Page>) -> Seq<i64> {
    pages.map(|i: int, p: Page| p.id)
}

pub open spec fn user_ids(users: Seq<User>) -> Seq<i64> {
    users.map(|i: int, u: User| u.id)
}

pub open spec fn author_ids(authors: Seq<Author>) -> Seq<i64> {
    authors.map(|i: int, a: Author| a.id)
}

/// Whether some book row carries the given key.
pub open spec fn has_book(books: Seq<Book>, id: i64) -> bool {
    exists|i: int| 0 <= i < books.len() && #[trigger] books[i].id == id
}

/// Whether some author row carries the given key.
pub open spec fn has_author(authors: Seq<Author>, id: i64) -> bool {
    exists|i: int| 0 <= i < authors.len() && #[trigger] authors[i].id == id
}

/// Whether the join table holds the given (book, author) pairing.
pub open spec fn has_link(links: Seq<BookAuthor>, book_id: i64, author_id: i64) -> bool {
    exists|i: int|
        0 <= i < links.len() && #[trigger] links[i].book_id == book_id && links[i].author_id
            == author_id
}

impl StoreModel {
    /// Store invariant: per-table key discipline, every page's foreign key
    /// references an existing book, every join row references existing rows
    /// on both sides, and no (book, author) pairing is recorded twice.
    pub open spec fn wf(&self) -> bool {
        &&& ids_ok(book_ids(self.books), self.next_book_id)
        &&& ids_ok(page_ids(self.pages), self.next_page_id)
        &&& ids_ok(user_ids(self.users), self.next_user_id)
        &&& ids_ok(author_ids(self.authors), self.next_author_id)
        &&& forall|i: int|
            0 <= i < self.pages.len() ==> has_book(self.books, #[trigger] self.pages[i].book_id)
        &&& forall|i: int|
            0 <= i < self.book_authors.len() ==> has_book(
                self.books,
                #[trigger] self.book_authors[i].book_id,
            ) && has_author(self.authors, self.book_authors[i].author_id)
        &&& forall|i: int, j: int|
            0 <= i < j < self.book_authors.len() ==> !(#[trigger] self.book_authors[i].book_id
                == #[trigger] self.book_authors[j].book_id && self.book_authors[i].author_id
                == self.book_authors[j].author_id)
    }
}

impl Store {
    /// A store with no rows at all, as a fresh backend would present it.
    pub fn empty() -> (r: Store)
        ensures
            r@.wf(),
            r@.next_book_id == 1 && r@.next_page_id == 1 && r@.next_user_id == 1
                && r@.next_author_id == 1,
            r@.books =~= Seq::<Book>::empty(),
            r@.pages =~= Seq::<Page>::empty(),
            r@.users =~= Seq::<User>::empty(),
            r@.authors =~= Seq::<Author>::empty(),
            r@.book_authors =~= Seq::<BookAuthor>::empty(),
    {
        Store {
            books: Vec::new(),
            pages: Vec::new(),
            users: Vec::new(),
            authors: Vec::new(),
            book_authors: Vec::new(),
            next_book_id: 1,
            next_page_id: 1,
            next_user_id: 1,
            next_author_id: 1,
        }
    }

    /// Exact copy of the whole state; transactions snapshot through this.
    pub fn duplicate(&self) -> (r: Store)
        ensures
            r@ == self@,
    {
        Store {
            books: dup_vec(&self.books),
            pages: dup_vec(&self.pages),
            users: dup_vec(&self.users),
            authors: dup_vec(&self.authors),
            book_authors: dup_vec(&self.book_authors),
            next_book_id: self.next_book_id,
            next_page_id: self.next_page_id,
            next_user_id: self.next_user_id,
            next_author_id: self.next_author_id,
        }
    }
}

} // verus!
