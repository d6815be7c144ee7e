use vstd::prelude::*;

use crate::RepoError;
use crate::models::{Author, Book, BookAuthor, Dup, NewAuthor, NewBook, NewPage, NewUser, Page,
    User, UserChanges};
use crate::store::{Store, StoreModel, author_ids, book_ids, has_author, has_book, has_link,
    page_ids, user_ids};

verus! {

/// Whether some user row carries the given key.
pub open spec fn has_user(users: Seq<User>, id: i64) -> bool {
    exists|i: int| 0 <= i < users.len() && #[trigger] users[i].id == id
}

/// The row a read-by-key returns: the unique user with the key, if any.
pub open spec fn lookup_user(users: Seq<User>, id: i64) -> Option<User> {
    if has_user(users, id) {
        Some(users[choose|i: int| 0 <= i < users.len() && #[trigger] users[i].id == id])
    } else {
        None
    }
}

/// The row an insert materializes: the store assigns the key.
pub open spec fn fresh_user(m: StoreModel, nu: NewUser) -> User {
    User { id: m.next_user_id, username: nu.username, remark: nu.remark }
}

/// The store after a user insert.
pub open spec fn with_user_inserted(m: StoreModel, nu: NewUser) -> StoreModel {
    StoreModel {
        users: m.users.push(fresh_user(m, nu)),
        next_user_id: (m.next_user_id + 1) as i64,
        ..m
    }
}

/// A partial update: listed fields replace, unlisted fields stay.
pub open spec fn apply_changes(u: User, ch: UserChanges) -> User {
    User {
        id: u.id,
        username: match ch.username {
            Some(n) => n,
            None => u.username,
        },
        remark: match ch.remark {
            Some(r) => r,
            None => u.remark,
        },
    }
}

/// The store after an update of the user with the given key.
pub open spec fn with_user_updated(m: StoreModel, id: i64, ch: UserChanges) -> StoreModel {
    StoreModel {
        users: m.users.map(
            |i: int, u: User|
                if u.id == id {
                    apply_changes(u, ch)
                } else {
                    u
                },
        ),
        ..m
    }
}

/// The store after a delete of the user with the given key.
pub open spec fn with_user_deleted(m: StoreModel, id: i64) -> StoreModel {
    StoreModel { users: m.users.filter(|u: User| u.id != id), ..m }
}

/// In a well-formed store, two user rows with one key are one row.
pub proof fn lemma_user_id_unique(m: StoreModel, i: int, j: int)
    requires
        m.wf(),
        0 <= i < m.users.len(),
        0 <= j < m.users.len(),
        m.users[i].id == m.users[j].id,
    ensures
        i == j,
{
    let ids = user_ids(m.users);
    if i < j {
        assert(ids[i] < ids[j]);
    }
    if j < i {
        assert(ids[j] < ids[i]);
    }
}

/// Inserts one user row and returns the materialized row, key included.
/// The key counter running dry is the one backend failure this layer owns.
pub fn insert_user(store: &mut Store, nu: NewUser) -> (r: Result<User, RepoError>)
    requires
        old(store)@.wf(),
    ensures
        final(store)@.wf(),
        old(store)@.next_user_id == i64::MAX ==> r == Err::<User, RepoError>(
            RepoError::BackendError,
        ) && final(store)@ == old(store)@,
        old(store)@.next_user_id < i64::MAX ==> final(store)@ == with_user_inserted(
            old(store)@,
            nu,
        ) && r == Ok::<User, RepoError>(fresh_user(old(store)@, nu)),
{
    if store.next_user_id == i64::MAX {
        return Err(RepoError::BackendError);
    }
    let id = store.next_user_id;
    let row = User { id, username: nu.username, remark: nu.remark };
    let out = row.dup();
    store.users.push(row);
    store.next_user_id = id + 1;
    proof {
        let m = old(store)@;
        let ids0 = user_ids(m.users);
        let ids1 = user_ids(store@.users);
        assert(ids1 =~= ids0.push(id));
        assert forall|a: int, b: int| 0 <= a < b < ids1.len() implies ids1[a] < ids1[b] by {
            if b < ids0.len() {
                assert(ids0[a] < ids0[b]);
            } else {
                assert(0 < ids0[a] < m.next_user_id);
            }
        }
        assert forall|a: int| 0 <= a < ids1.len() implies 0 < #[trigger] ids1[a]
            < store@.next_user_id by {
            if a < ids0.len() {
                assert(0 < ids0[a] < m.next_user_id);
            }
        }
        assert(store@ == with_user_inserted(m, nu));
    }
    Ok(out)
}

/// Reads one user row by key; `NotFound` exactly when no row has the key.
pub fn find_user(store: &Store, id: i64) -> (r: Result<User, RepoError>)
    requires
        store@.wf(),
    ensures
        match r {
            Ok(u) => lookup_user(store@.users, id) == Some(u),
            Err(e) => e == RepoError::NotFound && lookup_user(store@.users, id) is None,
        },
{
    let n = store.users.len();
    let mut i: usize = 0;
    while i < n
        invariant
            store@.wf(),
            n == store.users.len(),
            i <= n,
            forall|k: int| 0 <= k < i ==> #[trigger] store.users@[k].id != id,
        decreases n - i,
    {
        if store.users[i].id == id {
            let u = store.users[i].dup();
            proof {
                assert(has_user(store@.users, id));
                let j = choose|j: int|
                    0 <= j < store@.users.len() && #[trigger] store@.users[j].id == id;
                lemma_user_id_unique(store@, i as int, j);
            }
            return Ok(u);
        }
        i = i + 1;
    }
    Err(RepoError::NotFound)
}

/// What a listing asks for: field predicates, ordering on the key,
/// and offset-based pagination. An empty result is not an error.
pub struct UserQuery {
    pub username_is: Option<String>,
    pub remark_is: Option<String>,
    pub descending: bool,
    pub offset: usize,
    pub limit: Option<usize>,
}

/// Whether a row passes the query's field predicates.
pub open spec fn user_matches(u: User, q: UserQuery) -> bool {
    &&& match q.username_is {
        Some(n) => u.username@ == n@,
        None => true,
    }
    &&& match q.remark_is {
        Some(rm) => u.remark@ == rm@,
        None => true,
    }
}

/// The matching rows, in insertion (key) order.
pub open spec fn matching_users(m: StoreModel, q: UserQuery) -> Seq<User> {
    m.users.filter(|u: User| user_matches(u, q))
}

/// Offset-based pagination over an ordered result.
pub open spec fn page_slice<T>(s: Seq<T>, offset: int, limit: Option<usize>) -> Seq<T> {
    let start = if offset > s.len() as int {
        s.len() as int
    } else {
        offset
    };
    let end = match limit {
        None => s.len() as int,
        Some(l) => if start + l as int > s.len() as int {
            s.len() as int
        } else {
            start + l as int
        },
    };
    s.subrange(start, end)
}

/// The full listing: filter, then order by key, then paginate.
pub open spec fn selected_users(m: StoreModel, q: UserQuery) -> Seq<User> {
    let ordered = if q.descending {
        matching_users(m, q).reverse()
    } else {
        matching_users(m, q)
    };
    page_slice(ordered, q.offset as int, q.limit)
}

/// Lists users: rows passing the query's predicates, ordered by key
/// ascending or descending, then cut to the requested page.
pub fn select_users(store: &Store, q: &UserQuery) -> (r: Vec<User>)
    ensures
        r@ == selected_users(store@, *q),
{
    let ghost pred = |u: User| user_matches(u, *q);
    let mut matched: Vec<User> = Vec::new();
    let n = store.users.len();
    let mut i: usize = 0;
    while i < n
        invariant
            n == store.users.len(),
            i <= n,
            matched@ == store@.users.subrange(0, i as int).filter(pred),
            pred == (|u: User| user_matches(u, *q)),
        decreases n - i,
    {
        let row = &store.users[i];
        let hit_username = match &q.username_is {
            Some(nm) => row.username == *nm,
            None => true,
        };
        let hit_remark = match &q.remark_is {
            Some(rm) => row.remark == *rm,
            None => true,
        };
        proof {
            crate::seq_facts::lemma_filter_push(
                store@.users.subrange(0, i as int),
                store@.users[i as int],
                pred,
            );
            assert(store@.users.subrange(0, i as int + 1) =~= store@.users.subrange(
                0,
                i as int,
            ).push(store@.users[i as int]));
        }
        if hit_username && hit_remark {
            matched.push(row.dup());
        }
        i = i + 1;
    }
    proof {
        assert(store@.users.subrange(0, n as int) =~= store@.users);
    }
    let ordered: Vec<User> = if q.descending {
        crate::models::reverse_vec(&matched)
    } else {
        matched
    };
    let total = ordered.len();
    let start = if q.offset > total {
        total
    } else {
        q.offset
    };
    let end = match q.limit {
        Some(l) => if l >= total - start {
            total
        } else {
            start + l
        },
        None => total,
    };
    let mut out: Vec<User> = Vec::new();
    let mut k: usize = start;
    while k < end
        invariant
            start <= k <= end <= ordered.len(),
            out@ == ordered@.subrange(start as int, k as int),
        decreases end - k,
    {
        out.push(ordered[k].dup());
        proof {
            assert(ordered@.subrange(start as int, k as int + 1) =~= ordered@.subrange(
                start as int,
                k as int,
            ).push(ordered@[k as int]));
        }
        k = k + 1;
    }
    proof {
        assert(out@ =~= page_slice(ordered@, q.offset as int, q.limit));
        assert(out@ =~= selected_users(store@, *q));
    }
    out
}

/// Updates the user with the given key: fields listed in `ch` replace, the
/// rest stay; the key never changes. Returns the merged row.
pub fn update_user_row(store: &mut Store, id: i64, ch: UserChanges) -> (r: Result<
    User,
    RepoError,
>)
    requires
        old(store)@.wf(),
    ensures
        final(store)@.wf(),
        match r {
            Ok(u) => lookup_user(old(store)@.users, id) matches Some(u0) && u == apply_changes(
                u0,
                ch,
            ) && final(store)@ == with_user_updated(old(store)@, id, ch),
            Err(e) => e == RepoError::NotFound && lookup_user(old(store)@.users, id) is None
                && final(store)@ == old(store)@,
        },
{
    let n = store.users.len();
    let mut i: usize = 0;
    while i < n
        invariant
            store@ == old(store)@,
            store@.wf(),
            n == store.users.len(),
            i <= n,
            forall|k: int| 0 <= k < i ==> #[trigger] store.users@[k].id != id,
        decreases n - i,
    {
        if store.users[i].id == id {
            let merged = User {
                id: store.users[i].id,
                username: match ch.username {
                    Some(nm) => nm,
                    None => store.users[i].username.clone(),
                },
                remark: match ch.remark {
                    Some(rm) => rm,
                    None => store.users[i].remark.clone(),
                },
            };
            let out = merged.dup();
            proof {
                let m = old(store)@;
                assert(has_user(m.users, id));
                let j = choose|j: int| 0 <= j < m.users.len() && #[trigger] m.users[j].id == id;
                lemma_user_id_unique(m, i as int, j);
                assert(merged == apply_changes(m.users[i as int], ch));
            }
            store.users[i] = merged;
            proof {
                let m = old(store)@;
                assert forall|k: int| 0 <= k < m.users.len() && k != i implies #[trigger] m.users[k].id
                    != id by {
                    if 0 <= k < m.users.len() && k != i && m.users[k].id == id {
                        lemma_user_id_unique(m, k, i as int);
                    }
                }
                assert(store@.users =~= with_user_updated(m, id, ch).users);
                assert(user_ids(store@.users) =~= user_ids(m.users));
                assert(store@ == with_user_updated(m, id, ch));
            }
            return Ok(out);
        }
        i = i + 1;
    }
    Err(RepoError::NotFound)
}

/// Deletes the user with the given key and returns the removed row, so a
/// caller can tell one deleted row from zero matched rows.
pub fn delete_user_row(store: &mut Store, id: i64) -> (r: Result<User, RepoError>)
    requires
        old(store)@.wf(),
    ensures
        final(store)@.wf(),
        match r {
            Ok(u) => lookup_user(old(store)@.users, id) == Some(u) && final(store)@
                == with_user_deleted(old(store)@, id),
            Err(e) => e == RepoError::NotFound && lookup_user(old(store)@.users, id) is None
                && final(store)@ == old(store)@,
        },
{
    let n = store.users.len();
    let mut i: usize = 0;
    while i < n
        invariant
            store@ == old(store)@,
            store@.wf(),
            n == store.users.len(),
            i <= n,
            forall|k: int| 0 <= k < i ==> #[trigger] store.users@[k].id != id,
        decreases n - i,
    {
        if store.users[i].id == id {
            proof {
                let m = old(store)@;
                assert(has_user(m.users, id));
                let j = choose|j: int| 0 <= j < m.users.len() && #[trigger] m.users[j].id == id;
                lemma_user_id_unique(m, i as int, j);
            }
            let out = store.users.remove(i);
            proof {
                let m = old(store)@;
                assert forall|k: int| 0 <= k < m.users.len() && k != i implies #[trigger] m.users[k].id
                    != id by {
                    if 0 <= k < m.users.len() && k != i && m.users[k].id == id {
                        lemma_user_id_unique(m, k, i as int);
                    }
                }
                crate::seq_facts::lemma_filter_remove_one(
                    m.users,
                    i as int,
                    |u: User| u.id != id,
                );
                let ids0 = user_ids(m.users);
                let ids1 = user_ids(store@.users);
                assert(ids1 =~= ids0.remove(i as int));
                assert forall|a: int, b: int| 0 <= a < b < ids1.len() implies ids1[a]
                    < ids1[b] by {
                    let a0: int = if a < i { a } else { a + 1 };
                    let b0: int = if b < i { b } else { b + 1 };
                    assert(ids0[a0] < ids0[b0]);
                }
                assert forall|a: int| 0 <= a < ids1.len() implies 0 < #[trigger] ids1[a]
                    < store@.next_user_id by {
                    let a0: int = if a < i { a } else { a + 1 };
                    assert(0 < ids0[a0] < m.next_user_id);
                }
                assert(store@ == with_user_deleted(m, id));
            }
            return Ok(out);
        }
        i = i + 1;
    }
    Err(RepoError::NotFound)
}

/// The row a read-by-key returns: the unique book with the key, if any.
pub open spec fn lookup_book(books: Seq<Book>, id: i64) -> Option<Book> {
    if has_book(books, id) {
        Some(books[choose|i: int| 0 <= i < books.len() && #[trigger] books[i].id == id])
    } else {
        None
    }
}

/// In a well-formed store, two book rows with one key are one row.
pub proof fn lemma_book_id_unique(m: StoreModel, i: int, j: int)
    requires
        m.wf(),
        0 <= i < m.books.len(),
        0 <= j < m.books.len(),
        m.books[i].id == m.books[j].id,
    ensures
        i == j,
{
    let ids = book_ids(m.books);
    if i < j {
        assert(ids[i] < ids[j]);
    }
    if j < i {
        assert(ids[j] < ids[i]);
    }
}

/// The book row an insert materializes.
pub open spec fn fresh_book(m: StoreModel, nb: NewBook) -> Book {
    Book { id: m.next_book_id, title: nb.title }
}

/// The store after a book insert.
pub open spec fn with_book_inserted(m: StoreModel, nb: NewBook) -> StoreModel {
    StoreModel {
        books: m.books.push(fresh_book(m, nb)),
        next_book_id: (m.next_book_id + 1) as i64,
        ..m
    }
}

/// Inserts one book row and returns the materialized row, key included.
pub fn insert_book(store: &mut Store, nb: NewBook) -> (r: Result<Book, RepoError>)
    requires
        old(store)@.wf(),
    ensures
        final(store)@.wf(),
        old(store)@.next_book_id == i64::MAX ==> r == Err::<Book, RepoError>(
            RepoError::BackendError,
        ) && final(store)@ == old(store)@,
        old(store)@.next_book_id < i64::MAX ==> final(store)@ == with_book_inserted(
            old(store)@,
            nb,
        ) && r == Ok::<Book, RepoError>(fresh_book(old(store)@, nb)),
{
    if store.next_book_id == i64::MAX {
        return Err(RepoError::BackendError);
    }
    let id = store.next_book_id;
    let row = Book { id, title: nb.title };
    let out = row.dup();
    store.books.push(row);
    store.next_book_id = id + 1;
    proof {
        let m = old(store)@;
        let ids0 = book_ids(m.books);
        let ids1 = book_ids(store@.books);
        assert(ids1 =~= ids0.push(id));
        assert forall|a: int, b: int| 0 <= a < b < ids1.len() implies ids1[a] < ids1[b] by {
            if b < ids0.len() {
                assert(ids0[a] < ids0[b]);
            } else {
                assert(0 < ids0[a] < m.next_book_id);
            }
        }
        assert forall|a: int| 0 <= a < ids1.len() implies 0 < #[trigger] ids1[a]
            < store@.next_book_id by {
            if a < ids0.len() {
                assert(0 < ids0[a] < m.next_book_id);
            }
        }
        assert forall|i: int| 0 <= i < store@.pages.len() implies has_book(
            store@.books,
            #[trigger] store@.pages[i].book_id,
        ) by {
            assert(has_book(m.books, m.pages[i].book_id));
            let w = choose|w: int| 0 <= w < m.books.len() && #[trigger] m.books[w].id
                == m.pages[i].book_id;
            assert(store@.books[w].id == m.pages[i].book_id);
        }
        assert forall|i: int| 0 <= i < store@.book_authors.len() implies has_book(
            store@.books,
            #[trigger] store@.book_authors[i].book_id,
        ) && has_author(store@.authors, store@.book_authors[i].author_id) by {
            assert(has_book(m.books, m.book_authors[i].book_id));
            let w = choose|w: int| 0 <= w < m.books.len() && #[trigger] m.books[w].id
                == m.book_authors[i].book_id;
            assert(store@.books[w].id == m.book_authors[i].book_id);
        }
        assert(store@ == with_book_inserted(m, nb));
    }
    Ok(out)
}

/// Reads one book row by key; `NotFound` exactly when no row has the key.
pub fn find_book(store: &Store, id: i64) -> (r: Result<Book, RepoError>)
    requires
        store@.wf(),
    ensures
        match r {
            Ok(b) => lookup_book(store@.books, id) == Some(b),
            Err(e) => e == RepoError::NotFound && lookup_book(store@.books, id) is None,
        },
{
    let n = store.books.len();
    let mut i: usize = 0;
    while i < n
        invariant
            store@.wf(),
            n == store.books.len(),
            i <= n,
            forall|k: int| 0 <= k < i ==> #[trigger] store.books@[k].id != id,
        decreases n - i,
    {
        if store.books[i].id == id {
            let b = store.books[i].dup();
            proof {
                assert(has_book(store@.books, id));
                let j = choose|j: int|
                    0 <= j < store@.books.len() && #[trigger] store@.books[j].id == id;
                lemma_book_id_unique(store@, i as int, j);
            }
            return Ok(b);
        }
        i = i + 1;
    }
    Err(RepoError::NotFound)
}

/// Whether a book row with the key exists; the foreign-key probe.
pub fn book_exists(store: &Store, id: i64) -> (r: bool)
    ensures
        r == has_book(store@.books, id),
{
    let n = store.books.len();
    let mut i: usize = 0;
    while i < n
        invariant
            n == store.books.len(),
            i <= n,
            forall|k: int| 0 <= k < i ==> #[trigger] store.books@[k].id != id,
        decreases n - i,
    {
        if store.books[i].id == id {
            return true;
        }
        i = i + 1;
    }
    false
}

/// The page row an insert materializes under the given book.
pub open spec fn fresh_page(m: StoreModel, book_id: i64, np: NewPage) -> Page {
    Page { id: m.next_page_id, page_number: np.page_number, content: np.content, book_id }
}

/// The store after a page insert.
pub open spec fn with_page_inserted(m: StoreModel, book_id: i64, np: NewPage) -> StoreModel {
    StoreModel {
        pages: m.pages.push(fresh_page(m, book_id, np)),
        next_page_id: (m.next_page_id + 1) as i64,
        ..m
    }
}

/// Inserts one page row under a book. The store refuses a foreign key that
/// references no book, surfacing it as a constraint violation.
pub fn insert_page(store: &mut Store, book_id: i64, np: NewPage) -> (r: Result<Page, RepoError>)
    requires
        old(store)@.wf(),
    ensures
        final(store)@.wf(),
        !has_book(old(store)@.books, book_id) ==> r == Err::<Page, RepoError>(
            RepoError::ConstraintViolation,
        ) && final(store)@ == old(store)@,
        has_book(old(store)@.books, book_id) && old(store)@.next_page_id == i64::MAX ==> r
            == Err::<Page, RepoError>(RepoError::BackendError) && final(store)@ == old(store)@,
        has_book(old(store)@.books, book_id) && old(store)@.next_page_id < i64::MAX
            ==> final(store)@ == with_page_inserted(old(store)@, book_id, np) && r == Ok::<
            Page,
            RepoError,
        >(fresh_page(old(store)@, book_id, np)),
{
    if !book_exists(store, book_id) {
        return Err(RepoError::ConstraintViolation);
    }
    if store.next_page_id == i64::MAX {
        return Err(RepoError::BackendError);
    }
    let id = store.next_page_id;
    let row = Page { id, page_number: np.page_number, content: np.content, book_id };
    let out = row.dup();
    store.pages.push(row);
    store.next_page_id = id + 1;
    proof {
        let m = old(store)@;
        let ids0 = page_ids(m.pages);
        let ids1 = page_ids(store@.pages);
        assert(ids1 =~= ids0.push(id));
        assert forall|a: int, b: int| 0 <= a < b < ids1.len() implies ids1[a] < ids1[b] by {
            if b < ids0.len() {
                assert(ids0[a] < ids0[b]);
            } else {
                assert(0 < ids0[a] < m.next_page_id);
            }
        }
        assert forall|a: int| 0 <= a < ids1.len() implies 0 < #[trigger] ids1[a]
            < store@.next_page_id by {
            if a < ids0.len() {
                assert(0 < ids0[a] < m.next_page_id);
            }
        }
        assert forall|i: int| 0 <= i < store@.pages.len() implies has_book(
            store@.books,
            #[trigger] store@.pages[i].book_id,
        ) by {
            if i < m.pages.len() {
                assert(has_book(m.books, m.pages[i].book_id));
            }
        }
        assert(store@ == with_page_inserted(m, book_id, np));
    }
    Ok(out)
}

/// Whether an author row with the key exists.
pub fn author_exists(store: &Store, id: i64) -> (r: bool)
    ensures
        r == has_author(store@.authors, id),
{
    let n = store.authors.len();
    let mut i: usize = 0;
    while i < n
        invariant
            n == store.authors.len(),
            i <= n,
            forall|k: int| 0 <= k < i ==> #[trigger] store.authors@[k].id != id,
        decreases n - i,
    {
        if store.authors[i].id == id {
            return true;
        }
        i = i + 1;
    }
    false
}

/// The author row an insert materializes.
pub open spec fn fresh_author(m: StoreModel, na: NewAuthor) -> Author {
    Author { id: m.next_author_id, name: na.name }
}

/// The store after an author insert.
pub open spec fn with_author_inserted(m: StoreModel, na: NewAuthor) -> StoreModel {
    StoreModel {
        authors: m.authors.push(fresh_author(m, na)),
        next_author_id: (m.next_author_id + 1) as i64,
        ..m
    }
}

/// Inserts one author row and returns the materialized row, key included.
pub fn insert_author(store: &mut Store, na: NewAuthor) -> (r: Result<Author, RepoError>)
    requires
        old(store)@.wf(),
    ensures
        final(store)@.wf(),
        old(store)@.next_author_id == i64::MAX ==> r == Err::<Author, RepoError>(
            RepoError::BackendError,
        ) && final(store)@ == old(store)@,
        old(store)@.next_author_id < i64::MAX ==> final(store)@ == with_author_inserted(
            old(store)@,
            na,
        ) && r == Ok::<Author, RepoError>(fresh_author(old(store)@, na)),
{
    if store.next_author_id == i64::MAX {
        return Err(RepoError::BackendError);
    }
    let id = store.next_author_id;
    let row = Author { id, name: na.name };
    let out = row.dup();
    store.authors.push(row);
    store.next_author_id = id + 1;
    proof {
        let m = old(store)@;
        let ids0 = author_ids(m.authors);
        let ids1 = author_ids(store@.authors);
        assert(ids1 =~= ids0.push(id));
        assert forall|a: int, b: int| 0 <= a < b < ids1.len() implies ids1[a] < ids1[b] by {
            if b < ids0.len() {
                assert(ids0[a] < ids0[b]);
            } else {
                assert(0 < ids0[a] < m.next_author_id);
            }
        }
        assert forall|a: int| 0 <= a < ids1.len() implies 0 < #[trigger] ids1[a]
            < store@.next_author_id by {
            if a < ids0.len() {
                assert(0 < ids0[a] < m.next_author_id);
            }
        }
        assert forall|i: int| 0 <= i < store@.book_authors.len() implies has_book(
            store@.books,
            #[trigger] store@.book_authors[i].book_id,
        ) && has_author(store@.authors, store@.book_authors[i].author_id) by {
            assert(has_book(m.books, m.book_authors[i].book_id));
            assert(has_author(m.authors, m.book_authors[i].author_id));
            let w = choose|w: int| 0 <= w < m.authors.len() && #[trigger] m.authors[w].id
                == m.book_authors[i].author_id;
            assert(store@.authors[w].id == m.book_authors[i].author_id);
        }
        assert(store@ == with_author_inserted(m, na));
    }
    Ok(out)
}

/// Whether the join table already holds the pairing.
pub fn link_exists(store: &Store, book_id: i64, author_id: i64) -> (r: bool)
    ensures
        r == has_link(store@.book_authors, book_id, author_id),
{
    let n = store.book_authors.len();
    let mut i: usize = 0;
    while i < n
        invariant
            n == store.book_authors.len(),
            i <= n,
            forall|k: int|
                0 <= k < i ==> !(#[trigger] store.book_authors@[k].book_id == book_id
                    && store.book_authors@[k].author_id == author_id),
        decreases n - i,
    {
        if store.book_authors[i].book_id == book_id && store.book_authors[i].author_id
            == author_id {
            return true;
        }
        i = i + 1;
    }
    false
}

/// The store after recording a (book, author) pairing.
pub open spec fn with_link_inserted(m: StoreModel, book_id: i64, author_id: i64) -> StoreModel {
    StoreModel { book_authors: m.book_authors.push(BookAuthor { book_id, author_id }), ..m }
}

/// Records a (book, author) pairing in the join table. Both foreign keys
/// must reference existing rows and the pairing must be new; either failure
/// is a constraint violation.
pub fn link_book_author(store: &mut Store, book_id: i64, author_id: i64) -> (r: Result<
    (),
    RepoError,
>)
    requires
        old(store)@.wf(),
    ensures
        final(store)@.wf(),
        r is Ok <==> has_book(old(store)@.books, book_id) && has_author(
            old(store)@.authors,
            author_id,
        ) && !has_link(old(store)@.book_authors, book_id, author_id),
        r is Ok ==> final(store)@ == with_link_inserted(old(store)@, book_id, author_id),
        r is Err ==> r == Err::<(), RepoError>(RepoError::ConstraintViolation) && final(store)@
            == old(store)@,
{
    if !book_exists(store, book_id) || !author_exists(store, author_id) {
        return Err(RepoError::ConstraintViolation);
    }
    if link_exists(store, book_id, author_id) {
        return Err(RepoError::ConstraintViolation);
    }
    store.book_authors.push(BookAuthor { book_id, author_id });
    proof {
        let m = old(store)@;
        let links1 = store@.book_authors;
        assert forall|i: int, j: int| 0 <= i < j < links1.len() implies !(#[trigger] links1[i].book_id
            == #[trigger] links1[j].book_id && links1[i].author_id == links1[j].author_id) by {
            if j == m.book_authors.len() {
                assert(!(m.book_authors[i].book_id == book_id && m.book_authors[i].author_id
                    == author_id));
            }
        }
        assert(store@ == with_link_inserted(m, book_id, author_id));
    }
    Ok(())
}

} // verus!
