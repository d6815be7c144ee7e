use vstd::prelude::*;
use vstd::string::StrSliceExecFns;

use crate::http_status;
use crate::models::{Book, Dup, NewBook, NewPage, NewUser, Page, User, UserChanges};
use crate::pool::Pool;
use crate::repo::{UserQuery, apply_changes, delete_user_row, find_book, find_user, fresh_book,
    fresh_page, fresh_user, insert_book, insert_page, insert_user, lookup_book, lookup_user,
    select_users, selected_users, update_user_row, with_book_inserted, with_page_inserted,
    with_user_deleted, with_user_inserted, with_user_updated, book_exists};
use crate::joins::{collected_pages, first_book, fold_book_rows, inner_join_for_book,
    inner_join_rows_for, left_join_books_pages, left_join_for_book, left_join_rows};
use crate::relations::{pages_for_book, pages_of};
use crate::store::{Store, has_book};
use crate::RepoError;

verus! {

/// Whether a character is a decimal digit.
pub open spec fn is_digit(c: char) -> bool {
    48 <= c as u32 <= 57
}

/// The numeric value of a decimal digit.
pub open spec fn digit_val(c: char) -> int {
    c as u32 - 48
}

/// Whether a non-empty character sequence is all decimal digits.
pub open spec fn all_digits(s: Seq<char>) -> bool {
    s.len() > 0 && forall|i: int| 0 <= i < s.len() ==> is_digit(#[trigger] s[i])
}

/// The value of a digit string read most significant first.
pub open spec fn digits_value(s: Seq<char>) -> int
    decreases s.len(),
{
    if s.len() == 0 {
        0
    } else {
        digits_value(s.drop_last()) * 10 + digit_val(s.last())
    }
}

/// What an identifier in a request path denotes: an optional minus sign,
/// then digits, and a value that fits a 64-bit key; anything else denotes
/// nothing.
pub open spec fn parsed_id(s: Seq<char>) -> Option<i64> {
    if all_digits(s) && digits_value(s) <= i64::MAX as int {
        Some(digits_value(s) as i64)
    } else if s.len() >= 2 && s[0] == '-' && all_digits(s.skip(1)) && -digits_value(s.skip(1))
        >= i64::MIN as int {
        Some((-digits_value(s.skip(1))) as i64)
    } else {
        None
    }
}

proof fn lemma_digits_value_nonneg(s: Seq<char>)
    requires
        forall|i: int| 0 <= i < s.len() ==> is_digit(#[trigger] s[i]),
    ensures
        digits_value(s) >= 0,
    decreases s.len(),
{
    if s.len() > 0 {
        lemma_digits_value_nonneg(s.drop_last());
        assert(is_digit(s[s.len() - 1]));
    }
}

proof fn lemma_digits_value_prefix_le(s: Seq<char>, i: int)
    requires
        forall|k: int| 0 <= k < s.len() ==> is_digit(#[trigger] s[k]),
        0 <= i <= s.len(),
    ensures
        digits_value(s.take(i)) <= digits_value(s),
    decreases s.len() - i,
{
    if i < s.len() {
        lemma_digits_value_prefix_le(s, i + 1);
        assert(s.take(i + 1).drop_last() =~= s.take(i));
        assert(s.take(i + 1).last() == s[i]);
        assert(forall|k: int| 0 <= k < i ==> is_digit(#[trigger] s.take(i)[k]));
        lemma_digits_value_nonneg(s.take(i));
        assert(is_digit(s[i]));
        assert(digits_value(s.take(i + 1)) == digits_value(s.take(i)) * 10 + digit_val(s[i]));
    } else {
        assert(s.take(i) =~= s);
    }
}

/// Parses a path identifier. Returns the denoted key exactly when the text
/// is a well-formed decimal integer that fits; malformed text parses to
/// nothing rather than crashing.
pub fn parse_id(s: &str) -> (r: Option<i64>)
    ensures
        r == parsed_id(s@),
{
    let len = s.unicode_len();
    if len == 0 {
        return None;
    }
    let neg = s.get_char(0) == '-';
    let start: usize = if neg {
        1
    } else {
        0
    };
    if start == len {
        return None;
    }
    let bound: u128 = if neg {
        (i64::MAX as u128) + 1
    } else {
        i64::MAX as u128
    };
    let mut value: u128 = 0;
    let mut i: usize = start;
    while i < len
        invariant
            len == s@.len(),
            start <= i <= len,
            start == if neg {
                1int
            } else {
                0int
            },
            neg ==> s@[0] == '-',
            !neg ==> s@[0] != '-',
            bound == if neg {
                i64::MAX as int + 1
            } else {
                i64::MAX as int
            },
            forall|k: int| start <= k < i ==> is_digit(#[trigger] s@[k]),
            value == digits_value(s@.subrange(start as int, i as int)),
            value <= bound,
        decreases len - i,
    {
        let c = s.get_char(i);
        let cc = c as u32;
        if cc < 48 || cc > 57 {
            proof {
                assert(!is_digit(s@[i as int]));
                if neg {
                    assert(!is_digit(s@.skip(1)[i as int - 1]));
                    assert(!all_digits(s@.skip(1)));
                    assert(!is_digit(s@[0]));
                    assert(!all_digits(s@));
                } else {
                    assert(!all_digits(s@));
                    if s@[0] == '-' {
                        assert(false);
                    }
                }
            }
            return None;
        }
        let d = (cc - 48) as u128;
        let newv = value * 10 + d;
        proof {
            let pre = s@.subrange(start as int, i as int);
            let cur = s@.subrange(start as int, i as int + 1);
            assert(cur.drop_last() =~= pre);
            assert(cur.last() == s@[i as int]);
            assert(digits_value(cur) == digits_value(pre) * 10 + digit_val(s@[i as int]));
        }
        if newv > bound {
            proof {
                if neg {
                    let rest = s@.skip(1);
                    if all_digits(rest) {
                        assert(s@.subrange(start as int, i as int + 1) =~= rest.take(i as int));
                        lemma_digits_value_prefix_le(rest, i as int);
                        assert(digits_value(rest) > bound);
                    }
                    assert(!all_digits(s@)) by {
                        assert(!is_digit(s@[0]));
                    }
                } else {
                    if all_digits(s@) {
                        assert(s@.subrange(start as int, i as int + 1) =~= s@.take(i as int + 1));
                        lemma_digits_value_prefix_le(s@, i as int + 1);
                        assert(digits_value(s@) > bound);
                    }
                    if s@[0] == '-' {
                        assert(false);
                    }
                }
            }
            return None;
        }
        value = newv;
        i = i + 1;
    }
    proof {
        if neg {
            assert(s@.subrange(1, len as int) =~= s@.skip(1));
            assert(all_digits(s@.skip(1)));
            assert(!is_digit(s@[0]));
            assert(!all_digits(s@));
        } else {
            assert(s@.subrange(0, len as int) =~= s@);
            assert(all_digits(s@));
            if s@[0] == '-' {
                assert(false);
            }
        }
    }
    if neg {
        if value == (i64::MAX as u128) + 1 {
            Some(i64::MIN)
        } else {
            Some(-(value as i64))
        }
    } else {
        Some(value as i64)
    }
}

/// What a handler sends back: a status code, and the payload on success.
pub struct ApiResponse<T> {
    pub status: u16,
    pub body: Option<T>,
}

/// The state a request handler works against: the connection pool, the
/// store those connections reach, and whether the backend answers at all
/// (a pool builds lazily, so an unreachable backend surfaces per request).
pub struct Service {
    pub pool: Pool,
    pub store: Store,
    pub backend_ok: bool,
}

impl Service {
    /// Between requests every connection is back in the pool, and the store
    /// is well formed.
    pub open spec fn wf(&self) -> bool {
        &&& self.pool.wf()
        &&& self.pool.available == self.pool.capacity
        &&& self.store@.wf()
    }

    /// Whether a repository call through this service can go through: a
    /// connection can be had and the backend answers.
    pub open spec fn reachable(&self) -> bool {
        self.pool.capacity > 0 && self.backend_ok
    }

    pub fn new(pool: Pool, store: Store, backend_ok: bool) -> (r: Service)
        requires
            pool.wf(),
            pool.available == pool.capacity,
            store@.wf(),
        ensures
            r.wf(),
            r.pool == pool,
            r.store == store,
            r.backend_ok == backend_ok,
    {
        Service { pool, store, backend_ok }
    }
}

/// A request body for creating or updating a user, as the wire carries it:
/// either field may be missing.
pub struct UserPayload {
    pub username: Option<String>,
    pub remark: Option<String>,
}

/// Whether both required fields came with the request.
pub open spec fn user_payload_complete(p: UserPayload) -> bool {
    p.username is Some && p.remark is Some
}

/// Whether every field that came with the request is non-empty.
pub open spec fn user_payload_nonempty(p: UserPayload) -> bool {
    &&& (p.username matches Some(n) ==> n@.len() > 0)
    &&& (p.remark matches Some(x) ==> x@.len() > 0)
}

/// Validates a create-user body into the repository's write shape. A
/// missing field is malformed input; a field present but empty violates
/// the table's constraints. Success is owed on every other body.
pub fn validate_new_user(payload: UserPayload) -> (r: Result<NewUser, RepoError>)
    ensures
        !user_payload_complete(payload) ==> r == Err::<NewUser, RepoError>(
            RepoError::MalformedInput,
        ),
        user_payload_complete(payload) && !user_payload_nonempty(payload) ==> r == Err::<
            NewUser,
            RepoError,
        >(RepoError::ConstraintViolation),
        user_payload_complete(payload) && user_payload_nonempty(payload) ==> r == Ok::<
            NewUser,
            RepoError,
        >(NewUser { username: payload.username->0, remark: payload.remark->0 }),
{
    let (username, remark) = match (payload.username, payload.remark) {
        (Some(a), Some(b)) => (a, b),
        _ => {
            return Err(RepoError::MalformedInput);
        },
    };
    if username.as_str().is_empty() || remark.as_str().is_empty() {
        return Err(RepoError::ConstraintViolation);
    }
    Ok(NewUser { username, remark })
}

/// Validates an update-user body into the repository's change set: absent
/// fields stay absent, so the update is partial; a field present but empty
/// violates the table's constraints.
pub fn validate_user_changes(payload: UserPayload) -> (r: Result<UserChanges, RepoError>)
    ensures
        !user_payload_nonempty(payload) ==> r == Err::<UserChanges, RepoError>(
            RepoError::ConstraintViolation,
        ),
        user_payload_nonempty(payload) ==> r == Ok::<UserChanges, RepoError>(
            UserChanges { username: payload.username, remark: payload.remark },
        ),
{
    match &payload.username {
        Some(n) => {
            if n.as_str().is_empty() {
                return Err(RepoError::ConstraintViolation);
            }
        },
        None => {},
    }
    match &payload.remark {
        Some(x) => {
            if x.as_str().is_empty() {
                return Err(RepoError::ConstraintViolation);
            }
        },
        None => {},
    }
    Ok(UserChanges { username: payload.username, remark: payload.remark })
}

/// Lists users. Success is owed whenever the backend is reachable; the
/// listing is exactly the repository's selection for the query.
pub fn list_users(svc: &mut Service, q: &UserQuery) -> (r: ApiResponse<Vec<User>>)
    requires
        old(svc).wf(),
    ensures
        final(svc).wf(),
        final(svc).pool == old(svc).pool,
        final(svc).backend_ok == old(svc).backend_ok,
        final(svc).store@ == old(svc).store@,
        !old(svc).reachable() ==> r.status == 500 && r.body is None,
        old(svc).reachable() ==> r.status == 200 && (r.body matches Some(v) && v@
            == selected_users(old(svc).store@, *q)),
{
    let conn = match svc.pool.acquire() {
        Ok(c) => c,
        Err(e) => {
            return ApiResponse { status: http_status(e), body: None };
        },
    };
    if !svc.backend_ok {
        svc.pool.release(conn);
        return ApiResponse { status: 500, body: None };
    }
    let rows = select_users(&svc.store, q);
    svc.pool.release(conn);
    ApiResponse { status: 200, body: Some(rows) }
}

/// Reads one user by the raw path identifier. A malformed identifier never
/// names a row, so it reports not-found, as does an absent key; otherwise
/// the row with that key comes back whenever the backend is reachable.
pub fn get_user(svc: &mut Service, raw_id: &str) -> (r: ApiResponse<User>)
    requires
        old(svc).wf(),
    ensures
        final(svc).wf(),
        final(svc).pool == old(svc).pool,
        final(svc).backend_ok == old(svc).backend_ok,
        final(svc).store@ == old(svc).store@,
        parsed_id(raw_id@) is None ==> r.status == 404 && r.body is None,
        parsed_id(raw_id@) matches Some(id) ==> (if !old(svc).reachable() {
            r.status == 500 && r.body is None
        } else {
            match lookup_user(old(svc).store@.users, id) {
                Some(u) => r.status == 200 && r.body == Some(u),
                None => r.status == 404 && r.body is None,
            }
        }),
{
    let id = match parse_id(raw_id) {
        Some(v) => v,
        None => {
            return ApiResponse { status: 404, body: None };
        },
    };
    let conn = match svc.pool.acquire() {
        Ok(c) => c,
        Err(e) => {
            return ApiResponse { status: http_status(e), body: None };
        },
    };
    if !svc.backend_ok {
        svc.pool.release(conn);
        return ApiResponse { status: 500, body: None };
    }
    let outcome = find_user(&svc.store, id);
    svc.pool.release(conn);
    match outcome {
        Ok(u) => ApiResponse { status: 200, body: Some(u) },
        Err(e) => ApiResponse { status: http_status(e), body: None },
    }
}

/// Creates a user from a request body. A missing or empty field is a
/// client error and writes nothing; otherwise the row is inserted and comes
/// back materialized, key included.
pub fn create_posts(svc: &mut Service, payload: UserPayload) -> (r: ApiResponse<User>)
    requires
        old(svc).wf(),
    ensures
        final(svc).wf(),
        final(svc).pool == old(svc).pool,
        final(svc).backend_ok == old(svc).backend_ok,
        !(user_payload_complete(payload) && user_payload_nonempty(payload)) ==> r.status == 400
            && r.body is None && final(svc).store@ == old(svc).store@,
        user_payload_complete(payload) && user_payload_nonempty(payload)
            ==> (if !old(svc).reachable() {
            r.status == 500 && r.body is None && final(svc).store@ == old(svc).store@
        } else {
            let nu = NewUser { username: payload.username->0, remark: payload.remark->0 };
            if old(svc).store@.next_user_id == i64::MAX {
                r.status == 500 && r.body is None && final(svc).store@ == old(svc).store@
            } else {
                r.status == 200 && r.body == Some(fresh_user(old(svc).store@, nu))
                    && final(svc).store@ == with_user_inserted(old(svc).store@, nu)
            }
        }),
{
    let nu = match validate_new_user(payload) {
        Ok(v) => v,
        Err(e) => {
            return ApiResponse { status: http_status(e), body: None };
        },
    };
    let conn = match svc.pool.acquire() {
        Ok(c) => c,
        Err(e) => {
            return ApiResponse { status: http_status(e), body: None };
        },
    };
    if !svc.backend_ok {
        svc.pool.release(conn);
        return ApiResponse { status: 500, body: None };
    }
    let outcome = insert_user(&mut svc.store, nu);
    svc.pool.release(conn);
    match outcome {
        Ok(u) => ApiResponse { status: 200, body: Some(u) },
        Err(e) => ApiResponse { status: http_status(e), body: None },
    }
}

/// Updates a user by the raw path identifier with a partial body: fields
/// present replace, fields absent stay as they were; the merged row comes
/// back. A field present but empty is a client error; an absent key is
/// not-found, and nothing is written in either case.
pub fn update_user(svc: &mut Service, raw_id: &str, payload: UserPayload) -> (r: ApiResponse<
    User,
>)
    requires
        old(svc).wf(),
    ensures
        final(svc).wf(),
        final(svc).pool == old(svc).pool,
        final(svc).backend_ok == old(svc).backend_ok,
        parsed_id(raw_id@) is None ==> r.status == 404 && r.body is None && final(svc).store@
            == old(svc).store@,
        parsed_id(raw_id@) is Some && !user_payload_nonempty(payload) ==> r.status == 400
            && r.body is None && final(svc).store@ == old(svc).store@,
        parsed_id(raw_id@) matches Some(id) ==> user_payload_nonempty(payload)
            ==> (if !old(svc).reachable() {
            r.status == 500 && r.body is None && final(svc).store@ == old(svc).store@
        } else {
            let ch = UserChanges { username: payload.username, remark: payload.remark };
            match lookup_user(old(svc).store@.users, id) {
                Some(u0) => r.status == 200 && r.body == Some(apply_changes(u0, ch))
                    && final(svc).store@ == with_user_updated(old(svc).store@, id, ch),
                None => r.status == 404 && r.body is None && final(svc).store@ == old(svc).store@,
            }
        }),
{
    let id = match parse_id(raw_id) {
        Some(v) => v,
        None => {
            return ApiResponse { status: 404, body: None };
        },
    };
    let ch = match validate_user_changes(payload) {
        Ok(v) => v,
        Err(e) => {
            return ApiResponse { status: http_status(e), body: None };
        },
    };
    let conn = match svc.pool.acquire() {
        Ok(c) => c,
        Err(e) => {
            return ApiResponse { status: http_status(e), body: None };
        },
    };
    if !svc.backend_ok {
        svc.pool.release(conn);
        return ApiResponse { status: 500, body: None };
    }
    let outcome = update_user_row(&mut svc.store, id, ch);
    svc.pool.release(conn);
    match outcome {
        Ok(u) => ApiResponse { status: 200, body: Some(u) },
        Err(e) => ApiResponse { status: http_status(e), body: None },
    }
}

/// Deletes a user by the raw path identifier and returns the deleted row;
/// an absent key deletes nothing and reports not-found.
pub fn delete_user(svc: &mut Service, raw_id: &str) -> (r: ApiResponse<User>)
    requires
        old(svc).wf(),
    ensures
        final(svc).wf(),
        final(svc).pool == old(svc).pool,
        final(svc).backend_ok == old(svc).backend_ok,
        parsed_id(raw_id@) is None ==> r.status == 404 && r.body is None && final(svc).store@
            == old(svc).store@,
        parsed_id(raw_id@) matches Some(id) ==> (if !old(svc).reachable() {
            r.status == 500 && r.body is None && final(svc).store@ == old(svc).store@
        } else {
            match lookup_user(old(svc).store@.users, id) {
                Some(u) => r.status == 200 && r.body == Some(u) && final(svc).store@
                    == with_user_deleted(old(svc).store@, id),
                None => r.status == 404 && r.body is None && final(svc).store@ == old(svc).store@,
            }
        }),
{
    let id = match parse_id(raw_id) {
        Some(v) => v,
        None => {
            return ApiResponse { status: 404, body: None };
        },
    };
    let conn = match svc.pool.acquire() {
        Ok(c) => c,
        Err(e) => {
            return ApiResponse { status: http_status(e), body: None };
        },
    };
    if !svc.backend_ok {
        svc.pool.release(conn);
        return ApiResponse { status: 500, body: None };
    }
    let outcome = delete_user_row(&mut svc.store, id);
    svc.pool.release(conn);
    match outcome {
        Ok(u) => ApiResponse { status: 200, body: Some(u) },
        Err(e) => ApiResponse { status: http_status(e), body: None },
    }
}

/// A request body for creating a book.
pub struct BookPayload {
    pub title: Option<String>,
}

/// A request body for creating a page under a book.
pub struct PagePayload {
    pub page_number: Option<i64>,
    pub content: Option<String>,
}

/// Whether both required page fields came with the request.
pub open spec fn page_payload_complete(p: PagePayload) -> bool {
    p.page_number is Some && p.content is Some
}

/// Validates a create-page body into the repository's write shape. A
/// missing field is malformed input; success is owed on every other body.
pub fn validate_new_page(payload: PagePayload) -> (r: Result<NewPage, RepoError>)
    ensures
        !page_payload_complete(payload) ==> r == Err::<NewPage, RepoError>(
            RepoError::MalformedInput,
        ),
        page_payload_complete(payload) ==> r == Ok::<NewPage, RepoError>(
            NewPage { page_number: payload.page_number->0, content: payload.content->0 },
        ),
{
    match (payload.page_number, payload.content) {
        (Some(page_number), Some(content)) => Ok(NewPage { page_number, content }),
        _ => Err(RepoError::MalformedInput),
    }
}

/// A book together with its pages, as an owner-with-children read returns
/// them.
pub struct BookWithPages {
    pub book: Book,
    pub pages: Vec<Page>,
}

/// A possibly absent book with whatever pages the row stream carried, the
/// shape a one-query left-join read folds into.
pub struct BookWithPagesOnce {
    pub book: Option<Book>,
    pub pages: Vec<Page>,
}

/// Creates a book from a request body. A missing title is a client error
/// and writes nothing; otherwise the row is inserted and comes back
/// materialized, key included.
pub fn create_book(svc: &mut Service, payload: BookPayload) -> (r: ApiResponse<Book>)
    requires
        old(svc).wf(),
    ensures
        final(svc).wf(),
        final(svc).pool == old(svc).pool,
        final(svc).backend_ok == old(svc).backend_ok,
        payload.title is None ==> r.status == 400 && r.body is None && final(svc).store@ == old(
            svc,
        ).store@,
        payload.title matches Some(t) ==> (if !old(svc).reachable() {
            r.status == 500 && r.body is None && final(svc).store@ == old(svc).store@
        } else {
            let nb = NewBook { title: t };
            if old(svc).store@.next_book_id == i64::MAX {
                r.status == 500 && r.body is None && final(svc).store@ == old(svc).store@
            } else {
                r.status == 200 && r.body == Some(fresh_book(old(svc).store@, nb))
                    && final(svc).store@ == with_book_inserted(old(svc).store@, nb)
            }
        }),
{
    let title = match payload.title {
        Some(t) => t,
        None => {
            return ApiResponse { status: 400, body: None };
        },
    };
    let conn = match svc.pool.acquire() {
        Ok(c) => c,
        Err(e) => {
            return ApiResponse { status: http_status(e), body: None };
        },
    };
    if !svc.backend_ok {
        svc.pool.release(conn);
        return ApiResponse { status: 500, body: None };
    }
    let outcome = insert_book(&mut svc.store, NewBook { title });
    svc.pool.release(conn);
    match outcome {
        Ok(b) => ApiResponse { status: 200, body: Some(b) },
        Err(e) => ApiResponse { status: http_status(e), body: None },
    }
}

/// Reads one book with all its pages, children loaded in one grouped
/// query; an absent key is not-found.
pub fn get_book(svc: &mut Service, raw_id: &str) -> (r: ApiResponse<BookWithPages>)
    requires
        old(svc).wf(),
    ensures
        final(svc).wf(),
        final(svc).pool == old(svc).pool,
        final(svc).backend_ok == old(svc).backend_ok,
        final(svc).store@ == old(svc).store@,
        parsed_id(raw_id@) is None ==> r.status == 404 && r.body is None,
        parsed_id(raw_id@) matches Some(id) ==> (if !old(svc).reachable() {
            r.status == 500 && r.body is None
        } else {
            match lookup_book(old(svc).store@.books, id) {
                Some(b) => r.status == 200 && (r.body matches Some(bp) && bp.book == b
                    && bp.pages@ == pages_of(old(svc).store@, id)),
                None => r.status == 404 && r.body is None,
            }
        }),
{
    let id = match parse_id(raw_id) {
        Some(v) => v,
        None => {
            return ApiResponse { status: 404, body: None };
        },
    };
    let conn = match svc.pool.acquire() {
        Ok(c) => c,
        Err(e) => {
            return ApiResponse { status: http_status(e), body: None };
        },
    };
    if !svc.backend_ok {
        svc.pool.release(conn);
        return ApiResponse { status: 500, body: None };
    }
    let outcome = find_book(&svc.store, id);
    match outcome {
        Ok(b) => {
            let pages = pages_for_book(&svc.store, id);
            svc.pool.release(conn);
            proof {
                assert(b.id == id);
            }
            ApiResponse { status: 200, body: Some(BookWithPages { book: b, pages }) }
        },
        Err(e) => {
            svc.pool.release(conn);
            ApiResponse { status: http_status(e), body: None }
        },
    }
}

/// Reads one book with its pages in a single left-join query and folds the
/// row stream back into one shape. An absent key yields an absent book and
/// no pages, still a success.
pub fn get_book_once(svc: &mut Service, raw_id: &str) -> (r: ApiResponse<BookWithPagesOnce>)
    requires
        old(svc).wf(),
    ensures
        final(svc).wf(),
        final(svc).pool == old(svc).pool,
        final(svc).backend_ok == old(svc).backend_ok,
        final(svc).store@ == old(svc).store@,
        parsed_id(raw_id@) is None ==> r.status == 404 && r.body is None,
        parsed_id(raw_id@) matches Some(id) ==> (if !old(svc).reachable() {
            r.status == 500 && r.body is None
        } else {
            let rows = crate::joins::left_join_rows_for(old(svc).store@, id);
            r.status == 200 && (r.body matches Some(bp) && bp.book == first_book(rows)
                && bp.pages@ == collected_pages(rows))
        }),
{
    let id = match parse_id(raw_id) {
        Some(v) => v,
        None => {
            return ApiResponse { status: 404, body: None };
        },
    };
    let conn = match svc.pool.acquire() {
        Ok(c) => c,
        Err(e) => {
            return ApiResponse { status: http_status(e), body: None };
        },
    };
    if !svc.backend_ok {
        svc.pool.release(conn);
        return ApiResponse { status: 500, body: None };
    }
    let rows = left_join_for_book(&svc.store, id);
    svc.pool.release(conn);
    let folded = fold_book_rows(&rows);
    ApiResponse {
        status: 200,
        body: Some(BookWithPagesOnce { book: folded.0, pages: folded.1 }),
    }
}

/// Reads the inner-join rows of one book: one row per page, each carrying
/// the owning book; a book with no pages, or no book at all, yields no
/// rows, still a success.
pub fn get_book_by_inner_join(svc: &mut Service, raw_id: &str) -> (r: ApiResponse<
    Vec<(Page, Book)>,
>)
    requires
        old(svc).wf(),
    ensures
        final(svc).wf(),
        final(svc).pool == old(svc).pool,
        final(svc).backend_ok == old(svc).backend_ok,
        final(svc).store@ == old(svc).store@,
        parsed_id(raw_id@) is None ==> r.status == 404 && r.body is None,
        parsed_id(raw_id@) matches Some(id) ==> (if !old(svc).reachable() {
            r.status == 500 && r.body is None
        } else {
            r.status == 200 && (r.body matches Some(v) && v@ == inner_join_rows_for(
                old(svc).store@,
                id,
            ))
        }),
{
    let id = match parse_id(raw_id) {
        Some(v) => v,
        None => {
            return ApiResponse { status: 404, body: None };
        },
    };
    let conn = match svc.pool.acquire() {
        Ok(c) => c,
        Err(e) => {
            return ApiResponse { status: http_status(e), body: None };
        },
    };
    if !svc.backend_ok {
        svc.pool.release(conn);
        return ApiResponse { status: 500, body: None };
    }
    let rows = inner_join_for_book(&svc.store, id);
    svc.pool.release(conn);
    ApiResponse { status: 200, body: Some(rows) }
}

/// Reads the left join of all books with their pages: every book keeps at
/// least one row, an absent page standing in where it has none.
pub fn get_book_by_left_join(svc: &mut Service, raw_id: &str) -> (r: ApiResponse<
    Vec<(Book, Option<Page>)>,
>)
    requires
        old(svc).wf(),
    ensures
        final(svc).wf(),
        final(svc).pool == old(svc).pool,
        final(svc).backend_ok == old(svc).backend_ok,
        final(svc).store@ == old(svc).store@,
        parsed_id(raw_id@) is None ==> r.status == 404 && r.body is None,
        parsed_id(raw_id@) is Some ==> (if !old(svc).reachable() {
            r.status == 500 && r.body is None
        } else {
            r.status == 200 && (r.body matches Some(v) && v@ == left_join_rows(old(svc).store@))
        }),
{
    if parse_id(raw_id).is_none() {
        return ApiResponse { status: 404, body: None };
    }
    let conn = match svc.pool.acquire() {
        Ok(c) => c,
        Err(e) => {
            return ApiResponse { status: http_status(e), body: None };
        },
    };
    if !svc.backend_ok {
        svc.pool.release(conn);
        return ApiResponse { status: 500, body: None };
    }
    let rows = left_join_books_pages(&svc.store);
    svc.pool.release(conn);
    ApiResponse { status: 200, body: Some(rows) }
}

/// Reads every book with its pages: the children of all books loaded in
/// one batch and grouped under their owners, in book order.
pub fn all_way(svc: &mut Service, raw_id: &str) -> (r: ApiResponse<Vec<(Book, Vec<Page>)>>)
    requires
        old(svc).wf(),
    ensures
        final(svc).wf(),
        final(svc).pool == old(svc).pool,
        final(svc).backend_ok == old(svc).backend_ok,
        final(svc).store@ == old(svc).store@,
        parsed_id(raw_id@) is None ==> r.status == 404 && r.body is None,
        parsed_id(raw_id@) is Some ==> (if !old(svc).reachable() {
            r.status == 500 && r.body is None
        } else {
            r.status == 200 && (r.body matches Some(v) && v@.len() == old(svc).store@.books.len()
                && (forall|k: int|
                    0 <= k < v@.len() ==> (#[trigger] v@[k]).0 == old(svc).store@.books[k]
                        && v@[k].1@ == pages_of(old(svc).store@, old(svc).store@.books[k].id)))
        }),
{
    if parse_id(raw_id).is_none() {
        return ApiResponse { status: 404, body: None };
    }
    let conn = match svc.pool.acquire() {
        Ok(c) => c,
        Err(e) => {
            return ApiResponse { status: http_status(e), body: None };
        },
    };
    if !svc.backend_ok {
        svc.pool.release(conn);
        return ApiResponse { status: 500, body: None };
    }
    let mut grouped: Vec<(Book, Vec<Page>)> = Vec::new();
    let n = svc.store.books.len();
    let mut i: usize = 0;
    while i < n
        invariant
            n == svc.store.books.len(),
            i <= n,
            grouped@.len() == i,
            forall|k: int|
                0 <= k < i ==> (#[trigger] grouped@[k]).0 == svc.store.books@[k]
                    && grouped@[k].1@ == pages_of(svc.store@, svc.store.books@[k].id),
        decreases n - i,
    {
        let b = svc.store.books[i].dup();
        let pages = pages_for_book(&svc.store, b.id);
        grouped.push((b, pages));
        i = i + 1;
    }
    svc.pool.release(conn);
    ApiResponse { status: 200, body: Some(grouped) }
}

/// Creates a page under the book the path names. Missing body fields are a
/// client error; a book that does not exist is not-found; success answers
/// created, with the materialized row. Nothing is written except on
/// success.
pub fn create_page(svc: &mut Service, raw_book_id: &str, payload: PagePayload) -> (r: ApiResponse<
    Page,
>)
    requires
        old(svc).wf(),
    ensures
        final(svc).wf(),
        final(svc).pool == old(svc).pool,
        final(svc).backend_ok == old(svc).backend_ok,
        parsed_id(raw_book_id@) is None ==> r.status == 404 && r.body is None && final(svc).store@
            == old(svc).store@,
        parsed_id(raw_book_id@) is Some && !page_payload_complete(payload) ==> r.status == 400
            && r.body is None && final(svc).store@ == old(svc).store@,
        parsed_id(raw_book_id@) matches Some(bid) ==> page_payload_complete(payload)
            ==> (if !old(svc).reachable() {
            r.status == 500 && r.body is None && final(svc).store@ == old(svc).store@
        } else {
            let np = NewPage { page_number: payload.page_number->0, content: payload.content->0 };
            if !has_book(old(svc).store@.books, bid) {
                r.status == 404 && r.body is None && final(svc).store@ == old(svc).store@
            } else if old(svc).store@.next_page_id == i64::MAX {
                r.status == 500 && r.body is None && final(svc).store@ == old(svc).store@
            } else {
                r.status == 201 && r.body == Some(fresh_page(old(svc).store@, bid, np))
                    && final(svc).store@ == with_page_inserted(old(svc).store@, bid, np)
            }
        }),
{
    let bid = match parse_id(raw_book_id) {
        Some(v) => v,
        None => {
            return ApiResponse { status: 404, body: None };
        },
    };
    let np = match validate_new_page(payload) {
        Ok(v) => v,
        Err(e) => {
            return ApiResponse { status: http_status(e), body: None };
        },
    };
    let conn = match svc.pool.acquire() {
        Ok(c) => c,
        Err(e) => {
            return ApiResponse { status: http_status(e), body: None };
        },
    };
    if !svc.backend_ok {
        svc.pool.release(conn);
        return ApiResponse { status: 500, body: None };
    }
    if !book_exists(&svc.store, bid) {
        svc.pool.release(conn);
        return ApiResponse { status: 404, body: None };
    }
    let outcome = insert_page(&mut svc.store, bid, np);
    svc.pool.release(conn);
    match outcome {
        Ok(p) => ApiResponse { status: 201, body: Some(p) },
        Err(e) => ApiResponse { status: http_status(e), body: None },
    }
}

} // verus!
