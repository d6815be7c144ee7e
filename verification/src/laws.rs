use vstd::prelude::*;
use vstd::seq_lib::*;

use crate::models::{NewBook, NewUser, Page, User, UserChanges};
use crate::relations::{child_pred, pages_of};
use crate::joins::{inner_group, inner_join_rows, left_group, left_join_rows};
use crate::repo::{apply_changes, fresh_book, fresh_user, lookup_book, lookup_user,
    with_book_inserted, with_user_deleted, with_user_inserted, with_user_updated};
use crate::store::{StoreModel, user_ids};

verus! {

/// Law: creating an entity and reading it back by the key the store
/// assigned yields exactly the created entity.
pub proof fn lemma_create_then_get_user(m: StoreModel, nu: NewUser)
    requires
        m.wf(),
        m.next_user_id < i64::MAX,
    ensures
        lookup_user(with_user_inserted(m, nu).users, fresh_user(m, nu).id) == Some(
            fresh_user(m, nu),
        ),
{
    let u = fresh_user(m, nu);
    let users2 = with_user_inserted(m, nu).users;
    assert(users2[m.users.len() as int].id == u.id);
    assert(crate::repo::has_user(users2, u.id));
    let j = choose|j: int| 0 <= j < users2.len() && #[trigger] users2[j].id == u.id;
    if j < m.users.len() {
        assert(user_ids(m.users)[j] == m.users[j].id);
        assert(0 < m.users[j].id < m.next_user_id);
    }
}

/// Law: the created-then-read round trip, for books.
pub proof fn lemma_create_then_get_book(m: StoreModel, nb: NewBook)
    requires
        m.wf(),
        m.next_book_id < i64::MAX,
    ensures
        lookup_book(with_book_inserted(m, nb).books, fresh_book(m, nb).id) == Some(
            fresh_book(m, nb),
        ),
{
    let b = fresh_book(m, nb);
    let books2 = with_book_inserted(m, nb).books;
    assert(books2[m.books.len() as int].id == b.id);
    assert(crate::store::has_book(books2, b.id));
    let j = choose|j: int| 0 <= j < books2.len() && #[trigger] books2[j].id == b.id;
    if j < m.books.len() {
        assert(crate::store::book_ids(m.books)[j] == m.books[j].id);
        assert(0 < m.books[j].id < m.next_book_id);
    }
}

/// Law: a parent with no children loads an empty sequence of children, not
/// an absent entry (the batch loader returns one entry per requested
/// parent, so the entry is there and holds this empty sequence).
pub proof fn lemma_no_children_empty(m: StoreModel, id: i64)
    requires
        forall|i: int| 0 <= i < m.pages.len() ==> (#[trigger] m.pages[i]).book_id != id,
    ensures
        pages_of(m, id) == Seq::<Page>::empty(),
{
    m.pages.lemma_all_neg_filter_empty(child_pred(id));
}

/// The child rows a batch of parents accounts for: the sum, over the
/// requested parents, of how many children each loads.
pub open spec fn children_total(m: StoreModel, ids: Seq<i64>) -> int
    decreases ids.len(),
{
    if ids.len() == 0 {
        0
    } else {
        children_total(m, ids.drop_last()) + pages_of(m, ids.last()).len()
    }
}

/// The membership predicate over a batch of parent keys.
pub open spec fn in_ids_pred(ids: Seq<i64>) -> spec_fn(Page) -> bool {
    |p: Page| ids.contains(p.book_id)
}

proof fn lemma_filter_disjoint_len<T>(
    s: Seq<T>,
    pa: spec_fn(T) -> bool,
    pb: spec_fn(T) -> bool,
    pc: spec_fn(T) -> bool,
)
    requires
        forall|x: T| #[trigger] pc(x) == (pa(x) || pb(x)),
        forall|x: T| !(#[trigger] pa(x) && pb(x)),
    ensures
        s.filter(pc).len() == s.filter(pa).len() + s.filter(pb).len(),
    decreases s.len(),
{
    reveal(Seq::filter);
    if s.len() > 0 {
        lemma_filter_disjoint_len(s.drop_last(), pa, pb, pc);
    }
}

/// Law: over a batch of distinct parents, the summed sizes of the loaded
/// child groups equal the count of child rows whose foreign key lies in
/// the batch — each child is grouped exactly once.
pub proof fn lemma_children_partition(m: StoreModel, ids: Seq<i64>)
    requires
        forall|i: int, j: int| 0 <= i < j < ids.len() ==> ids[i] != ids[j],
    ensures
        children_total(m, ids) == m.pages.filter(in_ids_pred(ids)).len(),
    decreases ids.len(),
{
    if ids.len() == 0 {
        assert forall|i: int| 0 <= i < m.pages.len() implies !(in_ids_pred(ids)(
            #[trigger] m.pages[i],
        )) by {
            if ids.contains(m.pages[i].book_id) {
                let w = choose|w: int| 0 <= w < ids.len() && ids[w] == m.pages[i].book_id;
            }
        }
        m.pages.lemma_all_neg_filter_empty(in_ids_pred(ids));
    } else {
        let rest = ids.drop_last();
        let x = ids.last();
        lemma_children_partition(m, rest);
        assert(!rest.contains(x)) by {
            if rest.contains(x) {
                let w = choose|w: int| 0 <= w < rest.len() && rest[w] == x;
                assert(ids[w] == ids[ids.len() - 1]);
            }
        }
        assert forall|b: i64| #[trigger] ids.contains(b) implies (rest.contains(b) || b == x) by {
            let w = choose|w: int| 0 <= w < ids.len() && ids[w] == b;
            if w < ids.len() - 1 {
                assert(rest[w] == b);
            }
        }
        assert forall|b: i64| rest.contains(b) implies ids.contains(b) by {
            let w = choose|w: int| 0 <= w < rest.len() && rest[w] == b;
            assert(ids[w] == b);
        }
        assert(ids.contains(x)) by {
            assert(ids[ids.len() - 1] == x);
        }
        assert forall|p: Page| #[trigger] in_ids_pred(ids)(p) == (in_ids_pred(rest)(p) || child_pred(
            x,
        )(p)) by {
            if ids.contains(p.book_id) {
            }
            if rest.contains(p.book_id) {
            }
        }
        assert forall|p: Page| !(#[trigger] in_ids_pred(rest)(p) && child_pred(x)(p)) by {
            if rest.contains(p.book_id) && p.book_id == x {
            }
        }
        lemma_filter_disjoint_len(m.pages, in_ids_pred(rest), child_pred(x), in_ids_pred(ids));
    }
}

proof fn lemma_join_take(m: StoreModel, i: int)
    requires
        0 <= i <= m.books.len(),
    ensures
        m.books.take(i).flat_map(inner_group(m)).len() <= m.books.take(i).flat_map(
            left_group(m),
        ).len(),
    decreases i,
{
    if i == 0 {
        assert(m.books.take(0) =~= Seq::<crate::models::Book>::empty());
        assert(m.books.take(0).flat_map(inner_group(m)) =~= Seq::<(
            Page,
            crate::models::Book,
        )>::empty());
        assert(m.books.take(0).flat_map(left_group(m)) =~= Seq::<(
            crate::models::Book,
            Option<Page>,
        )>::empty());
    } else {
        lemma_join_take(m, i - 1);
        m.books.lemma_flat_map_take_append(inner_group(m), i - 1);
        m.books.lemma_flat_map_take_append(left_group(m), i - 1);
        let b = m.books[i - 1];
        assert(inner_group(m)(b).len() <= left_group(m)(b).len());
    }
}

/// Law: the inner join drops the owners with no related rows and the left
/// join keeps them, so the inner join never has more rows than the left
/// join.
pub proof fn lemma_inner_join_le_left_join(m: StoreModel)
    ensures
        inner_join_rows(m).len() <= left_join_rows(m).len(),
{
    lemma_join_take(m, m.books.len() as int);
    assert(m.books.take(m.books.len() as int) =~= m.books);
}

/// Law: a partial update touches exactly the mentioned fields of exactly
/// the addressed row; unmentioned fields, other rows, and every key stay
/// as they were.
pub proof fn lemma_update_keeps_unmentioned(m: StoreModel, id: i64, ch: UserChanges)
    ensures
        with_user_updated(m, id, ch).users.len() == m.users.len(),
        forall|k: int|
            0 <= k < m.users.len() ==> {
                let u0 = #[trigger] m.users[k];
                let u1 = with_user_updated(m, id, ch).users[k];
                &&& u1.id == u0.id
                &&& (ch.username is None ==> u1.username == u0.username)
                &&& (ch.remark is None ==> u1.remark == u0.remark)
                &&& (u0.id != id ==> u1 == u0)
            },
{
}

/// Law: after a partial update of an existing row, reading the row back
/// yields the merge: mentioned fields replaced, unmentioned fields as
/// before, under the same key.
pub proof fn lemma_update_then_get_user(m: StoreModel, id: i64, ch: UserChanges)
    requires
        m.wf(),
        crate::repo::has_user(m.users, id),
    ensures
        lookup_user(m.users, id) matches Some(u0) && lookup_user(
            with_user_updated(m, id, ch).users,
            id,
        ) == Some(apply_changes(u0, ch)),
{
    let m2 = with_user_updated(m, id, ch);
    let j0 = choose|j: int| 0 <= j < m.users.len() && #[trigger] m.users[j].id == id;
    assert(m2.users[j0].id == id);
    assert(crate::repo::has_user(m2.users, id));
    let j1 = choose|j: int| 0 <= j < m2.users.len() && #[trigger] m2.users[j].id == id;
    assert(m2.users[j1].id == m.users[j1].id);
    crate::repo::lemma_user_id_unique(m, j0, j1);
    assert(m2.users[j0] == apply_changes(m.users[j0], ch));
}

/// Law: deleting a key and then reading it back finds nothing.
pub proof fn lemma_delete_then_get_user(m: StoreModel, id: i64)
    ensures
        lookup_user(with_user_deleted(m, id).users, id) is None,
{
    let users2 = with_user_deleted(m, id).users;
    if crate::repo::has_user(users2, id) {
        let j = choose|j: int| 0 <= j < users2.len() && #[trigger] users2[j].id == id;
        m.users.lemma_filter_pred(|u: User| u.id != id, j);
    }
}

} // verus!
