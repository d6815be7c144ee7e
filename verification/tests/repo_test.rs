use resource_store::handlers::{create_posts, update_user, Service, UserPayload};
use resource_store::models::{NewAuthor, NewBook, NewPage, NewUser, UserChanges};
use resource_store::pool::establish_connection;
use resource_store::relations::{load_children, load_many_to_many};
use resource_store::repo::{
    delete_user_row, find_user, insert_author, insert_book, insert_page, insert_user,
    link_book_author, select_users, UserQuery,
};
use resource_store::store::Store;
use resource_store::RepoError;

fn new_user(username: &str, remark: &str) -> NewUser {
    NewUser { username: username.to_string(), remark: remark.to_string() }
}

fn plain_query() -> UserQuery {
    UserQuery { username_is: None, remark_is: None, descending: false, offset: 0, limit: None }
}

#[test]
fn select_filters_on_field_equality() {
    let mut store = Store::empty();
    insert_user(&mut store, new_user("ann", "x")).unwrap();
    insert_user(&mut store, new_user("bob", "y")).unwrap();
    insert_user(&mut store, new_user("ann", "z")).unwrap();

    let q = UserQuery { username_is: Some("ann".to_string()), ..plain_query() };
    let rows = select_users(&store, &q);
    assert_eq!(rows.len(), 2);
    assert_eq!(rows[0].remark, "x");
    assert_eq!(rows[1].remark, "z");
}

#[test]
fn select_orders_descending_by_key() {
    let mut store = Store::empty();
    let a = insert_user(&mut store, new_user("a", "r")).unwrap();
    let b = insert_user(&mut store, new_user("b", "r")).unwrap();
    let c = insert_user(&mut store, new_user("c", "r")).unwrap();

    let q = UserQuery { descending: true, ..plain_query() };
    let rows = select_users(&store, &q);
    assert_eq!(rows.len(), 3);
    assert_eq!(rows[0].id, c.id);
    assert_eq!(rows[1].id, b.id);
    assert_eq!(rows[2].id, a.id);
}

#[test]
fn select_paginates_with_offset_and_limit() {
    let mut store = Store::empty();
    for n in 0..5 {
        insert_user(&mut store, new_user(&format!("u{}", n), "r")).unwrap();
    }

    let q = UserQuery { offset: 1, limit: Some(2), ..plain_query() };
    let rows = select_users(&store, &q);
    assert_eq!(rows.len(), 2);
    assert_eq!(rows[0].username, "u1");
    assert_eq!(rows[1].username, "u2");

    let q = UserQuery { offset: 4, limit: Some(10), ..plain_query() };
    let rows = select_users(&store, &q);
    assert_eq!(rows.len(), 1);
    assert_eq!(rows[0].username, "u4");

    let q = UserQuery { offset: 9, limit: None, ..plain_query() };
    assert!(select_users(&store, &q).is_empty());
}

#[test]
fn partial_update_keeps_unmentioned_fields() {
    let mut store = Store::empty();
    let u = insert_user(&mut store, new_user("test", "nothing")).unwrap();

    let merged = resource_store::repo::update_user_row(
        &mut store,
        u.id,
        UserChanges { username: None, remark: Some("changed".to_string()) },
    )
    .unwrap();
    assert_eq!(merged.username, "test");
    assert_eq!(merged.remark, "changed");

    let read_back = find_user(&store, u.id).unwrap();
    assert_eq!(read_back.username, "test");
    assert_eq!(read_back.remark, "changed");
}

#[test]
fn partial_update_through_handler_merges_with_success() {
    let pool = establish_connection(":memory:", 1, true).expect("pool should build");
    let mut svc = Service::new(pool, Store::empty(), true);
    let created = create_posts(
        &mut svc,
        UserPayload {
            username: Some("test".to_string()),
            remark: Some("nothing".to_string()),
        },
    )
    .body
    .expect("created");

    let partial = UserPayload { username: None, remark: Some("merged".to_string()) };
    let resp = update_user(&mut svc, &format!("{}", created.id), partial);
    assert_eq!(resp.status, 200);
    let body = resp.body.expect("merged user");
    assert_eq!(body.username, "test");
    assert_eq!(body.remark, "merged");
}

#[test]
fn delete_returns_the_deleted_row() {
    let mut store = Store::empty();
    let u = insert_user(&mut store, new_user("gone", "soon")).unwrap();

    let deleted = delete_user_row(&mut store, u.id).unwrap();
    assert_eq!(deleted.id, u.id);
    assert_eq!(deleted.username, "gone");

    let err = delete_user_row(&mut store, u.id).unwrap_err();
    assert_eq!(err, RepoError::NotFound);
}

#[test]
fn grouped_child_counts_sum_to_matching_children() {
    let mut store = Store::empty();
    let a = insert_book(&mut store, NewBook { title: "a".to_string() }).unwrap();
    let b = insert_book(&mut store, NewBook { title: "b".to_string() }).unwrap();
    let c = insert_book(&mut store, NewBook { title: "c".to_string() }).unwrap();
    for (owner, count) in [(a.id, 2), (b.id, 0), (c.id, 3)] {
        for n in 0..count {
            insert_page(
                &mut store,
                owner,
                NewPage { page_number: n, content: format!("p{}", n) },
            )
            .unwrap();
        }
    }

    let grouped = load_children(&store, &vec![a.id, b.id, c.id]);
    let total: usize = grouped.iter().map(|(_, pages)| pages.len()).sum();
    let matching = store
        .pages
        .iter()
        .filter(|p| [a.id, b.id, c.id].contains(&p.book_id))
        .count();
    assert_eq!(total, 5);
    assert_eq!(total, matching);
}

#[test]
fn many_to_many_groups_related_rows_per_owner() {
    let mut store = Store::empty();
    let b1 = insert_book(&mut store, NewBook { title: "one".to_string() }).unwrap();
    let b2 = insert_book(&mut store, NewBook { title: "two".to_string() }).unwrap();
    let ann = insert_author(&mut store, NewAuthor { name: "ann".to_string() }).unwrap();
    let bob = insert_author(&mut store, NewAuthor { name: "bob".to_string() }).unwrap();
    link_book_author(&mut store, b1.id, ann.id).unwrap();
    link_book_author(&mut store, b2.id, ann.id).unwrap();

    let grouped = load_many_to_many(&store, &vec![ann.id, bob.id]);
    assert_eq!(grouped.len(), 2);
    assert_eq!(grouped[0].0, ann.id);
    assert_eq!(grouped[0].1.len(), 2);
    assert_eq!(grouped[0].1[0].title, "one");
    assert_eq!(grouped[0].1[1].title, "two");
    assert_eq!(grouped[1].0, bob.id);
    assert!(grouped[1].1.is_empty());
}

#[test]
fn duplicate_pairing_is_a_constraint_violation() {
    let mut store = Store::empty();
    let b = insert_book(&mut store, NewBook { title: "one".to_string() }).unwrap();
    let a = insert_author(&mut store, NewAuthor { name: "ann".to_string() }).unwrap();
    link_book_author(&mut store, b.id, a.id).unwrap();

    let err = link_book_author(&mut store, b.id, a.id).unwrap_err();
    assert_eq!(err, RepoError::ConstraintViolation);

    let err = link_book_author(&mut store, b.id, a.id + 1).unwrap_err();
    assert_eq!(err, RepoError::ConstraintViolation);
}

#[test]
fn page_insert_with_dangling_foreign_key_is_a_constraint_violation() {
    let mut store = Store::empty();
    let err = insert_page(
        &mut store,
        12,
        NewPage { page_number: 1, content: "orphan".to_string() },
    )
    .unwrap_err();
    assert_eq!(err, RepoError::ConstraintViolation);
    assert!(store.pages.is_empty());
}
