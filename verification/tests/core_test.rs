use resource_store::handlers::{parse_id, validate_new_user, validate_user_changes, UserPayload};
use resource_store::http_status;
use resource_store::models::NewUser;
use resource_store::pool::establish_connection;
use resource_store::repo::insert_user;
use resource_store::store::Store;
use resource_store::txn::{run_in_transaction, Session};
use resource_store::RepoError;

fn new_user(username: &str, remark: &str) -> NewUser {
    NewUser { username: username.to_string(), remark: remark.to_string() }
}

#[test]
fn parse_id_accepts_well_formed_integers() {
    assert_eq!(parse_id("0"), Some(0));
    assert_eq!(parse_id("12"), Some(12));
    assert_eq!(parse_id("-1"), Some(-1));
    assert_eq!(parse_id("007"), Some(7));
    assert_eq!(parse_id("9223372036854775807"), Some(i64::MAX));
    assert_eq!(parse_id("-9223372036854775808"), Some(i64::MIN));
}

#[test]
fn parse_id_rejects_malformed_text() {
    assert_eq!(parse_id(""), None);
    assert_eq!(parse_id("-"), None);
    assert_eq!(parse_id("12a"), None);
    assert_eq!(parse_id("+5"), None);
    assert_eq!(parse_id("1.5"), None);
    assert_eq!(parse_id("invalid"), None);
    assert_eq!(parse_id("9223372036854775808"), None);
    assert_eq!(parse_id("-9223372036854775809"), None);
    assert_eq!(parse_id("99999999999999999999999999"), None);
}

#[test]
fn status_codes_follow_the_error_taxonomy() {
    assert_eq!(http_status(RepoError::NotFound), 404);
    assert_eq!(http_status(RepoError::ConstraintViolation), 400);
    assert_eq!(http_status(RepoError::MalformedInput), 400);
    assert_eq!(http_status(RepoError::PoolExhausted), 500);
    assert_eq!(http_status(RepoError::BackendUnavailable), 500);
    assert_eq!(http_status(RepoError::BackendError), 500);
}

#[test]
fn pool_checks_out_up_to_capacity_and_no_further() {
    let mut pool = establish_connection("db", 2, true).unwrap();
    assert_eq!(pool.capacity, 2);
    let c1 = pool.acquire().unwrap();
    let c2 = pool.acquire().unwrap();
    let err = pool.acquire().unwrap_err();
    assert_eq!(err, RepoError::PoolExhausted);
    pool.release(c1);
    let c3 = pool.acquire().unwrap();
    pool.release(c2);
    pool.release(c3);
    assert_eq!(pool.available, 2);
}

#[test]
fn pool_construction_fails_fast() {
    assert_eq!(
        establish_connection("", 15, true).unwrap_err(),
        RepoError::BackendUnavailable
    );
    assert_eq!(
        establish_connection("db", 15, false).unwrap_err(),
        RepoError::BackendUnavailable
    );
    assert_eq!(
        establish_connection("db", 0, true).unwrap_err(),
        RepoError::BackendUnavailable
    );
}

#[test]
fn validation_classifies_bad_bodies() {
    let missing = UserPayload { username: Some("a".to_string()), remark: None };
    assert_eq!(validate_new_user(missing).unwrap_err(), RepoError::MalformedInput);

    let empty = UserPayload { username: Some("".to_string()), remark: Some("r".to_string()) };
    assert_eq!(validate_new_user(empty).unwrap_err(), RepoError::ConstraintViolation);

    let partial = UserPayload { username: None, remark: Some("r".to_string()) };
    let ch = validate_user_changes(partial).unwrap();
    assert!(ch.username.is_none());
    assert_eq!(ch.remark.as_deref(), Some("r"));

    let partial_empty = UserPayload { username: None, remark: Some("".to_string()) };
    assert_eq!(
        validate_user_changes(partial_empty).unwrap_err(),
        RepoError::ConstraintViolation
    );
}

#[test]
fn exhausted_key_counter_is_a_backend_error() {
    let mut store = Store::empty();
    store.next_user_id = i64::MAX;
    let err = insert_user(&mut store, new_user("late", "comer")).unwrap_err();
    assert_eq!(err, RepoError::BackendError);
    assert!(store.users.is_empty());
}

#[test]
fn rollback_discards_the_writes_of_the_body() {
    let mut sess = Session::new(Store::empty());
    sess.begin();
    insert_user(&mut sess.store, new_user("ghost", "gone")).unwrap();
    assert_eq!(sess.store.users.len(), 1);
    sess.rollback();
    assert_eq!(sess.store.users.len(), 0);
    assert_eq!(sess.depth(), 0);
}

#[test]
fn nested_rollback_undoes_only_inner_writes() {
    let mut sess = Session::new(Store::empty());
    sess.begin();
    insert_user(&mut sess.store, new_user("outer", "kept")).unwrap();
    sess.begin();
    insert_user(&mut sess.store, new_user("inner", "discarded")).unwrap();
    assert_eq!(sess.store.users.len(), 2);
    sess.rollback();
    assert_eq!(sess.store.users.len(), 1);
    assert_eq!(sess.store.users[0].username, "outer");
    insert_user(&mut sess.store, new_user("late", "kept too")).unwrap();
    sess.commit();
    assert_eq!(sess.depth(), 0);
    assert_eq!(sess.store.users.len(), 2);
    assert_eq!(sess.store.users[0].username, "outer");
    assert_eq!(sess.store.users[1].username, "late");
}

#[test]
fn transaction_body_error_leaves_no_trace() {
    let store = Store::empty();
    let (store, verdict) = run_in_transaction(store, |mut st: Store| {
        let _ = insert_user(&mut st, NewUser {
            username: "phantom".to_string(),
            remark: "write".to_string(),
        });
        (st, Err::<(), &str>("permission denied"))
    });
    assert_eq!(verdict.unwrap_err(), "permission denied");
    assert_eq!(store.users.len(), 0);
}

#[test]
fn transaction_body_success_commits() {
    let store = Store::empty();
    let (store, verdict) = run_in_transaction(store, |mut st: Store| {
        let created = insert_user(&mut st, NewUser {
            username: "kept".to_string(),
            remark: "write".to_string(),
        });
        (st, created.map(|u| u.id).map_err(|_| "backend"))
    });
    assert_eq!(verdict.unwrap(), 1);
    assert_eq!(store.users.len(), 1);
    assert_eq!(store.users[0].username, "kept");
}
