use resource_store::handlers::{
    create_posts, delete_user, get_user, list_users, update_user, Service, UserPayload,
};
use resource_store::pool::establish_connection;
use resource_store::repo::UserQuery;
use resource_store::store::Store;

fn setup_service() -> Service {
    let pool = establish_connection(":memory:", 1, true).expect("pool should build");
    Service::new(pool, Store::empty(), true)
}

fn broken_service() -> Service {
    let pool = establish_connection("invalid_database", 1, true).expect("pool should build");
    Service::new(pool, Store::empty(), false)
}

fn all_users_query() -> UserQuery {
    UserQuery { username_is: None, remark_is: None, descending: false, offset: 0, limit: None }
}

fn payload(username: &str, remark: &str) -> UserPayload {
    UserPayload { username: Some(username.to_string()), remark: Some(remark.to_string()) }
}

#[test]
fn test_list_users_is_empty() {
    let mut svc = setup_service();
    let resp = list_users(&mut svc, &all_users_query());
    assert_eq!(resp.status, 200);
    let body = resp.body.expect("a listing");
    assert_eq!(body.len(), 0);
}

#[test]
fn test_list_users_not_is_empty() {
    let mut svc = setup_service();
    let created = create_posts(&mut svc, payload("test", "nothing"));
    assert_eq!(created.status, 200);

    let resp = list_users(&mut svc, &all_users_query());
    assert_eq!(resp.status, 200);
    let results = resp.body.expect("a listing");
    assert_eq!(results.len(), 1);
    assert_eq!(results[0].username, "test");
    assert_eq!(results[0].remark, "nothing");
}

#[test]
fn test_create_user() {
    let mut svc = setup_service();
    let resp = create_posts(&mut svc, payload("test", "nothing"));
    assert_eq!(resp.status, 200);
    let body = resp.body.expect("the created user");
    assert_eq!(body.username, "test");
}

#[test]
fn test_create_user_error() {
    let mut svc = setup_service();
    let missing_remark = UserPayload { username: Some("test".to_string()), remark: None };
    let resp = create_posts(&mut svc, missing_remark);
    assert_eq!(resp.status, 400);
}

#[test]
fn test_get_user() {
    let mut svc = setup_service();
    let created = create_posts(&mut svc, payload("test", "nothing")).body.expect("created");

    let resp = get_user(&mut svc, &format!("{}", created.id));
    assert_eq!(resp.status, 200);
    let result = resp.body.expect("the user");
    assert_eq!(result.username, "test");
    assert_eq!(result.remark, "nothing");
}

#[test]
fn test_get_nonexistent_user() {
    let mut svc = setup_service();
    let resp = get_user(&mut svc, "-1");
    assert_eq!(resp.status, 404);
}

#[test]
fn test_update_user() {
    let mut svc = setup_service();
    let created = create_posts(&mut svc, payload("test", "nothing")).body.expect("created");

    let resp = update_user(
        &mut svc,
        &format!("{}", created.id),
        payload("update test", "更新备注"),
    );
    assert_eq!(resp.status, 200);
    let body = resp.body.expect("the updated user");
    assert_eq!(body.username, "update test");
    assert_eq!(body.remark, "更新备注");
}

#[test]
fn test_delete_user() {
    let mut svc = setup_service();
    let created = create_posts(&mut svc, payload("test", "nothing")).body.expect("created");

    let resp = delete_user(&mut svc, &format!("{}", created.id));
    assert_eq!(resp.status, 200);

    let resp = get_user(&mut svc, &format!("{}", created.id));
    assert_eq!(resp.status, 404);
}

#[test]
fn test_update_nonexistent_user() {
    let mut svc = setup_service();
    let resp = update_user(&mut svc, "-1", payload("update test", "更新备注"));
    assert_eq!(resp.status, 404);
}

#[test]
fn test_delete_nonexistent_user() {
    let mut svc = setup_service();
    let resp = delete_user(&mut svc, "9999999");
    assert_eq!(resp.status, 404);
}

#[test]
fn test_get_user_invalid_id() {
    let mut svc = setup_service();
    let resp = get_user(&mut svc, "invalid");
    assert_eq!(resp.status, 404);
}

#[test]
fn test_create_user_empty_strings() {
    let mut svc = setup_service();
    let resp = create_posts(&mut svc, payload("", ""));
    assert_eq!(resp.status, 400);
}

#[test]
fn test_database_connection_error() {
    let mut svc = broken_service();
    let resp = list_users(&mut svc, &all_users_query());
    assert_eq!(resp.status, 500);
}

#[test]
fn test_update_user_db_error() {
    let mut svc = broken_service();

    let resp = update_user(&mut svc, "1", payload("update_test", "更新备注"));
    assert_eq!(resp.status, 500);

    let resp = get_user(&mut svc, "1");
    assert_eq!(resp.status, 500);

    let resp = delete_user(&mut svc, "1");
    assert_eq!(resp.status, 500);
}
