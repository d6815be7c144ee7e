use resource_store::handlers::{list_users, Service};
use resource_store::pool::establish_connection;
use resource_store::repo::UserQuery;
use resource_store::store::Store;
use resource_store::RepoError;

#[test]
fn test_app_configuration() {
    // A pool over an in-memory backend that was never prepared: the pool
    // itself builds, but every request ends in a server error.
    let pool = establish_connection(":memory:", 1, true).expect("无法创建连接池");
    let mut svc = Service::new(pool, Store::empty(), false);

    let q = UserQuery {
        username_is: None,
        remark_is: None,
        descending: false,
        offset: 0,
        limit: None,
    };
    let resp = list_users(&mut svc, &q);
    assert_eq!(resp.status, 500);
}

#[test]
fn test_database_pool_creation_error() {
    // A backend path that cannot be opened: construction fails fast.
    let result = establish_connection("/root/invalid_database.db", 15, false);
    assert!(result.is_err(), "连接池应创建失败");
    if let Err(e) = result {
        assert_eq!(e, RepoError::BackendUnavailable);
    }
}
