use resource_store::handlers::{
    all_way, create_book, create_page, get_book, get_book_by_inner_join, get_book_by_left_join,
    get_book_once, BookPayload, PagePayload, Service,
};
use resource_store::pool::establish_connection;
use resource_store::relations::load_children;
use resource_store::store::Store;

fn setup_service() -> Service {
    let pool = establish_connection(":memory:", 15, true).expect("pool should build");
    Service::new(pool, Store::empty(), true)
}

fn book_payload(title: &str) -> BookPayload {
    BookPayload { title: Some(title.to_string()) }
}

fn page_payload(page_number: i64, content: &str) -> PagePayload {
    PagePayload { page_number: Some(page_number), content: Some(content.to_string()) }
}

#[test]
fn momo_with_three_pages_groups_in_insertion_order() {
    let mut svc = setup_service();
    let book = create_book(&mut svc, book_payload("Momo")).body.expect("created book");
    assert_eq!(book.title, "Momo");

    let raw = format!("{}", book.id);
    for n in 1..=3i64 {
        let resp = create_page(&mut svc, &raw, page_payload(n, &format!("page {}", n)));
        assert_eq!(resp.status, 201);
    }

    let grouped = load_children(&svc.store, &vec![book.id]);
    assert_eq!(grouped.len(), 1);
    assert_eq!(grouped[0].0, book.id);
    let pages = &grouped[0].1;
    assert_eq!(pages.len(), 3);
    assert_eq!(pages[0].page_number, 1);
    assert_eq!(pages[1].page_number, 2);
    assert_eq!(pages[2].page_number, 3);
}

#[test]
fn childless_parent_maps_to_empty_sequence() {
    let mut svc = setup_service();
    let book = create_book(&mut svc, book_payload("lonely")).body.expect("created book");

    let grouped = load_children(&svc.store, &vec![book.id]);
    assert_eq!(grouped.len(), 1);
    assert_eq!(grouped[0].0, book.id);
    assert!(grouped[0].1.is_empty());
}

#[test]
fn create_page_under_missing_book_is_not_found() {
    let mut svc = setup_service();
    let resp = create_page(&mut svc, "7", page_payload(1, "text"));
    assert_eq!(resp.status, 404);
}

#[test]
fn create_page_with_missing_field_is_client_error() {
    let mut svc = setup_service();
    let book = create_book(&mut svc, book_payload("Momo")).body.expect("created book");
    let incomplete = PagePayload { page_number: Some(1), content: None };
    let resp = create_page(&mut svc, &format!("{}", book.id), incomplete);
    assert_eq!(resp.status, 400);
}

#[test]
fn create_book_without_title_is_client_error() {
    let mut svc = setup_service();
    let resp = create_book(&mut svc, BookPayload { title: None });
    assert_eq!(resp.status, 400);
}

#[test]
fn get_book_returns_book_with_its_pages() {
    let mut svc = setup_service();
    let book = create_book(&mut svc, book_payload("Momo")).body.expect("created book");
    let other = create_book(&mut svc, book_payload("Other")).body.expect("created book");
    let raw = format!("{}", book.id);
    create_page(&mut svc, &raw, page_payload(1, "one"));
    create_page(&mut svc, &format!("{}", other.id), page_payload(9, "elsewhere"));
    create_page(&mut svc, &raw, page_payload(2, "two"));

    let resp = get_book(&mut svc, &raw);
    assert_eq!(resp.status, 200);
    let bp = resp.body.expect("book with pages");
    assert_eq!(bp.book.id, book.id);
    assert_eq!(bp.pages.len(), 2);
    assert_eq!(bp.pages[0].content, "one");
    assert_eq!(bp.pages[1].content, "two");
}

#[test]
fn get_missing_book_is_not_found() {
    let mut svc = setup_service();
    let resp = get_book(&mut svc, "42");
    assert_eq!(resp.status, 404);
}

#[test]
fn get_book_once_folds_left_join_rows() {
    let mut svc = setup_service();
    let book = create_book(&mut svc, book_payload("Momo")).body.expect("created book");
    let raw = format!("{}", book.id);
    create_page(&mut svc, &raw, page_payload(1, "one"));
    create_page(&mut svc, &raw, page_payload(2, "two"));

    let resp = get_book_once(&mut svc, &raw);
    assert_eq!(resp.status, 200);
    let bp = resp.body.expect("folded rows");
    assert_eq!(bp.book.expect("the book").id, book.id);
    assert_eq!(bp.pages.len(), 2);
}

#[test]
fn get_book_once_with_missing_book_succeeds_empty() {
    let mut svc = setup_service();
    let resp = get_book_once(&mut svc, "42");
    assert_eq!(resp.status, 200);
    let bp = resp.body.expect("folded rows");
    assert!(bp.book.is_none());
    assert!(bp.pages.is_empty());
}

#[test]
fn inner_join_pairs_each_page_with_its_book() {
    let mut svc = setup_service();
    let book = create_book(&mut svc, book_payload("Momo")).body.expect("created book");
    let raw = format!("{}", book.id);
    create_page(&mut svc, &raw, page_payload(1, "one"));
    create_page(&mut svc, &raw, page_payload(2, "two"));

    let resp = get_book_by_inner_join(&mut svc, &raw);
    assert_eq!(resp.status, 200);
    let rows = resp.body.expect("join rows");
    assert_eq!(rows.len(), 2);
    assert_eq!(rows[0].0.page_number, 1);
    assert_eq!(rows[0].1.id, book.id);
    assert_eq!(rows[1].0.page_number, 2);
}

#[test]
fn inner_join_excludes_childless_owner_left_join_keeps_it() {
    let mut svc = setup_service();
    let with_pages = create_book(&mut svc, book_payload("full")).body.expect("created book");
    let _empty = create_book(&mut svc, book_payload("empty")).body.expect("created book");
    let raw = format!("{}", with_pages.id);
    create_page(&mut svc, &raw, page_payload(1, "one"));

    let inner = get_book_by_inner_join(&mut svc, &raw).body.expect("inner rows");
    let left = get_book_by_left_join(&mut svc, &raw).body.expect("left rows");

    // The childless book contributes no inner row but one left row with an
    // absent page.
    assert_eq!(inner.len(), 1);
    assert_eq!(left.len(), 2);
    assert!(inner.len() <= left.len());
    assert!(left.iter().any(|(b, p)| b.title == "empty" && p.is_none()));
    assert!(left.iter().any(|(b, p)| b.title == "full" && p.is_some()));
}

#[test]
fn all_way_groups_every_book_with_its_pages() {
    let mut svc = setup_service();
    let a = create_book(&mut svc, book_payload("a")).body.expect("created book");
    let b = create_book(&mut svc, book_payload("b")).body.expect("created book");
    create_page(&mut svc, &format!("{}", a.id), page_payload(1, "a1"));
    create_page(&mut svc, &format!("{}", b.id), page_payload(1, "b1"));
    create_page(&mut svc, &format!("{}", b.id), page_payload(2, "b2"));

    let resp = all_way(&mut svc, "0");
    assert_eq!(resp.status, 200);
    let grouped = resp.body.expect("grouped rows");
    assert_eq!(grouped.len(), 2);
    assert_eq!(grouped[0].0.id, a.id);
    assert_eq!(grouped[0].1.len(), 1);
    assert_eq!(grouped[1].0.id, b.id);
    assert_eq!(grouped[1].1.len(), 2);
}
