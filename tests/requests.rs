use hyper_microservice::handler::{dispatch, handle, index_page_text, Method, Status, INDEX_HEAD, INDEX_TAIL};
use hyper_microservice::router::Route;
use hyper_microservice::store::{UserData, UserStore};
use hyper_microservice::text::{decimal_string, join_decimal};

#[test]
fn create_read_delete_and_reuse() {
    let mut s = UserStore::new();
    let r = handle(&mut s, Method::Post, "/user/");
    assert_eq!((r.status, r.body.as_str()), (Status::Success, "0"));
    let r = handle(&mut s, Method::Get, "/user/0");
    assert_eq!((r.status.code(), r.body.as_str()), (200, "{}"));
    let r = handle(&mut s, Method::Delete, "/user/0");
    assert_eq!((r.status.code(), r.body.as_str()), (200, ""));
    let r = handle(&mut s, Method::Get, "/user/0");
    assert_eq!(r.status.code(), 404);
    let r = handle(&mut s, Method::Post, "/user/");
    assert_eq!(r.body, "0");
}

#[test]
fn users_lists_live_ids() {
    let mut s = UserStore::new();
    handle(&mut s, Method::Post, "/user/");
    handle(&mut s, Method::Post, "/user/");
    let r = handle(&mut s, Method::Get, "/users");
    assert_eq!((r.status.code(), r.body.as_str()), (200, "0,1"));
    let r = handle(&mut s, Method::Get, "/users/");
    assert_eq!(r.body, "0,1");
}

#[test]
fn users_on_empty_store_is_empty_text() {
    let mut s = UserStore::new();
    let r = handle(&mut s, Method::Get, "/users");
    assert_eq!((r.status.code(), r.body.as_str()), (200, ""));
}

#[test]
fn post_with_id_is_bad_request() {
    let mut s = UserStore::new();
    let r = handle(&mut s, Method::Post, "/user/5");
    assert_eq!(r.status.code(), 400);
    assert!(s.list_ids().is_empty());
    for _ in 0..6 {
        s.insert(UserData);
    }
    let r = handle(&mut s, Method::Post, "/user/5");
    assert_eq!(r.status.code(), 400);
    assert_eq!(s.list_ids().len(), 6);
}

#[test]
fn unknown_path_and_wrong_method() {
    let mut s = UserStore::new();
    assert_eq!(handle(&mut s, Method::Get, "/nonexistent").status.code(), 404);
    assert_eq!(handle(&mut s, Method::Delete, "/").status.code(), 405);
}

#[test]
fn methods_not_allowed() {
    let mut s = UserStore::new();
    assert_eq!(handle(&mut s, Method::Post, "/index.html").status, Status::MethodNotAllowed);
    assert_eq!(handle(&mut s, Method::Post, "/users").status, Status::MethodNotAllowed);
    assert_eq!(handle(&mut s, Method::Get, "/user/").status, Status::MethodNotAllowed);
    assert_eq!(handle(&mut s, Method::Put, "/user/").status, Status::MethodNotAllowed);
    assert_eq!(handle(&mut s, Method::Delete, "/user/").status, Status::MethodNotAllowed);
    assert_eq!(handle(&mut s, Method::Other, "/user/0").status, Status::MethodNotAllowed);
    assert!(s.list_ids().is_empty());
}

#[test]
fn put_resets_live_record_only() {
    let mut s = UserStore::new();
    assert_eq!(handle(&mut s, Method::Put, "/user/0").status.code(), 404);
    handle(&mut s, Method::Post, "/user/");
    let r = handle(&mut s, Method::Put, "/user/0/");
    assert_eq!((r.status.code(), r.body.as_str()), (200, ""));
    assert_eq!(s.list_ids(), vec![0]);
    assert_eq!(handle(&mut s, Method::Delete, "/user/3").status.code(), 404);
}

#[test]
fn index_page_shows_a_byte() {
    let mut s = UserStore::new();
    let r = handle(&mut s, Method::Get, "/");
    assert_eq!(r.status.code(), 200);
    assert!(r.body.starts_with(INDEX_HEAD));
    assert!(r.body.ends_with(INDEX_TAIL));
    let n = &r.body[INDEX_HEAD.len()..r.body.len() - INDEX_TAIL.len()];
    assert!(n.parse::<u8>().is_ok());
}

#[test]
fn index_page_text_is_exact() {
    let page = index_page_text(42);
    assert!(page.contains("<h3>Rust Microservices 42</h3>"));
    assert_eq!(page, format!("{}42{}", INDEX_HEAD, INDEX_TAIL));
    let mut s = UserStore::new();
    let r = dispatch(&mut s, Method::Get, Route::Index, 255);
    assert_eq!(r.body, format!("{}255{}", INDEX_HEAD, INDEX_TAIL));
}

#[test]
fn decimal_and_join() {
    assert_eq!(decimal_string(0), "0");
    assert_eq!(decimal_string(10), "10");
    assert_eq!(decimal_string(usize::MAX), usize::MAX.to_string());
    assert_eq!(join_decimal(&vec![]), "");
    assert_eq!(join_decimal(&vec![3]), "3");
    assert_eq!(join_decimal(&vec![0, 12, 305]), "0,12,305");
}

#[test]
fn status_codes() {
    assert_eq!(Status::Success.code(), 200);
    assert_eq!(Status::BadRequest.code(), 400);
    assert_eq!(Status::NotFound.code(), 404);
    assert_eq!(Status::MethodNotAllowed.code(), 405);
}

#[test]
fn users_follow_slot_order_after_reuse() {
    let mut s = UserStore::new();
    for _ in 0..3 {
        handle(&mut s, Method::Post, "/user/");
    }
    assert_eq!(handle(&mut s, Method::Delete, "/user/0").status.code(), 200);
    assert_eq!(handle(&mut s, Method::Post, "/user/").body, "0");
    assert_eq!(handle(&mut s, Method::Get, "/users").body, "0,1,2");
}

#[test]
fn post_takes_lowest_free_id() {
    let mut s = UserStore::new();
    for _ in 0..3 {
        handle(&mut s, Method::Post, "/user/");
    }
    assert_eq!(handle(&mut s, Method::Delete, "/user/0").status.code(), 200);
    assert_eq!(handle(&mut s, Method::Delete, "/user/2").status.code(), 200);
    assert_eq!(handle(&mut s, Method::Post, "/user/").body, "0");
    assert_eq!(handle(&mut s, Method::Post, "/user/").body, "2");
    assert_eq!(handle(&mut s, Method::Get, "/users").body, "0,1,2");
}
