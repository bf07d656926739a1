use user_crud::response::{render, Status};
use user_crud::service::{handle, respond_create, respond_delete, respond_update, Action, plan};
use user_crud::store::Store;

const OK_LINE: &str = "HTTP/1.1 200 OK\r\nContent-Type: application/json\r\n\r\n";
const NOT_FOUND_LINE: &str = "HTTP/1.1 404 NOT FOUND\r\n\r\n";
const ERROR_LINE: &str = "HTTP/1.1 500 INTERNAL SERVER ERROR\r\n\r\n";

#[test]
fn create_then_read_back() {
    let mut store = Store::new();
    let req = b"POST /users HTTP/1.1\r\nHost: x\r\n\r\n{\"name\":\"Ann\",\"email\":\"ann@x.com\"}"
        .to_vec();
    let resp = handle(&req, &mut store);
    assert_eq!(resp.status, Status::Okay);
    assert_eq!(resp.body, b"User created".to_vec());

    let read = b"GET /users/1 HTTP/1.1\r\n\r\n".to_vec();
    let resp2 = handle(&read, &mut store);
    assert_eq!(resp2.status, Status::Okay);
    assert_eq!(
        resp2.body,
        b"{\"id\":1,\"name\":\"Ann\",\"email\":\"ann@x.com\"}".to_vec()
    );
}

#[test]
fn read_missing_id_is_not_found() {
    let mut store = Store::new();
    let req = b"GET /users/999999 HTTP/1.1\r\n\r\n".to_vec();
    let resp = handle(&req, &mut store);
    assert_eq!(resp.status, Status::NotFound);
    assert_eq!(resp.body, b"User not found".to_vec());
}

#[test]
fn update_missing_id_still_reports_success() {
    let mut store = Store::new();
    let req = b"PUT /users/42 HTTP/1.1\r\n\r\n{\"name\":\"Bo\",\"email\":\"bo@x.com\"}".to_vec();
    let resp = handle(&req, &mut store);
    assert_eq!(resp.status, Status::Okay);
    assert_eq!(resp.body, b"User updated".to_vec());
}

#[test]
fn update_rewrites_name_and_email_together() {
    let mut store = Store::new();
    let create = b"POST /users\r\n\r\n{\"name\":\"Ann\",\"email\":\"ann@x.com\"}".to_vec();
    handle(&create, &mut store);
    let update = b"PUT /users/1\r\n\r\n{\"name\":\"Anna\",\"email\":\"anna@y.org\"}".to_vec();
    let resp = handle(&update, &mut store);
    assert_eq!(resp.status, Status::Okay);
    let read = b"GET /users/1\r\n\r\n".to_vec();
    let resp2 = handle(&read, &mut store);
    assert_eq!(
        resp2.body,
        b"{\"id\":1,\"name\":\"Anna\",\"email\":\"anna@y.org\"}".to_vec()
    );
}

#[test]
fn delete_then_delete_again() {
    let mut store = Store::new();
    let create = b"POST /users\r\n\r\n{\"name\":\"Ann\",\"email\":\"ann@x.com\"}".to_vec();
    handle(&create, &mut store);
    let del = b"DELETE /users/1 HTTP/1.1\r\n\r\n".to_vec();
    let resp = handle(&del, &mut store);
    assert_eq!(resp.status, Status::Okay);
    assert_eq!(resp.body, b"User deleted".to_vec());
    let resp2 = handle(&del, &mut store);
    assert_eq!(resp2.status, Status::NotFound);
    assert_eq!(resp2.body, b"User not found".to_vec());
}

#[test]
fn list_after_three_creates() {
    let mut store = Store::new();
    for (n, e) in [("a", "a@x"), ("b", "b@x"), ("c", "c@x")] {
        let req = format!("POST /users\r\n\r\n{{\"name\":\"{}\",\"email\":\"{}\"}}", n, e);
        let resp = handle(&req.into_bytes(), &mut store);
        assert_eq!(resp.status, Status::Okay);
    }
    let req = b"GET /users/all HTTP/1.1\r\n\r\n".to_vec();
    let resp = handle(&req, &mut store);
    assert_eq!(resp.status, Status::Okay);
    let expected = "[{\"id\":1,\"name\":\"a\",\"email\":\"a@x\"},{\"id\":2,\"name\":\"b\",\"email\":\"b@x\"},{\"id\":3,\"name\":\"c\",\"email\":\"c@x\"}]";
    assert_eq!(resp.body, expected.as_bytes().to_vec());
}

#[test]
fn list_on_empty_store() {
    let mut store = Store::new();
    let req = b"GET /users/all\r\n\r\n".to_vec();
    let resp = handle(&req, &mut store);
    assert_eq!(resp.status, Status::Okay);
    assert_eq!(resp.body, b"[]".to_vec());
}

#[test]
fn list_is_not_shadowed_by_single_read() {
    // `all` is not a number: a single-resource read would answer 500.
    let mut store = Store::new();
    let req = b"GET /users/all HTTP/1.1\r\n\r\n".to_vec();
    let resp = handle(&req, &mut store);
    assert_eq!(resp.status, Status::Okay);
}

#[test]
fn malformed_json_on_create_is_500() {
    let mut store = Store::new();
    let req = b"POST /users\r\n\r\n{bad json".to_vec();
    let resp = handle(&req, &mut store);
    assert_eq!(resp.status, Status::Error);
    assert_eq!(resp.body, b"Error occurred".to_vec());
}

#[test]
fn malformed_json_on_update_is_500() {
    let mut store = Store::new();
    let req = b"PUT /users/1\r\n\r\n{\"name\":\"x\"".to_vec();
    let resp = handle(&req, &mut store);
    assert_eq!(resp.status, Status::Error);
    assert_eq!(resp.body, b"Error occurred".to_vec());
}

#[test]
fn non_numeric_id_on_read_is_500() {
    let mut store = Store::new();
    let req = b"GET /users/abc HTTP/1.1\r\n\r\n".to_vec();
    let resp = handle(&req, &mut store);
    assert_eq!(resp.status, Status::Error);
    assert_eq!(resp.body, b"Invalid ID format".to_vec());
}

#[test]
fn non_numeric_id_on_delete_is_500() {
    let mut store = Store::new();
    let req = b"DELETE /users/abc\r\n\r\n".to_vec();
    let resp = handle(&req, &mut store);
    assert_eq!(resp.status, Status::Error);
    assert_eq!(resp.body, b"Error occurred".to_vec());
}

#[test]
fn unroutable_request_is_404() {
    let mut store = Store::new();
    let req = b"PATCH /users/1 HTTP/1.1\r\n\r\n".to_vec();
    let resp = handle(&req, &mut store);
    assert_eq!(resp.status, Status::NotFound);
    assert_eq!(resp.body, b"Not found".to_vec());
}

#[test]
fn ids_are_not_reused_after_delete() {
    let mut store = Store::new();
    let create = b"POST /users\r\n\r\n{\"name\":\"a\",\"email\":\"a@x\"}".to_vec();
    handle(&create, &mut store);
    let del = b"DELETE /users/1\r\n\r\n".to_vec();
    handle(&del, &mut store);
    handle(&create, &mut store);
    let read = b"GET /users/2\r\n\r\n".to_vec();
    let resp = handle(&read, &mut store);
    assert_eq!(resp.status, Status::Okay);
    assert_eq!(resp.body, b"{\"id\":2,\"name\":\"a\",\"email\":\"a@x\"}".to_vec());
}

#[test]
fn render_prepends_status_lines() {
    let ok = respond_create(true);
    assert_eq!(
        render(&ok),
        [OK_LINE.as_bytes(), b"User created"].concat()
    );
    let missing = respond_delete(0);
    assert_eq!(
        render(&missing),
        [NOT_FOUND_LINE.as_bytes(), b"User not found"].concat()
    );
    let failed = respond_update(false);
    assert_eq!(
        render(&failed),
        [ERROR_LINE.as_bytes(), b"Error occurred"].concat()
    );
}

#[test]
fn plan_splits_create_into_fields() {
    let req = b"POST /users\r\n\r\n{\"name\":\"Ann\",\"email\":\"ann@x.com\"}".to_vec();
    match plan(&req) {
        Action::Create { name, email } => {
            assert_eq!(name, b"Ann".to_vec());
            assert_eq!(email, b"ann@x.com".to_vec());
        }
        _ => panic!("expected a create action"),
    }
}

#[test]
fn plan_extracts_update_id_and_fields() {
    let req = b"PUT /users/7 HTTP/1.1\r\n\r\n{\"name\":\"n\",\"email\":\"e\"}".to_vec();
    match plan(&req) {
        Action::Update { id, name, email } => {
            assert_eq!(id, 7);
            assert_eq!(name, b"n".to_vec());
            assert_eq!(email, b"e".to_vec());
        }
        _ => panic!("expected an update action"),
    }
}
