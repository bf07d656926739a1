use user_crud::http::{body_of, get_id, starts_with};
use user_crud::num::parse_i32;
use user_crud::store::Store;

#[test]
fn id_is_third_slash_segment_of_the_path() {
    assert_eq!(get_id(&b"GET /users/123 HTTP/1.1\r\n\r\n".to_vec()), b"123".to_vec());
    assert_eq!(get_id(&b"DELETE /users/9".to_vec()), b"9".to_vec());
    assert_eq!(get_id(&b"GET /users/abc".to_vec()), b"abc".to_vec());
}

#[test]
fn id_is_empty_when_the_path_is_short() {
    assert_eq!(get_id(&b"GET /users HTTP/1.1\r\n\r\n".to_vec()), b"".to_vec());
    assert_eq!(get_id(&b"GET nothing".to_vec()), b"".to_vec());
    assert_eq!(get_id(&b"".to_vec()), b"".to_vec());
}

#[test]
fn id_stops_at_the_next_slash() {
    assert_eq!(get_id(&b"GET /users/5/extra HTTP/1.1".to_vec()), b"5".to_vec());
}

#[test]
fn body_follows_the_first_blank_line() {
    assert_eq!(
        body_of(&b"POST /users HTTP/1.1\r\nHost: x\r\n\r\n{\"a\":1}".to_vec()),
        b"{\"a\":1}".to_vec()
    );
    assert_eq!(body_of(&b"POST /users\r\n\r\n".to_vec()), b"".to_vec());
    assert_eq!(body_of(&b"POST /users".to_vec()), b"".to_vec());
    assert_eq!(body_of(&b"a\r\n\r\nb\r\n\r\nc".to_vec()), b"b\r\n\r\nc".to_vec());
}

#[test]
fn starts_with_compares_prefixes() {
    assert!(starts_with(&b"POST /users".to_vec(), &b"POST".to_vec()));
    assert!(!starts_with(&b"POS".to_vec(), &b"POST".to_vec()));
    assert!(!starts_with(&b"GET /users".to_vec(), &b"POST".to_vec()));
    assert!(starts_with(&b"x".to_vec(), &b"".to_vec()));
}

#[test]
fn parse_i32_accepts_signed_decimals() {
    assert_eq!(parse_i32(&b"123".to_vec()), Some(123));
    assert_eq!(parse_i32(&b"+5".to_vec()), Some(5));
    assert_eq!(parse_i32(&b"-7".to_vec()), Some(-7));
    assert_eq!(parse_i32(&b"007".to_vec()), Some(7));
    assert_eq!(parse_i32(&b"2147483647".to_vec()), Some(2147483647));
    assert_eq!(parse_i32(&b"-2147483648".to_vec()), Some(-2147483648));
}

#[test]
fn parse_i32_rejects_junk_and_overflow() {
    assert_eq!(parse_i32(&b"".to_vec()), None);
    assert_eq!(parse_i32(&b"abc".to_vec()), None);
    assert_eq!(parse_i32(&b"12a".to_vec()), None);
    assert_eq!(parse_i32(&b" 12".to_vec()), None);
    assert_eq!(parse_i32(&b"-".to_vec()), None);
    assert_eq!(parse_i32(&b"+".to_vec()), None);
    assert_eq!(parse_i32(&b"2147483648".to_vec()), None);
    assert_eq!(parse_i32(&b"-2147483649".to_vec()), None);
    assert_eq!(parse_i32(&b"99999999999999999999".to_vec()), None);
}

#[test]
fn store_operations_follow_sql_semantics() {
    let mut s = Store::new();
    let a = s.insert(b"a".to_vec(), b"a@x".to_vec());
    let b = s.insert(b"b".to_vec(), b"b@x".to_vec());
    assert_eq!(a, 1);
    assert_eq!(b, 2);
    assert!(s.query_one(1).is_some());
    assert_eq!(s.query_one(1).unwrap().name, b"a".to_vec());
    assert!(s.query_one(3).is_none());
    assert_eq!(s.query_all().len(), 2);
    assert_eq!(s.update(2, b"bb".to_vec(), b"bb@x".to_vec()), 1);
    assert_eq!(s.query_one(2).unwrap().email, b"bb@x".to_vec());
    assert_eq!(s.update(9, b"x".to_vec(), b"x".to_vec()), 0);
    assert_eq!(s.delete(1), 1);
    assert_eq!(s.delete(1), 0);
    assert_eq!(s.query_all().len(), 1);
    let c = s.insert(b"c".to_vec(), b"c@x".to_vec());
    assert_eq!(c, 3);
}
