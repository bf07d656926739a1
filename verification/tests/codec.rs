use user_crud::json::{encode_row, encode_rows, parse_user};
use user_crud::store::Row;

fn row(id: i32, name: &str, email: &str) -> Row {
    Row { id, name: name.as_bytes().to_vec(), email: email.as_bytes().to_vec() }
}

#[test]
fn encode_one_row() {
    let r = row(5, "Ann", "ann@x.com");
    assert_eq!(
        encode_row(&r),
        b"{\"id\":5,\"name\":\"Ann\",\"email\":\"ann@x.com\"}".to_vec()
    );
}

#[test]
fn encode_negative_id() {
    let r = row(-3, "n", "e");
    assert_eq!(encode_row(&r), b"{\"id\":-3,\"name\":\"n\",\"email\":\"e\"}".to_vec());
}

#[test]
fn encode_escapes_specials() {
    let r = Row {
        id: 1,
        name: b"a\"b\\c".to_vec(),
        email: b"x\ny\t".to_vec(),
    };
    assert_eq!(
        encode_row(&r),
        b"{\"id\":1,\"name\":\"a\\\"b\\\\c\",\"email\":\"x\\ny\\t\"}".to_vec()
    );
}

#[test]
fn encode_escapes_control_bytes_as_hex() {
    let r = Row { id: 1, name: vec![0x01, 0x1f], email: b"e".to_vec() };
    assert_eq!(
        encode_row(&r),
        b"{\"id\":1,\"name\":\"\\u0001\\u001f\",\"email\":\"e\"}".to_vec()
    );
}

#[test]
fn encode_empty_table() {
    let rows: Vec<Row> = Vec::new();
    assert_eq!(encode_rows(&rows), b"[]".to_vec());
}

#[test]
fn encode_joins_rows_with_commas() {
    let rows = vec![row(1, "a", "a@x"), row(2, "b", "b@x")];
    assert_eq!(
        encode_rows(&rows),
        b"[{\"id\":1,\"name\":\"a\",\"email\":\"a@x\"},{\"id\":2,\"name\":\"b\",\"email\":\"b@x\"}]"
            .to_vec()
    );
}

#[test]
fn parse_plain_object() {
    let u = parse_user(&b"{\"name\":\"Ann\",\"email\":\"ann@x.com\"}".to_vec()).unwrap();
    assert_eq!(u.id, None);
    assert_eq!(u.name, b"Ann".to_vec());
    assert_eq!(u.email, b"ann@x.com".to_vec());
}

#[test]
fn parse_allows_any_member_order_and_whitespace() {
    let u = parse_user(
        &b" { \"email\" : \"e@x\" ,\r\n \"id\" : 9 , \"name\" : \"n\" } ".to_vec(),
    )
    .unwrap();
    assert_eq!(u.id, Some(9));
    assert_eq!(u.name, b"n".to_vec());
    assert_eq!(u.email, b"e@x".to_vec());
}

#[test]
fn parse_accepts_null_id() {
    let u = parse_user(&b"{\"id\":null,\"name\":\"n\",\"email\":\"e\"}".to_vec()).unwrap();
    assert_eq!(u.id, None);
}

#[test]
fn parse_accepts_negative_id() {
    let u = parse_user(&b"{\"id\":-12,\"name\":\"n\",\"email\":\"e\"}".to_vec()).unwrap();
    assert_eq!(u.id, Some(-12));
}

#[test]
fn parse_decodes_escapes() {
    let u = parse_user(&b"{\"name\":\"a\\\"b\\\\c\\n\",\"email\":\"e\\/f\"}".to_vec()).unwrap();
    assert_eq!(u.name, b"a\"b\\c\n".to_vec());
    assert_eq!(u.email, b"e/f".to_vec());
}

#[test]
fn parse_rejects_missing_name() {
    assert!(parse_user(&b"{\"email\":\"e\"}".to_vec()).is_none());
}

#[test]
fn parse_rejects_missing_email() {
    assert!(parse_user(&b"{\"name\":\"n\"}".to_vec()).is_none());
}

#[test]
fn parse_rejects_empty_object() {
    assert!(parse_user(&b"{}".to_vec()).is_none());
}

#[test]
fn parse_rejects_duplicate_member() {
    assert!(parse_user(&b"{\"name\":\"a\",\"name\":\"b\",\"email\":\"e\"}".to_vec()).is_none());
}

#[test]
fn parse_rejects_unknown_member() {
    assert!(parse_user(&b"{\"name\":\"n\",\"email\":\"e\",\"age\":3}".to_vec()).is_none());
}

#[test]
fn parse_rejects_trailing_text() {
    assert!(parse_user(&b"{\"name\":\"n\",\"email\":\"e\"}x".to_vec()).is_none());
}

#[test]
fn parse_rejects_unterminated_string() {
    assert!(parse_user(&b"{\"name\":\"n".to_vec()).is_none());
}

#[test]
fn parse_rejects_unknown_escape() {
    assert!(parse_user(&b"{\"name\":\"a\\qb\",\"email\":\"e\"}".to_vec()).is_none());
}

#[test]
fn parse_rejects_control_byte_in_string() {
    assert!(parse_user(&b"{\"name\":\"a\x01b\",\"email\":\"e\"}".to_vec()).is_none());
}

#[test]
fn parse_rejects_leading_zero_id() {
    assert!(parse_user(&b"{\"id\":007,\"name\":\"n\",\"email\":\"e\"}".to_vec()).is_none());
}

#[test]
fn parse_rejects_id_out_of_range() {
    assert!(parse_user(&b"{\"id\":2147483648,\"name\":\"n\",\"email\":\"e\"}".to_vec()).is_none());
    let u = parse_user(&b"{\"id\":2147483647,\"name\":\"n\",\"email\":\"e\"}".to_vec()).unwrap();
    assert_eq!(u.id, Some(2147483647));
    let v = parse_user(&b"{\"id\":-2147483648,\"name\":\"n\",\"email\":\"e\"}".to_vec()).unwrap();
    assert_eq!(v.id, Some(-2147483648));
}

#[test]
fn parse_accepts_empty_strings() {
    // No validation beyond type shape: empty text is stored as sent.
    let u = parse_user(&b"{\"name\":\"\",\"email\":\"\"}".to_vec()).unwrap();
    assert_eq!(u.name, b"".to_vec());
    assert_eq!(u.email, b"".to_vec());
}

#[test]
fn round_trip_through_encoder_and_parser() {
    let r = Row { id: 7, name: b"A\"\\\n".to_vec(), email: b"e@x".to_vec() };
    let encoded = encode_row(&r);
    let u = parse_user(&encoded).unwrap();
    assert_eq!(u.id, Some(7));
    assert_eq!(u.name, r.name);
    assert_eq!(u.email, r.email);
}
