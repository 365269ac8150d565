use rok_orm::cursor::{b64_decode, b64_encode};
use rok_orm::{decode_cursor, encode_cursor, CursorPage, CursorResult};

#[test]
fn cursor_result_has_more_true_when_extra_row() {
    let rows = vec![1i64, 2, 3, 4, 5, 6];
    let result = CursorResult::from_rows(rows, 5, |r| *r);
    assert!(result.has_more);
    assert_eq!(result.data.len(), 5);
    assert_eq!(result.next_cursor, Some(5));
}

#[test]
fn cursor_result_has_more_false_when_exact() {
    let rows = vec![1i64, 2, 3];
    let result = CursorResult::from_rows(rows, 5, |r| *r);
    assert!(!result.has_more);
    assert_eq!(result.next_cursor, None);
}

#[test]
fn cursor_page_first() {
    let p = CursorPage::first(10);
    assert!(p.after.is_none());
    assert_eq!(p.limit, 10);
}

#[test]
fn cursor_page_after() {
    let p = CursorPage::after(42, 20);
    assert_eq!(p.after, Some(42));
    assert_eq!(p.limit, 20);
}

#[test]
fn encode_decode_roundtrip() {
    for id in [0i64, 1, 42, -1, i64::MAX / 2] {
        let token = encode_cursor(id);
        assert_eq!(decode_cursor(&token), Some(id));
    }
}

#[test]
fn encode_cursor_is_base64_json() {
    let token = encode_cursor(99);
    let bytes = b64_decode(&token).unwrap();
    let s = String::from_utf8(bytes).unwrap();
    assert!(s.contains("\"id\":99"));
}

#[test]
fn next_token_roundtrip_via_from_token() {
    let result: CursorResult<i64> = CursorResult {
        data: vec![1, 2, 3],
        next_cursor: Some(77),
        has_more: true,
    };
    let token = result.next_token().unwrap();
    let page = CursorPage::from_token(Some(&token), 10).unwrap();
    assert_eq!(page.after, Some(77));
    assert_eq!(page.limit, 10);
}

#[test]
fn from_token_none_gives_first_page() {
    let page = CursorPage::from_token(None, 5).unwrap();
    assert!(page.after.is_none());
    assert_eq!(page.limit, 5);
}

#[test]
fn decode_cursor_invalid_returns_none() {
    assert!(decode_cursor("not-valid-json-base64!!!").is_none());
}

#[test]
fn encode_cursor_exact_token() {
    // {"id":42} in URL-safe base64 without padding
    assert_eq!(encode_cursor(42), "eyJpZCI6NDJ9");
    assert_eq!(encode_cursor(-7), "eyJpZCI6LTd9");
}

#[test]
fn b64_encode_has_no_padding() {
    assert_eq!(b64_encode(b"a"), "YQ");
    assert_eq!(b64_encode(b"ab"), "YWI");
    assert_eq!(b64_encode(b"abc"), "YWJj");
    assert_eq!(b64_encode(b""), "");
    assert_eq!(b64_encode(&[0xfb, 0xff]), "-_8");
}

#[test]
fn b64_decode_rejects_foreign_chars() {
    assert_eq!(b64_decode("YQ"), Some(b"a".to_vec()));
    assert_eq!(b64_decode("YQ=="), None);
    assert_eq!(b64_decode("Y*"), None);
    assert_eq!(b64_decode("-_8"), Some(vec![0xfb, 0xff]));
}

#[test]
fn decode_cursor_spacing_and_missing_id() {
    let spaced = b64_encode(b"{\"id\": 5 }");
    assert_eq!(decode_cursor(&spaced), Some(5));
    let spaced_key = b64_encode(b"{ \"id\" : 5 }");
    assert_eq!(decode_cursor(&spaced_key), None);
    let other = b64_encode(b"{\"key\":5}");
    assert_eq!(decode_cursor(&other), None);
}

#[test]
fn cursor_roundtrip_extremes() {
    for id in [i64::MIN, i64::MAX, -1, 0] {
        assert_eq!(decode_cursor(&encode_cursor(id)), Some(id));
    }
}

#[test]
fn from_rows_limit_zero_has_no_cursor() {
    let result = CursorResult::from_rows(vec![1i64, 2], 0, |r| *r);
    assert!(result.has_more);
    assert!(result.data.is_empty());
    assert_eq!(result.next_cursor, None);
}

#[test]
fn lone_final_character_is_invalid() {
    assert_eq!(decode_cursor("A"), None);
    assert_eq!(decode_cursor("eyJpZCI6NDJ9A"), None);
    assert!(CursorPage::from_token(Some("A"), 10).is_none());
}
