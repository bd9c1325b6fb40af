use rust_everywhere_notes::identity::{user_id_from_cookie_header, user_id_from_header, UserId};

const TEXT: &str = "67e55044-10b1-426f-9247-bb680e5fe0c8";
const VALUE: u128 = 0x67e55044_10b1_426f_9247_bb680e5fe0c8;

#[test]
fn user_id_header_is_parsed() {
    assert_eq!(user_id_from_header(Some(TEXT.as_bytes())), Ok(UserId(VALUE)));
}

#[test]
fn missing_or_bad_user_id_header_is_unauthorized() {
    assert_eq!(user_id_from_header(None), Err(401));
    assert_eq!(user_id_from_header(Some(b"not-a-uuid")), Err(401));
    assert_eq!(user_id_from_header(Some(&[0xff, 0xfe])), Err(401));
}

#[test]
fn user_id_cookie_is_found_among_cookies() {
    let header = format!("theme=dark; user_id={} ;other=1", TEXT);
    assert_eq!(user_id_from_cookie_header(Some(header.as_bytes())), Some(Ok(UserId(VALUE))));
}

#[test]
fn later_user_id_cookie_wins() {
    let header = format!("user_id=zzz; user_id={}", TEXT);
    assert_eq!(user_id_from_cookie_header(Some(header.as_bytes())), Some(Ok(UserId(VALUE))));
}

#[test]
fn missing_cookie_is_bad_request() {
    assert_eq!(user_id_from_cookie_header(None), Some(Err(400)));
    assert_eq!(user_id_from_cookie_header(Some(b"theme=dark")), Some(Err(400)));
    assert_eq!(user_id_from_cookie_header(Some(b"")), Some(Err(400)));
}

#[test]
fn unparsable_user_id_cookie_is_not_recovered() {
    assert_eq!(user_id_from_cookie_header(Some(b"user_id=12")), None);
}

#[test]
fn cookie_pieces_are_trimmed_and_header_must_be_visible_ascii() {
    let header = format!("a=1;\tuser_id={}\t", TEXT);
    assert_eq!(user_id_from_cookie_header(Some(header.as_bytes())), Some(Ok(UserId(VALUE))));
    let wide = format!("a=1;\u{3000}user_id={}", TEXT);
    assert_eq!(user_id_from_cookie_header(Some(wide.as_bytes())), Some(Err(400)));
}
