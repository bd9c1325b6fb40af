use rust_everywhere_notes::client::{ApiMethod, NotesService};
use rust_everywhere_notes::identity::UserId;
use rust_everywhere_notes::pages::BaseTemplate;

const USER: u128 = 0xa1a2a3a4b1b2c1c2d1d2d3d4d5d6d7d8;

#[test]
fn all_notes_asks_for_the_users_notes() {
    let call = NotesService::new().all_notes(&UserId(USER));
    assert_eq!(call.method, ApiMethod::Get);
    assert_eq!(call.url, "http://localhost:3000/notes");
    assert_eq!(call.user_id, "a1a2a3a4-b1b2-c1c2-d1d2-d3d4d5d6d7d8");
    assert_eq!(call.json_body, None);
}

#[test]
fn by_id_asks_for_one_note() {
    let call = NotesService::new().by_id(42, &UserId(USER));
    assert_eq!(call.method, ApiMethod::Get);
    assert_eq!(call.url, "http://localhost:3000/notes/42");
    assert_eq!(call.json_body, None);
    let negative = NotesService::new().by_id(-3, &UserId(USER));
    assert_eq!(negative.url, "http://localhost:3000/notes/-3");
}

#[test]
fn user_id_header_is_the_hyphenated_lower_case_uuid() {
    let call = NotesService::new().all_notes(&UserId(0x0123456789ABCDEF0123456789ABCDEF));
    assert_eq!(call.user_id, "01234567-89ab-cdef-0123-456789abcdef");
    let zero = NotesService::new().all_notes(&UserId(0));
    assert_eq!(zero.user_id, "00000000-0000-0000-0000-000000000000");
}

#[test]
fn create_note_posts_the_content_as_json() {
    let call = NotesService::new().create_note("hello", &UserId(USER));
    assert_eq!(call.method, ApiMethod::Post);
    assert_eq!(call.url, "http://localhost:3000/notes");
    assert_eq!(call.user_id, "a1a2a3a4-b1b2-c1c2-d1d2-d3d4d5d6d7d8");
    assert_eq!(call.json_body.as_deref(), Some(r#"{"content":"hello"}"#));
}

#[test]
fn update_note_patches_the_note_with_escaped_content() {
    let call = NotesService::new().update_note("a\"b\nc\\d\u{1}\té/", 7, &UserId(USER));
    assert_eq!(call.method, ApiMethod::Patch);
    assert_eq!(call.url, "http://localhost:3000/notes/7");
    assert_eq!(call.json_body.as_deref(), Some(r#"{"content":"a\"b\nc\\d\u0001\té/"}"#));
}

#[test]
fn json_body_escapes_every_control_character_form() {
    let call = NotesService::new().create_note("\u{8}\u{c}\r\u{1f}\u{7f}", &UserId(USER));
    assert_eq!(call.json_body.as_deref(), Some("{\"content\":\"\\b\\f\\r\\u001f\u{7f}\"}"));
}

#[test]
fn base_template_new_keeps_the_flag() {
    assert!(BaseTemplate::new(true).enable_spa);
    assert!(!BaseTemplate::new(false).enable_spa);
    assert!(!BaseTemplate::default().enable_spa);
}
