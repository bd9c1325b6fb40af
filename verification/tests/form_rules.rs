use rust_everywhere_notes::form::{validate_content, NoteForm};
use rust_everywhere_notes::store::Note;

#[test]
fn empty_content_is_too_short() {
    let mut form = NoteForm::default();
    assert!(!form.is_valid());
    assert_eq!(
        form.content_error.as_deref(),
        Some("content: Content is too short. It must be at least 1 characters long.")
    );
}

#[test]
fn content_of_1000_chars_is_valid() {
    let mut form = NoteForm { id: Some(3), content: "a".repeat(1000), content_error: Some("old".to_string()) };
    assert!(form.is_valid());
    assert_eq!(form.content_error, None);
    assert_eq!(form.id, Some(3));
}

#[test]
fn content_of_1001_chars_is_too_long() {
    let mut form = NoteForm { id: None, content: "b".repeat(1001), content_error: None };
    assert!(!form.is_valid());
    assert_eq!(
        form.content_error.as_deref(),
        Some("content: Content is too long. It must be no more than 1000 characters long.")
    );
}

#[test]
fn length_counts_characters_not_bytes() {
    assert_eq!(validate_content(&"é".repeat(1000)), None);
    assert!(validate_content(&"é".repeat(1001)).is_some());
    assert_eq!(validate_content("x"), None);
}

#[test]
fn edit_form_of_a_note() {
    let note = Note {
        id: 9,
        content: "hello".to_string(),
        created_at: "2024-01-01 00:00:00".to_string(),
        updated_at: None,
        user_id: 1,
    };
    let form = NoteForm::from(&note);
    assert_eq!(form.id, Some(9));
    assert_eq!(form.content, "hello");
    assert_eq!(form.content_error, None);
}
