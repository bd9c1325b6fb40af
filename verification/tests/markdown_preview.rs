use rust_everywhere_notes::preview::{content_to_markdown, first_20_chars, keep_markdown_event, NoteListItem};
use rust_everywhere_notes::store::Note;

fn note(id: i64, content: &str) -> Note {
    Note { id, content: content.to_string(), created_at: String::new(), updated_at: None, user_id: 5 }
}

#[test]
fn title_is_the_plain_text() {
    assert_eq!(first_20_chars("# Hello *world*"), Some("Hello world".to_string()));
}

#[test]
fn title_is_cut_to_20_bytes() {
    assert_eq!(
        first_20_chars("The quick brown fox jumps over the lazy dog"),
        Some("The quick brown fox ".to_string())
    );
}

#[test]
fn title_keeps_inline_code_and_struck_text() {
    assert_eq!(first_20_chars("use `map` ~~not~~ here"), Some("use map not here".to_string()));
}

#[test]
fn title_of_empty_markdown_is_empty() {
    assert_eq!(first_20_chars(""), Some(String::new()));
}

#[test]
fn title_that_would_split_a_character_is_refused() {
    // 19 ASCII bytes then a 2-byte character: byte 20 falls inside it.
    assert_eq!(first_20_chars("aaaaaaaaaaaaaaaaaaaé and more"), None);
    // 18 ASCII bytes then a 2-byte character: the cut falls after it.
    assert_eq!(first_20_chars("aaaaaaaaaaaaaaaaaaé and more"), Some("aaaaaaaaaaaaaaaaaaé".to_string()));
}

#[test]
fn list_item_of_a_note() {
    let item = NoteListItem::from(&note(4, "Groceries for the whole week")).unwrap();
    assert_eq!(item.id, 4);
    assert_eq!(item.title, "Groceries for the wh");
}

#[test]
fn markdown_becomes_html() {
    assert_eq!(content_to_markdown("# Hi"), "<h1>Hi</h1>\n");
    assert_eq!(content_to_markdown("*a*"), "<p><em>a</em></p>\n");
}

#[test]
fn script_blocks_are_left_out() {
    let html = content_to_markdown("<script>alert(1)</script>\n\ntext");
    assert!(!html.contains("<script"));
    assert!(html.contains("<p>text</p>"));
    let kept = content_to_markdown("<div>ok</div>\n");
    assert!(kept.contains("<div>ok</div>"));
}

#[test]
fn html_event_filter() {
    assert!(!keep_markdown_event(Some("<script src=x>")));
    assert!(keep_markdown_event(Some("<b>bold</b>")));
    assert!(keep_markdown_event(Some("<SCRIPT>")));
    assert!(keep_markdown_event(None));
}
