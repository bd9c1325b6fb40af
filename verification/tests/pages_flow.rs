use rust_everywhere_notes::form::NoteForm;
use rust_everywhere_notes::pages::{
    create_note, create_note_form_page, edit_note, update_note_form_page, index, search_note, see_note, show_note, update_note, BaseTemplate,
    ContentType, CreatePlan, PageReply, UpdatePlan,
};
use rust_everywhere_notes::store::Note;

fn note(id: i64, content: &str) -> Note {
    Note { id, content: content.to_string(), created_at: String::new(), updated_at: None, user_id: 7 }
}

fn base() -> BaseTemplate {
    BaseTemplate { enable_spa: true }
}

#[test]
fn index_lists_every_note_with_an_empty_form() {
    let notes = vec![note(1, "# First"), note(2, "Second note here, quite long")];
    match index(&notes, base()).unwrap() {
        PageReply::Index { page, content_type } => {
            assert_eq!(content_type, ContentType::HtmlUtf8);
            assert_eq!(page.note_list.len(), 2);
            assert_eq!(page.note_list[0].title, "First");
            assert_eq!(page.note_list[1].title, "Second note here, qu");
            assert_eq!(page.note_form.content, "");
            assert!(page.base_template.enable_spa);
        },
        other => panic!("unexpected {:?}", other),
    }
}

#[test]
fn valid_form_creates_and_invalid_form_returns() {
    let form = NoteForm { id: None, content: "hello".to_string(), content_error: None };
    match create_note(form) {
        CreatePlan::Create(content) => assert_eq!(content, "hello"),
        other => panic!("unexpected {:?}", other),
    }
    let empty = NoteForm::default();
    match create_note(empty) {
        CreatePlan::ShowForm(f) => assert!(f.content_error.unwrap().starts_with("content: Content is too short")),
        other => panic!("unexpected {:?}", other),
    }
}

#[test]
fn redirect_to_the_note_page() {
    match see_note(42) {
        PageReply::SeeOther(location) => assert_eq!(location, "/show/42"),
        other => panic!("unexpected {:?}", other),
    }
}

#[test]
fn update_plan_names_the_note() {
    let form = NoteForm { id: Some(5), content: "changed".to_string(), content_error: None };
    match update_note(form) {
        UpdatePlan::Update { id, content } => {
            assert_eq!(id, 5);
            assert_eq!(content, "changed");
        },
        other => panic!("unexpected {:?}", other),
    }
    let long = NoteForm { id: Some(5), content: "z".repeat(1001), content_error: None };
    assert!(matches!(update_note(long), UpdatePlan::ShowForm(_)));
}

#[test]
fn show_renders_the_note_or_not_found() {
    let notes = vec![note(1, "# One")];
    match show_note(&notes, Some(note(1, "# One")), base()).unwrap() {
        PageReply::Show(t) => {
            assert_eq!(t.preview, "<h1>One</h1>\n");
            assert_eq!(t.selected_note.id, 1);
        },
        other => panic!("unexpected {:?}", other),
    }
    assert!(matches!(show_note(&notes, None, base()), Some(PageReply::NotFound)));
}

#[test]
fn edit_finds_the_first_note_with_the_id() {
    let notes = vec![note(1, "one"), note(2, "two")];
    match edit_note(&notes, 2, base()).unwrap() {
        PageReply::Edit(t) => {
            assert_eq!(t.note_form.id, Some(2));
            assert_eq!(t.note_form.content, "two");
        },
        other => panic!("unexpected {:?}", other),
    }
    assert!(matches!(edit_note(&notes, 3, base()), Some(PageReply::NotFound)));
}

#[test]
fn search_matches_ignoring_unicode_case() {
    let notes = vec![note(1, "Éclair RECIPE"), note(2, "shopping"), note(3, "éclairs again")];
    match search_note(&notes, "ÉCLAIR".to_string(), base()).unwrap() {
        PageReply::Search(t) => {
            assert_eq!(t.filtered_notes.len(), 2);
            assert_eq!(t.filtered_notes[0].id, 1);
            assert_eq!(t.filtered_notes[1].id, 3);
            assert_eq!(t.filtered_notes[1].preview, "<p>éclairs again</p>\n");
            assert_eq!(t.search, "ÉCLAIR");
            assert_eq!(t.note_list.len(), 3);
        },
        other => panic!("unexpected {:?}", other),
    }
}

#[test]
fn a_title_that_cannot_be_cut_stops_the_page() {
    let notes = vec![note(1, "aaaaaaaaaaaaaaaaaaaé")];
    assert!(index(&notes, base()).is_none());
}

#[test]
fn invalid_create_form_goes_out_as_html_with_status_200() {
    let notes = vec![note(1, "one")];
    let form = match create_note(NoteForm::default()) {
        CreatePlan::ShowForm(f) => f,
        other => panic!("unexpected {:?}", other),
    };
    let reply = create_note_form_page(&notes, form, base()).unwrap();
    assert_eq!(reply.status(), 200);
    assert_eq!(reply.content_type(), ContentType::Html);
    match reply {
        PageReply::Index { page, .. } => {
            assert_eq!(page.note_list.len(), 1);
            assert!(page.note_form.content_error.is_some());
        },
        other => panic!("unexpected {:?}", other),
    }
}

#[test]
fn invalid_update_form_goes_out_without_content_type() {
    let notes = vec![note(1, "one")];
    let reply = update_note_form_page(&notes, NoteForm::default(), base()).unwrap();
    assert_eq!(reply.status(), 200);
    assert_eq!(reply.content_type(), ContentType::Unset);
}

#[test]
fn statuses_of_redirect_and_not_found() {
    let redirect = see_note(7);
    assert_eq!(redirect.status(), 303);
    assert_eq!(redirect.content_type(), ContentType::Unset);
    assert_eq!(PageReply::NotFound.status(), 404);
    assert_eq!(PageReply::NotFound.content_type(), ContentType::Html);
}

#[test]
fn empty_search_finds_every_note() {
    let notes = vec![note(1, "a"), note(2, "b")];
    match search_note(&notes, String::new(), base()).unwrap() {
        PageReply::Search(t) => assert_eq!(t.filtered_notes.len(), 2),
        other => panic!("unexpected {:?}", other),
    }
}
