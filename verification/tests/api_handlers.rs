use rust_everywhere_notes::api::{all, by_id, create, delete_note_after_15_mins, update, ApiReply, DeleteLater};
use rust_everywhere_notes::identity::UserId;
use rust_everywhere_notes::store::NoteService;

const ME: UserId = UserId(11);
const YOU: UserId = UserId(22);

fn stamp() -> String {
    "2024-06-01T10:00:00".to_string()
}

#[test]
fn create_answers_the_note_and_schedules_its_removal() {
    let mut service = NoteService::new();
    let (reply, later) = create(&mut service, ME, "first".to_string(), stamp());
    match reply {
        ApiReply::Created(n) => {
            assert_eq!(n.id, 1);
            assert_eq!(n.content, "first");
            assert_eq!(n.user_id, 11);
        },
        other => panic!("unexpected {:?}", other),
    }
    assert_eq!(later, Some(DeleteLater { note_id: 1, user_id: ME, delay_secs: 900 }));
    delete_note_after_15_mins(&mut service, later.unwrap());
    assert!(matches!(by_id(&service, 1, ME), ApiReply::NotFound));
}

#[test]
fn invalid_content_is_a_bad_request() {
    let mut service = NoteService::new();
    let (reply, later) = create(&mut service, ME, String::new(), stamp());
    match reply {
        ApiReply::Invalid(text) => {
            assert_eq!(text, "content: Content is too short. It must be at least 1 characters long.")
        },
        other => panic!("unexpected {:?}", other),
    }
    assert_eq!(later, None);
    assert!(matches!(all(&service, ME, None), ApiReply::NoteList(v) if v.is_empty()));
}

#[test]
fn list_and_search() {
    let mut service = NoteService::new();
    create(&mut service, ME, "Buy milk".to_string(), stamp());
    create(&mut service, ME, "Call mom".to_string(), stamp());
    create(&mut service, YOU, "milk shake".to_string(), stamp());
    assert!(matches!(all(&service, ME, None), ApiReply::NoteList(v) if v.len() == 2));
    match all(&service, ME, Some("MILK".to_string())) {
        ApiReply::NoteList(v) => {
            assert_eq!(v.len(), 1);
            assert_eq!(v[0].content, "Buy milk");
        },
        other => panic!("unexpected {:?}", other),
    }
}

#[test]
fn read_by_id_only_for_the_owner() {
    let mut service = NoteService::new();
    create(&mut service, ME, "mine".to_string(), stamp());
    assert!(matches!(by_id(&service, 1, ME), ApiReply::Found(n) if n.content == "mine"));
    assert!(matches!(by_id(&service, 1, YOU), ApiReply::NotFound));
}

#[test]
fn update_answers_the_location() {
    let mut service = NoteService::new();
    create(&mut service, ME, "draft".to_string(), stamp());
    match update(&mut service, 1, ME, "final".to_string(), stamp()) {
        ApiReply::Updated(location) => assert_eq!(location, "/notes/1"),
        other => panic!("unexpected {:?}", other),
    }
    assert!(matches!(by_id(&service, 1, ME), ApiReply::Found(n) if n.content == "final"));
    assert!(matches!(update(&mut service, 99, ME, "x".to_string(), stamp()), ApiReply::Failed));
    assert!(matches!(update(&mut service, 1, ME, "y".repeat(1001), stamp()), ApiReply::Invalid(_)));
}
