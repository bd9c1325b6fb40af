use rust_everywhere_notes::store::{Note, NoteService, StoreError};

const USER: u128 = 0x6f1c_2a9e_4b7d_4c21_9a3e_51d0_7b2c_8e11;
const OTHER: u128 = 0x0a0b_0c0d_0e0f_4101_8203_0405_0607_0809;
const NOW: &str = "2024-05-01 12:00:00";

fn now() -> String {
    NOW.to_string()
}

#[test]
fn test_all_notes() {
    let mut service = NoteService::new();
    let user_id = USER;
    service.create_note("Test content".to_string(), user_id, now()).unwrap();

    let notes = service.all_notes(user_id).unwrap();
    assert_eq!(notes.len(), 1);
}

#[test]
fn test_by_id() {
    let mut service = NoteService::new();
    let user_id = USER;
    let note = service.create_note("Test content".to_string(), user_id, now()).unwrap();

    let fetched_note = service.by_id(note.id, user_id).unwrap();
    assert_eq!(fetched_note.id, note.id);
}

#[test]
fn test_update_note() {
    let mut service = NoteService::new();
    let user_id = USER;
    let note = service.create_note("Test content".to_string(), user_id, now()).unwrap();

    let updated_note = service
        .update_note("Updated content".to_string(), note.id, user_id, now())
        .unwrap();
    assert_eq!(updated_note.content, "Updated content");
}

#[test]
fn test_create_note() {
    let mut service = NoteService::new();
    let user_id = USER;
    let note = service.create_note("Test content".to_string(), user_id, now()).unwrap();

    let fetched_note = service.by_id(note.id, user_id).unwrap();
    assert_eq!(fetched_note.id, note.id);
    assert_eq!(fetched_note.content, "Test content");
}

#[test]
fn test_search_notes() {
    let mut service = NoteService::new();
    let user_id = USER;
    service.create_note("Test content".to_string(), user_id, now()).unwrap();
    service.create_note("Another note".to_string(), user_id, now()).unwrap();
    service.create_note("A final note".to_string(), user_id, now()).unwrap();

    let notes = service.search_notes(user_id, "note".to_string()).unwrap();
    assert_eq!(notes.len(), 2);
}

#[test]
fn test_delete_note() {
    let mut service = NoteService::new();
    let user_id = USER;
    let note = service.create_note("Test content".to_string(), user_id, now()).unwrap();

    assert!(service.delete_by_id(note.id, user_id).is_ok());

    let result = service.by_id(note.id, user_id);
    assert!(result.is_err());
}

#[test]
fn created_notes_get_increasing_ids_and_timestamps() {
    let mut service = NoteService::new();
    let a = service.create_note("a".to_string(), USER, now()).unwrap();
    let b = service.create_note("b".to_string(), OTHER, "2024-05-01 12:00:01".to_string()).unwrap();
    assert_eq!(a.id, 1);
    assert_eq!(b.id, 2);
    assert_eq!(a.created_at, NOW);
    assert_eq!(a.updated_at, None);
    assert_eq!(b.user_id, OTHER);
}

#[test]
fn ids_are_not_reused_after_delete() {
    let mut service = NoteService::new();
    let a = service.create_note("a".to_string(), USER, now()).unwrap();
    service.delete_by_id(a.id, USER).unwrap();
    let b = service.create_note("b".to_string(), USER, now()).unwrap();
    assert_eq!(b.id, 2);
}

#[test]
fn notes_of_other_users_stay_hidden() {
    let mut service = NoteService::new();
    let mine = service.create_note("mine".to_string(), USER, now()).unwrap();
    service.create_note("theirs".to_string(), OTHER, now()).unwrap();
    assert_eq!(service.all_notes(USER).unwrap().len(), 1);
    assert_eq!(service.by_id(mine.id, OTHER).unwrap_err(), StoreError::RowNotFound);
    service.delete_by_id(mine.id, OTHER).unwrap();
    assert_eq!(service.by_id(mine.id, USER).unwrap().content, "mine");
}

#[test]
fn update_by_another_user_changes_nothing_but_reads_the_note() {
    let mut service = NoteService::new();
    let mine = service.create_note("mine".to_string(), USER, now()).unwrap();
    let read = service.update_note("hacked".to_string(), mine.id, OTHER, now()).unwrap();
    assert_eq!(read.content, "mine");
    assert_eq!(read.updated_at, None);
    assert_eq!(service.by_id(mine.id, USER).unwrap().content, "mine");
}

#[test]
fn update_stamps_the_time_and_keeps_creation() {
    let mut service = NoteService::new();
    let mine = service.create_note("mine".to_string(), USER, now()).unwrap();
    let later = "2024-05-02 08:30:00".to_string();
    let updated = service.update_note("new".to_string(), mine.id, USER, later.clone()).unwrap();
    assert_eq!(updated.updated_at, Some(later));
    assert_eq!(updated.created_at, NOW);
}

#[test]
fn update_of_missing_note_is_row_not_found() {
    let mut service = NoteService::new();
    let r = service.update_note("x".to_string(), 41, USER, now());
    assert_eq!(r.unwrap_err(), StoreError::RowNotFound);
}

#[test]
fn search_ignores_ascii_case_only() {
    let mut service = NoteService::new();
    service.create_note("Shopping LIST".to_string(), USER, now()).unwrap();
    service.create_note("Éclair recipe".to_string(), USER, now()).unwrap();
    assert_eq!(service.search_notes(USER, "list".to_string()).unwrap().len(), 1);
    assert_eq!(service.search_notes(USER, "éclair".to_string()).unwrap().len(), 0);
    assert_eq!(service.search_notes(USER, "Éclair".to_string()).unwrap().len(), 1);
}

#[test]
fn search_text_wildcards_act_as_like_patterns() {
    let mut service = NoteService::new();
    service.create_note("cat".to_string(), USER, now()).unwrap();
    service.create_note("cut".to_string(), USER, now()).unwrap();
    service.create_note("dog".to_string(), USER, now()).unwrap();
    assert_eq!(service.search_notes(USER, "c_t".to_string()).unwrap().len(), 2);
    assert_eq!(service.search_notes(USER, "c%g".to_string()).unwrap().len(), 0);
    assert_eq!(service.search_notes(USER, "d%g".to_string()).unwrap().len(), 1);
    assert_eq!(service.search_notes(USER, "".to_string()).unwrap().len(), 3);
}

#[test]
fn search_only_looks_at_the_users_notes() {
    let mut service = NoteService::new();
    service.create_note("note one".to_string(), USER, now()).unwrap();
    service.create_note("note two".to_string(), OTHER, now()).unwrap();
    let found: Vec<Note> = service.search_notes(OTHER, "note".to_string()).unwrap();
    assert_eq!(found.len(), 1);
    assert_eq!(found[0].content, "note two");
}
