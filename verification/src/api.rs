//! The notes API: list and search a user's notes, read one, create one (which
//! removes itself after a quarter of an hour) and change one. Each handler
//! works on the notes table and answers with the status and body to send.
use vstd::prelude::*;
use crate::form::{content_error_text, validate_content};
use crate::identity::UserId;
use crate::store::{
    Note, NoteService, StoreError, has_note, new_note, note_with_id, notes_of, rows_after_delete,
    rows_after_update, search_result,
};
use crate::text::{decimal, decimal_string};
use vstd::string::StringExecFns;

verus! {

/// Seconds after its creation at which a note is removed.
pub const DELETE_AFTER_SECS: u64 = 900;

/// What an API handler answers.
#[derive(Debug, Clone)]
pub enum ApiReply {
    /// Status 200 with these notes as JSON.
    NoteList(Vec<Note>),
    /// Status 200 with this note as JSON.
    Found(Note),
    /// Status 201 with the new note as JSON.
    Created(Note),
    /// Status 204 with this `Location`.
    Updated(String),
    /// Status 400 with the text of the validation errors.
    Invalid(String),
    /// Status 404.
    NotFound,
    /// Status 500.
    Failed,
}

/// A removal that is due `delay_secs` seconds from now.
#[derive(Debug, Clone, Copy, PartialEq, Eq, Structural)]
pub struct DeleteLater {
    pub note_id: i64,
    pub user_id: UserId,
    pub delay_secs: u64,
}

/// `GET /notes` and `GET /notes?q=..`: the user's notes, or those that a
/// search for `q` finds.
pub fn all(note_service: &NoteService, user_id: UserId, q: Option<String>) -> (reply: ApiReply)
    ensures
        q matches Some(text) ==> (reply matches ApiReply::NoteList(v) && v@ == search_result(
            note_service.rows(),
            user_id.0,
            text@,
        )),
        q is None ==> (reply matches ApiReply::NoteList(v) && v@ == notes_of(note_service.rows(), user_id.0)),
{
    match q {
        Some(query) => match note_service.search_notes(user_id.0, query) {
            Ok(notes) => ApiReply::NoteList(notes),
            Err(_) => ApiReply::Failed,
        },
        None => match note_service.all_notes(user_id.0) {
            Ok(notes) => ApiReply::NoteList(notes),
            Err(_) => ApiReply::Failed,
        },
    }
}

/// `GET /notes/:id`: the user's note `id`, or `NotFound`.
pub fn by_id(note_service: &NoteService, id: i64, user_id: UserId) -> (reply: ApiReply)
    ensures
        has_note(note_service.rows(), id, user_id.0) ==> reply == ApiReply::Found(
            note_with_id(note_service.rows(), id),
        ),
        !has_note(note_service.rows(), id, user_id.0) ==> reply == ApiReply::NotFound,
{
    match note_service.by_id(id, user_id.0) {
        Ok(note) => ApiReply::Found(note),
        Err(StoreError::RowNotFound) => ApiReply::NotFound,
        Err(_) => ApiReply::Failed,
    }
}

/// `POST /notes`: a note of the user with `content`, created at `now`, and
/// its removal a quarter of an hour later. `Invalid` where the content does
/// not validate, `Failed` where the table is full; the table is then unchanged.
pub fn create(note_service: &mut NoteService, user_id: UserId, content: String, now: String) -> (r: (
    ApiReply,
    Option<DeleteLater>,
))
    ensures
        old(note_service).wf(),
        final(note_service).wf(),
        content_error_text(content@) matches Some(e) ==> (r.0 matches ApiReply::Invalid(t) && t@ == e)
            && r.1 is None && final(note_service).rows() == old(note_service).rows()
            && final(note_service).next_id() == old(note_service).next_id(),
        content_error_text(content@) is None && old(note_service).next_id() == i64::MAX ==> r.0
            == ApiReply::Failed && r.1 is None && final(note_service).rows() == old(
            note_service,
        ).rows(),
        content_error_text(content@) is None && old(note_service).next_id() < i64::MAX ==> ({
            let n = new_note(old(note_service).next_id() as i64, content, user_id.0, now);
            &&& r.0 == ApiReply::Created(n)
            &&& r.1 == Some(
                DeleteLater { note_id: n.id, user_id, delay_secs: DELETE_AFTER_SECS },
            )
            &&& final(note_service).rows() == old(note_service).rows().push(n)
            &&& final(note_service).next_id() == old(note_service).next_id() + 1
        }),
{
    proof {
        use_type_invariant(&*note_service);
        note_service.lemma_table_wf();
    }
    match validate_content(content.as_str()) {
        Some(errors) => (ApiReply::Invalid(errors), None),
        None => match note_service.create_note(content, user_id.0, now) {
            Ok(note) => {
                let later = DeleteLater { note_id: note.id, user_id, delay_secs: DELETE_AFTER_SECS };
                (ApiReply::Created(note), Some(later))
            },
            Err(_) => (ApiReply::Failed, None),
        },
    }
}

/// The location of note `id`: `/notes/{id}`.
pub open spec fn note_location(id: i64) -> Seq<char> {
    "/notes/"@ + decimal(id as int)
}

/// `PATCH /notes/:id`: the user's note `id` gets `content`, stamped `now`.
/// `Invalid` where the content does not validate (the table is then
/// unchanged); `Failed` where no note has id `id` at all.
pub fn update(note_service: &mut NoteService, id: i64, user_id: UserId, content: String, now: String) -> (reply:
    ApiReply)
    ensures
        old(note_service).wf(),
        final(note_service).wf(),
        final(note_service).next_id() == old(note_service).next_id(),
        content_error_text(content@) matches Some(e) ==> (reply matches ApiReply::Invalid(t) && t@ == e)
            && final(note_service).rows() == old(note_service).rows(),
        content_error_text(content@) is None ==> ({
            &&& final(note_service).rows() == rows_after_update(
                old(note_service).rows(),
                id,
                user_id.0,
                content,
                now,
            )
            &&& crate::store::has_id(old(note_service).rows(), id) ==> (reply matches ApiReply::Updated(
                location,
            ) && location@ == note_location(id))
            &&& !crate::store::has_id(old(note_service).rows(), id) ==> reply == ApiReply::Failed
        }),
{
    proof {
        use_type_invariant(&*note_service);
        note_service.lemma_table_wf();
    }
    match validate_content(content.as_str()) {
        Some(errors) => ApiReply::Invalid(errors),
        None => {
            let ghost before = note_service.rows();
            let result = note_service.update_note(content, id, user_id.0, now);
            proof {
                let after = note_service.rows();
                assert(crate::store::has_id(after, id) == crate::store::has_id(before, id)) by {
                    if crate::store::has_id(before, id) {
                        let i = choose|i: int| 0 <= i < before.len() && #[trigger] before[i].id == id;
                        assert(after[i].id == id);
                    }
                    if crate::store::has_id(after, id) {
                        let i = choose|i: int| 0 <= i < after.len() && #[trigger] after[i].id == id;
                        assert(before[i].id == id);
                    }
                }
            }
            match result {
                Ok(_) => {
                    let mut location = String::from_str("/notes/");
                    let number = decimal_string(id);
                    location.append(number.as_str());
                    ApiReply::Updated(location)
                },
                Err(_) => ApiReply::Failed,
            }
        },
    }
}

/// What runs when a note's quarter of an hour is over: the note is removed
/// from its owner's notes.
pub fn delete_note_after_15_mins(note_service: &mut NoteService, later: DeleteLater)
    ensures
        old(note_service).wf(),
        final(note_service).wf(),
        final(note_service).next_id() == old(note_service).next_id(),
        final(note_service).rows() == rows_after_delete(
            old(note_service).rows(),
            later.note_id,
            later.user_id.0,
        ),
{
    proof {
        use_type_invariant(&*note_service);
        note_service.lemma_table_wf();
    }
    let _ = note_service.delete_by_id(later.note_id, later.user_id.0);
}

} // verus!
