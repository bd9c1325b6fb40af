//! The note form and its validation: a note's content has between 1 and 1000
//! characters, and a form that breaks this rule carries the message that says
//! which bound it broke.
use vstd::prelude::*;
use vstd::string::StringExecFns;

verus! {

/// Fewest characters that a note may hold.
pub const CONTENT_MIN_CHARS: u64 = 1;

/// Most characters that a note may hold.
pub const CONTENT_MAX_CHARS: u64 = 1000;

/// `parts` joined with `sep` between each two of them.
pub open spec fn join(parts: Seq<Seq<char>>, sep: Seq<char>) -> Seq<char>
    decreases parts.len(),
{
    if parts.len() == 0 {
        Seq::empty()
    } else if parts.len() == 1 {
        parts[0]
    } else {
        join(parts.drop_last(), sep) + sep + parts.last()
    }
}

pub open spec fn views_of(v: Seq<String>) -> Seq<Seq<char>> {
    v.map_values(|s: String| s@)
}

/// Whether `value` has at least `min` and at most `max` characters, each bound
/// where it is given: validator's `validate_length` (it counts the `char`s of
/// a string), called with no exact length.
#[verifier::external_body]
fn length_within(value: &str, min: Option<u64>, max: Option<u64>) -> (b: bool)
    ensures
        b == ((min is None || min.unwrap() <= value@.len()) && (max is None || value@.len()
            <= max.unwrap())),
{
    validator::validate_length(value, min, max, None)
}

/// validator's `Display` of a `ValidationErrors` that holds, for the one
/// field `field`, one error per message in `messages`, in order: the field's
/// name, `": "`, and the messages joined by `", "`.
#[verifier::external_body]
fn field_errors_text(field: &'static str, messages: &Vec<String>) -> (text: String)
    requires
        messages@.len() >= 1,
    ensures
        text@ == field@ + ": "@ + join(views_of(messages@), ", "@),
{
    let mut errors = validator::ValidationErrors::new();
    for m in messages.iter() {
        let mut e = validator::ValidationError::new("length");
        e.message = Some(std::borrow::Cow::Owned(m.clone()));
        errors.add(field, e);
    }
    errors.to_string()
}

/// The message for content with fewer than the fewest characters.
pub open spec fn too_short_message() -> Seq<char> {
    "Content is too short. It must be at least 1 characters long."@
}

/// The message for content with more than the most characters.
pub open spec fn too_long_message() -> Seq<char> {
    "Content is too long. It must be no more than 1000 characters long."@
}

/// The messages of the rules that `content` breaks, the lower bound first.
pub open spec fn content_messages(content: Seq<char>) -> Seq<Seq<char>> {
    (if content.len() < CONTENT_MIN_CHARS {
        seq![too_short_message()]
    } else {
        Seq::empty()
    }) + (if content.len() > CONTENT_MAX_CHARS {
        seq![too_long_message()]
    } else {
        Seq::empty()
    })
}

/// The text of the errors of a form with `content`, if it has any.
pub open spec fn content_error_text(content: Seq<char>) -> Option<Seq<char>> {
    if content_messages(content).len() == 0 {
        None
    } else {
        Some("content"@ + ": "@ + join(content_messages(content), ", "@))
    }
}

/// Validates note content: `None` where it has between 1 and 1000
/// characters, otherwise the text of the validation errors.
pub fn validate_content(content: &str) -> (r: Option<String>)
    ensures
        r is None <==> content_error_text(content@) is None,
        r matches Some(t) ==> content_error_text(content@) == Some(t@),
{
    let mut messages: Vec<String> = Vec::new();
    if !length_within(content, Some(CONTENT_MIN_CHARS), None) {
        messages.push(String::from_str("Content is too short. It must be at least 1 characters long."));
    }
    if !length_within(content, None, Some(CONTENT_MAX_CHARS)) {
        messages.push(String::from_str("Content is too long. It must be no more than 1000 characters long."));
    }
    assert(views_of(messages@) =~= content_messages(content@));
    if messages.len() == 0 {
        None
    } else {
        Some(field_errors_text("content", &messages))
    }
}

/// The content of a note as a form holds it while it is being written.
#[derive(Debug, Clone)]
pub struct NoteForm {
    pub id: Option<i64>,
    pub content: String,
    pub content_error: Option<String>,
}

impl NoteForm {
    /// An empty form for a new note.
    pub fn empty() -> (f: NoteForm)
        ensures
            f.id is None,
            f.content@ == Seq::<char>::empty(),
            f.content_error is None,
    {
        NoteForm { id: None, content: String::new(), content_error: None }
    }

    /// Validates the form: `true` where the content has between 1 and 1000
    /// characters. The form then carries no error; otherwise it carries the
    /// text of the errors.
    pub fn is_valid(&mut self) -> (valid: bool)
        ensures
            final(self).id == old(self).id,
            final(self).content == old(self).content,
            valid == (content_error_text(old(self).content@) is None),
            valid ==> final(self).content_error is None,
            !valid ==> (final(self).content_error matches Some(t) && Some(t@) == content_error_text(
                old(self).content@,
            )),
    {
        let result = validate_content(self.content.as_str());
        match result {
            Some(text) => {
                self.content_error = Some(text);
                false
            },
            None => {
                self.content_error = None;
                true
            },
        }
    }
}

impl Default for NoteForm {
    fn default() -> (f: NoteForm)
        ensures
            f.id is None,
            f.content@ == Seq::<char>::empty(),
            f.content_error is None,
    {
        NoteForm::empty()
    }
}

} // verus!

verus! {

impl NoteForm {
    /// The form for editing `note`: its id and content, with no error.
    pub fn from(note: &crate::store::Note) -> (f: NoteForm)
        ensures
            f.id == Some(note.id),
            f.content == note.content,
            f.content_error is None,
    {
        NoteForm { id: Some(note.id), content: note.content.clone(), content_error: None }
    }
}

} // verus!

verus! {

/// A note's content is accepted exactly when it has between 1 and 1000
/// characters; empty content is refused as too short and content of more than
/// 1000 characters as too long, each with its own message.
pub proof fn law_content_rule(content: Seq<char>)
    ensures
        content_error_text(content) is None <==> 1 <= content.len() <= 1000,
        content.len() == 0 ==> content_error_text(content) == Some(
            "content"@ + ": "@ + too_short_message(),
        ),
        content.len() > 1000 ==> content_error_text(content) == Some(
            "content"@ + ": "@ + too_long_message(),
        ),
{
    let m = content_messages(content);
    if content.len() == 0 {
        assert(m =~= seq![too_short_message()]);
    }
    if content.len() > 1000 {
        assert(m =~= seq![too_long_message()]);
    }
    if 1 <= content.len() <= 1000 {
        assert(m =~= Seq::<Seq<char>>::empty());
    }
}

} // verus!
