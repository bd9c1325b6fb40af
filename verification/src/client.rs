//! The site's client of the notes API: for each question the site asks, the
//! request that goes out (method, address, the `user-id` header and the JSON
//! body). Sending it and reading the reply are left to the caller; of
//! an update the site only asks that the request went through, whatever the
//! status of the reply.
use vstd::prelude::*;
use crate::identity::UserId;
use crate::text::{decimal, decimal_string};
use vstd::string::StringExecFns;

verus! {

/// The lower-case hexadecimal digit of `n`, for `0 <= n < 16`.
pub open spec fn hex_digit(n: int) -> char {
    if n < 10 {
        (n + 48) as char
    } else {
        (n + 87) as char
    }
}

/// The `k`-th hexadecimal digit of `v`, counted from the most significant
/// one, for `0 <= k < 32`.
pub open spec fn uuid_nibble(v: u128, k: int) -> int {
    ((v >> ((124 - 4 * k) as u32)) & 0xfu128) as int
}

/// Which of the 32 digits stands at place `i` of the hyphenated form.
pub open spec fn uuid_digit_at(i: int) -> int {
    if i < 8 {
        i
    } else if i < 13 {
        i - 1
    } else if i < 18 {
        i - 2
    } else if i < 23 {
        i - 3
    } else {
        i - 4
    }
}

/// The hyphenated lower-case text of the uuid `v`: its 32 hexadecimal
/// digits in groups of 8, 4, 4, 4 and 12, joined by `-`.
pub open spec fn uuid_text(v: u128) -> Seq<char> {
    Seq::new(
        36,
        |i: int|
            if i == 8 || i == 13 || i == 18 || i == 23 {
                '-'
            } else {
                hex_digit(uuid_nibble(v, uuid_digit_at(i)))
            },
    )
}

/// How JSON writes the character `c` inside a string: `"` and `\` behind a
/// backslash, the control characters that have a short escape by it, the other
/// characters below U+0020 as `\u00` and two lower-case hexadecimal digits,
/// and every other character as it is.
pub open spec fn json_escaped_char(c: char) -> Seq<char> {
    if c == '"' {
        seq!['\\', '"']
    } else if c == '\\' {
        seq!['\\', '\\']
    } else if c == '\u{8}' {
        seq!['\\', 'b']
    } else if c == '\t' {
        seq!['\\', 't']
    } else if c == '\n' {
        seq!['\\', 'n']
    } else if c == '\u{c}' {
        seq!['\\', 'f']
    } else if c == '\r' {
        seq!['\\', 'r']
    } else if (c as int) < 0x20 {
        seq!['\\', 'u', '0', '0', hex_digit((c as int) / 16), hex_digit((c as int) % 16)]
    } else {
        seq![c]
    }
}

/// The characters of `s`, each escaped as JSON writes it inside a string.
pub open spec fn json_escaped(s: Seq<char>) -> Seq<char>
    decreases s.len(),
{
    if s.len() == 0 {
        Seq::empty()
    } else {
        json_escaped(s.drop_last()) + json_escaped_char(s.last())
    }
}

/// `s` as a JSON string: between double quotes, each character escaped.
pub open spec fn json_string_text(s: Seq<char>) -> Seq<char> {
    seq!['"'] + json_escaped(s) + seq!['"']
}

/// The JSON body of a note's content: an object whose one member `content`
/// holds it, written compactly.
pub open spec fn content_body(content: Seq<char>) -> Seq<char> {
    "{\"content\":"@ + json_string_text(content) + "}"@
}

/// `uuid::Uuid::from_u128(v).to_string()`. The uuid crate writes a uuid
/// with `Display` as its hyphenated lower-case form, the bytes of `v` taken
/// most significant first; the contract states that text.
#[verifier::external_body]
fn uuid_to_text(v: u128) -> (t: String)
    ensures
        t@ == uuid_text(v),
{
    uuid::Uuid::from_u128(v).to_string()
}

/// `serde_json::Value::String(s).to_string()`: `s` as serde_json writes a
/// JSON string, by its table of escapes. The contract states that text.
#[verifier::external_body]
fn json_string(s: &str) -> (t: String)
    ensures
        t@ == json_string_text(s@),
{
    serde_json::Value::String(s.to_string()).to_string()
}

/// The methods that the site's client uses.
#[derive(Debug, Clone, Copy, PartialEq, Eq, Structural)]
pub enum ApiMethod {
    Get,
    Post,
    Patch,
}

/// A request to the notes API, ready to be sent: method, address, the value
/// of the `user-id` header, and the JSON body if there is one.
#[derive(Debug, Clone)]
pub struct ApiCall {
    pub method: ApiMethod,
    pub url: String,
    pub user_id: String,
    pub json_body: Option<String>,
}

/// The site's client of the notes API, bound to the address of the API.
#[derive(Debug, Clone)]
pub struct NotesService {
    base_url: String,
}

impl NotesService {
    /// The address of the API that this client speaks to.
    pub closed spec fn base(&self) -> Seq<char> {
        self.base_url@
    }

    /// A client of the API that runs beside the site, on port 3000 of this
    /// machine.
    pub fn new() -> (s: NotesService)
        ensures
            s.base() == "http://localhost:3000"@,
    {
        NotesService { base_url: String::from_str("http://localhost:3000") }
    }

    /// `base + suffix`.
    fn address(&self, suffix: &str) -> (url: String)
        ensures
            url@ == self.base() + suffix@,
    {
        let mut url = self.base_url.clone();
        url.append(suffix);
        url
    }

    /// `base/notes/{id}`.
    fn note_address(&self, id: i64) -> (url: String)
        ensures
            url@ == self.base() + "/notes/"@ + decimal(id as int),
    {
        let mut url = self.address("/notes/");
        let number = decimal_string(id);
        url.append(number.as_str());
        url
    }

    /// `GET {base}/notes` as the user: all of the user's notes.
    pub fn all_notes(&self, user_id: &UserId) -> (call: ApiCall)
        ensures
            call.method == ApiMethod::Get,
            call.url@ == self.base() + "/notes"@,
            call.user_id@ == uuid_text(user_id.0),
            call.json_body is None,
    {
        ApiCall {
            method: ApiMethod::Get,
            url: self.address("/notes"),
            user_id: uuid_to_text(user_id.0),
            json_body: None,
        }
    }

    /// `GET {base}/notes/{id}` as the user: one note.
    pub fn by_id(&self, id: i64, user_id: &UserId) -> (call: ApiCall)
        ensures
            call.method == ApiMethod::Get,
            call.url@ == self.base() + "/notes/"@ + decimal(id as int),
            call.user_id@ == uuid_text(user_id.0),
            call.json_body is None,
    {
        ApiCall {
            method: ApiMethod::Get,
            url: self.note_address(id),
            user_id: uuid_to_text(user_id.0),
            json_body: None,
        }
    }

    /// `PATCH {base}/notes/{note_id}` as the user, with the new content.
    pub fn update_note(&self, content: &str, note_id: i64, user_id: &UserId) -> (call: ApiCall)
        ensures
            call.method == ApiMethod::Patch,
            call.url@ == self.base() + "/notes/"@ + decimal(note_id as int),
            call.user_id@ == uuid_text(user_id.0),
            call.json_body matches Some(body) && body@ == content_body(content@),
    {
        ApiCall {
            method: ApiMethod::Patch,
            url: self.note_address(note_id),
            user_id: uuid_to_text(user_id.0),
            json_body: Some(Self::body_of(content)),
        }
    }

    /// `POST {base}/notes` as the user, with the content of the new note.
    pub fn create_note(&self, content: &str, user_id: &UserId) -> (call: ApiCall)
        ensures
            call.method == ApiMethod::Post,
            call.url@ == self.base() + "/notes"@,
            call.user_id@ == uuid_text(user_id.0),
            call.json_body matches Some(body) && body@ == content_body(content@),
    {
        ApiCall {
            method: ApiMethod::Post,
            url: self.address("/notes"),
            user_id: uuid_to_text(user_id.0),
            json_body: Some(Self::body_of(content)),
        }
    }

    /// `{"content":...}` with `content` as a JSON string.
    fn body_of(content: &str) -> (body: String)
        ensures
            body@ == content_body(content@),
    {
        let mut body = String::from_str("{\"content\":");
        let quoted = json_string(content);
        body.append(quoted.as_str());
        body.append("}");
        body
    }
}

} // verus!
