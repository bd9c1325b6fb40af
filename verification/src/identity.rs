//! Who is asking: the API reads the user's id from the `user-id` header, the
//! site from the `user_id` cookie. Both carry the id as a UUID.
use vstd::prelude::*;
use crate::text::chars_of;

verus! {

/// The id of a user: the 128 bits of a UUID.
#[derive(Debug, Clone, Copy, Default, PartialEq, Eq, Structural)]
pub struct UserId(pub u128);

/// The value of the UUID that uuid's `Uuid::from_str` parses from `text`, or
/// `None` where it refuses the text.
pub uninterp spec fn uuid_from_text(text: Seq<char>) -> Option<u128>;

/// uuid's `Uuid::from_str`, the parsed UUID taken as its 128 bits.
#[verifier::external_body]
fn parse_uuid(text: &str) -> (id: Option<u128>)
    ensures
        id == uuid_from_text(text@),
{
    match <uuid::Uuid as std::str::FromStr>::from_str(text) {
        Ok(u) => Some(u.as_u128()),
        Err(_) => None,
    }
}

/// A byte that a header value may hold where it reads as text: a visible
/// ASCII character, a space or a tab.
pub open spec fn is_visible_ascii(b: u8) -> bool {
    (32 <= b && b < 127) || b == 9
}

/// The header value `bytes` read as text, where every byte is visible ASCII.
pub open spec fn header_text(bytes: Seq<u8>) -> Option<Seq<char>> {
    if forall|i: int| 0 <= i < bytes.len() ==> is_visible_ascii(#[trigger] bytes[i]) {
        Some(Seq::new(bytes.len(), |i: int| bytes[i] as char))
    } else {
        None
    }
}

/// http's `HeaderValue::from_bytes` and `HeaderValue::to_str`: the value as
/// text where every byte is visible ASCII or a tab, otherwise nothing.
#[verifier::external_body]
pub(crate) fn header_value_text(bytes: &[u8]) -> (text: Option<String>)
    ensures
        text is Some <==> header_text(bytes@) is Some,
        text matches Some(t) ==> header_text(bytes@) == Some(t@),
{
    match http::HeaderValue::from_bytes(bytes) {
        Ok(value) => match value.to_str() {
            Ok(s) => Some(s.to_string()),
            Err(_) => None,
        },
        Err(_) => None,
    }
}

/// The user that the API's `user-id` header names, given the header's bytes
/// where the request has one: `401` where there is none, where it is not
/// text, or where the text is not a UUID.
pub fn user_id_from_header(value: Option<&[u8]>) -> (r: Result<UserId, u16>)
    ensures
        r matches Ok(u) ==> (value matches Some(b) && header_text(b@) matches Some(t)
            && uuid_from_text(t) == Some(u.0)),
        r matches Err(code) ==> code == 401,
        r is Err <==> (value is None || (value matches Some(b) && (header_text(b@) is None || (
        header_text(b@) matches Some(t) && uuid_from_text(t) is None)))),
{
    match value {
        None => Err(401),
        Some(bytes) => match header_value_text(bytes) {
            None => Err(401),
            Some(text) => match parse_uuid(text.as_str()) {
                Some(id) => Ok(UserId(id)),
                None => Err(401),
            },
        },
    }
}

/// The characters with the Unicode `White_Space` property, which std's
/// `char::is_whitespace` accepts: tab to carriage return, space, next line,
/// no-break space, ogham space mark, the spaces from en quad to hair space,
/// line and paragraph separators, narrow no-break space, medium mathematical
/// space and ideographic space.
pub open spec fn is_white_space(c: char) -> bool {
    let x = c as u32;
    (0x9 <= x && x <= 0xd) || x == 0x20 || x == 0x85 || x == 0xa0 || x == 0x1680 || (0x2000 <= x && x
        <= 0x200a) || x == 0x2028 || x == 0x2029 || x == 0x202f || x == 0x205f || x == 0x3000
}

/// std's `char::is_whitespace`.
#[verifier::external_body]
fn char_is_whitespace(c: char) -> (b: bool)
    ensures
        b == is_white_space(c),
{
    c.is_whitespace()
}

/// `s` without its leading white space.
pub open spec fn trim_start(s: Seq<char>) -> Seq<char>
    decreases s.len(),
{
    if s.len() > 0 && is_white_space(s[0]) {
        trim_start(s.drop_first())
    } else {
        s
    }
}

/// `s` without its trailing white space.
pub open spec fn trim_end(s: Seq<char>) -> Seq<char>
    decreases s.len(),
{
    if s.len() > 0 && is_white_space(s.last()) {
        trim_end(s.drop_last())
    } else {
        s
    }
}

/// `s` without leading and trailing white space, as `str::trim` leaves it.
pub open spec fn trim(s: Seq<char>) -> Seq<char> {
    trim_end(trim_start(s))
}

/// `trim` of `s`.
pub fn trim_chars(s: &Vec<char>) -> (r: Vec<char>)
    ensures
        r@ == trim(s@),
{
    let mut start: usize = 0;
    assert(s@.skip(0) =~= s@);
    while start < s.len() && char_is_whitespace(s[start])
        invariant
            start <= s.len(),
            trim_start(s@.skip(start as int)) == trim_start(s@),
        decreases s.len() - start,
    {
        assert(s@.skip(start as int).drop_first() =~= s@.skip(start + 1));
        start = start + 1;
    }
    let ghost rest = s@.skip(start as int);
    assert(trim_start(rest) == rest);
    let mut end: usize = s.len();
    while end > start && char_is_whitespace(s[end - 1])
        invariant
            start <= end <= s.len(),
            rest == s@.skip(start as int),
            trim_end(s@.subrange(start as int, end as int)) == trim_end(rest),
        decreases end,
    {
        assert(s@.subrange(start as int, end as int).drop_last() =~= s@.subrange(
            start as int,
            end - 1,
        ));
        end = end - 1;
    }
    assert(s@.subrange(start as int, s.len() as int) =~= rest);
    let mut r: Vec<char> = Vec::new();
    for i in start..end
        invariant
            start <= end <= s.len(),
            r@ == s@.subrange(start as int, i as int),
    {
        r.push(s[i]);
        assert(s@.subrange(start as int, i + 1) =~= s@.subrange(start as int, i as int).push(s@[i as int]));
    }
    r
}

/// The pieces of `s` between the separators `sep`, as `str::split` yields
/// them: `k` separators give `k + 1` pieces, some of them perhaps empty.
pub open spec fn split_on(s: Seq<char>, sep: char) -> Seq<Seq<char>>
    decreases s.len(),
{
    if s.len() == 0 {
        seq![Seq::empty()]
    } else {
        let before = split_on(s.drop_last(), sep);
        if s.last() == sep {
            before.push(Seq::empty())
        } else {
            before.update(before.len() - 1, before.last().push(s.last()))
        }
    }
}

/// `split_on` of `s`.
pub fn split_chars(s: &Vec<char>, sep: char) -> (pieces: Vec<Vec<char>>)
    ensures
        pieces@.len() == split_on(s@, sep).len(),
        forall|i: int| 0 <= i < pieces@.len() ==> #[trigger] pieces@[i]@ == split_on(s@, sep)[i],
{
    let mut done: Vec<Vec<char>> = Vec::new();
    let mut current: Vec<char> = Vec::new();
    assert(s@.take(0) =~= Seq::<char>::empty());
    for i in 0..s.len()
        invariant
            split_on(s@.take(i as int), sep).len() == done@.len() + 1,
            forall|k: int| 0 <= k < done@.len() ==> #[trigger] done@[k]@ == split_on(s@.take(i as int), sep)[k],
            current@ == split_on(s@.take(i as int), sep).last(),
    {
        let ghost prev = split_on(s@.take(i as int), sep);
        assert(s@.take(i + 1).drop_last() =~= s@.take(i as int));
        assert(s@.take(i + 1).last() == s@[i as int]);
        if s[i] == sep {
            let finished = current;
            done.push(finished);
            current = Vec::new();
            assert(split_on(s@.take(i + 1), sep) == prev.push(Seq::empty()));
        } else {
            current.push(s[i]);
        }
    }
    assert(s@.take(s.len() as int) =~= s@);
    done.push(current);
    done
}

/// The name and value of the cookie that cookie's `Cookie::parse` reads from
/// `text`, or `None` where it refuses the text.
pub uninterp spec fn cookie_name_value(text: Seq<char>) -> Option<(Seq<char>, Seq<char>)>;

/// cookie's `Cookie::parse`, the cookie taken as its name and value.
#[verifier::external_body]
fn parse_cookie(text: &str) -> (pair: Option<(String, String)>)
    ensures
        pair is None <==> cookie_name_value(text@) is None,
        pair matches Some(p) ==> cookie_name_value(text@) == Some((p.0@, p.1@)),
{
    match cookie::Cookie::parse(text.to_string()) {
        Ok(c) => Some((c.name().to_string(), c.value().to_string())),
        Err(_) => None,
    }
}

#[verifier::external_type_specification]
#[verifier::external_body]
pub struct ExCookieJar(cookie::CookieJar);

/// The cookies that a jar was seeded with: name to value.
pub uninterp spec fn jar_seeded(jar: cookie::CookieJar) -> Map<Seq<char>, Seq<char>>;

/// Whether a jar holds changes made after it was seeded (`add`, `remove`).
pub uninterp spec fn jar_has_delta(jar: cookie::CookieJar) -> bool;

/// cookie's `CookieJar::new`: no cookies and no changes.
#[verifier::external_body]
fn jar_new() -> (fresh: cookie::CookieJar)
    ensures
        jar_seeded(fresh) =~= Map::empty(),
        jar_has_delta(fresh) == false,
{
    cookie::CookieJar::new()
}

/// cookie's `CookieJar::add_original` with `Cookie::new(name, value)`: an
/// seeded cookie of the same name is replaced; the changes are untouched.
#[verifier::external_body]
fn jar_seed(jar: &mut cookie::CookieJar, name: String, value: String)
    ensures
        jar_seeded(*final(jar)) == jar_seeded(*old(jar)).insert(name@, value@),
        jar_has_delta(*final(jar)) == jar_has_delta(*old(jar)),
{
    jar.add_original(cookie::Cookie::new(name, value))
}

/// cookie's `CookieJar::get` and `Cookie::value`: in a jar without changes,
/// the value of the seeded cookie named `name`.
#[verifier::external_body]
fn jar_value(jar: &cookie::CookieJar, name: &str) -> (value: Option<String>)
    ensures
        !jar_has_delta(*jar) ==> (value is Some <==> jar_seeded(*jar).contains_key(name@)),
        !jar_has_delta(*jar) ==> (value matches Some(v) ==> jar_seeded(*jar)[name@] == v@),
{
    jar.get(name).map(|c| c.value().to_string())
}

/// The cookies of a `Cookie` header's text: each piece between `;`, trimmed,
/// that parses as a cookie, later ones replacing earlier ones of the same name.
pub open spec fn cookies_of(pieces: Seq<Seq<char>>) -> Map<Seq<char>, Seq<char>>
    decreases pieces.len(),
{
    if pieces.len() == 0 {
        Map::empty()
    } else {
        let before = cookies_of(pieces.drop_last());
        match cookie_name_value(trim(pieces.last())) {
            Some(p) => before.insert(p.0, p.1),
            None => before,
        }
    }
}

/// The text of a `Cookie` header: empty where it is not visible ASCII.
pub open spec fn cookie_header_text(bytes: Seq<u8>) -> Seq<char> {
    match header_text(bytes) {
        Some(t) => t,
        None => Seq::empty(),
    }
}

/// The name of the cookie that carries the user's id.
pub open spec fn user_cookie_name() -> Seq<char> {
    "user_id"@
}

/// The user that the site's `user_id` cookie names, given the bytes of the
/// `Cookie` header where the request has one: `Err(400)` where there is no
/// such header or no such cookie. `None` where the cookie's value is not a
/// UUID, which the site does not recover from.
pub fn user_id_from_cookie_header(header: Option<&[u8]>) -> (r: Option<Result<UserId, u16>>)
    ensures
        header is None ==> r == Some(Err::<UserId, u16>(400)),
        header matches Some(b) ==> ({
            let jar = cookies_of(split_on(cookie_header_text(b@), ';'));
            &&& !jar.contains_key(user_cookie_name()) ==> r == Some(Err::<UserId, u16>(400))
            &&& jar.contains_key(user_cookie_name()) ==> match uuid_from_text(jar[user_cookie_name()]) {
                Some(u) => r == Some(Ok::<UserId, u16>(UserId(u))),
                None => r is None,
            }
        }),
{
    match header {
        None => Some(Err(400)),
        Some(bytes) => {
            let text = match header_value_text(bytes) {
                Some(t) => t,
                None => String::new(),
            };
            let chars = chars_of(text.as_str());
            let pieces = split_chars(&chars, ';');
            let ghost all = split_on(chars@, ';');
            let mut jar = jar_new();
            for i in 0..pieces.len()
                invariant
                    pieces@.len() == all.len(),
                    forall|k: int| 0 <= k < pieces@.len() ==> #[trigger] pieces@[k]@ == all[k],
                    jar_seeded(jar) == cookies_of(all.take(i as int)),
                    !jar_has_delta(jar),
            {
                assert(all.take(i + 1).drop_last() =~= all.take(i as int));
                assert(all.take(i + 1).last() == all[i as int]);
                let piece = trim_chars(&pieces[i]);
                let piece_text = crate::text::string_from_char_prefix(&piece, piece.len());
                assert(piece@.take(piece.len() as int) =~= piece@);
                match parse_cookie(piece_text.as_str()) {
                    Some((name, value)) => jar_seed(&mut jar, name, value),
                    None => {},
                }
            }
            assert(all.take(pieces.len() as int) =~= all);
            match jar_value(&jar, "user_id") {
                None => Some(Err(400)),
                Some(value) => match parse_uuid(value.as_str()) {
                    Some(id) => Some(Ok(UserId(id))),
                    None => None,
                },
            }
        },
    }
}

} // verus!
