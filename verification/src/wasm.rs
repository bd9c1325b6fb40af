//! The browser side of the single-page app: a request that the service worker
//! hands over is checked piece by piece before it becomes an HTTP request, and
//! a response is turned back into a status line, text headers and a text body.
use vstd::prelude::*;
use vstd::utf8::{decode_utf8, valid_utf8};
use crate::identity::header_text;
use crate::text::decimal;

verus! {

/// The headers that a list of pairs stands for, as a map filled in order:
/// a later pair replaces an earlier one of the same name.
pub open spec fn header_map(pairs: Seq<(String, String)>) -> Map<Seq<char>, Seq<char>>
    decreases pairs.len(),
{
    if pairs.len() == 0 {
        Map::empty()
    } else {
        header_map(pairs.drop_last()).insert(pairs.last().0@, pairs.last().1@)
    }
}

/// No later pair has the name of pair `i`.
pub open spec fn is_last_of_name(pairs: Seq<(String, String)>, i: int) -> bool {
    forall|j: int| i < j < pairs.len() ==> #[trigger] pairs[j].0@ != pairs[i].0@
}

/// The pairs among the first `n` that are last of their name, in order.
pub open spec fn effective_upto(pairs: Seq<(String, String)>, n: int) -> Seq<(String, String)> {
    Seq::new(n as nat, |i: int| i).filter(|i: int| is_last_of_name(pairs, i)).map_values(
        |i: int| pairs[i],
    )
}

/// The pairs that are last of their name, in order: one per name, with the
/// value that `header_map` gives it.
pub open spec fn effective_pairs(pairs: Seq<(String, String)>) -> Seq<(String, String)> {
    effective_upto(pairs, pairs.len() as int)
}

/// `effective_pairs` of `pairs`.
fn last_of_each_name(pairs: &Vec<(String, String)>) -> (r: Vec<(String, String)>)
    ensures
        r@ == effective_pairs(pairs@),
{
    let mut out: Vec<(String, String)> = Vec::new();
    for i in 0..pairs.len()
        invariant
            out@ == effective_upto(pairs@, i as int),
    {
        let mut last = true;
        let mut j: usize = i + 1;
        while j < pairs.len()
            invariant
                i < pairs.len(),
                i + 1 <= j <= pairs.len(),
                last == forall|k: int| i < k < j ==> #[trigger] pairs@[k].0@ != pairs@[i as int].0@,
            decreases pairs.len() - j,
        {
            if pairs[j].0 == pairs[i].0 {
                last = false;
            }
            j = j + 1;
        }
        let ghost idx_before = Seq::new(i as nat, |k: int| k);
        let ghost idx_after = Seq::new((i + 1) as nat, |k: int| k);
        assert(idx_after.drop_last() =~= idx_before);
        assert(idx_after.last() == i);
        reveal(Seq::filter);
        if last {
            let entry = (pairs[i].0.clone(), pairs[i].1.clone());
            assert(entry == pairs@[i as int]);
            out.push(entry);
            assert(effective_upto(pairs@, i + 1) =~= effective_upto(pairs@, i as int).push(pairs@[i as int]));
        } else {
            assert(effective_upto(pairs@, i + 1) =~= effective_upto(pairs@, i as int));
        }
    }
    out
}

/// A request as the service worker hands it over.
#[derive(Debug, Clone)]
pub struct WasmRequest {
    pub method: String,
    pub url: String,
    /// Header names and values; a later pair replaces an earlier one of the
    /// same name.
    pub headers: Vec<(String, String)>,
    pub body: Option<String>,
}

impl WasmRequest {
    pub fn new(method: String, url: String, headers: Vec<(String, String)>, body: Option<String>) -> (r: WasmRequest)
        ensures
            r.method == method,
            r.url == url,
            r.headers == headers,
            r.body == body,
    {
        WasmRequest { method, url, headers, body }
    }

    pub fn uri(&self) -> (u: String)
        ensures
            u@ == self.url@,
    {
        self.url.clone()
    }

    pub fn method(&self) -> (m: String)
        ensures
            m@ == self.method@,
    {
        self.method.clone()
    }

    /// The body; the request must have one.
    pub fn body(&self) -> (b: String)
        requires
            self.body is Some,
        ensures
            b@ == self.body.unwrap()@,
    {
        match &self.body {
            Some(b) => b.clone(),
            None => String::new(),
        }
    }

    pub fn set_body(&mut self, body: String)
        ensures
            final(self).body == Some(body),
            final(self).method == old(self).method,
            final(self).url == old(self).url,
            final(self).headers == old(self).headers,
    {
        self.body = Some(body);
    }

    /// The headers, one pair per name.
    pub fn headers(&self) -> (h: Vec<(String, String)>)
        ensures
            h@ == effective_pairs(self.headers@),
    {
        last_of_each_name(&self.headers)
    }

    /// Sets header `key` to `value`, replacing a value it had.
    pub fn headers_append(&mut self, key: String, value: String)
        ensures
            header_map(final(self).headers@) == header_map(old(self).headers@).insert(key@, value@),
            final(self).method == old(self).method,
            final(self).url == old(self).url,
            final(self).body == old(self).body,
    {
        let ghost before = self.headers@;
        self.headers.push((key, value));
        assert(self.headers@.drop_last() =~= before);
    }
}

/// A character that http's table of method characters holds.
pub open spec fn method_char(c: char) -> bool {
    c == '!' || c == '*' || c == '+' || c == '-' || c == '.' || ('0' <= c && c <= '9') || ('A' <= c
        && c <= 'Z') || c == '^' || c == '_' || c == '`' || ('a' <= c && c <= 'z') || c == '|' || c
        == '~'
}

/// Whether http's `Method::from_str` accepts `text`: it is not empty and
/// every byte is a method character (no byte of a non-ASCII character is).
pub open spec fn method_accepted(text: Seq<char>) -> bool {
    text.len() > 0 && forall|i: int| 0 <= i < text.len() ==> method_char(#[trigger] text[i])
}

/// Whether http's `Uri` accepts `text` (`Uri::try_from(&String)`).
pub uninterp spec fn uri_accepted(text: Seq<char>) -> bool;

/// A character that http's table of header-name characters holds.
pub open spec fn header_name_char(c: char) -> bool {
    method_char(c) || c == '"' || c == '#' || c == '$' || c == '%' || c == '&' || c == '\''
}

/// Whether http's `HeaderName::from_bytes` accepts the bytes of `text`: one
/// to 65535 bytes, each a header-name character (no byte of a non-ASCII
/// character is, so the bytes are the characters).
pub open spec fn header_name_accepted(text: Seq<char>) -> bool {
    1 <= text.len() <= 65535 && forall|i: int| 0 <= i < text.len() ==> header_name_char(
        #[trigger] text[i],
    )
}

/// A character that a header value may hold: every one but the control
/// characters other than tab (its UTF-8 bytes are then all accepted).
pub open spec fn header_value_char(c: char) -> bool {
    ((c as u32) >= 32 && (c as u32) != 127) || (c as u32) == 9
}

/// http's `Method::from_str`, taken as whether it accepts `text`: the empty
/// text is refused, and every byte goes through the table of method
/// characters, a byte outside it being refused.
#[verifier::external_body]
fn method_ok(text: &str) -> (ok: bool)
    ensures
        ok == method_accepted(text@),
{
    <http::Method as std::str::FromStr>::from_str(text).is_ok()
}

/// http's `Uri::try_from(&String)`, taken as whether it accepts `text`.
#[verifier::external_body]
fn uri_ok(text: &String) -> (ok: bool)
    ensures
        ok == uri_accepted(text@),
{
    <http::Uri as std::convert::TryFrom<&String>>::try_from(text).is_ok()
}

/// http's `HeaderName::from_bytes` on the bytes of `text`, taken as whether
/// it accepts them: no bytes or more than 65535 are refused, and every byte
/// goes through the table of header-name characters, a byte outside it
/// being refused.
#[verifier::external_body]
fn header_name_ok(text: &str) -> (ok: bool)
    ensures
        ok == header_name_accepted(text@),
{
    http::header::HeaderName::from_bytes(text.as_bytes()).is_ok()
}

/// http's `HeaderValue::from_str`: it accepts `text` where every byte is at
/// least 32 and not 127, or a tab; a character of more than one UTF-8 byte
/// has only bytes of 128 and above.
#[verifier::external_body]
fn header_value_ok(text: &str) -> (ok: bool)
    ensures
        ok == header_value_accepted(text@),
{
    http::header::HeaderValue::from_str(text).is_ok()
}

/// The parts of a request that passed every check, ready to be built.
#[derive(Debug, Clone)]
pub struct RequestParts {
    pub method: String,
    pub uri: String,
    pub headers: Vec<(String, String)>,
    pub body: Option<String>,
}

/// Why a request could not be built.
#[derive(Debug, Clone)]
pub enum RequestError {
    InvalidMethod,
    InvalidUri,
    InvalidHeaderName(String),
    InvalidHeaderValue(String),
}

/// A header value that http's `HeaderValue::from_str` accepts.
pub open spec fn header_value_accepted(v: Seq<char>) -> bool {
    forall|c: int| 0 <= c < v.len() ==> header_value_char(#[trigger] v[c])
}

/// A header whose name and value http accepts.
pub open spec fn header_pair_ok(p: (String, String)) -> bool {
    header_name_accepted(p.0@) && header_value_accepted(p.1@)
}

/// Checks a request: the method, then the URL, then each header name and
/// value, one header per name. The first that is refused is the error; a
/// request that passes keeps its method, URL, body, and one header per name.
pub fn wasm_request_to_axum_request(wasm_request: &WasmRequest) -> (r: Result<RequestParts, RequestError>)
    ensures
        !method_accepted(wasm_request.method@) ==> r matches Err(RequestError::InvalidMethod),
        r matches Err(RequestError::InvalidMethod) ==> !method_accepted(wasm_request.method@),
        r matches Err(RequestError::InvalidUri) ==> method_accepted(wasm_request.method@) && !uri_accepted(
            wasm_request.url@,
        ),
        r matches Err(RequestError::InvalidHeaderName(_)) ==> method_accepted(wasm_request.method@)
            && uri_accepted(wasm_request.url@),
        r matches Err(RequestError::InvalidHeaderValue(_)) ==> method_accepted(wasm_request.method@)
            && uri_accepted(wasm_request.url@),
        method_accepted(wasm_request.method@) && !uri_accepted(wasm_request.url@) ==> r matches Err(
            RequestError::InvalidUri,
        ),
        r matches Err(RequestError::InvalidHeaderName(name)) ==> exists|k: int|
            0 <= k < effective_pairs(wasm_request.headers@).len() && #[trigger] effective_pairs(
                wasm_request.headers@,
            )[k].0@ == name@ && !header_name_accepted(name@) && (forall|m: int|
                0 <= m < k ==> header_pair_ok(#[trigger] effective_pairs(wasm_request.headers@)[m])),
        r matches Err(RequestError::InvalidHeaderValue(name)) ==> exists|k: int|
            0 <= k < effective_pairs(wasm_request.headers@).len() && #[trigger] effective_pairs(
                wasm_request.headers@,
            )[k].0@ == name@ && header_name_accepted(name@) && !header_value_accepted(
                effective_pairs(wasm_request.headers@)[k].1@,
            ) && (forall|m: int|
                0 <= m < k ==> header_pair_ok(#[trigger] effective_pairs(wasm_request.headers@)[m])),
        r is Ok <==> ({
            &&& method_accepted(wasm_request.method@)
            &&& uri_accepted(wasm_request.url@)
            &&& forall|k: int|
                0 <= k < effective_pairs(wasm_request.headers@).len() ==> header_pair_ok(
                    #[trigger] effective_pairs(wasm_request.headers@)[k],
                )
        }),
        r matches Ok(p) ==> p.method@ == wasm_request.method@ && p.uri@ == wasm_request.url@ && p.body
            == wasm_request.body && p.headers@ == effective_pairs(wasm_request.headers@),
{
    if !method_ok(wasm_request.method.as_str()) {
        return Err(RequestError::InvalidMethod);
    }
    if !uri_ok(&wasm_request.url) {
        return Err(RequestError::InvalidUri);
    }
    let headers = last_of_each_name(&wasm_request.headers);
    for k in 0..headers.len()
        invariant
            method_accepted(wasm_request.method@),
            uri_accepted(wasm_request.url@),
            headers@ == effective_pairs(wasm_request.headers@),
            forall|m: int| 0 <= m < k ==> header_pair_ok(#[trigger] headers@[m]),
    {
        if !header_name_ok(headers[k].0.as_str()) {
            return Err(RequestError::InvalidHeaderName(headers[k].0.clone()));
        }
        if !header_value_ok(headers[k].1.as_str()) {
            return Err(RequestError::InvalidHeaderValue(headers[k].0.clone()));
        }
    }
    let body = match &wasm_request.body {
        Some(b) => Some(b.clone()),
        None => None,
    };
    Ok(RequestParts { method: wasm_request.method.clone(), uri: wasm_request.url.clone(), headers, body })
}

/// The reason phrase that http gives status `code`, where it has one.
pub uninterp spec fn canonical_reason(code: u16) -> Option<Seq<char>>;

/// http's `StatusCode::from_u16` and its `Display`: the code in decimal, a
/// space, and the reason phrase, or `<unknown status code>` where there is none.
#[verifier::external_body]
fn status_line(code: u16) -> (line: String)
    requires
        100 <= code < 1000,
    ensures
        line@ == decimal(code as int) + " "@ + match canonical_reason(code) {
            Some(r) => r,
            None => "<unknown status code>"@,
        },
{
    match http::StatusCode::from_u16(code) {
        Ok(status) => status.to_string(),
        Err(_) => String::new(),
    }
}

/// std's `String::from_utf8`: the text that `bytes` encode, where they are
/// valid UTF-8.
#[verifier::external_body]
fn utf8_text(bytes: Vec<u8>) -> (text: Option<String>)
    ensures
        text is Some <==> valid_utf8(bytes@),
        text matches Some(t) ==> t@ == decode_utf8(bytes@),
{
    String::from_utf8(bytes).ok()
}

/// A response as the service worker takes it back.
#[derive(Debug, Clone)]
pub struct WasmResponse {
    pub status_code: String,
    /// Header names and values; a later pair replaces an earlier one of the
    /// same name.
    pub headers: Vec<(String, String)>,
    pub body: Option<String>,
}

impl WasmResponse {
    pub fn status_code(&self) -> (s: String)
        ensures
            s@ == self.status_code@,
    {
        self.status_code.clone()
    }

    pub fn body(&self) -> (b: Option<String>)
        ensures
            b == self.body,
    {
        match &self.body {
            Some(b) => Some(b.clone()),
            None => None,
        }
    }

    /// The headers, one pair per name.
    pub fn headers(&self) -> (h: Vec<(String, String)>)
        ensures
            h@ == effective_pairs(self.headers@),
    {
        last_of_each_name(&self.headers)
    }
}

/// The headers of a response that read as text, in order, each value as text.
pub open spec fn text_headers(headers: Seq<(String, Vec<u8>)>) -> Seq<(Seq<char>, Seq<char>)>
    decreases headers.len(),
{
    if headers.len() == 0 {
        Seq::empty()
    } else {
        let before = text_headers(headers.drop_last());
        match header_text(headers.last().1@) {
            Some(t) => before.push((headers.last().0@, t)),
            None => before,
        }
    }
}

pub open spec fn pair_views(pairs: Seq<(String, String)>) -> Seq<(Seq<char>, Seq<char>)> {
    pairs.map_values(|p: (String, String)| (p.0@, p.1@))
}

/// Why a response could not be handed back.
#[derive(Debug, Clone, Copy, PartialEq, Eq, Structural)]
pub enum ResponseError {
    /// The body is not valid UTF-8.
    BodyNotUtf8,
}

/// Turns a response (its status, its headers in order, the bytes of its body)
/// into what the service worker takes back: the status line, the headers
/// whose values read as text, and the body as text. `BodyNotUtf8` where the
/// body is not valid UTF-8.
pub fn axum_response_to_wasm_response(status: u16, headers: &Vec<(String, Vec<u8>)>, body: Vec<u8>) -> (r: Result<WasmResponse, ResponseError>)
    requires
        100 <= status < 1000,
    ensures
        r is Ok <==> valid_utf8(body@),
        r matches Ok(w) ==> ({
            &&& w.status_code@ == decimal(status as int) + " "@ + match canonical_reason(status) {
                Some(reason) => reason,
                None => "<unknown status code>"@,
            }
            &&& pair_views(w.headers@) == text_headers(headers@)
            &&& w.body matches Some(b) && b@ == decode_utf8(body@)
        }),
{
    let status_code = status_line(status);
    let mut out: Vec<(String, String)> = Vec::new();
    for i in 0..headers.len()
        invariant
            pair_views(out@) == text_headers(headers@.take(i as int)),
    {
        assert(headers@.take(i + 1).drop_last() =~= headers@.take(i as int));
        assert(headers@.take(i + 1).last() == headers@[i as int]);
        match crate::identity::header_value_text(headers[i].1.as_slice()) {
            Some(t) => {
                let ghost before = out@;
                out.push((headers[i].0.clone(), t));
                assert(pair_views(out@) =~= pair_views(before).push((headers@[i as int].0@, t@)));
            },
            None => {},
        }
    }
    assert(headers@.take(headers.len() as int) =~= headers@);
    match utf8_text(body) {
        Some(text) => Ok(WasmResponse { status_code, headers: out, body: Some(text) }),
        None => Err(ResponseError::BodyNotUtf8),
    }
}

} // verus!

verus! {

/// The value that the headers keep for a name is the value of the last pair
/// with that name, which is the pair that `effective_pairs` lists; a name is
/// kept exactly where some pair has it.
pub proof fn law_last_pair_wins(pairs: Seq<(String, String)>, i: int)
    requires
        0 <= i < pairs.len(),
        is_last_of_name(pairs, i),
    ensures
        header_map(pairs).contains_key(pairs[i].0@),
        header_map(pairs)[pairs[i].0@] == pairs[i].1@,
    decreases pairs.len(),
{
    if i < pairs.len() - 1 {
        let init = pairs.drop_last();
        assert(is_last_of_name(init, i)) by {
            assert forall|j: int| i < j < init.len() implies #[trigger] init[j].0@ != init[i].0@ by {
                assert(pairs[j].0@ != pairs[i].0@);
            }
        }
        law_last_pair_wins(init, i);
        assert(pairs[pairs.len() - 1].0@ != pairs[i].0@);
    }
}

/// Every name that the headers keep belongs to some pair.
pub proof fn law_kept_names_come_from_pairs(pairs: Seq<(String, String)>, name: Seq<char>)
    requires
        header_map(pairs).contains_key(name),
    ensures
        exists|i: int| 0 <= i < pairs.len() && is_last_of_name(pairs, i) && #[trigger] pairs[i].0@ == name,
    decreases pairs.len(),
{
    let n = pairs.len() - 1;
    if pairs[n].0@ == name {
        assert(is_last_of_name(pairs, n));
    } else {
        let init = pairs.drop_last();
        law_kept_names_come_from_pairs(init, name);
        let i = choose|i: int| 0 <= i < init.len() && is_last_of_name(init, i) && #[trigger] init[i].0@ == name;
        assert(pairs[i].0@ == name);
        assert(is_last_of_name(pairs, i)) by {
            assert forall|j: int| i < j < pairs.len() implies #[trigger] pairs[j].0@ != pairs[i].0@ by {
                if j < n {
                    assert(init[j].0@ != init[i].0@);
                }
            }
        }
    }
}

} // verus!
