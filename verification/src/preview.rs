//! Markdown in the note pages: the title of a note in the list is the first
//! 20 bytes of the plain text of its Markdown, and a note is shown as the HTML
//! of its Markdown with every `<script` HTML block left out.
use vstd::prelude::*;
use crate::store::Note;
use crate::text::{chars_of, char_utf8_width, string_from_char_prefix, contains_chars, has_substring, utf8_len, utf8_width};

verus! {

/// Bytes that a title keeps of a note's plain text.
pub const TITLE_BYTES: usize = 20;

/// The events that pulldown-cmark yields for `markdown` parsed with
/// strikethrough enabled, each reduced to the text it carries: `Some(text)`
/// for a text or inline-code event, `None` for any other event.
pub uninterp spec fn markdown_text_events(markdown: Seq<char>) -> Seq<Option<Seq<char>>>;

/// The events that pulldown-cmark yields for `markdown` parsed with default
/// options, each reduced to the text of an HTML event: `Some(text)` for an
/// HTML event, `None` for any other event.
pub uninterp spec fn markdown_html_events(markdown: Seq<char>) -> Seq<Option<Seq<char>>>;

/// The HTML that pulldown-cmark's `push_html` writes for the events at the
/// positions `kept`, taken in that order, of `markdown` parsed with default
/// options.
pub uninterp spec fn markdown_html_of(markdown: Seq<char>, kept: Seq<usize>) -> Seq<char>;

pub open spec fn fragment_views(v: Seq<Option<String>>) -> Seq<Option<Seq<char>>> {
    v.map_values(|o: Option<String>| match o {
        Some(s) => Some(s@),
        None => None,
    })
}

/// pulldown-cmark's `Parser::new_ext` with strikethrough on, each event
/// reduced to its text where it is a text or inline-code event.
#[verifier::external_body]
fn text_events(markdown: &str) -> (v: Vec<Option<String>>)
    ensures
        fragment_views(v@) == markdown_text_events(markdown@),
{
    let mut options = pulldown_cmark::Options::empty();
    options.insert(pulldown_cmark::Options::ENABLE_STRIKETHROUGH);
    pulldown_cmark::Parser::new_ext(markdown, options).map(|event| match event {
        pulldown_cmark::Event::Text(text) => Some(text.to_string()),
        pulldown_cmark::Event::Code(code) => Some(code.to_string()),
        _ => None,
    }).collect()
}

/// pulldown-cmark's `Parser::new`, each event reduced to its text where it
/// is an HTML event.
#[verifier::external_body]
fn html_events(markdown: &str) -> (v: Vec<Option<String>>)
    ensures
        fragment_views(v@) == markdown_html_events(markdown@),
{
    pulldown_cmark::Parser::new(markdown).map(|event| match event {
        pulldown_cmark::Event::Html(text) => Some(text.to_string()),
        _ => None,
    }).collect()
}

/// pulldown-cmark's `Parser::new` on `markdown` and `html::push_html` on the
/// events at the positions `kept`, in that order.
#[verifier::external_body]
fn render_events(markdown: &str, kept: &Vec<usize>) -> (html: String)
    requires
        forall|k: int| 0 <= k < kept@.len() ==> #[trigger] kept@[k] < markdown_html_events(markdown@).len(),
    ensures
        html@ == markdown_html_of(markdown@, kept@),
{
    let events: Vec<pulldown_cmark::Event> = pulldown_cmark::Parser::new(markdown).collect();
    let mut html = String::new();
    pulldown_cmark::html::push_html(&mut html, kept.iter().map(|i| events[*i].clone()));
    html
}

/// An event is shown unless it is an HTML event whose text contains `<script`.
pub open spec fn shown(event: Option<Seq<char>>) -> bool {
    match event {
        Some(h) => !has_substring(h, "<script"@),
        None => true,
    }
}

/// The positions among the first `n` events of the events that are shown.
pub open spec fn shown_upto(events: Seq<Option<Seq<char>>>, n: int) -> Seq<usize> {
    Seq::new(n as nat, |i: int| i).filter(|i: int| shown(events[i])).map_values(|i: int| i as usize)
}

/// The positions of the events that are shown, in order.
pub open spec fn shown_positions(events: Seq<Option<Seq<char>>>) -> Seq<usize> {
    shown_upto(events, events.len() as int)
}

/// The HTML of `markdown` with its `<script` HTML events left out.
pub open spec fn safe_markdown_html(markdown: Seq<char>) -> Seq<char> {
    markdown_html_of(markdown, shown_positions(markdown_html_events(markdown)))
}

/// An event of a note's Markdown is shown unless it is an HTML event whose
/// text contains `<script`; `html` is the text of an HTML event, `None` for
/// any other event.
pub fn keep_markdown_event(html: Option<&str>) -> (keep: bool)
    ensures
        keep == match html {
            Some(h) => !has_substring(h@, "<script"@),
            None => true,
        },
{
    match html {
        Some(h) => {
            let text = chars_of(h);
            let needle = chars_of("<script");
            !contains_chars(&text, &needle)
        },
        None => true,
    }
}

/// The HTML of a note's Markdown, with the HTML events that hold `<script`
/// left out.
pub fn content_to_markdown(content: &str) -> (html: String)
    ensures
        html@ == safe_markdown_html(content@),
{
    let events = html_events(content);
    let ghost evs = fragment_views(events@);
    let mut kept: Vec<usize> = Vec::new();
    for i in 0..events.len()
        invariant
            evs == fragment_views(events@),
            kept@ == shown_upto(evs, i as int),
            forall|k: int| 0 <= k < kept@.len() ==> #[trigger] kept@[k] < i,
    {
        let html = match &events[i] {
            Some(t) => Some(t.as_str()),
            None => None,
        };
        let keep = keep_markdown_event(html);
        let ghost before = Seq::new(i as nat, |j: int| j);
        let ghost after = Seq::new((i + 1) as nat, |j: int| j);
        assert(after.drop_last() =~= before);
        assert(after.last() == i);
        assert(keep == shown(evs[i as int]));
        reveal(Seq::filter);
        if keep {
            kept.push(i);
            assert(shown_upto(evs, i + 1) =~= shown_upto(evs, i as int).push(i));
        } else {
            assert(shown_upto(evs, i + 1) =~= shown_upto(evs, i as int));
        }
    }
    render_events(content, &kept)
}

/// Every event that the rendered HTML is made of is shown, each at most once
/// and in the order of the Markdown, and every shown event is among them: an
/// HTML event whose text contains `<script` is exactly what is left out.
pub proof fn law_script_events_left_out(events: Seq<Option<Seq<char>>>)
    requires
        events.len() <= usize::MAX,
    ensures
        forall|k: int|
            0 <= k < shown_positions(events).len() ==> #[trigger] shown_positions(events)[k] < events.len()
                && shown(events[shown_positions(events)[k] as int]),
        forall|k: int, m: int|
            0 <= k < m < shown_positions(events).len() ==> shown_positions(events)[k] < shown_positions(
                events,
            )[m],
        forall|i: int| 0 <= i < events.len() && shown(events[i]) ==> shown_positions(events).contains(
            i as usize,
        ),
{
    lemma_shown_upto(events, events.len() as int);
}

proof fn lemma_shown_upto(events: Seq<Option<Seq<char>>>, n: int)
    requires
        0 <= n <= events.len(),
        events.len() <= usize::MAX,
    ensures
        forall|k: int|
            0 <= k < shown_upto(events, n).len() ==> #[trigger] shown_upto(events, n)[k] < n && shown(
                events[shown_upto(events, n)[k] as int],
            ),
        forall|k: int, m: int|
            0 <= k < m < shown_upto(events, n).len() ==> shown_upto(events, n)[k] < shown_upto(
                events,
                n,
            )[m],
        forall|i: int| 0 <= i < n && shown(events[i]) ==> shown_upto(events, n).contains(i as usize),
    decreases n,
{
    reveal(Seq::filter);
    if n == 0 {
        assert(shown_upto(events, 0) =~= Seq::<usize>::empty());
    } else {
        lemma_shown_upto(events, n - 1);
        let before = Seq::new((n - 1) as nat, |j: int| j);
        let after = Seq::new(n as nat, |j: int| j);
        assert(after.drop_last() =~= before);
        assert(after.last() == n - 1);
        reveal(Seq::filter);
        let prev = shown_upto(events, n - 1);
        if shown(events[n - 1]) {
            assert(shown_upto(events, n) =~= prev.push((n - 1) as usize));
            assert forall|i: int| 0 <= i < n && shown(events[i]) implies shown_upto(events, n).contains(
                i as usize,
            ) by {
                if i < n - 1 {
                    let k = choose|k: int| 0 <= k < prev.len() && prev[k] == i as usize;
                    assert(shown_upto(events, n)[k] == i as usize);
                } else {
                    assert(shown_upto(events, n)[prev.len() as int] == i as usize);
                }
            }
        } else {
            assert(shown_upto(events, n) =~= prev);
        }
    }
}

/// The text that the title is cut from: the text of the events in order,
/// stopping after the first event at which it reaches `TITLE_BYTES` bytes.
pub open spec fn gathered_from(events: Seq<Option<Seq<char>>>, acc: Seq<char>) -> Seq<char>
    decreases events.len(),
{
    if events.len() == 0 {
        acc
    } else {
        let next = match events[0] {
            Some(t) => acc + t,
            None => acc,
        };
        if utf8_len(next) >= TITLE_BYTES {
            next
        } else {
            gathered_from(events.drop_first(), next)
        }
    }
}

pub open spec fn gathered_text(events: Seq<Option<Seq<char>>>) -> Seq<char> {
    gathered_from(events, Seq::empty())
}

/// Cutting `s` to `TITLE_BYTES` bytes keeps whole characters: `s` is no
/// longer, or some prefix of it takes exactly that many bytes.
pub open spec fn cut_fits(s: Seq<char>) -> bool {
    utf8_len(s) <= TITLE_BYTES || exists|k: int| 0 <= k <= s.len() && #[trigger] utf8_len(s.take(k))
        == TITLE_BYTES
}

/// `s` cut to its first `TITLE_BYTES` bytes.
pub open spec fn cut_to_title(s: Seq<char>) -> Seq<char> {
    if utf8_len(s) <= TITLE_BYTES {
        s
    } else {
        s.take(choose|k: int| 0 <= k <= s.len() && #[trigger] utf8_len(s.take(k)) == TITLE_BYTES)
    }
}

/// The title of a note whose Markdown is `markdown`, where `cut_fits` holds.
pub open spec fn title_of(markdown: Seq<char>) -> Seq<char> {
    cut_to_title(gathered_text(markdown_text_events(markdown)))
}

proof fn lemma_utf8_len_concat(a: Seq<char>, b: Seq<char>)
    ensures
        utf8_len(a + b) == utf8_len(a) + utf8_len(b),
    decreases b.len(),
{
    if b.len() == 0 {
        assert(a + b =~= a);
    } else {
        lemma_utf8_len_concat(a, b.drop_last());
        assert((a + b).drop_last() =~= a + b.drop_last());
    }
}

proof fn lemma_utf8_len_take_step(s: Seq<char>, i: int)
    requires
        0 <= i < s.len(),
    ensures
        utf8_len(s.take(i + 1)) == utf8_len(s.take(i)) + utf8_width(s[i]),
{
    assert(s.take(i + 1).drop_last() =~= s.take(i));
}

proof fn lemma_utf8_len_monotone(s: Seq<char>, i: int, j: int)
    requires
        0 <= i <= j <= s.len(),
    ensures
        utf8_len(s.take(i)) + (j - i) <= utf8_len(s.take(j)),
    decreases j - i,
{
    if i < j {
        lemma_utf8_len_monotone(s, i, j - 1);
        lemma_utf8_len_take_step(s, j - 1);
    }
}

/// `min(utf8_len(s), cap)`.
fn utf8_len_capped(s: &Vec<char>, cap: usize) -> (n: usize)
    ensures
        n == if utf8_len(s@) < cap { utf8_len(s@) } else { cap as nat },
{
    let mut n: usize = 0;
    for i in 0..s.len()
        invariant
            n == if utf8_len(s@.take(i as int)) < cap { utf8_len(s@.take(i as int)) } else { cap as nat },
    {
        proof {
            lemma_utf8_len_take_step(s@, i as int);
        }
        let w = char_utf8_width(s[i]);
        if n < cap {
            if w >= cap - n {
                n = cap;
            } else {
                n = n + w;
            }
        }
    }
    assert(s@.take(s.len() as int) =~= s@);
    n
}

/// The text of the events in order, up to and including the first event at
/// which it reaches `TITLE_BYTES` bytes.
pub fn gather_text(events: &Vec<Option<String>>) -> (text: String)
    ensures
        text@ == gathered_text(fragment_views(events@)),
{
    let ghost evs = fragment_views(events@);
    let mut text = String::new();
    let mut reached: usize = 0;
    let mut i: usize = 0;
    assert(evs.skip(0) =~= evs);
    while i < events.len()
        invariant
            evs == fragment_views(events@),
            i <= events.len(),
            reached == utf8_len(text@),
            reached < TITLE_BYTES,
            gathered_from(evs.skip(i as int), text@) == gathered_text(evs),
        decreases events.len() - i,
    {
        let ghost before = text@;
        assert(evs.skip(i as int).drop_first() =~= evs.skip(i + 1));
        assert(evs.skip(i as int)[0] == evs[i as int]);
        match &events[i] {
            Some(t) => {
                text.append(t.as_str());
                let chars = chars_of(t.as_str());
                let added = utf8_len_capped(&chars, TITLE_BYTES);
                proof {
                    lemma_utf8_len_concat(before, t@);
                }
                if added >= TITLE_BYTES - reached {
                    return text;
                }
                reached = reached + added;
            },
            None => {},
        }
        i = i + 1;
    }
    assert(evs.skip(i as int) =~= Seq::<Option<Seq<char>>>::empty());
    text
}

/// Whether cutting `text` to `TITLE_BYTES` bytes keeps whole characters.
pub fn title_cut_fits(text: &str) -> (fits: bool)
    ensures
        fits == cut_fits(text@),
{
    let s = chars_of(text);
    let (k, total) = title_cut_point(&s);
    proof {
        assert(s@.take(s@.len() as int) =~= s@);
        if total <= TITLE_BYTES && total == TITLE_BYTES {
            assert(utf8_len(s@.take(k as int)) == TITLE_BYTES);
        }
        if total > TITLE_BYTES {
            lemma_utf8_len_monotone(s@, k as int, s@.len() as int);
            assert forall|j: int| 0 <= j <= s@.len() implies #[trigger] utf8_len(s@.take(j)) != TITLE_BYTES by {
                if j >= k {
                    lemma_utf8_len_monotone(s@, k as int, j);
                } else {
                    lemma_utf8_len_monotone(s@, j, k as int - 1);
                    lemma_utf8_len_take_step(s@, k as int - 1);
                }
            }
        }
    }
    total <= TITLE_BYTES
}

/// The shortest prefix of `s` that reaches `TITLE_BYTES` bytes, or the whole
/// of `s`: its length and its byte count.
fn title_cut_point(s: &Vec<char>) -> (r: (usize, usize))
    ensures
        r.0 <= s.len(),
        r.1 == utf8_len(s@.take(r.0 as int)),
        r.1 < TITLE_BYTES ==> r.0 == s.len(),
        r.0 > 0 ==> utf8_len(s@.take(r.0 - 1)) < TITLE_BYTES,
        r.1 <= TITLE_BYTES + 3,
        r.1 <= TITLE_BYTES ==> (r.1 == TITLE_BYTES || r.0 == s.len()),
{
    let mut i: usize = 0;
    let mut total: usize = 0;
    while i < s.len() && total < TITLE_BYTES
        invariant
            i <= s.len(),
            total == utf8_len(s@.take(i as int)),
            total <= TITLE_BYTES + 3,
            i > 0 ==> utf8_len(s@.take(i - 1)) < TITLE_BYTES,
        decreases s.len() - i,
    {
        proof {
            lemma_utf8_len_take_step(s@, i as int);
        }
        total = total + char_utf8_width(s[i]);
        i = i + 1;
    }
    (i, total)
}

/// `text` cut to its first `TITLE_BYTES` bytes.
pub fn cut_title(text: &str) -> (title: String)
    requires
        cut_fits(text@),
    ensures
        title@ == cut_to_title(text@),
{
    let s = chars_of(text);
    let (k, total) = title_cut_point(&s);
    if utf8_len_capped(&s, TITLE_BYTES + 1) <= TITLE_BYTES {
        return text.to_owned();
    }
    proof {
        let c = choose|j: int| 0 <= j <= s@.len() && #[trigger] utf8_len(s@.take(j)) == TITLE_BYTES;
        if total != TITLE_BYTES {
            if c >= k {
                lemma_utf8_len_monotone(s@, k as int, c);
            } else {
                lemma_utf8_len_monotone(s@, c, k as int - 1);
                lemma_utf8_len_take_step(s@, k as int - 1);
            }
        }
        if c < k {
            lemma_utf8_len_monotone(s@, c, k as int - 1);
            lemma_utf8_len_take_step(s@, k as int - 1);
        } else if c > k {
            lemma_utf8_len_monotone(s@, k as int, c);
        }
    }
    string_from_char_prefix(&s, k)
}

/// The title of a note: the first `TITLE_BYTES` bytes of the plain text of its
/// Markdown. `None` where that cut would split a character.
pub fn first_20_chars(markdown_input: &str) -> (title: Option<String>)
    ensures
        title is Some <==> cut_fits(gathered_text(markdown_text_events(markdown_input@))),
        title matches Some(t) ==> t@ == title_of(markdown_input@),
{
    let events = text_events(markdown_input);
    let text = gather_text(&events);
    if title_cut_fits(text.as_str()) {
        Some(cut_title(text.as_str()))
    } else {
        None
    }
}

/// A note as the list of notes shows it: its id and its title.
#[derive(Debug, Clone)]
pub struct NoteListItem {
    pub id: i64,
    pub title: String,
}

impl NoteListItem {
    /// The list entry of `note`; `None` where its title cannot be cut.
    pub fn from(note: &Note) -> (item: Option<NoteListItem>)
        ensures
            item is Some <==> cut_fits(gathered_text(markdown_text_events(note.content@))),
            item matches Some(i) ==> i.id == note.id && i.title@ == title_of(note.content@),
    {
        match first_20_chars(note.content.as_str()) {
            Some(title) => Some(NoteListItem { id: note.id, title }),
            None => None,
        }
    }
}

} // verus!

verus! {

/// A title is the start of the text it is cut from and takes at most
/// `TITLE_BYTES` bytes; a text that is short enough is kept whole.
pub proof fn law_title_is_a_short_prefix(s: Seq<char>)
    requires
        cut_fits(s),
    ensures
        cut_to_title(s).is_prefix_of(s),
        utf8_len(cut_to_title(s)) <= TITLE_BYTES,
        utf8_len(s) <= TITLE_BYTES ==> cut_to_title(s) == s,
        utf8_len(s) > TITLE_BYTES ==> utf8_len(cut_to_title(s)) == TITLE_BYTES,
{
    if utf8_len(s) > TITLE_BYTES {
        let k = choose|k: int| 0 <= k <= s.len() && #[trigger] utf8_len(s.take(k)) == TITLE_BYTES;
        assert(s.take(k).is_prefix_of(s));
    } else {
        assert(s.is_prefix_of(s));
    }
}

} // verus!
