//! The pages of the notes site. Each handler of the site is a decision on the
//! data that it fetched from the notes API: which page to show, with what, or
//! where to send the browser. Fetching the data and rendering the templates
//! are left to the caller.
use vstd::prelude::*;
use crate::form::{NoteForm, content_error_text};
use crate::preview::{
    NoteListItem, content_to_markdown, cut_fits, gathered_text, safe_markdown_html,
    markdown_text_events, title_of,
};
use crate::store::Note;
use crate::text::{chars_of, contains_chars, decimal, decimal_string, has_substring, occurs_at};
use vstd::string::StringExecFns;

verus! {

/// What the base layout of every page needs: whether the single-page-app
/// script is included.
#[derive(Debug, Clone)]
pub struct BaseTemplate {
    pub enable_spa: bool,
}

impl BaseTemplate {
    /// The layout of a build with the single-page app (`enable_spa`) or
    /// without it.
    pub fn new(enable_spa: bool) -> (b: BaseTemplate)
        ensures
            b.enable_spa == enable_spa,
    {
        BaseTemplate { enable_spa }
    }
}

impl Default for BaseTemplate {
    /// The layout of a build without the single-page app; a build that ships
    /// the single-page app makes its layout with `BaseTemplate::new(true)`.
    fn default() -> (b: BaseTemplate)
        ensures
            b.enable_spa == false,
    {
        BaseTemplate { enable_spa: false }
    }
}

/// The index page: the list of notes and a form for a new note.
#[derive(Debug, Clone)]
pub struct IndexTemplate {
    pub note_list: Vec<NoteListItem>,
    pub note_form: NoteForm,
    pub base_template: BaseTemplate,
}

/// A note shown on its own, beside the list of notes.
#[derive(Debug, Clone)]
pub struct ShowTemplate {
    pub note_list: Vec<NoteListItem>,
    pub preview: String,
    pub selected_note: Note,
    pub base_template: BaseTemplate,
}

/// A note in the editor, beside the list of notes.
#[derive(Debug, Clone)]
pub struct EditTemplate {
    pub note_list: Vec<NoteListItem>,
    pub note_form: NoteForm,
    pub base_template: BaseTemplate,
}

/// The query string of a search.
#[derive(Debug, Clone)]
pub struct SearchQuery {
    pub search: String,
}

/// A note that a search found: its id and its HTML.
#[derive(Debug, Clone)]
pub struct NoteSearchPreview {
    pub id: i64,
    pub preview: String,
}

/// The search page: the list of notes, the notes found, and the search text.
#[derive(Debug, Clone)]
pub struct SearchTemplate {
    pub note_list: Vec<NoteListItem>,
    pub filtered_notes: Vec<NoteSearchPreview>,
    pub search: String,
    pub base_template: BaseTemplate,
}

/// The `Content-Type` that a page is sent with.
#[derive(Debug, Clone, Copy, PartialEq, Eq, Structural)]
pub enum ContentType {
    /// `text/html; charset=utf-8`, as a rendered template sends itself.
    HtmlUtf8,
    /// `text/html`.
    Html,
    /// No `Content-Type` header.
    Unset,
}

/// What a page handler answers.
#[derive(Debug, Clone)]
pub enum PageReply {
    /// Status 200 with the index page.
    Index { page: IndexTemplate, content_type: ContentType },
    /// Status 200, `text/html`, with a note.
    Show(ShowTemplate),
    /// Status 200, `text/html`, with a note in the editor.
    Edit(EditTemplate),
    /// Status 200, `text/html`, with the results of a search.
    Search(SearchTemplate),
    /// Status 303 with this `Location`.
    SeeOther(String),
    /// Status 404, `text/html`, with the body `Note not found`.
    NotFound,
}

impl PageReply {
    /// The HTTP status that the reply goes out with.
    pub fn status(&self) -> (code: u16)
        ensures
            code == match self {
                PageReply::SeeOther(_) => 303u16,
                PageReply::NotFound => 404u16,
                _ => 200u16,
            },
    {
        match self {
            PageReply::SeeOther(_) => 303,
            PageReply::NotFound => 404,
            _ => 200,
        }
    }

    /// The `Content-Type` that the reply goes out with.
    pub fn content_type(&self) -> (t: ContentType)
        ensures
            t == match self {
                PageReply::Index { content_type, .. } => *content_type,
                PageReply::SeeOther(_) => ContentType::Unset,
                _ => ContentType::Html,
            },
    {
        match self {
            PageReply::Index { content_type, .. } => *content_type,
            PageReply::SeeOther(_) => ContentType::Unset,
            _ => ContentType::Html,
        }
    }
}

/// The title of every note can be cut to its first bytes.
pub open spec fn titles_fit(notes: Seq<Note>) -> bool {
    forall|i: int|
        0 <= i < notes.len() ==> cut_fits(gathered_text(markdown_text_events(#[trigger] notes[i].content@)))
}

/// `items` lists `notes`: one entry per note, in order, with its id and title.
pub open spec fn is_note_list(items: Seq<NoteListItem>, notes: Seq<Note>) -> bool {
    &&& items.len() == notes.len()
    &&& forall|i: int|
        0 <= i < notes.len() ==> #[trigger] items[i].id == notes[i].id && items[i].title@ == title_of(
            notes[i].content@,
        )
}

/// The list of notes beside every page; `None` where a title cannot be cut.
pub fn note_list(notes: &Vec<Note>) -> (items: Option<Vec<NoteListItem>>)
    ensures
        items is Some <==> titles_fit(notes@),
        items matches Some(v) ==> is_note_list(v@, notes@),
{
    let mut items: Vec<NoteListItem> = Vec::new();
    for i in 0..notes.len()
        invariant
            is_note_list(items@, notes@.take(i as int)),
            titles_fit(notes@.take(i as int)),
    {
        match NoteListItem::from(&notes[i]) {
            Some(item) => {
                let ghost before = items@;
                items.push(item);
                assert(items@[i as int] == item);
                assert(forall|k: int| 0 <= k < i ==> items@[k] == before[k]);
                assert(titles_fit(notes@.take(i + 1))) by {
                    assert forall|k: int| 0 <= k < i + 1 implies cut_fits(
                        gathered_text(markdown_text_events(#[trigger] notes@.take(i + 1)[k].content@)),
                    ) by {
                        if k < i {
                            assert(notes@.take(i + 1)[k] == notes@.take(i as int)[k]);
                        }
                    }
                }
                assert forall|k: int| 0 <= k < i + 1 implies #[trigger] items@[k].id == notes@.take(
                    i + 1,
                )[k].id && items@[k].title@ == title_of(notes@.take(i + 1)[k].content@) by {
                    if k < i {
                        assert(notes@.take(i + 1)[k] == notes@.take(i as int)[k]);
                        assert(items@[k] == before[k]);
                        assert(before[k].id == notes@.take(i as int)[k].id);
                    } else {
                        assert(notes@.take(i + 1)[k] == notes@[i as int]);
                    }
                }
            },
            None => {
                assert(!cut_fits(gathered_text(markdown_text_events(notes@[i as int].content@))));
                return None;
            },
        }
    }
    assert(notes@.take(notes.len() as int) =~= notes@);
    Some(items)
}

/// The index page with `note_form`; `None` where a title cannot be cut.
pub fn form_page(
    notes: &Vec<Note>,
    note_form: NoteForm,
    base_template: BaseTemplate,
    content_type: ContentType,
) -> (reply: Option<PageReply>)
    ensures
        reply is Some <==> titles_fit(notes@),
        reply matches Some(r) ==> (r matches PageReply::Index { page, content_type: ct } && ct
            == content_type && is_note_list(page.note_list@, notes@) && page.note_form
            == note_form && page.base_template == base_template),
{
    match note_list(notes) {
        Some(list) => Some(
            PageReply::Index {
                page: IndexTemplate { note_list: list, note_form, base_template },
                content_type,
            },
        ),
        None => None,
    }
}

/// `GET /`: the index page with an empty form.
pub fn index(notes: &Vec<Note>, base_template: BaseTemplate) -> (reply: Option<PageReply>)
    ensures
        reply is Some <==> titles_fit(notes@),
        reply matches Some(r) ==> (r matches PageReply::Index { page, content_type } && content_type
            == ContentType::HtmlUtf8 && is_note_list(page.note_list@, notes@) && page.note_form.id
            is None && page.note_form.content@ == Seq::<char>::empty()
            && page.note_form.content_error is None && page.base_template == base_template),
{
    form_page(notes, NoteForm::empty(), base_template, ContentType::HtmlUtf8)
}

/// What `POST /create` does with the submitted form.
#[derive(Debug, Clone)]
pub enum CreatePlan {
    /// The form did not validate: show the index page with this form.
    ShowForm(NoteForm),
    /// Create a note with this content.
    Create(String),
}

/// `POST /create`: a valid form becomes a new note; an invalid one goes back
/// to the index page carrying its errors.
pub fn create_note(note_form: NoteForm) -> (plan: CreatePlan)
    ensures
        content_error_text(note_form.content@) is None ==> plan == CreatePlan::Create(
            note_form.content,
        ),
        content_error_text(note_form.content@) is Some ==> ({
            &&& plan matches CreatePlan::ShowForm(f)
            &&& f.id == note_form.id
            &&& f.content == note_form.content
            &&& f.content_error matches Some(e)
            &&& Some(e@) == content_error_text(note_form.content@)
        }),
{
    let mut form = note_form;
    if form.is_valid() {
        CreatePlan::Create(form.content)
    } else {
        CreatePlan::ShowForm(form)
    }
}

/// `POST /create` with a form that did not validate: the index page with
/// that form, sent with status 200 and `Content-Type: text/html`. `None`
/// where a title cannot be cut.
pub fn create_note_form_page(notes: &Vec<Note>, note_form: NoteForm, base_template: BaseTemplate) -> (reply:
    Option<PageReply>)
    ensures
        reply is Some <==> titles_fit(notes@),
        reply matches Some(r) ==> (r matches PageReply::Index { page, content_type: ct } && ct
            == ContentType::Html && is_note_list(page.note_list@, notes@) && page.note_form
            == note_form && page.base_template == base_template),
{
    form_page(notes, note_form, base_template, ContentType::Html)
}

/// `POST /update` with a form that did not validate: the index page with
/// that form, sent with status 200 and no `Content-Type`. `None` where a
/// title cannot be cut.
pub fn update_note_form_page(notes: &Vec<Note>, note_form: NoteForm, base_template: BaseTemplate) -> (reply:
    Option<PageReply>)
    ensures
        reply is Some <==> titles_fit(notes@),
        reply matches Some(r) ==> (r matches PageReply::Index { page, content_type: ct } && ct
            == ContentType::Unset && is_note_list(page.note_list@, notes@) && page.note_form
            == note_form && page.base_template == base_template),
{
    form_page(notes, note_form, base_template, ContentType::Unset)
}

/// The page of note `id`: `/show/{id}`.
pub open spec fn note_path(id: i64) -> Seq<char> {
    "/show/"@ + decimal(id as int)
}

/// After a note was created or changed: see the note's page (status 303,
/// `Location` the note's page, no body and no `Content-Type`).
pub fn see_note(id: i64) -> (reply: PageReply)
    ensures
        reply matches PageReply::SeeOther(location) && location@ == note_path(id),
{
    let mut location = String::from_str("/show/");
    let number = decimal_string(id);
    location.append(number.as_str());
    PageReply::SeeOther(location)
}

/// What `POST /update` does with the submitted form.
#[derive(Debug, Clone)]
pub enum UpdatePlan {
    /// The form did not validate: show the index page with this form.
    ShowForm(NoteForm),
    /// Give note `id` this content.
    Update { id: i64, content: String },
}

/// `POST /update`: a valid form changes its note; an invalid one goes back to
/// the index page carrying its errors. A valid form names the note it changes.
pub fn update_note(note_form: NoteForm) -> (plan: UpdatePlan)
    requires
        content_error_text(note_form.content@) is None ==> note_form.id is Some,
    ensures
        content_error_text(note_form.content@) is None ==> plan == (UpdatePlan::Update {
            id: note_form.id.unwrap(),
            content: note_form.content,
        }),
        content_error_text(note_form.content@) is Some ==> ({
            &&& plan matches UpdatePlan::ShowForm(f)
            &&& f.id == note_form.id
            &&& f.content == note_form.content
            &&& f.content_error matches Some(e)
            &&& Some(e@) == content_error_text(note_form.content@)
        }),
{
    let mut form = note_form;
    if form.is_valid() {
        match form.id {
            Some(id) => UpdatePlan::Update { id, content: form.content },
            None => UpdatePlan::ShowForm(form),
        }
    } else {
        UpdatePlan::ShowForm(form)
    }
}

/// `GET /show/:id`: the note that the API returned, as HTML beside the list
/// of notes, or `NotFound` where the API returned none. `None` where a title
/// of the list cannot be cut.
pub fn show_note(notes: &Vec<Note>, found: Option<Note>, base_template: BaseTemplate) -> (reply:
    Option<PageReply>)
    ensures
        found is None ==> reply == Some(PageReply::NotFound),
        found matches Some(n) ==> (reply is Some <==> titles_fit(notes@)),
        found matches Some(n) ==> (reply matches Some(r) ==> r matches PageReply::Show(t)
            && is_note_list(t.note_list@, notes@) && t.preview@ == safe_markdown_html(
            n.content@,
        ) && t.selected_note == n && t.base_template == base_template),
{
    match found {
        Some(note) => {
            match note_list(notes) {
                Some(list) => {
                    let preview = content_to_markdown(note.content.as_str());
                    Some(
                        PageReply::Show(
                            ShowTemplate { note_list: list, preview, selected_note: note, base_template },
                        ),
                    )
                },
                None => None,
            }
        },
        None => Some(PageReply::NotFound),
    }
}

/// `i` is the first position of a note with id `id`.
pub open spec fn first_with_id(notes: Seq<Note>, id: i64, i: int) -> bool {
    &&& 0 <= i < notes.len()
    &&& notes[i].id == id
    &&& forall|j: int| 0 <= j < i ==> #[trigger] notes[j].id != id
}

/// `GET /edit/:id`: the first of the user's notes with id `id` in the editor,
/// or `NotFound`. `None` where a title of the list cannot be cut.
pub fn edit_note(notes: &Vec<Note>, id: i64, base_template: BaseTemplate) -> (reply: Option<
    PageReply,
>)
    ensures
        (forall|i: int| 0 <= i < notes@.len() ==> #[trigger] notes@[i].id != id) ==> reply == Some(
            PageReply::NotFound,
        ),
        (exists|i: int| 0 <= i < notes@.len() && #[trigger] notes@[i].id == id) ==> (reply is Some
            <==> titles_fit(notes@)),
        (exists|i: int| 0 <= i < notes@.len() && #[trigger] notes@[i].id == id) && titles_fit(notes@)
            ==> (reply matches Some(r) && r is Edit),
        reply matches Some(PageReply::Edit(t)) ==> is_note_list(t.note_list@, notes@)
            && t.base_template == base_template && t.note_form.content_error is None && (exists|i: int|
            first_with_id(notes@, id, i) && t.note_form.id == Some(id) && t.note_form.content
            == notes@[i].content),
        reply matches Some(r) ==> (r is Edit || r is NotFound),
{
    let mut i: usize = 0;
    while i < notes.len()
        invariant
            i <= notes.len(),
            forall|j: int| 0 <= j < i ==> #[trigger] notes@[j].id != id,
        decreases notes.len() - i,
    {
        if notes[i].id == id {
            let note_form = NoteForm::from(&notes[i]);
            assert(first_with_id(notes@, id, i as int));
            return match note_list(notes) {
                Some(list) => Some(PageReply::Edit(EditTemplate { note_list: list, note_form, base_template })),
                None => None,
            };
        }
        i = i + 1;
    }
    Some(PageReply::NotFound)
}

/// Unicode lower case of `s`, as std's `str::to_lowercase` maps it.
pub uninterp spec fn unicode_lowercase(s: Seq<char>) -> Seq<char>;

/// std's `str::to_lowercase`; the empty text stays empty.
#[verifier::external_body]
fn to_lowercase(s: &str) -> (r: String)
    ensures
        r@ == unicode_lowercase(s@),
        s@.len() == 0 ==> r@.len() == 0,
{
    s.to_lowercase()
}

/// A note matches a search where its content, in lower case, contains the
/// search text in lower case.
pub open spec fn matches_search(n: Note, search: Seq<char>) -> bool {
    has_substring(unicode_lowercase(n.content@), unicode_lowercase(search))
}

/// The notes that a search finds, in order.
pub open spec fn found_notes(notes: Seq<Note>, search: Seq<char>) -> Seq<Note> {
    notes.filter(|n: Note| matches_search(n, search))
}

/// `previews` shows `found`: one entry per note, with its id and its HTML.
pub open spec fn previews_of(previews: Seq<NoteSearchPreview>, found: Seq<Note>) -> bool {
    &&& previews.len() == found.len()
    &&& forall|i: int|
        0 <= i < found.len() ==> #[trigger] previews[i].id == found[i].id && previews[i].preview@
            == safe_markdown_html(found[i].content@)
}

/// `GET /search?search=..`: the notes whose content contains the search
/// text, ignoring case, as HTML beside the list of notes. `None` where a
/// title of the list cannot be cut.
pub fn search_note(notes: &Vec<Note>, search: String, base_template: BaseTemplate) -> (reply:
    Option<PageReply>)
    ensures
        reply is Some <==> titles_fit(notes@),
        reply matches Some(r) ==> (r matches PageReply::Search(t) && is_note_list(t.note_list@, notes@)
            && previews_of(t.filtered_notes@, found_notes(notes@, search@)) && t.search == search
            && t.base_template == base_template),
        search@.len() == 0 ==> found_notes(notes@, search@) == notes@,
{
    let wanted = to_lowercase(search.as_str());
    proof {
        if search@.len() == 0 {
            law_empty_search_finds_every_note(notes@, search@);
        }
    }
    let wanted_chars = chars_of(wanted.as_str());
    let mut filtered: Vec<NoteSearchPreview> = Vec::new();
    for i in 0..notes.len()
        invariant
            wanted_chars@ == unicode_lowercase(search@),
            previews_of(filtered@, found_notes(notes@.take(i as int), search@)),
    {
        let ghost before = found_notes(notes@.take(i as int), search@);
        assert(notes@.take(i + 1).drop_last() =~= notes@.take(i as int));
        reveal(Seq::filter);
        let lowered = to_lowercase(notes[i].content.as_str());
        let content_chars = chars_of(lowered.as_str());
        if contains_chars(&content_chars, &wanted_chars) {
            let preview = content_to_markdown(notes[i].content.as_str());
            filtered.push(NoteSearchPreview { id: notes[i].id, preview });
            assert(found_notes(notes@.take(i + 1), search@) == before.push(notes@[i as int]));
        }
    }
    assert(notes@.take(notes.len() as int) =~= notes@);
    match note_list(notes) {
        Some(list) => Some(
            PageReply::Search(
                SearchTemplate { note_list: list, filtered_notes: filtered, search, base_template },
            ),
        ),
        None => None,
    }
}

/// A search whose text is empty once lower-cased finds every note, in order.
pub proof fn law_empty_search_finds_every_note(notes: Seq<Note>, search: Seq<char>)
    requires
        unicode_lowercase(search).len() == 0,
    ensures
        found_notes(notes, search) == notes,
    decreases notes.len(),
{
    reveal(Seq::filter);
    if notes.len() > 0 {
        law_empty_search_finds_every_note(notes.drop_last(), search);
        let n = notes.last();
        assert(occurs_at(unicode_lowercase(n.content@), unicode_lowercase(search), 0)) by {
            assert(unicode_lowercase(n.content@).subrange(0, 0) =~= unicode_lowercase(search));
        }
        assert(notes.drop_last().push(n) =~= notes);
    }
}

/// A note matches a site search exactly when the lower-cased search text
/// stands somewhere in the lower-cased content, at any position.
pub proof fn law_site_search_finds_text_anywhere(n: Note, search: Seq<char>)
    ensures
        matches_search(n, search) <==> exists|i: int|
            0 <= i && i + unicode_lowercase(search).len() <= unicode_lowercase(n.content@).len()
                && #[trigger] unicode_lowercase(n.content@).subrange(
                i,
                i + unicode_lowercase(search).len(),
            ) == unicode_lowercase(search),
{
    let c = unicode_lowercase(n.content@);
    let w = unicode_lowercase(search);
    if matches_search(n, search) {
        let i = choose|i: int| occurs_at(c, w, i);
        assert(c.subrange(i, i + w.len()) == w);
    }
    if exists|i: int| 0 <= i && i + w.len() <= c.len() && #[trigger] c.subrange(i, i + w.len()) == w {
        let i = choose|i: int| 0 <= i && i + w.len() <= c.len() && #[trigger] c.subrange(i, i + w.len()) == w;
        assert(occurs_at(c, w, i));
    }
}

/// A note of the list is among the notes a search finds exactly when it
/// matches the search; the found notes keep the list's order.
pub proof fn law_found_notes_are_the_matching_notes(notes: Seq<Note>, search: Seq<char>, k: int)
    requires
        0 <= k < notes.len(),
    ensures
        matches_search(notes[k], search) ==> found_notes(notes, search).contains(notes[k]),
        found_notes(notes, search).contains(notes[k]) ==> matches_search(notes[k], search),
{
    let p = |n: Note| matches_search(n, search);
    assert(found_notes(notes, search) == notes.filter(p));
    if matches_search(notes[k], search) {
        notes.lemma_filter_contains(p, k);
    }
    if found_notes(notes, search).contains(notes[k]) {
        let f = notes.filter(p);
        let j = choose|j: int| 0 <= j < f.len() && f[j] == notes[k];
        notes.lemma_filter_pred(p, j);
    }
}

/// Two search texts with the same lower case find the same notes.
pub proof fn law_search_depends_on_lower_case(notes: Seq<Note>, s1: Seq<char>, s2: Seq<char>)
    requires
        unicode_lowercase(s1) == unicode_lowercase(s2),
    ensures
        found_notes(notes, s1) == found_notes(notes, s2),
{
    assert((|n: Note| matches_search(n, s1)) =~= (|n: Note| matches_search(n, s2)));
}

} // verus!
