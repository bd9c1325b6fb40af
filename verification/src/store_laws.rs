//! What the notes table promises across operations: a note reads back as it
//! was written, a removed note is gone, one user's operations leave the notes
//! of every other user as they were, and a search for plain text finds exactly
//! the notes that contain it, ignoring ASCII case.
use vstd::prelude::*;
use crate::store::{
    Note, lemma_ids_unique, edited, has_id, has_note, is_users_note, new_note, note_with_id, notes_of,
    rows_after_delete, rows_after_update, rows_wf, search_hit, search_pattern, search_result,
};
use crate::text::{ascii_lower, ascii_lower_char, has_substring, like, like_char_eq, like_from, occurs_at};

verus! {

/// Two sequences that agree on which elements pass their filters, and on the
/// elements that pass, filter to the same sequence.
proof fn lemma_filter_congruent(
    a: Seq<Note>,
    b: Seq<Note>,
    p: spec_fn(Note) -> bool,
    q: spec_fn(Note) -> bool,
)
    requires
        a.len() == b.len(),
        forall|i: int| 0 <= i < a.len() ==> p(#[trigger] a[i]) == q(b[i]),
        forall|i: int| 0 <= i < a.len() && p(#[trigger] a[i]) ==> a[i] == b[i],
    ensures
        a.filter(p) == b.filter(q),
    decreases a.len(),
{
    reveal(Seq::filter);
    if a.len() > 0 {
        let (a0, b0) = (a.drop_last(), b.drop_last());
        assert forall|i: int| 0 <= i < a0.len() implies p(#[trigger] a0[i]) == q(b0[i]) by {
            assert(a0[i] == a[i] && b0[i] == b[i]);
        }
        assert forall|i: int| 0 <= i < a0.len() && p(#[trigger] a0[i]) implies a0[i] == b0[i] by {
            assert(a0[i] == a[i] && b0[i] == b[i]);
        }
        lemma_filter_congruent(a0, b0, p, q);
        assert(p(a[a.len() - 1]) == q(b[b.len() - 1]));
    }
}

/// Filtering with a weaker filter first changes nothing.
proof fn lemma_filter_filter(a: Seq<Note>, r: spec_fn(Note) -> bool, p: spec_fn(Note) -> bool)
    requires
        forall|n: Note| #[trigger] p(n) ==> r(n),
    ensures
        a.filter(r).filter(p) == a.filter(p),
    decreases a.len(),
{
    reveal(Seq::filter);
    if a.len() > 0 {
        lemma_filter_filter(a.drop_last(), r, p);
        let f = a.drop_last().filter(r);
        if r(a.last()) {
            assert(f.push(a.last()).drop_last() =~= f);
        }
    }
}

/// A filter that every element passes keeps the whole sequence.
proof fn lemma_filter_all(a: Seq<Note>, p: spec_fn(Note) -> bool)
    requires
        forall|i: int| 0 <= i < a.len() ==> p(#[trigger] a[i]),
    ensures
        a.filter(p) == a,
    decreases a.len(),
{
    reveal(Seq::filter);
    if a.len() > 0 {
        let a0 = a.drop_last();
        assert forall|i: int| 0 <= i < a0.len() implies p(#[trigger] a0[i]) by {
            assert(a0[i] == a[i]);
        }
        lemma_filter_all(a0, p);
        assert(a0.push(a.last()) =~= a);
    }
}

/// Reading back a note just created gives that note: its owner finds it under
/// the new id, with the content written, and it comes last among the owner's
/// notes. The new id was not in use before.
pub proof fn law_read_after_create(rows: Seq<Note>, next: int, content: String, user: u128, now: String)
    requires
        rows_wf(rows, next),
        next < i64::MAX,
    ensures
        ({
            let n = new_note(next as i64, content, user, now);
            let after = rows.push(n);
            &&& !has_id(rows, next as i64)
            &&& rows_wf(after, next + 1)
            &&& has_note(after, next as i64, user)
            &&& note_with_id(after, next as i64) == n
            &&& note_with_id(after, next as i64).content == content
            &&& notes_of(after, user) == notes_of(rows, user).push(n)
        }),
{
    let n = new_note(next as i64, content, user, now);
    let after = rows.push(n);
    assert(rows_wf(after, next + 1));
    let last = rows.len() as int;
    assert(is_users_note(after[last], next as i64, user));
    let k = choose|k: int| 0 <= k < after.len() && #[trigger] after[k].id == next as i64;
    lemma_ids_unique(after, next + 1, k, last);
    reveal(Seq::filter);
    assert(after.drop_last() =~= rows);
}

/// Reading back a note that its owner has just changed gives the new content,
/// with the other fields of the note as they were and the update time set.
pub proof fn law_read_after_update(
    rows: Seq<Note>,
    next: int,
    id: i64,
    user: u128,
    content: String,
    now: String,
)
    requires
        rows_wf(rows, next),
        has_note(rows, id, user),
    ensures
        ({
            let after = rows_after_update(rows, id, user, content, now);
            &&& rows_wf(after, next)
            &&& has_note(after, id, user)
            &&& note_with_id(after, id) == edited(note_with_id(rows, id), content, now)
            &&& note_with_id(after, id).content == content
        }),
{
    let after = rows_after_update(rows, id, user, content, now);
    let i = choose|i: int| 0 <= i < rows.len() && #[trigger] is_users_note(rows[i], id, user);
    assert(is_users_note(after[i], id, user));
    let k = choose|k: int| 0 <= k < after.len() && #[trigger] after[k].id == id;
    assert(after[k].id == rows[k].id);
    lemma_ids_unique(rows, next, k, i);
    let j = choose|j: int| 0 <= j < rows.len() && #[trigger] rows[j].id == id;
    lemma_ids_unique(rows, next, j, i);
    assert(after[i] == edited(rows[i], content, now));
}

/// An update of a note that the user does not own changes nothing.
pub proof fn law_update_needs_owner(rows: Seq<Note>, id: i64, user: u128, content: String, now: String)
    requires
        !has_note(rows, id, user),
    ensures
        rows_after_update(rows, id, user, content, now) == rows,
{
    let after = rows_after_update(rows, id, user, content, now);
    assert forall|i: int| 0 <= i < rows.len() implies after[i] == rows[i] by {
        assert(!is_users_note(rows[i], id, user));
    }
    assert(after =~= rows);
}

/// After its owner removes a note, nobody finds a note under that id; a
/// removal by anyone else changes nothing.
pub proof fn law_read_after_delete(rows: Seq<Note>, next: int, id: i64, user: u128)
    requires
        rows_wf(rows, next),
    ensures
        !has_note(rows_after_delete(rows, id, user), id, user),
        has_note(rows, id, user) ==> !has_id(rows_after_delete(rows, id, user), id),
        !has_note(rows, id, user) ==> rows_after_delete(rows, id, user) == rows,
{
    let p = |n: Note| !is_users_note(n, id, user);
    let after = rows.filter(p);
    broadcast use vstd::seq_lib::group_filter_ensures;

    assert forall|i: int| 0 <= i < after.len() implies !is_users_note(#[trigger] after[i], id, user) by {
        assert(p(after[i]));
    }
    if has_note(rows, id, user) {
        let o = choose|o: int| 0 <= o < rows.len() && #[trigger] is_users_note(rows[o], id, user);
        assert forall|i: int| 0 <= i < after.len() implies #[trigger] after[i].id != id by {
            if after[i].id == id {
                assert(after.contains(after[i]));
                rows.lemma_filter_contains_rev(p, after[i]);
                let j = choose|j: int| 0 <= j < rows.len() && rows[j] == after[i];
                lemma_ids_unique(rows, next, j, o);
                assert(p(after[i]));
            }
        }
    } else {
        assert forall|i: int| 0 <= i < rows.len() implies p(#[trigger] rows[i]) by {
            assert(!is_users_note(rows[i], id, user));
        }
        lemma_filter_all(rows, p);
    }
}

/// What one user creates, changes or removes leaves every other user's notes
/// exactly as they were.
pub proof fn law_other_users_untouched(
    rows: Seq<Note>,
    id: i64,
    user: u128,
    other: u128,
    content: String,
    now: String,
)
    requires
        user != other,
    ensures
        notes_of(rows.push(new_note(id, content, user, now)), other) == notes_of(rows, other),
        notes_of(rows_after_update(rows, id, user, content, now), other) == notes_of(rows, other),
        notes_of(rows_after_delete(rows, id, user), other) == notes_of(rows, other),
{
    let po = |n: Note| n.user_id == other;
    reveal(Seq::filter);
    assert(rows.push(new_note(id, content, user, now)).drop_last() =~= rows);
    let after = rows_after_update(rows, id, user, content, now);
    assert forall|i: int| 0 <= i < after.len() implies po(#[trigger] after[i]) == po(rows[i]) by {}
    assert forall|i: int| 0 <= i < after.len() && po(#[trigger] after[i]) implies after[i] == rows[i] by {}
    lemma_filter_congruent(after, rows, po, po);
    lemma_filter_filter(rows, |n: Note| !is_users_note(n, id, user), po);
}

/// A trailing `%` matches whatever is left.
proof fn lemma_like_trailing_percent(s: Seq<char>, i: int, p: Seq<char>)
    requires
        0 <= i <= s.len(),
        p.len() >= 1,
        p[p.len() - 1] == '%',
    ensures
        like_from(s, i, p, p.len() - 1),
    decreases s.len() - i,
{
    let j = p.len() - 1;
    assert(like_from(s, i, p, j) == (like_from(s, i, p, j + 1) || (i < s.len() && like_from(
        s,
        i + 1,
        p,
        j,
    ))));
    if i < s.len() {
        lemma_like_trailing_percent(s, i + 1, p);
    }
}

/// In `p = '%' + t + '%'`, with `t` free of wildcards and both strings in
/// lower case, the part after the leading `%` matches at `i` exactly where
/// the rest of `t` occurs at `i`.
proof fn lemma_like_literal(s: Seq<char>, i: int, t: Seq<char>, m: int)
    requires
        0 <= i <= s.len(),
        0 <= m <= t.len(),
        forall|k: int| 0 <= k < t.len() ==> t[k] != '%' && t[k] != '_',
        forall|k: int| 0 <= k < s.len() ==> ascii_lower_char(#[trigger] s[k]) == s[k],
        forall|k: int| 0 <= k < t.len() ==> ascii_lower_char(#[trigger] t[k]) == t[k],
    ensures
        like_from(s, i, seq!['%'] + t + seq!['%'], 1 + m) == (i + (t.len() - m) <= s.len()
            && s.subrange(i, i + (t.len() - m)) == t.subrange(m, t.len() as int)),
    decreases t.len() - m,
{
    let p = seq!['%'] + t + seq!['%'];
    assert(p.len() == t.len() + 2);
    assert(p[p.len() - 1] == '%');
    if m == t.len() {
        lemma_like_trailing_percent(s, i, p);
        assert(s.subrange(i, i) =~= t.subrange(m, t.len() as int));
    } else {
        assert(p[1 + m] == t[m]);
        if i < s.len() {
            lemma_like_literal(s, i + 1, t, m + 1);
            assert(like_char_eq(s[i], t[m]) == (s[i] == t[m]));
            if i + (t.len() - m) <= s.len() {
                let a = s.subrange(i, i + (t.len() - m));
                let b = t.subrange(m, t.len() as int);
                assert(a[0] == s[i] && b[0] == t[m]);
                assert(a.drop_first() =~= s.subrange(i + 1, i + (t.len() - m)));
                assert(b.drop_first() =~= t.subrange(m + 1, t.len() as int));
                if a == b {
                    assert(a.drop_first() == b.drop_first());
                }
                if s[i] == t[m] && a.drop_first() == b.drop_first() {
                    assert forall|k: int| 0 <= k < a.len() implies a[k] == b[k] by {
                        if k > 0 {
                            assert(a[k] == a.drop_first()[k - 1]);
                            assert(b[k] == b.drop_first()[k - 1]);
                        }
                    }
                    assert(a =~= b);
                }
            }
        }
    }
}

/// A leading `%` lets the rest of the pattern match from any later position.
proof fn lemma_like_leading_percent(s: Seq<char>, i: int, p: Seq<char>)
    requires
        0 <= i <= s.len(),
        p.len() >= 1,
        p[0] == '%',
    ensures
        like_from(s, i, p, 0) == exists|k: int| i <= k <= s.len() && #[trigger] like_from(s, k, p, 1),
    decreases s.len() - i,
{
    assert(like_from(s, i, p, 0) == (like_from(s, i, p, 1) || (i < s.len() && like_from(
        s,
        i + 1,
        p,
        0,
    ))));
    if i < s.len() {
        lemma_like_leading_percent(s, i + 1, p);
        if like_from(s, i, p, 0) && !like_from(s, i, p, 1) {
            let k = choose|k: int| i + 1 <= k <= s.len() && #[trigger] like_from(s, k, p, 1);
        }
        if exists|k: int| i <= k <= s.len() && #[trigger] like_from(s, k, p, 1) {
            let k = choose|k: int| i <= k <= s.len() && #[trigger] like_from(s, k, p, 1);
            if k > i {
                assert(i + 1 <= k <= s.len() && like_from(s, k, p, 1));
            }
        }
    } else {
        if exists|k: int| i <= k <= s.len() && #[trigger] like_from(s, k, p, 1) {
            let k = choose|k: int| i <= k <= s.len() && #[trigger] like_from(s, k, p, 1);
            assert(k == i);
        }
    }
}

/// A search for text without `%` or `_` finds a note exactly when the text
/// occurs in the note's content, both taken in ASCII lower case.
pub proof fn law_plain_search_is_substring(n: Note, q: Seq<char>)
    requires
        !q.contains('%'),
        !q.contains('_'),
    ensures
        search_hit(n, q) == has_substring(ascii_lower(n.content@), ascii_lower(q)),
{
    let s = ascii_lower(n.content@);
    let t = ascii_lower(q);
    let p = seq!['%'] + t + seq!['%'];
    assert(ascii_lower(search_pattern(q)) =~= p);
    assert forall|k: int| 0 <= k < t.len() implies t[k] != '%' && t[k] != '_' by {
        assert(q[k] != '%' && q[k] != '_');
    }
    assert forall|k: int| 0 <= k < s.len() implies ascii_lower_char(#[trigger] s[k]) == s[k] by {
        crate::text::lemma_ascii_lower_char_idempotent(n.content@[k]);
    }
    assert forall|k: int| 0 <= k < t.len() implies ascii_lower_char(#[trigger] t[k]) == t[k] by {
        crate::text::lemma_ascii_lower_char_idempotent(q[k]);
    }
    lemma_like_leading_percent(s, 0, p);
    assert forall|k: int| 0 <= k <= s.len() implies #[trigger] like_from(s, k, p, 1) == occurs_at(s, t, k) by {
        lemma_like_literal(s, k, t, 0);
        assert(t.subrange(0, t.len() as int) =~= t);
    }
    if search_hit(n, q) {
        let k = choose|k: int| 0 <= k <= s.len() && #[trigger] like_from(s, k, p, 1);
        assert(occurs_at(s, t, k));
    }
    if has_substring(s, t) {
        let k = choose|k: int| occurs_at(s, t, k);
        assert(like_from(s, k, p, 1));
    }
}

/// A search for the empty text finds every note of the user.
pub proof fn law_empty_search_finds_all(rows: Seq<Note>, user: u128)
    ensures
        search_result(rows, user, Seq::<char>::empty()) == notes_of(rows, user),
{
    let p = ascii_lower(search_pattern(Seq::<char>::empty()));
    assert(p =~= seq!['%', '%']);
    assert forall|n: Note| search_hit(n, Seq::<char>::empty()) by {
        let s = ascii_lower(n.content@);
        lemma_like_trailing_percent(s, 0, p);
        lemma_like_leading_percent(s, 0, p);
    }
    lemma_filter_congruent(
        rows,
        rows,
        |n: Note| n.user_id == user && search_hit(n, Seq::<char>::empty()),
        |n: Note| n.user_id == user,
    );
}

} // verus!

verus! {

/// Removing a note right after creating it, by its owner and under its new id,
/// leaves the table as it was before: the removal takes exactly that note.
pub proof fn law_delete_undoes_create(rows: Seq<Note>, next: int, content: String, user: u128, now: String)
    requires
        rows_wf(rows, next),
        next < i64::MAX,
    ensures
        rows_after_delete(rows.push(new_note(next as i64, content, user, now)), next as i64, user)
            == rows,
{
    let n = new_note(next as i64, content, user, now);
    let p = |m: Note| !is_users_note(m, next as i64, user);
    reveal(Seq::filter);
    assert(rows.push(n).drop_last() =~= rows);
    assert forall|i: int| 0 <= i < rows.len() implies p(#[trigger] rows[i]) by {
        assert(rows[i].id < next);
    }
    lemma_filter_all(rows, p);
}

} // verus!

verus! {

/// Listing and searching never hand out another user's note: every note in
/// a user's list or search result belongs to that user and is in the table.
pub proof fn law_results_belong_to_the_user(rows: Seq<Note>, user: u128, q: Seq<char>)
    ensures
        forall|k: int| 0 <= k < notes_of(rows, user).len() ==> (#[trigger] notes_of(rows, user)[k]).user_id == user && rows.contains(notes_of(rows, user)[k]),
        forall|k: int| 0 <= k < search_result(rows, user, q).len() ==> (#[trigger] search_result(rows, user, q)[k]).user_id == user && search_hit(search_result(rows, user, q)[k], q) && rows.contains(search_result(rows, user, q)[k]),
{
    broadcast use vstd::seq_lib::group_filter_ensures;

    let p = |n: Note| n.user_id == user;
    let s = |n: Note| n.user_id == user && search_hit(n, q);
    assert forall|k: int| 0 <= k < notes_of(rows, user).len() implies (#[trigger] notes_of(rows, user)[k]).user_id == user && rows.contains(notes_of(rows, user)[k]) by {
        let f = rows.filter(p);
        assert(p(f[k]));
        assert(f.contains(f[k]));
        rows.lemma_filter_contains_rev(p, f[k]);
    }
    assert forall|k: int| 0 <= k < search_result(rows, user, q).len() implies (#[trigger] search_result(rows, user, q)[k]).user_id == user && search_hit(search_result(rows, user, q)[k], q) && rows.contains(search_result(rows, user, q)[k]) by {
        let f = rows.filter(s);
        assert(s(f[k]));
        assert(f.contains(f[k]));
        rows.lemma_filter_contains_rev(s, f[k]);
    }
}


/// An update changes only the note it names: the table keeps its length, a
/// note with another id or another owner stays exactly as it was, and the
/// named note of the user gets the new content and update time while keeping
/// its id, owner and creation time.
pub proof fn law_update_touches_only_the_named_note(
    rows: Seq<Note>,
    id: i64,
    user: u128,
    content: String,
    now: String,
)
    ensures
        rows_after_update(rows, id, user, content, now).len() == rows.len(),
        forall|k: int|
            0 <= k < rows.len() && (rows[k].id != id || rows[k].user_id != user)
                ==> #[trigger] rows_after_update(rows, id, user, content, now)[k] == rows[k],
        forall|k: int|
            0 <= k < rows.len() && rows[k].id == id && rows[k].user_id == user ==> {
                let r = #[trigger] rows_after_update(rows, id, user, content, now)[k];
                &&& r.id == id
                &&& r.user_id == user
                &&& r.content == content
                &&& r.updated_at == Some(now)
                &&& r.created_at == rows[k].created_at
            },
{
}

} // verus!
