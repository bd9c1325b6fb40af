//! The notes table: every note belongs to one user, is found by its id, and
//! is read, changed and removed only through queries that name its owner.
use vstd::prelude::*;
use crate::text::{ascii_lower, chars_of, like, like_matches, lower_ascii};

verus! {

/// A note as the notes table stores it.
#[derive(Debug, Clone)]
pub struct Note {
    pub id: i64,
    pub content: String,
    pub created_at: String,
    pub updated_at: Option<String>,
    pub user_id: u128,
}

impl Note {
    /// A copy of this note, field by field.
    pub fn duplicate(&self) -> (r: Note)
        ensures
            r == *self,
    {
        let updated_at = match &self.updated_at {
            Some(u) => Some(u.clone()),
            None => None,
        };
        Note {
            id: self.id,
            content: self.content.clone(),
            created_at: self.created_at.clone(),
            updated_at,
            user_id: self.user_id,
        }
    }
}

/// Why a query on the notes table failed.
#[derive(Debug, Clone, Copy, PartialEq, Eq, Structural)]
pub enum StoreError {
    /// A query that reads one row found none.
    RowNotFound,
    /// Every row id has been handed out; no further note can be inserted.
    Full,
}

/// The table is well formed: ids are positive, smaller than the next id to be
/// handed out, and strictly increasing in the order in which rows are kept.
pub open spec fn rows_wf(rows: Seq<Note>, next: int) -> bool {
    &&& 1 <= next <= i64::MAX
    &&& forall|i: int| 0 <= i < rows.len() ==> 1 <= #[trigger] rows[i].id < next
    &&& forall|i: int, j: int| 0 <= i < j < rows.len() ==> rows[i].id < rows[j].id
}

/// `n` is the note with id `id` and owner `user`.
pub open spec fn is_users_note(n: Note, id: i64, user: u128) -> bool {
    n.id == id && n.user_id == user
}

/// The table holds a note with id `id` that belongs to `user`.
pub open spec fn has_note(rows: Seq<Note>, id: i64, user: u128) -> bool {
    exists|i: int| 0 <= i < rows.len() && #[trigger] is_users_note(rows[i], id, user)
}

/// The table holds a note with id `id`, whoever owns it.
pub open spec fn has_id(rows: Seq<Note>, id: i64) -> bool {
    exists|i: int| 0 <= i < rows.len() && #[trigger] rows[i].id == id
}

/// The note with id `id` (meaningful where `has_id(rows, id)`).
pub open spec fn note_with_id(rows: Seq<Note>, id: i64) -> Note {
    rows[choose|i: int| 0 <= i < rows.len() && #[trigger] rows[i].id == id]
}

/// The notes of `user`, in the table's order.
pub open spec fn notes_of(rows: Seq<Note>, user: u128) -> Seq<Note> {
    rows.filter(|n: Note| n.user_id == user)
}

/// The note that an insert of `content` for `user` at time `now` adds.
pub open spec fn new_note(id: i64, content: String, user: u128, now: String) -> Note {
    Note { id, content, created_at: now, updated_at: None, user_id: user }
}

/// `n` with new content, stamped as updated at `now`.
pub open spec fn edited(n: Note, content: String, now: String) -> Note {
    Note { id: n.id, content, created_at: n.created_at, updated_at: Some(now), user_id: n.user_id }
}

/// The table after the note `id` of `user` (if any) gets `content`.
pub open spec fn rows_after_update(
    rows: Seq<Note>,
    id: i64,
    user: u128,
    content: String,
    now: String,
) -> Seq<Note> {
    Seq::new(
        rows.len(),
        |i: int|
            if is_users_note(rows[i], id, user) {
                edited(rows[i], content, now)
            } else {
                rows[i]
            },
    )
}

/// The table after the note `id` of `user` (if any) is removed.
pub open spec fn rows_after_delete(rows: Seq<Note>, id: i64, user: u128) -> Seq<Note> {
    rows.filter(|n: Note| !is_users_note(n, id, user))
}

/// The pattern of a search for `q`: `q` with a `%` on either side, so that
/// `%` and `_` inside `q` act as wildcards.
pub open spec fn search_pattern(q: Seq<char>) -> Seq<char> {
    seq!['%'] + q + seq!['%']
}

/// `lower(content) LIKE lower('%' || q || '%')`.
pub open spec fn search_hit(n: Note, q: Seq<char>) -> bool {
    like(ascii_lower(n.content@), ascii_lower(search_pattern(q)))
}

/// The notes of `user` that a search for `q` finds, in the table's order.
pub open spec fn search_result(rows: Seq<Note>, user: u128, q: Seq<char>) -> Seq<Note> {
    rows.filter(|n: Note| n.user_id == user && search_hit(n, q))
}

/// The notes of every user, stored the way the notes table keeps them.
pub struct NoteService {
    notes: Vec<Note>,
    next_id: i64,
}

impl NoteService {
    /// The rows of the table, in id order.
    pub closed spec fn rows(&self) -> Seq<Note> {
        self.notes@
    }

    /// The id that the next insert hands out.
    pub closed spec fn next_id(&self) -> int {
        self.next_id as int
    }

    /// The table is well formed (it always is: see `table_is_well_formed`).
    pub open spec fn wf(&self) -> bool {
        rows_wf(self.rows(), self.next_id())
    }

    #[verifier::type_invariant]
    pub(crate) closed spec fn table_is_well_formed(&self) -> bool {
        rows_wf(self.notes@, self.next_id as int)
    }

    /// An empty table whose first note gets id 1.
    pub fn new() -> (s: NoteService)
        ensures
            s.wf(),
            s.rows() == Seq::<Note>::empty(),
            s.next_id() == 1,
    {
        NoteService { notes: Vec::new(), next_id: 1 }
    }

    /// All notes of `user_id`.
    pub fn all_notes(&self, user_id: u128) -> (r: Result<Vec<Note>, StoreError>)
        ensures
            r matches Ok(v) && v@ == notes_of(self.rows(), user_id),
    {
        let mut out: Vec<Note> = Vec::new();
        for i in 0..self.notes.len()
            invariant
                out@ == notes_of(self.notes@.take(i as int), user_id),
        {
            assert(self.notes@.take(i + 1).drop_last() =~= self.notes@.take(i as int));
            reveal(Seq::filter);
            if self.notes[i].user_id == user_id {
                out.push(self.notes[i].duplicate());
            }
        }
        assert(self.notes@.take(self.notes.len() as int) =~= self.notes@);
        Ok(out)
    }

    /// Index of the row with id `id`, where it is unique.
    proof fn lemma_unique_id(&self, i: int, id: i64)
        requires
            self.wf(),
            0 <= i < self.rows().len(),
            self.rows()[i].id == id,
        ensures
            has_id(self.rows(), id),
            note_with_id(self.rows(), id) == self.rows()[i],
    {
        let rows = self.rows();
        assert(rows[i].id == id);
        let k = choose|k: int| 0 <= k < rows.len() && #[trigger] rows[k].id == id;
        lemma_ids_unique(rows, self.next_id(), k, i);
    }

    /// The table of a service is always well formed.
    pub(crate) proof fn lemma_table_wf(&self)
        requires
            self.table_is_well_formed(),
        ensures
            self.wf(),
    {
    }

    /// The note `id` of `user_id`; `RowNotFound` where the user has no such note.
    pub fn by_id(&self, id: i64, user_id: u128) -> (r: Result<Note, StoreError>)
        ensures
            r is Ok <==> has_note(self.rows(), id, user_id),
            r matches Ok(n) ==> n == note_with_id(self.rows(), id) && n.user_id == user_id,
            r matches Err(e) ==> e == StoreError::RowNotFound,
    {
        proof {
            use_type_invariant(self);
        }
        for i in 0..self.notes.len()
            invariant
                self.wf(),
                forall|k: int| 0 <= k < i ==> !is_users_note(#[trigger] self.notes@[k], id, user_id),
        {
            if self.notes[i].id == id && self.notes[i].user_id == user_id {
                proof {
                    self.lemma_unique_id(i as int, id);
                    assert(is_users_note(self.notes@[i as int], id, user_id));
                }
                return Ok(self.notes[i].duplicate());
            }
        }
        Err(StoreError::RowNotFound)
    }

    /// The note with id `id`, whoever owns it.
    fn find_by_id(&self, id: i64) -> (r: Result<Note, StoreError>)
        ensures
            r is Ok <==> has_id(self.rows(), id),
            r matches Ok(n) ==> n == note_with_id(self.rows(), id),
            r matches Err(e) ==> e == StoreError::RowNotFound,
    {
        proof {
            use_type_invariant(self);
        }
        for i in 0..self.notes.len()
            invariant
                self.wf(),
                forall|k: int| 0 <= k < i ==> #[trigger] self.notes@[k].id != id,
        {
            if self.notes[i].id == id {
                proof {
                    self.lemma_unique_id(i as int, id);
                }
                return Ok(self.notes[i].duplicate());
            }
        }
        Err(StoreError::RowNotFound)
    }

    /// Gives the note `id` of `user_id` the content `content`, stamped as
    /// updated at `now`, then reads back the note with id `id`, whoever owns it.
    pub fn update_note(&mut self, content: String, id: i64, user_id: u128, now: String) -> (r: Result<
        Note,
        StoreError,
    >)
        ensures
            old(self).wf(),
            final(self).wf(),
            final(self).next_id() == old(self).next_id(),
            final(self).rows() == rows_after_update(old(self).rows(), id, user_id, content, now),
            r is Ok <==> has_id(final(self).rows(), id),
            r matches Ok(n) ==> n == note_with_id(final(self).rows(), id),
            r matches Err(e) ==> e == StoreError::RowNotFound,
    {
        proof {
            use_type_invariant(&*self);
        }
        let ghost before = self.notes@;
        let mut i: usize = 0;
        while i < self.notes.len()
            invariant
                self.notes@ == before,
                rows_wf(before, self.next_id as int),
                i <= before.len(),
                forall|k: int| 0 <= k < i ==> !is_users_note(#[trigger] before[k], id, user_id),
            ensures
                self.notes@ == before,
                i <= before.len(),
                forall|k: int| 0 <= k < i ==> !is_users_note(#[trigger] before[k], id, user_id),
                i < before.len() ==> is_users_note(before[i as int], id, user_id),
            decreases before.len() - i,
        {
            if self.notes[i].id == id && self.notes[i].user_id == user_id {
                break;
            }
            i = i + 1;
        }
        if i < self.notes.len() {
            let old_note = self.notes[i].duplicate();
            let changed = Note {
                id: old_note.id,
                content,
                created_at: old_note.created_at,
                updated_at: Some(now),
                user_id: old_note.user_id,
            };
            proof {
                let after = before.update(i as int, changed);
                assert(rows_wf(after, self.next_id as int)) by {
                    assert forall|k: int| 0 <= k < after.len() implies #[trigger] after[k].id == before[k].id by {}
                }
            }
            let mut rows: Vec<Note> = Vec::new();
            std::mem::swap(&mut rows, &mut self.notes);
            rows.set(i, changed);
            self.notes = rows;
            proof {
                assert forall|k: int| 0 <= k < before.len() && k != i implies !is_users_note(
                    #[trigger] before[k],
                    id,
                    user_id,
                ) by {
                    if k > i {
                        assert(before[i as int].id < before[k].id);
                    }
                }
                assert(self.notes@ =~= rows_after_update(before, id, user_id, content, now));
            }
        } else {
            assert(self.notes@ =~= rows_after_update(before, id, user_id, content, now));
        }
        proof {
            use_type_invariant(&*self);
        }
        self.find_by_id(id)
    }

    /// Inserts a note of `user_id` with `content`, created at `now`, under the
    /// next id, and reads it back. `Full` once the largest id has been handed out.
    pub fn create_note(&mut self, content: String, user_id: u128, now: String) -> (r: Result<
        Note,
        StoreError,
    >)
        ensures
            old(self).wf(),
            final(self).wf(),
            old(self).next_id() == i64::MAX ==> r == Err::<Note, StoreError>(StoreError::Full)
                && final(self).rows() == old(self).rows() && final(self).next_id() == old(
                self,
            ).next_id(),
            old(self).next_id() < i64::MAX ==> {
                let n = new_note(old(self).next_id() as i64, content, user_id, now);
                &&& r == Ok::<Note, StoreError>(n)
                &&& final(self).rows() == old(self).rows().push(n)
                &&& final(self).next_id() == old(self).next_id() + 1
            },
    {
        proof {
            use_type_invariant(&*self);
        }
        if self.next_id == i64::MAX {
            return Err(StoreError::Full);
        }
        let id = self.next_id;
        let note = Note { id, content, created_at: now, updated_at: None, user_id };
        let copy = note.duplicate();
        let mut rows: Vec<Note> = Vec::new();
        std::mem::swap(&mut rows, &mut self.notes);
        rows.push(note);
        self.next_id = id + 1;
        self.notes = rows;
        proof {
            use_type_invariant(&*self);
        }
        Ok(copy)
    }

    /// The notes of `user_id` whose content, lower-cased, is `LIKE` the
    /// lower-cased pattern `%search_text%`.
    pub fn search_notes(&self, user_id: u128, search_text: String) -> (r: Result<
        Vec<Note>,
        StoreError,
    >)
        ensures
            r matches Ok(v) && v@ == search_result(self.rows(), user_id, search_text@),
    {
        let q = chars_of(search_text.as_str());
        let mut pattern: Vec<char> = Vec::new();
        pattern.push('%');
        for k in 0..q.len()
            invariant
                pattern@ == seq!['%'] + q@.take(k as int),
        {
            pattern.push(q[k]);
            assert(q@.take(k + 1) =~= q@.take(k as int).push(q@[k as int]));
        }
        pattern.push('%');
        assert(q@.take(q.len() as int) =~= q@);
        assert(pattern@ =~= search_pattern(search_text@));
        let lowered_pattern = lower_ascii(&pattern);
        let mut out: Vec<Note> = Vec::new();
        for i in 0..self.notes.len()
            invariant
                lowered_pattern@ == ascii_lower(search_pattern(search_text@)),
                out@ == search_result(self.notes@.take(i as int), user_id, search_text@),
        {
            assert(self.notes@.take(i + 1).drop_last() =~= self.notes@.take(i as int));
            reveal(Seq::filter);
            if self.notes[i].user_id == user_id {
                let content = chars_of(self.notes[i].content.as_str());
                let lowered = lower_ascii(&content);
                if like_matches(&lowered, &lowered_pattern) {
                    out.push(self.notes[i].duplicate());
                }
            }
        }
        assert(self.notes@.take(self.notes.len() as int) =~= self.notes@);
        Ok(out)
    }

    /// Removes the note `id` of `user_id`, if there is one.
    pub fn delete_by_id(&mut self, id: i64, user_id: u128) -> (r: Result<(), StoreError>)
        ensures
            old(self).wf(),
            final(self).wf(),
            final(self).next_id() == old(self).next_id(),
            final(self).rows() == rows_after_delete(old(self).rows(), id, user_id),
            r is Ok,
    {
        proof {
            use_type_invariant(&*self);
        }
        let ghost before = self.notes@;
        let mut kept: Vec<Note> = Vec::new();
        for i in 0..self.notes.len()
            invariant
                self.notes@ == before,
                kept@ == rows_after_delete(before.take(i as int), id, user_id),
        {
            assert(before.take(i + 1).drop_last() =~= before.take(i as int));
            reveal(Seq::filter);
            if !(self.notes[i].id == id && self.notes[i].user_id == user_id) {
                kept.push(self.notes[i].duplicate());
            }
        }
        assert(before.take(before.len() as int) =~= before);
        proof {
            lemma_filter_keeps_wf(before, self.next_id as int, |n: Note| !is_users_note(n, id, user_id));
        }
        self.notes = kept;
        proof {
            use_type_invariant(&*self);
        }
        Ok(())
    }
}

/// In a well-formed table no two rows share an id.
pub proof fn lemma_ids_unique(rows: Seq<Note>, next: int, i: int, j: int)
    requires
        rows_wf(rows, next),
        0 <= i < rows.len(),
        0 <= j < rows.len(),
        rows[i].id == rows[j].id,
    ensures
        i == j,
{
    if i < j {
        assert(rows[i].id < rows[j].id);
    } else if j < i {
        assert(rows[j].id < rows[i].id);
    }
}

/// Dropping rows keeps a table well formed.
pub proof fn lemma_filter_keeps_wf(rows: Seq<Note>, next: int, p: spec_fn(Note) -> bool)
    requires
        rows_wf(rows, next),
    ensures
        rows_wf(rows.filter(p), next),
    decreases rows.len(),
{
    reveal(Seq::filter);
    if rows.len() > 0 {
        let init = rows.drop_last();
        assert(rows_wf(init, next));
        lemma_filter_keeps_wf(init, next, p);
        let f = init.filter(p);
        if p(rows.last()) {
            assert forall|k: int| 0 <= k < f.len() implies f[k].id < rows.last().id by {
                assert(f.contains(f[k]));
                init.lemma_filter_contains_rev(p, f[k]);
                let j = choose|j: int| 0 <= j < init.len() && init[j] == f[k];
                assert(rows[j] == init[j]);
            }
        }
    }
}

} // verus!
