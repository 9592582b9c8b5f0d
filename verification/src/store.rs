//! The storage interface and its reference in-memory backend.
//!
//! A backend holds an ordered collection of notes, modelled as a
//! `Seq<NoteView>`. Lookup, update and removal go by id: `get` and `update`
//! act on the first note carrying the id, `delete` removes every note carrying
//! it, `create` appends without a duplicate check (ids are generated to be
//! unique), and `list` returns the collection in its current order.

use vstd::prelude::*;
use crate::notes::{patched, Note, NoteView, PatchNote, PatchView};

verus! {

/// A backend's sole failure: it cannot complete the operation at all
/// (a poisoned lock, a lost connection). Absence of a note is never an error.
#[derive(Clone, Copy, Debug, PartialEq, Eq, Structural)]
pub enum StoreError {
    Unavailable,
}

/// The model of an exec collection of notes.
pub open spec fn notes_view(s: Seq<Note>) -> Seq<NoteView> {
    s.map_values(|n: Note| n@)
}

/// Whether some note in `s` carries `id`.
pub open spec fn has_id(s: Seq<NoteView>, id: Seq<char>) -> bool {
    exists|k: int| 0 <= k < s.len() && #[trigger] s[k].id == id
}

/// The position of the first note carrying `id` at or after `i`, or -1.
pub open spec fn first_idx_from(s: Seq<NoteView>, id: Seq<char>, i: int) -> int
    decreases s.len() - i,
{
    if i < 0 || i >= s.len() {
        -1
    } else if s[i].id == id {
        i
    } else {
        first_idx_from(s, id, i + 1)
    }
}

/// The position of the first note carrying `id`, or -1 if none does.
pub open spec fn first_idx(s: Seq<NoteView>, id: Seq<char>) -> int {
    first_idx_from(s, id, 0)
}

/// What a lookup by `id` observes: the first note carrying it, if any.
pub open spec fn find_note(s: Seq<NoteView>, id: Seq<char>) -> Option<NoteView> {
    if first_idx(s, id) >= 0 {
        Some(s[first_idx(s, id)])
    } else {
        None
    }
}

/// The collection after a partial update of `id`: the first note carrying the
/// id is patched in place; when none does, the collection is unchanged.
pub open spec fn update_first(s: Seq<NoteView>, id: Seq<char>, patch: PatchView) -> Seq<NoteView> {
    if first_idx(s, id) >= 0 {
        s.update(first_idx(s, id), patched(s[first_idx(s, id)], patch))
    } else {
        s
    }
}

/// The collection after a removal of `id`: every note carrying the id is
/// gone, the rest keep their order.
pub open spec fn remove_id(s: Seq<NoteView>, id: Seq<char>) -> Seq<NoteView>
    decreases s.len(),
{
    if s.len() == 0 {
        Seq::empty()
    } else if s.last().id == id {
        remove_id(s.drop_last(), id)
    } else {
        remove_id(s.drop_last(), id).push(s.last())
    }
}

/// What `first_idx_from` returns: either -1 with no note carrying the id at
/// or after `i`, or the least such position.
pub proof fn lemma_first_idx_from(s: Seq<NoteView>, id: Seq<char>, i: int)
    requires
        i >= 0,
    ensures
        first_idx_from(s, id, i) == -1 || first_idx_from(s, id, i) >= i,
        first_idx_from(s, id, i) == -1 ==> forall|k: int|
            i <= k < s.len() ==> #[trigger] s[k].id != id,
        first_idx_from(s, id, i) >= 0 ==> i <= first_idx_from(s, id, i) < s.len()
            && s[first_idx_from(s, id, i)].id == id
            && forall|k: int| i <= k < first_idx_from(s, id, i) ==> #[trigger] s[k].id != id,
    decreases s.len() - i,
{
    if i < s.len() && s[i].id != id {
        lemma_first_idx_from(s, id, i + 1);
    }
}

/// A position that carries the id, with none before it, is the first one.
pub proof fn lemma_first_idx_is(s: Seq<NoteView>, id: Seq<char>, m: int, i: int)
    requires
        0 <= i <= m < s.len(),
        s[m].id == id,
        forall|k: int| i <= k < m ==> s[k].id != id,
    ensures
        first_idx_from(s, id, i) == m,
    decreases m - i,
{
    if i < m {
        lemma_first_idx_is(s, id, m, i + 1);
    }
}

/// A note carries `id` somewhere in `s` exactly when the first lookup
/// position exists.
pub proof fn lemma_has_id_first_idx(s: Seq<NoteView>, id: Seq<char>)
    ensures
        has_id(s, id) <==> first_idx(s, id) >= 0,
{
    lemma_first_idx_from(s, id, 0);
    assert(first_idx(s, id) == first_idx_from(s, id, 0));
    if first_idx(s, id) >= 0 {
        let m = first_idx(s, id);
        assert(s[m].id == id);
        assert(has_id(s, id));
    } else {
        assert(forall|k: int| 0 <= k < s.len() ==> #[trigger] s[k].id != id);
        assert(!has_id(s, id));
    }
}

/// Appending a note and then looking its id up observes the appended note,
/// unless an earlier note already carried the id, in which case that one is
/// still observed.
pub proof fn lemma_find_push(s: Seq<NoteView>, n: NoteView)
    ensures
        has_id(s, n.id) ==> find_note(s.push(n), n.id) == find_note(s, n.id),
        !has_id(s, n.id) ==> find_note(s.push(n), n.id) == Some(n),
        has_id(s.push(n), n.id),
{
    let t = s.push(n);
    lemma_has_id_first_idx(s, n.id);
    lemma_first_idx_from(s, n.id, 0);
    assert(t[s.len() as int] == n);
    if has_id(s, n.id) {
        let m = first_idx(s, n.id);
        lemma_first_idx_is(t, n.id, m, 0);
    } else {
        assert(forall|k: int| 0 <= k < s.len() ==> t[k] == s[k]);
        lemma_first_idx_is(t, n.id, s.len() as int, 0);
    }
    lemma_has_id_first_idx(t, n.id);
}

/// A removal takes every note carrying the id out and touches nothing else.
pub proof fn lemma_remove_id_absent(s: Seq<NoteView>, id: Seq<char>)
    ensures
        !has_id(remove_id(s, id), id),
        !has_id(s, id) ==> remove_id(s, id) == s,
    decreases s.len(),
{
    if s.len() == 0 {
        assert(remove_id(s, id) =~= s);
    } else {
        lemma_remove_id_absent(s.drop_last(), id);
        if s.last().id == id {
            assert(has_id(s, id)) by {
                assert(s[s.len() - 1].id == id);
            }
        } else {
            if !has_id(s, id) {
                assert(!has_id(s.drop_last(), id)) by {
                    if has_id(s.drop_last(), id) {
                        let k = choose|k: int|
                            0 <= k < s.drop_last().len() && s.drop_last()[k].id == id;
                        assert(s[k].id == id);
                    }
                }
                assert(remove_id(s, id) =~= s);
            } else {
                let r = remove_id(s.drop_last(), id).push(s.last());
                assert(!has_id(r, id)) by {
                    if has_id(r, id) {
                        let k = choose|k: int| 0 <= k < r.len() && r[k].id == id;
                        if k < r.len() - 1 {
                            assert(remove_id(s.drop_last(), id)[k].id == id);
                        }
                    }
                }
            }
        }
    }
}

/// A partial update touches exactly the first note carrying the id: the
/// lookup afterwards observes the patched note, every position keeps its id,
/// and without a carrier the collection is unchanged.
pub proof fn lemma_update_first(s: Seq<NoteView>, id: Seq<char>, patch: PatchView)
    ensures
        !has_id(s, id) ==> update_first(s, id, patch) == s,
        update_first(s, id, patch).len() == s.len(),
        forall|k: int| 0 <= k < s.len() ==> #[trigger] update_first(s, id, patch)[k].id == s[k].id,
        has_id(update_first(s, id, patch), id) == has_id(s, id),
        has_id(s, id) ==> find_note(update_first(s, id, patch), id)
            == Some(patched(find_note(s, id)->0, patch)),
{
    lemma_has_id_first_idx(s, id);
    lemma_first_idx_from(s, id, 0);
    if first_idx(s, id) >= 0 {
        let m = first_idx(s, id);
        let t = s.update(m, patched(s[m], patch));
        assert(t[m].id == id);
        assert(forall|k: int| 0 <= k < s.len() && k != m ==> t[k] == s[k]);
        lemma_first_idx_is(t, id, m, 0);
        assert(has_id(t, id));
        lemma_has_id_first_idx(t, id);
    }
}

/// Scanning one note further sees an id exactly when the prefix saw it or the
/// next note carries it.
pub proof fn lemma_has_id_take_step(s: Seq<NoteView>, id: Seq<char>, i: int)
    requires
        0 <= i < s.len(),
    ensures
        has_id(s.take(i + 1), id) == (has_id(s.take(i), id) || s[i].id == id),
{
    let t = s.take(i + 1);
    let u = s.take(i);
    if s[i].id == id {
        assert(t[i].id == id);
    } else {
        if has_id(t, id) {
            let k = choose|k: int| 0 <= k < t.len() && #[trigger] t[k].id == id;
            assert(k < i);
            assert(u[k].id == id);
        }
    }
    if has_id(u, id) {
        let k = choose|k: int| 0 <= k < u.len() && #[trigger] u[k].id == id;
        assert(t[k].id == id);
    }
}

/// The storage interface: the capability every backend offers the handler
/// layer. `notes()` is the backend's current collection; the `*_fails` /
/// `get_none` observers say which calls the backend will refuse (for the
/// in-memory backend they are test switches; a durable backend would tie them
/// to its connection state). Failures leave the collection as it was, and
/// absence of a note is reported in the result, never as an error.
pub trait NoteDb: Sized {
    spec fn notes(&self) -> Seq<NoteView>;

    spec fn create_fails(&self) -> bool;

    spec fn get_fails(&self) -> bool;

    spec fn get_none(&self) -> bool;

    spec fn update_fails(&self) -> bool;

    spec fn delete_fails(&self) -> bool;

    spec fn list_fails(&self) -> bool;

    /// Persists a fully formed note by appending it; no duplicate check.
    fn create_note(&mut self, note: &Note) -> (r: Result<(), StoreError>)
        ensures
            final(self).create_fails() == old(self).create_fails(),
            final(self).get_fails() == old(self).get_fails(),
            final(self).get_none() == old(self).get_none(),
            final(self).update_fails() == old(self).update_fails(),
            final(self).delete_fails() == old(self).delete_fails(),
            final(self).list_fails() == old(self).list_fails(),
            r is Err <==> old(self).create_fails(),
            r is Ok ==> final(self).notes() == old(self).notes().push(note@),
            r is Err ==> final(self).notes() == old(self).notes(),
    ;

    /// Point lookup: the first note carrying the id, or `None`.
    fn get_note(&self, id: &str) -> (r: Result<Option<Note>, StoreError>)
        ensures
            r is Err <==> self.get_fails(),
            r matches Ok(o) ==> opt_note_view(o) == (if self.get_none() {
                None::<NoteView>
            } else {
                find_note(self.notes(), id@)
            }),
    ;

    /// Applies the present patch fields to the first note carrying the id;
    /// a no-op (not an error) when no note carries it.
    fn update_note(&mut self, id: &str, patch: &PatchNote) -> (r: Result<(), StoreError>)
        ensures
            final(self).create_fails() == old(self).create_fails(),
            final(self).get_fails() == old(self).get_fails(),
            final(self).get_none() == old(self).get_none(),
            final(self).update_fails() == old(self).update_fails(),
            final(self).delete_fails() == old(self).delete_fails(),
            final(self).list_fails() == old(self).list_fails(),
            r is Err <==> old(self).update_fails(),
            r is Ok ==> final(self).notes() == update_first(old(self).notes(), id@, patch@),
            r is Err ==> final(self).notes() == old(self).notes(),
    ;

    /// Removes every note carrying the id and reports whether any was there.
    fn delete_note(&mut self, id: &str) -> (r: Result<bool, StoreError>)
        ensures
            final(self).create_fails() == old(self).create_fails(),
            final(self).get_fails() == old(self).get_fails(),
            final(self).get_none() == old(self).get_none(),
            final(self).update_fails() == old(self).update_fails(),
            final(self).delete_fails() == old(self).delete_fails(),
            final(self).list_fails() == old(self).list_fails(),
            r is Err <==> old(self).delete_fails(),
            r is Err ==> final(self).notes() == old(self).notes(),
            r matches Ok(b) ==> b == has_id(old(self).notes(), id@)
                && final(self).notes() == remove_id(old(self).notes(), id@),
    ;

    /// A copy of the whole collection in its current order.
    fn list_notes(&self) -> (r: Result<Vec<Note>, StoreError>)
        ensures
            r is Err <==> self.list_fails(),
            r matches Ok(v) ==> notes_view(v@) == self.notes(),
    ;
}

/// The model of an optional exec note.
pub open spec fn opt_note_view(o: Option<Note>) -> Option<NoteView> {
    match o {
        Some(n) => Some(n@),
        None => None,
    }
}

/// The in-memory backend: notes in a vector, in insertion order. The `fail_*`
/// and `none_*` switches make it refuse chosen calls, standing in for the lock
/// or connection failures a real backend can meet; all switches start off.
pub struct NoteVecDb {
    notes: Vec<Note>,
    fail_create: bool,
    fail_get: bool,
    none_get: bool,
    fail_update: bool,
    fail_delete: bool,
    fail_list: bool,
}

impl NoteVecDb {
    /// A backend holding the given notes, refusing nothing.
    pub fn new(notes: Vec<Note>) -> (r: NoteVecDb)
        ensures
            r.notes() == notes_view(notes@),
            !r.create_fails(),
            !r.get_fails(),
            !r.get_none(),
            !r.update_fails(),
            !r.delete_fails(),
            !r.list_fails(),
    {
        NoteVecDb {
            notes,
            fail_create: false,
            fail_get: false,
            none_get: false,
            fail_update: false,
            fail_delete: false,
            fail_list: false,
        }
    }

    pub fn set_fail_create(&mut self, value: bool)
        ensures
            final(self).notes() == old(self).notes(),
            final(self).create_fails() == value,
            final(self).get_fails() == old(self).get_fails(),
            final(self).get_none() == old(self).get_none(),
            final(self).update_fails() == old(self).update_fails(),
            final(self).delete_fails() == old(self).delete_fails(),
            final(self).list_fails() == old(self).list_fails(),
    {
        self.fail_create = value;
    }

    pub fn set_fail_get(&mut self, value: bool)
        ensures
            final(self).notes() == old(self).notes(),
            final(self).get_fails() == value,
            final(self).create_fails() == old(self).create_fails(),
            final(self).get_none() == old(self).get_none(),
            final(self).update_fails() == old(self).update_fails(),
            final(self).delete_fails() == old(self).delete_fails(),
            final(self).list_fails() == old(self).list_fails(),
    {
        self.fail_get = value;
    }

    pub fn set_none_get(&mut self, value: bool)
        ensures
            final(self).notes() == old(self).notes(),
            final(self).get_none() == value,
            final(self).create_fails() == old(self).create_fails(),
            final(self).get_fails() == old(self).get_fails(),
            final(self).update_fails() == old(self).update_fails(),
            final(self).delete_fails() == old(self).delete_fails(),
            final(self).list_fails() == old(self).list_fails(),
    {
        self.none_get = value;
    }

    pub fn set_fail_update(&mut self, value: bool)
        ensures
            final(self).notes() == old(self).notes(),
            final(self).update_fails() == value,
            final(self).create_fails() == old(self).create_fails(),
            final(self).get_fails() == old(self).get_fails(),
            final(self).get_none() == old(self).get_none(),
            final(self).delete_fails() == old(self).delete_fails(),
            final(self).list_fails() == old(self).list_fails(),
    {
        self.fail_update = value;
    }

    pub fn set_fail_delete(&mut self, value: bool)
        ensures
            final(self).notes() == old(self).notes(),
            final(self).delete_fails() == value,
            final(self).create_fails() == old(self).create_fails(),
            final(self).get_fails() == old(self).get_fails(),
            final(self).get_none() == old(self).get_none(),
            final(self).update_fails() == old(self).update_fails(),
            final(self).list_fails() == old(self).list_fails(),
    {
        self.fail_delete = value;
    }

    pub fn set_fail_list(&mut self, value: bool)
        ensures
            final(self).notes() == old(self).notes(),
            final(self).list_fails() == value,
            final(self).create_fails() == old(self).create_fails(),
            final(self).get_fails() == old(self).get_fails(),
            final(self).get_none() == old(self).get_none(),
            final(self).update_fails() == old(self).update_fails(),
            final(self).delete_fails() == old(self).delete_fails(),
    {
        self.fail_list = value;
    }
}

impl NoteDb for NoteVecDb {
    closed spec fn notes(&self) -> Seq<NoteView> {
        notes_view(self.notes@)
    }

    closed spec fn create_fails(&self) -> bool {
        self.fail_create
    }

    closed spec fn get_fails(&self) -> bool {
        self.fail_get
    }

    closed spec fn get_none(&self) -> bool {
        self.none_get
    }

    closed spec fn update_fails(&self) -> bool {
        self.fail_update
    }

    closed spec fn delete_fails(&self) -> bool {
        self.fail_delete
    }

    closed spec fn list_fails(&self) -> bool {
        self.fail_list
    }

    fn create_note(&mut self, note: &Note) -> (r: Result<(), StoreError>) {
        if self.fail_create {
            return Err(StoreError::Unavailable);
        }
        let n = note.clone();
        self.notes.push(n);
        proof {
            assert(notes_view(self.notes@) =~= notes_view(old(self).notes@).push(note@));
        }
        Ok(())
    }

    fn get_note(&self, id: &str) -> (r: Result<Option<Note>, StoreError>) {
        if self.fail_get {
            return Err(StoreError::Unavailable);
        }
        if self.none_get {
            return Ok(None);
        }
        let key = id.to_owned();
        let ghost s = notes_view(self.notes@);
        let mut i: usize = 0;
        while i < self.notes.len()
            invariant
                i <= self.notes.len(),
                key@ == id@,
                !self.fail_get,
                !self.none_get,
                s == notes_view(self.notes@),
                first_idx(s, id@) == first_idx_from(s, id@, i as int),
            decreases self.notes.len() - i,
        {
            if self.notes[i].id == key {
                proof {
                    assert(s[i as int].id == id@);
                }
                return Ok(Some(self.notes[i].clone()));
            }
            proof {
                assert(s[i as int].id != id@);
            }
            i += 1;
        }
        Ok(None)
    }

    fn update_note(&mut self, id: &str, patch: &PatchNote) -> (r: Result<(), StoreError>) {
        if self.fail_update {
            return Err(StoreError::Unavailable);
        }
        let key = id.to_owned();
        let ghost s = notes_view(self.notes@);
        let mut i: usize = 0;
        while i < self.notes.len()
            invariant
                i <= self.notes.len(),
                key@ == id@,
                !self.fail_update,
                *self == *old(self),
                s == notes_view(self.notes@),
                first_idx(s, id@) == first_idx_from(s, id@, i as int),
            decreases self.notes.len() - i,
        {
            if self.notes[i].id == key {
                proof {
                    assert(s[i as int].id == id@);
                }
                let new_title = match &patch.title {
                    Some(t) => t.clone(),
                    None => self.notes[i].title.clone(),
                };
                let new_body = match &patch.body {
                    Some(b) => b.clone(),
                    None => self.notes[i].body.clone(),
                };
                let updated = Note {
                    id: self.notes[i].id.clone(),
                    title: new_title,
                    body: new_body,
                    url: self.notes[i].url.clone(),
                };
                proof {
                    assert(updated@ == patched(s[i as int], patch@));
                }
                self.notes[i] = updated;
                proof {
                    assert(notes_view(self.notes@) =~= update_first(s, id@, patch@));
                }
                return Ok(());
            }
            proof {
                assert(s[i as int].id != id@);
            }
            i += 1;
        }
        Ok(())
    }

    fn delete_note(&mut self, id: &str) -> (r: Result<bool, StoreError>) {
        if self.fail_delete {
            return Err(StoreError::Unavailable);
        }
        let key = id.to_owned();
        let ghost s = notes_view(self.notes@);
        let mut out: Vec<Note> = Vec::new();
        let mut found = false;
        let mut i: usize = 0;
        while i < self.notes.len()
            invariant
                i <= self.notes.len(),
                key@ == id@,
                !self.fail_delete,
                *self == *old(self),
                s == notes_view(self.notes@),
                notes_view(out@) == remove_id(s.take(i as int), id@),
                found == has_id(s.take(i as int), id@),
            decreases self.notes.len() - i,
        {
            proof {
                lemma_has_id_take_step(s, id@, i as int);
                assert(s.take(i + 1 as int).drop_last() =~= s.take(i as int));
                assert(s.take(i + 1 as int).last() == s[i as int]);
            }
            if self.notes[i].id == key {
                found = true;
            } else {
                out.push(self.notes[i].clone());
                proof {
                    assert(notes_view(out@) =~= remove_id(s.take(i as int), id@).push(
                        s[i as int],
                    ));
                }
            }
            i += 1;
        }
        proof {
            assert(s.take(self.notes.len() as int) =~= s);
        }
        self.notes = out;
        Ok(found)
    }

    fn list_notes(&self) -> (r: Result<Vec<Note>, StoreError>) {
        if self.fail_list {
            return Err(StoreError::Unavailable);
        }
        let ghost s = notes_view(self.notes@);
        let mut out: Vec<Note> = Vec::new();
        let mut i: usize = 0;
        while i < self.notes.len()
            invariant
                i <= self.notes.len(),
                !self.fail_list,
                s == notes_view(self.notes@),
                notes_view(out@) == s.take(i as int),
            decreases self.notes.len() - i,
        {
            let n = self.notes[i].clone();
            proof {
                assert(n@ == s[i as int]);
            }
            out.push(n);
            proof {
                assert(s.take(i as int).len() == i);
                assert(notes_view(out@) =~= s.take(i + 1 as int));
            }
            i += 1;
        }
        proof {
            assert(s.take(self.notes.len() as int) =~= s);
        }
        Ok(out)
    }
}

} // verus!
