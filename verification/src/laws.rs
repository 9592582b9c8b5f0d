//! Laws the storage layer obeys, stated over the model and proved once for
//! every backend that meets the interface contracts.

use vstd::prelude::*;
use crate::handlers::built_note;
use crate::notes::{patched, NewNoteView, NoteView, PatchView};
use crate::store::{
    find_note, has_id, lemma_find_push, lemma_has_id_first_idx, lemma_remove_id_absent,
    lemma_update_first, remove_id, update_first,
};

verus! {

/// Law: a create under a fresh id followed by a lookup of that id observes
/// exactly the created note — title and body from the input, url the base
/// path, a slash, and the id.
pub proof fn lemma_create_then_get(
    s: Seq<NoteView>,
    new: NewNoteView,
    id: Seq<char>,
    path: Seq<char>,
)
    requires
        !has_id(s, id),
    ensures
        find_note(s.push(built_note(new, id, path)), id) == Some(built_note(new, id, path)),
        built_note(new, id, path).title == new.title,
        built_note(new, id, path).body == new.body,
        built_note(new, id, path).url == path + "/"@ + id,
{
    lemma_find_push(s, built_note(new, id, path));
}

/// Law: an id under which nothing is stored observes nothing and changes
/// nothing — the lookup is empty, a partial update is a no-op, a removal
/// leaves the collection as it was. (That none of the three is an error is
/// part of each operation's own contract.)
pub proof fn lemma_absent_id_noop(s: Seq<NoteView>, id: Seq<char>, patch: PatchView)
    requires
        !has_id(s, id),
    ensures
        find_note(s, id) is None,
        update_first(s, id, patch) == s,
        remove_id(s, id) == s,
{
    lemma_has_id_first_idx(s, id);
    lemma_update_first(s, id, patch);
    lemma_remove_id_absent(s, id);
}

/// Law: deleting an id is idempotent — after one removal the id is gone, so
/// a second delete of the same id reports that nothing was removed and leaves
/// the collection as the first removal left it.
pub proof fn lemma_delete_twice(s: Seq<NoteView>, id: Seq<char>)
    ensures
        !has_id(remove_id(s, id), id),
        remove_id(remove_id(s, id), id) == remove_id(s, id),
{
    lemma_remove_id_absent(s, id);
    lemma_remove_id_absent(remove_id(s, id), id);
}

/// Law: a patch overwrites exactly its present fields — a present field
/// (even an empty text) replaces the stored one, an absent field leaves the
/// stored one untouched, and id and url never change.
pub proof fn lemma_patch_semantics(n: NoteView, patch: PatchView)
    ensures
        patched(n, patch).id == n.id,
        patched(n, patch).url == n.url,
        patch.title is Some ==> patched(n, patch).title == patch.title->0,
        patch.title is None ==> patched(n, patch).title == n.title,
        patch.body is Some ==> patched(n, patch).body == patch.body->0,
        patch.body is None ==> patched(n, patch).body == n.body,
{
}

/// Whether no two stored notes share an id.
pub open spec fn distinct_ids(s: Seq<NoteView>) -> bool {
    forall|i: int, j: int| 0 <= i < j < s.len() ==> s[i].id != s[j].id
}

/// Law: a create under a fresh id grows the collection by exactly one note
/// and keeps ids distinct — so any number of creates of distinct notes, in
/// whatever order the lock serialises them, yields exactly that many notes
/// under distinct ids.
pub proof fn lemma_create_keeps_ids_distinct(s: Seq<NoteView>, n: NoteView)
    requires
        distinct_ids(s),
        !has_id(s, n.id),
    ensures
        distinct_ids(s.push(n)),
        s.push(n).len() == s.len() + 1,
{
    let t = s.push(n);
    assert forall|i: int, j: int| 0 <= i < j < t.len() implies t[i].id != t[j].id by {
        if j == s.len() {
            assert(t[i] == s[i]);
            if t[i].id == n.id {
                assert(has_id(s, n.id));
            }
        } else {
            assert(t[i] == s[i] && t[j] == s[j]);
        }
    }
}

} // verus!
