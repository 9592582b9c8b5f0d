//! The handler-facing orchestration of the five storage operations.
//!
//! Each function drives one client-visible operation against any backend and
//! folds the backend's answers into a single outcome: a note (or note list),
//! `NotFound` when the id is absent, or `Internal` when the backend refused a
//! call. A create reads its note back to return the authoritative stored
//! value; a patch does the same, and surfaces a missing id as `NotFound` even
//! though the update step itself succeeded as a no-op.

use vstd::prelude::*;
use vstd::string::StringExecFns;
use crate::notes::{fresh_id, patched, NewNote, NewNoteView, Note, NoteView, PatchNote, ID_LEN};
use crate::store::{
    find_note, has_id, lemma_find_push, lemma_first_idx_from, lemma_has_id_first_idx,
    lemma_update_first, notes_view, remove_id, update_first, NoteDb,
};

verus! {

/// Startup configuration handed to the serving layer.
pub struct AppConfig {
    pub host_port: String,
    pub api_version: String,
}

/// The outcome a handler reports when no note can be returned: the id named
/// no note, or the backend could not complete a call.
#[derive(Clone, Copy, Debug, PartialEq, Eq, Structural)]
pub enum ApiError {
    NotFound,
    Internal,
}

/// The note a create stores for input `new` under the fresh id: texts from
/// the input, url derived from the id under the handler's base path.
pub open spec fn built_note(new: NewNoteView, id: Seq<char>, path: Seq<char>) -> NoteView {
    NoteView { id: id, title: new.title, body: new.body, url: path + "/"@ + id }
}

/// Creates a note under the given id and reads it back. The stored note is
/// appended in every case in which the backend accepts the write, even when
/// the read-back then fails; the reported note is whatever the read-back
/// observes first under that id.
pub fn post_note_with_id<D: NoteDb>(
    db: &mut D,
    new_note: &NewNote,
    id: String,
    notes_path: &str,
) -> (r: Result<Note, ApiError>)
    ensures
        final(db).create_fails() == old(db).create_fails(),
        final(db).get_fails() == old(db).get_fails(),
        final(db).get_none() == old(db).get_none(),
        final(db).update_fails() == old(db).update_fails(),
        final(db).delete_fails() == old(db).delete_fails(),
        final(db).list_fails() == old(db).list_fails(),
        old(db).create_fails() ==> final(db).notes() == old(db).notes(),
        !old(db).create_fails() ==> final(db).notes() == old(db).notes().push(
            built_note(new_note@, id@, notes_path@),
        ),
        r is Err <==> (old(db).create_fails() || old(db).get_fails() || old(db).get_none()),
        r is Err ==> r == Err::<Note, ApiError>(ApiError::Internal),
        r matches Ok(n) ==> n.id@ == id@ && (!has_id(old(db).notes(), id@) ==> n@ == built_note(
            new_note@,
            id@,
            notes_path@,
        )) && (has_id(old(db).notes(), id@) ==> n@ == find_note(old(db).notes(), id@)->0),
{
    let url = notes_path.to_owned().concat("/").concat(id.as_str());
    let note = Note {
        id: id.clone(),
        title: new_note.title.clone(),
        body: new_note.body.clone(),
        url,
    };
    proof {
        assert(note@ == built_note(new_note@, id@, notes_path@));
    }
    match db.create_note(&note) {
        Ok(_) => {},
        Err(_) => {
            return Err(ApiError::Internal);
        },
    }
    proof {
        lemma_find_push(old(db).notes(), note@);
        lemma_has_id_first_idx(old(db).notes(), id@);
        lemma_has_id_first_idx(db.notes(), id@);
        lemma_first_idx_from(old(db).notes(), id@, 0);
        lemma_first_idx_from(db.notes(), id@, 0);
    }
    let got = match db.get_note(id.as_str()) {
        Ok(o) => o,
        Err(_) => {
            return Err(ApiError::Internal);
        },
    };
    match got {
        Some(n) => Ok(n),
        None => Err(ApiError::Internal),
    }
}

/// Creates a note from the input under a freshly generated id and reads it
/// back. The id is random, so the contract pins everything but its value: the
/// stored note carries the input's texts and a url derived from the new id.
pub fn post_note<D: NoteDb>(db: &mut D, new_note: &NewNote, notes_path: &str) -> (r: Result<
    Note,
    ApiError,
>)
    ensures
        final(db).create_fails() == old(db).create_fails(),
        final(db).get_fails() == old(db).get_fails(),
        final(db).get_none() == old(db).get_none(),
        final(db).update_fails() == old(db).update_fails(),
        final(db).delete_fails() == old(db).delete_fails(),
        final(db).list_fails() == old(db).list_fails(),
        r is Err <==> (old(db).create_fails() || old(db).get_fails() || old(db).get_none()),
        r is Err ==> r == Err::<Note, ApiError>(ApiError::Internal),
        old(db).create_fails() ==> final(db).notes() == old(db).notes(),
        !old(db).create_fails() ==> exists|id: Seq<char>|
            id.len() == ID_LEN && final(db).notes() == old(db).notes().push(
                #[trigger] built_note(new_note@, id, notes_path@),
            ),
        r matches Ok(n) ==> n.id@.len() == ID_LEN && final(db).notes() == old(db).notes().push(
            built_note(new_note@, n.id@, notes_path@),
        ) && (!has_id(old(db).notes(), n.id@) ==> n@ == built_note(
            new_note@,
            n.id@,
            notes_path@,
        )) && (has_id(old(db).notes(), n.id@) ==> n@ == find_note(old(db).notes(), n.id@)->0),
{
    let id = fresh_id();
    let ghost gid = id@;
    let r = post_note_with_id(db, new_note, id, notes_path);
    proof {
        if !old(db).create_fails() {
            assert(gid.len() == ID_LEN && db.notes() == old(db).notes().push(
                built_note(new_note@, gid, notes_path@),
            ));
        }
    }
    r
}

/// Point read of one note: the first note under the id, `NotFound` when none
/// is there (or the backend reports none), `Internal` when it cannot look.
pub fn get_note<D: NoteDb>(db: &D, id: &str) -> (r: Result<Note, ApiError>)
    ensures
        db.get_fails() ==> r == Err::<Note, ApiError>(ApiError::Internal),
        !db.get_fails() && (db.get_none() || !has_id(db.notes(), id@)) ==> r == Err::<
            Note,
            ApiError,
        >(ApiError::NotFound),
        !db.get_fails() && !db.get_none() && has_id(db.notes(), id@) ==> (r matches Ok(n) && n@
            == find_note(db.notes(), id@)->0),
{
    proof {
        lemma_has_id_first_idx(db.notes(), id@);
    }
    match db.get_note(id) {
        Err(_) => Err(ApiError::Internal),
        Ok(None) => Err(ApiError::NotFound),
        Ok(Some(n)) => Ok(n),
    }
}

/// Applies a partial update and reads the note back. A missing id is a
/// successful no-op at the storage layer, surfaced here as `NotFound`.
pub fn patch_note<D: NoteDb>(db: &mut D, id: &str, patch: &PatchNote) -> (r: Result<
    Note,
    ApiError,
>)
    ensures
        final(db).create_fails() == old(db).create_fails(),
        final(db).get_fails() == old(db).get_fails(),
        final(db).get_none() == old(db).get_none(),
        final(db).update_fails() == old(db).update_fails(),
        final(db).delete_fails() == old(db).delete_fails(),
        final(db).list_fails() == old(db).list_fails(),
        old(db).update_fails() ==> r == Err::<Note, ApiError>(ApiError::Internal) && final(db).notes() == old(db).notes(),
        !old(db).update_fails() ==> final(db).notes() == update_first(
            old(db).notes(),
            id@,
            patch@,
        ),
        !old(db).update_fails() && old(db).get_fails() ==> r == Err::<Note, ApiError>(
            ApiError::Internal,
        ),
        !old(db).update_fails() && !old(db).get_fails() && (old(db).get_none() || !has_id(
            old(db).notes(),
            id@,
        )) ==> r == Err::<Note, ApiError>(ApiError::NotFound),
        !old(db).update_fails() && !old(db).get_fails() && !old(db).get_none() && has_id(
            old(db).notes(),
            id@,
        ) ==> (r matches Ok(n) && n@ == patched(find_note(old(db).notes(), id@)->0, patch@)),
{
    match db.update_note(id, patch) {
        Ok(_) => {},
        Err(_) => {
            return Err(ApiError::Internal);
        },
    }
    proof {
        lemma_update_first(old(db).notes(), id@, patch@);
        lemma_has_id_first_idx(old(db).notes(), id@);
        lemma_has_id_first_idx(db.notes(), id@);
    }
    match db.get_note(id) {
        Err(_) => Err(ApiError::Internal),
        Ok(None) => Err(ApiError::NotFound),
        Ok(Some(n)) => Ok(n),
    }
}

/// Removes every note under the id. Removing something is success; an id
/// that named nothing is `NotFound`, never an error of the storage layer.
pub fn delete_note<D: NoteDb>(db: &mut D, id: &str) -> (r: Result<(), ApiError>)
    ensures
        final(db).create_fails() == old(db).create_fails(),
        final(db).get_fails() == old(db).get_fails(),
        final(db).get_none() == old(db).get_none(),
        final(db).update_fails() == old(db).update_fails(),
        final(db).delete_fails() == old(db).delete_fails(),
        final(db).list_fails() == old(db).list_fails(),
        old(db).delete_fails() ==> r == Err::<(), ApiError>(ApiError::Internal) && final(db).notes() == old(db).notes(),
        !old(db).delete_fails() ==> final(db).notes() == remove_id(old(db).notes(), id@),
        !old(db).delete_fails() && !has_id(old(db).notes(), id@) ==> r == Err::<(), ApiError>(
            ApiError::NotFound,
        ),
        !old(db).delete_fails() && has_id(old(db).notes(), id@) ==> r is Ok,
{
    match db.delete_note(id) {
        Err(_) => Err(ApiError::Internal),
        Ok(true) => Ok(()),
        Ok(false) => Err(ApiError::NotFound),
    }
}

/// The whole collection in its current order; an empty list is a valid,
/// non-error answer.
pub fn list_notes<D: NoteDb>(db: &D) -> (r: Result<Vec<Note>, ApiError>)
    ensures
        db.list_fails() ==> r == Err::<Vec<Note>, ApiError>(ApiError::Internal),
        !db.list_fails() ==> (r matches Ok(v) && notes_view(v@) == db.notes()),
{
    match db.list_notes() {
        Ok(v) => Ok(v),
        Err(_) => Err(ApiError::Internal),
    }
}

} // verus!
