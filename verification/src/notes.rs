//! The note record and its transient input forms.
//!
//! A `Note` is the persisted record: an opaque server-generated `id`, free
//! `title` and `body` text, and a `url` derived from the id at creation time.
//! `NewNote` is the input to a create (no id yet); `PatchNote` is the input to
//! an update, where each field is independently present or absent — an absent
//! field leaves the stored field untouched, a present one (even an empty
//! string) overwrites it.

use vstd::prelude::*;
use vstd::string::StringExecFns;

verus! {

/// Mathematical model of a stored note: each text field as a sequence of
/// characters.
pub ghost struct NoteView {
    pub id: Seq<char>,
    pub title: Seq<char>,
    pub body: Seq<char>,
    pub url: Seq<char>,
}

/// Mathematical model of a creation request.
pub ghost struct NewNoteView {
    pub title: Seq<char>,
    pub body: Seq<char>,
}

/// Mathematical model of a partial update: `None` means "leave the field as
/// it is", `Some` (including the empty sequence) means "overwrite it".
pub ghost struct PatchView {
    pub title: Option<Seq<char>>,
    pub body: Option<Seq<char>>,
}

pub struct Note {
    pub id: String,
    pub title: String,
    pub body: String,
    pub url: String,
}

impl View for Note {
    type V = NoteView;

    open spec fn view(&self) -> NoteView {
        NoteView { id: self.id@, title: self.title@, body: self.body@, url: self.url@ }
    }
}

impl Clone for Note {
    fn clone(&self) -> (r: Note)
        ensures
            r@ == self@,
    {
        Note {
            id: self.id.clone(),
            title: self.title.clone(),
            body: self.body.clone(),
            url: self.url.clone(),
        }
    }
}

pub struct NewNote {
    pub title: String,
    pub body: String,
}

impl View for NewNote {
    type V = NewNoteView;

    open spec fn view(&self) -> NewNoteView {
        NewNoteView { title: self.title@, body: self.body@ }
    }
}

pub struct PatchNote {
    pub title: Option<String>,
    pub body: Option<String>,
}

impl View for PatchNote {
    type V = PatchView;

    open spec fn view(&self) -> PatchView {
        PatchView {
            title: match self.title {
                Some(t) => Some(t@),
                None => None,
            },
            body: match self.body {
                Some(b) => Some(b@),
                None => None,
            },
        }
    }
}

/// The note that `patch` turns `n` into: present patch fields overwrite,
/// absent ones leave the stored text untouched; id and url never change.
pub open spec fn patched(n: NoteView, patch: PatchView) -> NoteView {
    NoteView {
        id: n.id,
        title: match patch.title {
            Some(t) => t,
            None => n.title,
        },
        body: match patch.body {
            Some(b) => b,
            None => n.body,
        },
        url: n.url,
    }
}

/// The number of characters in a freshly generated note id.
pub const ID_LEN: usize = 21;

/// Relies on nanoid::format with the 64-character URL-safe alphabet: it
/// returns an identifier of exactly the requested number of (ASCII)
/// characters. The identifier is random, so nothing else holds of it.
#[verifier::external_body]
pub fn fresh_id() -> (r: String)
    ensures
        r@.len() == ID_LEN,
{
    nanoid::format(nanoid::rngs::default, &nanoid::alphabet::SAFE, 21)
}

impl Note {
    /// Builds a note with a freshly generated id and the given texts.
    pub fn new(title: &str, body: &str, url: &str) -> (r: Note)
        ensures
            r.id@.len() == ID_LEN,
            r.title@ == title@,
            r.body@ == body@,
            r.url@ == url@,
    {
        let id = fresh_id();
        Note { id, title: title.to_owned(), body: body.to_owned(), url: url.to_owned() }
    }
}

} // verus!
