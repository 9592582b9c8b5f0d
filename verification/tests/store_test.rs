use notes::notes::{Note, PatchNote};
use notes::store::{NoteDb, NoteVecDb, StoreError};

fn sample(id: &str, title: &str, body: &str) -> Note {
    Note {
        id: id.to_string(),
        title: title.to_string(),
        body: body.to_string(),
        url: format!("/notes/{}", id),
    }
}

#[test]
fn new_backend_lists_its_initial_notes_in_order() {
    let db = NoteVecDb::new(vec![sample("i1", "a", "b"), sample("i2", "c", "d")]);

    let listed = db.list_notes().unwrap();

    assert_eq!(listed.len(), 2);
    assert_eq!(listed[0].id, "i1");
    assert_eq!(listed[1].id, "i2");
}

#[test]
fn create_appends_and_get_finds_it() {
    let mut db = NoteVecDb::new(Vec::new());

    db.create_note(&sample("i1", "a", "b")).unwrap();

    let got = db.get_note("i1").unwrap().unwrap();
    assert_eq!(got.title, "a");
    assert_eq!(got.body, "b");
    assert_eq!(got.url, "/notes/i1");
    assert!(db.get_note("i2").unwrap().is_none());
}

#[test]
fn delete_reports_true_then_false() {
    let mut db = NoteVecDb::new(vec![sample("i1", "a", "b")]);

    assert_eq!(db.delete_note("i1").unwrap(), true);
    assert_eq!(db.delete_note("i1").unwrap(), false);
    assert_eq!(db.list_notes().unwrap().len(), 0);
}

#[test]
fn update_of_missing_id_is_a_noop() {
    let mut db = NoteVecDb::new(vec![sample("i1", "a", "b")]);

    db.update_note("i9", &PatchNote { title: Some("x".to_string()), body: None }).unwrap();

    let listed = db.list_notes().unwrap();
    assert_eq!(listed.len(), 1);
    assert_eq!(listed[0].title, "a");
    assert_eq!(listed[0].body, "b");
}

#[test]
fn update_patches_only_the_present_fields() {
    let mut db = NoteVecDb::new(vec![sample("i1", "a", "b")]);

    db.update_note("i1", &PatchNote { title: None, body: Some("y".to_string()) }).unwrap();

    let got = db.get_note("i1").unwrap().unwrap();
    assert_eq!(got.id, "i1");
    assert_eq!(got.title, "a");
    assert_eq!(got.body, "y");
    assert_eq!(got.url, "/notes/i1");
}

#[test]
fn every_switch_reports_unavailable() {
    let mut db = NoteVecDb::new(Vec::new());

    db.set_fail_create(true);
    assert!(matches!(db.create_note(&sample("i1", "a", "b")), Err(StoreError::Unavailable)));
    db.set_fail_create(false);

    db.set_fail_get(true);
    assert!(matches!(db.get_note("i1"), Err(StoreError::Unavailable)));
    db.set_fail_get(false);

    db.set_fail_update(true);
    let patch = PatchNote { title: None, body: None };
    assert!(matches!(db.update_note("i1", &patch), Err(StoreError::Unavailable)));
    db.set_fail_update(false);

    db.set_fail_delete(true);
    assert!(matches!(db.delete_note("i1"), Err(StoreError::Unavailable)));
    db.set_fail_delete(false);

    db.set_fail_list(true);
    assert!(matches!(db.list_notes(), Err(StoreError::Unavailable)));
}

#[test]
fn none_switch_hides_a_stored_note() {
    let mut db = NoteVecDb::new(vec![sample("i1", "a", "b")]);

    db.set_none_get(true);
    assert!(db.get_note("i1").unwrap().is_none());

    db.set_none_get(false);
    assert!(db.get_note("i1").unwrap().is_some());
}

#[test]
fn note_new_fills_fields_and_generates_an_id() {
    let note = Note::new("a", "b", "/notes/x");

    assert_eq!(note.title, "a");
    assert_eq!(note.body, "b");
    assert_eq!(note.url, "/notes/x");
    assert_eq!(note.id.len(), 21);
    assert!(!note.id.is_empty());
}

#[test]
fn fresh_ids_differ_between_calls() {
    let a = notes::notes::fresh_id();
    let b = notes::notes::fresh_id();

    assert_eq!(a.len(), 21);
    assert_eq!(b.len(), 21);
    assert_ne!(a, b);
}

#[test]
fn delete_removes_every_note_under_the_id() {
    let mut db = NoteVecDb::new(vec![
        sample("i1", "a", "b"),
        sample("i2", "c", "d"),
        sample("i1", "e", "f"),
    ]);

    assert_eq!(db.delete_note("i1").unwrap(), true);

    let listed = db.list_notes().unwrap();
    assert_eq!(listed.len(), 1);
    assert_eq!(listed[0].id, "i2");
}

#[test]
fn get_observes_the_first_note_under_a_duplicated_id() {
    let db = NoteVecDb::new(vec![sample("i1", "a", "b"), sample("i1", "e", "f")]);

    let got = db.get_note("i1").unwrap().unwrap();

    assert_eq!(got.title, "a");
    assert_eq!(got.body, "b");
}
