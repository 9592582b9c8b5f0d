use notes::handlers::{delete_note, get_note, list_notes, patch_note, post_note, ApiError};
use notes::notes::{NewNote, PatchNote};
use notes::store::NoteVecDb;

fn new_note(title: &str, body: &str) -> NewNote {
    NewNote { title: title.to_string(), body: body.to_string() }
}

fn empty_db() -> NoteVecDb {
    NoteVecDb::new(Vec::new())
}

#[test]
fn it_fails_to_create_a_note() {
    let mut db = empty_db();
    db.set_fail_create(true);

    let resp = post_note(&mut db, &new_note("a", "b"), "/notes");

    assert!(matches!(resp, Err(ApiError::Internal)));
}

#[test]
fn it_fails_to_get_a_note_after_creating() {
    let mut db = empty_db();
    db.set_fail_get(true);

    let resp = post_note(&mut db, &new_note("a", "b"), "/notes");

    assert!(matches!(resp, Err(ApiError::Internal)));
}

#[test]
fn it_gets_none_after_creating() {
    let mut db = empty_db();
    db.set_none_get(true);

    let resp = post_note(&mut db, &new_note("a", "b"), "/notes");

    assert!(matches!(resp, Err(ApiError::Internal)));
}

#[test]
fn it_fails_to_update_a_note() {
    let mut db = empty_db();
    let note = post_note(&mut db, &new_note("a", "b"), "/notes").unwrap();
    db.set_fail_update(true);

    let resp = patch_note(&mut db, &note.id, &PatchNote { title: None, body: None });

    assert!(matches!(resp, Err(ApiError::Internal)));
}

#[test]
fn it_fails_to_delete_a_note() {
    let mut db = empty_db();
    let note = post_note(&mut db, &new_note("a", "b"), "/notes").unwrap();
    db.set_fail_delete(true);

    let resp = delete_note(&mut db, &note.id);

    assert!(matches!(resp, Err(ApiError::Internal)));
}

#[test]
fn it_fails_to_delete_a_note_not_found() {
    let mut db = empty_db();

    let resp = delete_note(&mut db, &notes::notes::fresh_id());

    assert!(matches!(resp, Err(ApiError::NotFound)));
}

#[test]
fn it_fails_to_list_notes() {
    let mut db = empty_db();
    db.set_fail_list(true);

    let resp = list_notes(&db);

    assert!(matches!(resp, Err(ApiError::Internal)));
}

#[test]
fn it_creates_a_note() {
    let mut db = empty_db();

    let resp = post_note(&mut db, &new_note("a", "b"), "/notes");

    let note = resp.unwrap();
    assert_eq!(note.title, "a");
    assert_eq!(note.body, "b");
}

#[test]
fn it_gets_a_note() {
    let mut db = empty_db();
    let created = post_note(&mut db, &new_note("a", "b"), "/notes").unwrap();

    let got = get_note(&db, &created.id).unwrap();

    assert_eq!(got.id, created.id);
    assert_eq!(got.title, "a");
    assert_eq!(got.body, "b");
}

#[test]
fn it_lists_notes() {
    let mut db = empty_db();
    post_note(&mut db, &new_note("note0", "body0"), "/notes").unwrap();
    post_note(&mut db, &new_note("note01", "body1"), "/notes").unwrap();

    let listed = list_notes(&db).unwrap();

    assert_eq!(listed.len(), 2);
}

#[test]
fn it_deletes_a_note() {
    let mut db = empty_db();
    let note0 = post_note(&mut db, &new_note("note0", "body0"), "/notes").unwrap();
    let note = post_note(&mut db, &new_note("note01", "body1"), "/notes").unwrap();

    let resp = delete_note(&mut db, &note.id);

    assert!(resp.is_ok());
    let listed = list_notes(&db).unwrap();
    assert_eq!(listed.len(), 1);
    assert_eq!(listed[0].id, note0.id);
}

#[test]
fn it_patches_a_note() {
    let mut db = empty_db();
    let note = post_note(&mut db, &new_note("note0", "body0"), "/notes").unwrap();

    let resp = patch_note(
        &mut db,
        &note.id,
        &PatchNote { title: Some("newtitle".to_string()), body: Some("newbody".to_string()) },
    );

    assert!(resp.is_ok());
    let patched = get_note(&db, &note.id).unwrap();
    assert_eq!(patched.id, note.id);
    assert_eq!(patched.title, "newtitle");
    assert_eq!(patched.body, "newbody");
}

#[test]
fn created_note_url_joins_path_and_id() {
    let mut db = empty_db();

    let note = post_note(&mut db, &new_note("a", "b"), "/v1/notes").unwrap();

    assert_eq!(note.id.len(), 21);
    assert_eq!(note.url, format!("/v1/notes/{}", note.id));
}

#[test]
fn absent_id_is_not_found_everywhere() {
    let mut db = empty_db();
    let stored = post_note(&mut db, &new_note("keep", "me"), "/notes").unwrap();
    let missing = notes::notes::fresh_id();

    let got = get_note(&db, &missing);
    let patched = patch_note(
        &mut db,
        &missing,
        &PatchNote { title: Some("x".to_string()), body: None },
    );
    let deleted = delete_note(&mut db, &missing);

    assert!(matches!(got, Err(ApiError::NotFound)));
    assert!(matches!(patched, Err(ApiError::NotFound)));
    assert!(matches!(deleted, Err(ApiError::NotFound)));
    let listed = list_notes(&db).unwrap();
    assert_eq!(listed.len(), 1);
    assert_eq!(listed[0].id, stored.id);
    assert_eq!(listed[0].title, "keep");
    assert_eq!(listed[0].body, "me");
}

#[test]
fn patch_with_present_title_keeps_absent_body() {
    let mut db = empty_db();
    let note = post_note(&mut db, &new_note("a", "b"), "/notes").unwrap();

    let patched = patch_note(
        &mut db,
        &note.id,
        &PatchNote { title: Some("x".to_string()), body: None },
    )
    .unwrap();

    assert_eq!(patched.title, "x");
    assert_eq!(patched.body, "b");
}

#[test]
fn patch_with_empty_title_overwrites() {
    let mut db = empty_db();
    let note = post_note(&mut db, &new_note("a", "b"), "/notes").unwrap();

    let patched = patch_note(
        &mut db,
        &note.id,
        &PatchNote { title: Some(String::new()), body: None },
    )
    .unwrap();

    assert_eq!(patched.title, "");
    assert_eq!(patched.body, "b");
}

#[test]
fn many_creates_yield_distinct_ids_in_order() {
    let mut db = empty_db();
    let mut ids = Vec::new();
    for k in 0..8 {
        let note = post_note(&mut db, &new_note(&format!("t{}", k), "b"), "/notes").unwrap();
        ids.push(note.id);
    }

    let listed = list_notes(&db).unwrap();

    assert_eq!(listed.len(), 8);
    for k in 0..8 {
        assert_eq!(listed[k].id, ids[k]);
        assert_eq!(listed[k].title, format!("t{}", k));
        for j in 0..k {
            assert_ne!(listed[j].id, listed[k].id);
        }
    }
}

#[test]
fn create_two_delete_first_leaves_second_unchanged() {
    let mut db = empty_db();
    let first = post_note(&mut db, &new_note("note0", "body0"), "/notes").unwrap();
    let second = post_note(&mut db, &new_note("note01", "body1"), "/notes").unwrap();

    delete_note(&mut db, &first.id).unwrap();

    let listed = list_notes(&db).unwrap();
    assert_eq!(listed.len(), 1);
    assert_eq!(listed[0].id, second.id);
    assert_eq!(listed[0].title, "note01");
    assert_eq!(listed[0].body, "body1");
    assert_eq!(listed[0].url, second.url);
}

#[test]
fn post_with_given_id_derives_the_url() {
    let mut db = empty_db();

    let note =
        notes::handlers::post_note_with_id(&mut db, &new_note("a", "b"), "fixed".to_string(), "/notes")
            .unwrap();

    assert_eq!(note.id, "fixed");
    assert_eq!(note.url, "/notes/fixed");
    assert_eq!(note.title, "a");
    assert_eq!(note.body, "b");
}

#[test]
fn post_under_an_occupied_id_reads_back_the_first_note() {
    let mut db = empty_db();
    notes::handlers::post_note_with_id(&mut db, &new_note("a", "b"), "dup".to_string(), "/notes")
        .unwrap();

    let read_back =
        notes::handlers::post_note_with_id(&mut db, &new_note("c", "d"), "dup".to_string(), "/notes")
            .unwrap();

    assert_eq!(read_back.title, "a");
    assert_eq!(read_back.body, "b");
    assert_eq!(list_notes(&db).unwrap().len(), 2);
}
