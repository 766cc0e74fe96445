use onyx::identity::allocate;
use onyx::store::{Database, NoteRow, StorageError};

fn ent(seed: u8) -> [u8; 16] {
    let mut e = [0u8; 16];
    let mut i = 0;
    while i < 16 {
        e[i] = seed.wrapping_add(i as u8);
        i += 1;
    }
    e
}

#[test]
fn allocate_formats_the_zero_entropy() {
    let u = allocate(&[0u8; 16]);
    assert_eq!(u, "00000000-0000-4000-8000-000000000000");
}

#[test]
fn allocate_forces_version_and_variant() {
    let u = allocate(&[
        0x00, 0x01, 0x02, 0x03, 0x04, 0x05, 0x06, 0x07, 0x08, 0x09, 0x0a, 0x0b, 0x0c, 0x0d, 0x0e,
        0x0f,
    ]);
    assert_eq!(u, "00010203-0405-4607-8809-0a0b0c0d0e0f");
    let v = allocate(&[0xff; 16]);
    assert_eq!(v, "ffffffff-ffff-4fff-bfff-ffffffffffff");
}

#[test]
fn created_note_has_a_local_uuid_at_once() {
    let mut db = Database::new();
    let id = db
        .create_note("first".to_string(), "body".to_string(), "2024-01-01 10:00:00", &ent(1))
        .unwrap();
    assert_eq!(id, 1);
    let d = db.get_note_content(1).unwrap();
    assert_eq!(d.title, "first");
    assert_eq!(d.content.as_deref(), Some("body"));
    assert_eq!(d.updated_at, "2024-01-01 10:00:00");
    assert!(d.pb_id.is_none());
    assert!(d.local_uuid.is_some());
}

#[test]
fn created_notes_have_distinct_identifiers() {
    let mut db = Database::new();
    db.create_note("a".to_string(), "".to_string(), "2024-01-01 10:00:00", &ent(1)).unwrap();
    db.create_note("b".to_string(), "".to_string(), "2024-01-01 10:00:01", &ent(2)).unwrap();
    let ua = db.get_note_content(1).unwrap().local_uuid.unwrap();
    let ub = db.get_note_content(2).unwrap().local_uuid.unwrap();
    assert_ne!(ua, ub);
}

#[test]
fn creating_with_a_taken_identifier_is_a_conflict() {
    let mut db = Database::new();
    db.create_note("a".to_string(), "".to_string(), "2024-01-01 10:00:00", &ent(1)).unwrap();
    let r = db.create_note("b".to_string(), "".to_string(), "2024-01-01 10:00:01", &ent(1));
    assert_eq!(r, Err(StorageError::IdentityConflict));
    assert_eq!(db.get_notes().len(), 1);
}

#[test]
fn delete_of_a_nonexistent_id_succeeds() {
    let mut db = Database::new();
    assert_eq!(db.delete_note(7), Ok(()));
    db.create_note("a".to_string(), "".to_string(), "2024-01-01 10:00:00", &ent(1)).unwrap();
    assert_eq!(db.delete_note(99), Ok(()));
    assert_eq!(db.get_notes().len(), 1);
    assert_eq!(db.delete_note(1), Ok(()));
    assert_eq!(db.get_notes().len(), 0);
}

#[test]
fn ids_are_never_reused_after_deletion() {
    let mut db = Database::new();
    let a = db
        .create_note("a".to_string(), "".to_string(), "2024-01-01 10:00:00", &ent(1))
        .unwrap();
    db.delete_note(a).unwrap();
    let b = db
        .create_note("b".to_string(), "".to_string(), "2024-01-01 10:00:01", &ent(2))
        .unwrap();
    assert_eq!(a, 1);
    assert_eq!(b, 2);
}

#[test]
fn update_note_rewrites_title_content_and_stamp() {
    let mut db = Database::new();
    db.create_note("a".to_string(), "old".to_string(), "2024-01-01 10:00:00", &ent(1)).unwrap();
    db.update_note(1, "a2".to_string(), "new".to_string(), "2024-01-02 09:00:00").unwrap();
    let d = db.get_note_content(1).unwrap();
    assert_eq!(d.title, "a2");
    assert_eq!(d.content.as_deref(), Some("new"));
    assert_eq!(d.updated_at, "2024-01-02 09:00:00");
}

#[test]
fn update_note_on_an_absent_id_changes_nothing() {
    let mut db = Database::new();
    db.create_note("a".to_string(), "x".to_string(), "2024-01-01 10:00:00", &ent(1)).unwrap();
    assert_eq!(db.update_note(5, "t".to_string(), "c".to_string(), "2024-01-02 09:00:00"), Ok(()));
    let d = db.get_note_content(1).unwrap();
    assert_eq!(d.title, "a");
    assert_eq!(d.updated_at, "2024-01-01 10:00:00");
}

#[test]
fn update_note_pb_id_sets_the_remote_id() {
    let mut db = Database::new();
    db.create_note("a".to_string(), "".to_string(), "2024-01-01 10:00:00", &ent(1)).unwrap();
    db.update_note_pb_id(1, "pb77".to_string(), "2024-01-02 09:00:00").unwrap();
    let d = db.get_note_content(1).unwrap();
    assert_eq!(d.pb_id.as_deref(), Some("pb77"));
    assert_eq!(d.updated_at, "2024-01-02 09:00:00");
}

#[test]
fn delete_by_remote_id_removes_every_match_and_tolerates_none() {
    let mut db = Database::new();
    db.create_note("a".to_string(), "".to_string(), "2024-01-01 10:00:00", &ent(1)).unwrap();
    db.create_note("b".to_string(), "".to_string(), "2024-01-01 10:00:01", &ent(2)).unwrap();
    db.create_note("c".to_string(), "".to_string(), "2024-01-01 10:00:02", &ent(3)).unwrap();
    db.update_note_pb_id(1, "pb1".to_string(), "2024-01-02 09:00:00").unwrap();
    db.update_note_pb_id(3, "pb1".to_string(), "2024-01-02 09:00:01").unwrap();
    assert_eq!(db.delete_note_by_pb_id("missing".to_string()), Ok(()));
    assert_eq!(db.get_notes().len(), 3);
    assert_eq!(db.delete_note_by_pb_id("pb1".to_string()), Ok(()));
    let left = db.get_notes();
    assert_eq!(left.len(), 1);
    assert_eq!(left[0].id, 2);
}

#[test]
fn listing_orders_by_stamp_then_id_descending() {
    let mut db = Database::new();
    db.create_note("old".to_string(), "".to_string(), "2024-01-02 00:00:00", &ent(1)).unwrap();
    db.create_note("new".to_string(), "".to_string(), "2024-01-10 00:00:00", &ent(2)).unwrap();
    db.create_note("mid".to_string(), "".to_string(), "2024-01-05 00:00:00", &ent(3)).unwrap();
    let notes = db.get_notes();
    let titles: Vec<&str> = notes.iter().map(|n| n.title.as_str()).collect();
    assert_eq!(titles, vec!["new", "mid", "old"]);
}

#[test]
fn listing_breaks_stamp_ties_by_id_descending() {
    let mut db = Database::new();
    let b = db
        .create_note("b".to_string(), "".to_string(), "2024-03-03 12:00:00", &ent(1))
        .unwrap();
    let a = db
        .create_note("a".to_string(), "".to_string(), "2024-03-03 12:00:00", &ent(2))
        .unwrap();
    assert!(a > b);
    let notes = db.get_notes();
    assert_eq!(notes[0].id, a);
    assert_eq!(notes[1].id, b);
}

#[test]
fn ensure_local_uuid_returns_the_existing_value_unchanged() {
    let mut db = Database::new();
    db.create_note("a".to_string(), "".to_string(), "2024-01-01 10:00:00", &ent(1)).unwrap();
    let before = db.get_note_content(1).unwrap();
    let u = db.ensure_local_uuid(1, "2024-01-05 10:00:00", &ent(9)).unwrap();
    assert_eq!(Some(u.as_str()), before.local_uuid.as_deref());
    let after = db.get_note_content(1).unwrap();
    assert_eq!(after.updated_at, before.updated_at);
}

#[test]
fn ensure_local_uuid_allocates_once_for_a_legacy_row() {
    let mut db = Database::new();
    db.rows.push(NoteRow {
        id: 1,
        title: "legacy".to_string(),
        content: None,
        created_at: "2020-06-06 06:00:00".to_string(),
        updated_at: "2020-06-06 06:00:00".to_string(),
        pb_id: None,
        local_uuid: None,
    });
    db.next_id = 2;
    let u1 = db.ensure_local_uuid(1, "2024-01-05 10:00:00", &ent(4)).unwrap();
    assert_eq!(u1, allocate(&ent(4)));
    let d = db.get_note_content(1).unwrap();
    assert_eq!(d.updated_at, "2024-01-05 10:00:00");
    let u2 = db.ensure_local_uuid(1, "2024-01-06 10:00:00", &ent(5)).unwrap();
    assert_eq!(u2, u1);
    let after = db.get_note_content(1).unwrap();
    assert_eq!(after.updated_at, "2024-01-05 10:00:00");
}

#[test]
fn ensure_local_uuid_on_an_absent_id_is_not_found() {
    let mut db = Database::new();
    assert_eq!(
        db.ensure_local_uuid(3, "2024-01-05 10:00:00", &ent(1)),
        Err(StorageError::NotFound)
    );
}

#[test]
fn ensure_local_uuid_surfaces_a_collision() {
    let mut db = Database::new();
    db.create_note("a".to_string(), "".to_string(), "2024-01-01 10:00:00", &ent(1)).unwrap();
    db.rows.push(NoteRow {
        id: 2,
        title: "legacy".to_string(),
        content: None,
        created_at: "2020-06-06 06:00:00".to_string(),
        updated_at: "2020-06-06 06:00:00".to_string(),
        pb_id: None,
        local_uuid: None,
    });
    db.next_id = 3;
    let r = db.ensure_local_uuid(2, "2024-01-05 10:00:00", &ent(1));
    assert_eq!(r, Err(StorageError::IdentityConflict));
    assert!(db.get_note_content(2).unwrap().local_uuid.is_none());
}
