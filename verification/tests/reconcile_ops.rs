use onyx::identity::allocate;
use onyx::store::{Database, NoteRow, StorageError};

fn ent(seed: u8) -> [u8; 16] {
    let mut e = [0u8; 16];
    let mut i = 0;
    while i < 16 {
        e[i] = seed.wrapping_add(i as u8);
        i += 1;
    }
    e
}

fn import(
    db: &mut Database,
    pb: &str,
    title: &str,
    content: &str,
    updated: &str,
    uuid: Option<&str>,
    seed: u8,
) -> Result<i64, StorageError> {
    db.import_note_from_pb(
        pb.to_string(),
        title.to_string(),
        content.to_string(),
        updated.to_string(),
        uuid.map(|u| u.to_string()),
        "2024-02-01 00:00:00",
        &ent(seed),
    )
}

#[test]
fn import_inserts_when_nothing_matches() {
    let mut db = Database::new();
    let id = import(&mut db, "pb1", "t", "c", "2024-01-03 08:00:00", None, 7).unwrap();
    assert_eq!(id, 1);
    let d = db.get_note_content(1).unwrap();
    assert_eq!(d.pb_id.as_deref(), Some("pb1"));
    assert_eq!(d.title, "t");
    assert_eq!(d.content.as_deref(), Some("c"));
    assert_eq!(d.updated_at, "2024-01-03 08:00:00");
    assert_eq!(d.local_uuid.as_deref(), Some(allocate(&ent(7)).as_str()));
}

#[test]
fn import_keeps_a_supplied_identifier() {
    let mut db = Database::new();
    import(&mut db, "pb1", "t", "c", "2024-01-03 08:00:00", Some("u-one"), 7).unwrap();
    let d = db.get_note_content(1).unwrap();
    assert_eq!(d.local_uuid.as_deref(), Some("u-one"));
}

#[test]
fn replaying_an_import_converges_to_one_row() {
    let mut db = Database::new();
    let first = import(&mut db, "pb9", "title", "body", "2024-01-03 08:00:00", None, 7).unwrap();
    for seed in [8u8, 9, 10] {
        let again = import(&mut db, "pb9", "title", "body", "2024-01-03 08:00:00", None, seed)
            .unwrap();
        assert_eq!(again, first);
        let notes = db.get_notes();
        let matching: Vec<_> =
            notes.iter().filter(|n| n.pb_id.as_deref() == Some("pb9")).collect();
        assert_eq!(matching.len(), 1);
        let d = db.get_note_content(first).unwrap();
        assert_eq!(d.title, "title");
        assert_eq!(d.content.as_deref(), Some("body"));
        assert_eq!(d.updated_at, "2024-01-03 08:00:00");
    }
}

#[test]
fn import_updates_the_row_matched_by_remote_id() {
    let mut db = Database::new();
    import(&mut db, "pb1", "old", "old body", "2024-01-03 08:00:00", None, 7).unwrap();
    let id = import(&mut db, "pb1", "new", "new body", "2024-01-04 08:00:00", None, 8).unwrap();
    assert_eq!(id, 1);
    assert_eq!(db.get_notes().len(), 1);
    let d = db.get_note_content(1).unwrap();
    assert_eq!(d.title, "new");
    assert_eq!(d.content.as_deref(), Some("new body"));
    assert_eq!(d.updated_at, "2024-01-04 08:00:00");
}

#[test]
fn local_note_adopts_the_remote_id_and_keeps_its_identity() {
    let mut db = Database::new();
    let id = db
        .create_note("mine".to_string(), "draft".to_string(), "2024-01-01 10:00:00", &ent(1))
        .unwrap();
    let u = db.get_note_content(id).unwrap().local_uuid.unwrap();
    let merged = import(
        &mut db,
        "pb-fresh",
        "mine",
        "synced",
        "2024-01-05 10:00:00",
        Some(u.as_str()),
        9,
    )
    .unwrap();
    assert_eq!(merged, id);
    assert_eq!(db.get_notes().len(), 1);
    let d = db.get_note_content(id).unwrap();
    assert_eq!(d.pb_id.as_deref(), Some("pb-fresh"));
    assert_eq!(d.local_uuid.as_deref(), Some(u.as_str()));
    assert_eq!(d.content.as_deref(), Some("synced"));
}

#[test]
fn import_never_overwrites_a_present_identifier() {
    let mut db = Database::new();
    import(&mut db, "pb1", "t", "c", "2024-01-03 08:00:00", Some("u-orig"), 7).unwrap();
    import(&mut db, "pb1", "t", "c", "2024-01-04 08:00:00", Some("u-other"), 8).unwrap();
    let d = db.get_note_content(1).unwrap();
    assert_eq!(d.local_uuid.as_deref(), Some("u-orig"));
}

#[test]
fn import_fills_a_null_identifier_on_the_matched_row() {
    let mut db = Database::new();
    db.rows.push(NoteRow {
        id: 1,
        title: "legacy".to_string(),
        content: None,
        created_at: "2020-06-06 06:00:00".to_string(),
        updated_at: "2020-06-06 06:00:00".to_string(),
        pb_id: Some("pb1".to_string()),
        local_uuid: None,
    });
    db.next_id = 2;
    import(&mut db, "pb1", "t", "c", "2024-01-03 08:00:00", Some("u-new"), 7).unwrap();
    let d = db.get_note_content(1).unwrap();
    assert_eq!(d.local_uuid.as_deref(), Some("u-new"));
}

#[test]
fn import_surfaces_a_split_key_collision() {
    let mut db = Database::new();
    db.rows.push(NoteRow {
        id: 1,
        title: "by remote id".to_string(),
        content: None,
        created_at: "2020-06-06 06:00:00".to_string(),
        updated_at: "2020-06-06 06:00:00".to_string(),
        pb_id: Some("pb1".to_string()),
        local_uuid: None,
    });
    db.next_id = 2;
    db.create_note("holder".to_string(), "".to_string(), "2024-01-01 10:00:00", &ent(1)).unwrap();
    let u = db.get_note_content(2).unwrap().local_uuid.unwrap();
    let r = import(&mut db, "pb1", "t", "c", "2024-01-03 08:00:00", Some(u.as_str()), 7);
    assert_eq!(r, Err(StorageError::IdentityConflict));
    assert!(db.get_note_content(1).unwrap().local_uuid.is_none());
}

#[test]
fn import_with_colliding_fresh_entropy_is_a_conflict() {
    let mut db = Database::new();
    db.create_note("a".to_string(), "".to_string(), "2024-01-01 10:00:00", &ent(1)).unwrap();
    let r = import(&mut db, "pb1", "t", "c", "2024-01-03 08:00:00", None, 1);
    assert_eq!(r, Err(StorageError::IdentityConflict));
    assert_eq!(db.get_notes().len(), 1);
}

#[test]
fn migration_preserves_rows_and_backfills_identifiers() {
    let rows = vec![
        NoteRow {
            id: 3,
            title: "first".to_string(),
            content: Some("alpha".to_string()),
            created_at: "2020-01-01 00:00:00".to_string(),
            updated_at: "2020-01-02 00:00:00".to_string(),
            pb_id: None,
            local_uuid: None,
        },
        NoteRow {
            id: 5,
            title: "second".to_string(),
            content: None,
            created_at: "2020-02-01 00:00:00".to_string(),
            updated_at: "2020-02-02 00:00:00".to_string(),
            pb_id: None,
            local_uuid: None,
        },
        NoteRow {
            id: 9,
            title: "kept".to_string(),
            content: Some("gamma".to_string()),
            created_at: "2020-03-01 00:00:00".to_string(),
            updated_at: "2020-03-02 00:00:00".to_string(),
            pb_id: Some("pb-old".to_string()),
            local_uuid: Some("u-kept".to_string()),
        },
    ];
    let entropy = vec![ent(1), ent(2), ent(3)];
    let db = Database::setup(rows, &entropy).unwrap();
    assert_eq!(db.next_id, 10);
    let a = db.get_note_content(3).unwrap();
    let b = db.get_note_content(5).unwrap();
    let c = db.get_note_content(9).unwrap();
    assert_eq!(a.title, "first");
    assert_eq!(a.content.as_deref(), Some("alpha"));
    assert_eq!(a.updated_at, "2020-01-02 00:00:00");
    assert_eq!(b.title, "second");
    assert_eq!(b.content, None);
    assert_eq!(c.title, "kept");
    assert_eq!(c.local_uuid.as_deref(), Some("u-kept"));
    let ua = a.local_uuid.unwrap();
    let ub = b.local_uuid.unwrap();
    assert_eq!(ua, allocate(&ent(1)));
    assert_eq!(ub, allocate(&ent(2)));
    assert_ne!(ua, ub);
}

#[test]
fn migration_of_an_empty_table_starts_at_one() {
    let db = Database::setup(Vec::new(), &Vec::new()).unwrap();
    assert_eq!(db.next_id, 1);
    assert_eq!(db.get_notes().len(), 0);
}

#[test]
fn migration_surfaces_a_backfill_collision() {
    let rows = vec![
        NoteRow {
            id: 1,
            title: "a".to_string(),
            content: None,
            created_at: "2020-01-01 00:00:00".to_string(),
            updated_at: "2020-01-01 00:00:00".to_string(),
            pb_id: None,
            local_uuid: None,
        },
        NoteRow {
            id: 2,
            title: "b".to_string(),
            content: None,
            created_at: "2020-01-01 00:00:00".to_string(),
            updated_at: "2020-01-01 00:00:00".to_string(),
            pb_id: None,
            local_uuid: None,
        },
    ];
    let entropy = vec![ent(4), ent(4)];
    let r = Database::setup(rows, &entropy);
    assert!(matches!(r, Err(StorageError::IdentityConflict)));
}
