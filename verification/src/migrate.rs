use crate::identity::{allocate, uuid_of};
use crate::store::{clone_opt_text, uuid_taken, Database, NoteRow, NoteRowV, StorageError};
use vstd::prelude::*;

verus! {

/// The identifier a row carries once migration is through: its own, or the
/// one allocated from its entropy draw where it had none.
pub open spec fn spec_migrated_uuid(before: NoteRowV, fresh: Seq<u8>) -> Seq<char> {
    match before.local_uuid {
        Some(u) => u,
        None => uuid_of(fresh),
    }
}

/// Migration touches nothing in a row but a null local identifier: the id,
/// title, content, both timestamps and the remote id come through unchanged,
/// and the local identifier is non-null afterwards.
pub open spec fn spec_migration_preserves(before: NoteRowV, after: NoteRowV, fresh: Seq<u8>) -> bool {
    &&& after.id == before.id
    &&& after.title == before.title
    &&& after.content == before.content
    &&& after.created_at == before.created_at
    &&& after.updated_at == before.updated_at
    &&& after.pb_id == before.pb_id
    &&& after.local_uuid == Some(spec_migrated_uuid(before, fresh))
}

/// Two rows would end the backfill holding the same identifier.
pub open spec fn spec_backfill_collision(rowsv: Seq<NoteRowV>, ent: Seq<Seq<u8>>) -> bool {
    exists|a: int, b: int|
        0 <= a < b < rowsv.len() && spec_migrated_uuid(#[trigger] rowsv[a], ent[a])
            == spec_migrated_uuid(#[trigger] rowsv[b], ent[b])
}

impl Database {
    /// Brings the note table forward from any earlier schema and hands back
    /// the ready store. A table created before the remote id and the local
    /// identifier existed reads as rows whose `pb_id` and `local_uuid` are
    /// all null: the columns are added, nothing is dropped, renamed or
    /// rewritten, and then every row still lacking a local identifier is
    /// backfilled with one allocated from its entropy draw — existing rows
    /// lose nothing, and afterwards every identifier is non-null and unique.
    /// The rows arrive in table scan order; the next id to assign continues
    /// above the largest present. A backfill collision is surfaced as the
    /// identity conflict it is, and startup must not proceed past it.
    #[verifier::rlimit(50)]
    pub fn setup(rows: Vec<NoteRow>, entropy: &Vec<[u8; 16]>) -> (r: Result<Database, StorageError>)
        requires
            rows.deep_view().len() == entropy.deep_view().len(),
            forall|k: int|
                0 <= k < rows.deep_view().len() ==> 0 < (#[trigger] rows.deep_view()[k]).id
                    < i64::MAX,
            forall|a: int, b: int|
                0 <= a < b < rows.deep_view().len() ==> (#[trigger] rows.deep_view()[a]).id < (
                #[trigger] rows.deep_view()[b]).id,
            forall|a: int, b: int|
                0 <= a < b < rows.deep_view().len() && (#[trigger] rows.deep_view()[a]).local_uuid
                    is Some && (#[trigger] rows.deep_view()[b]).local_uuid is Some
                    ==> rows.deep_view()[a].local_uuid != rows.deep_view()[b].local_uuid,
        ensures
            match r {
                Ok(db) => {
                    &&& db.wf()
                    &&& db@.rows.len() == rows.deep_view().len()
                    &&& forall|k: int|
                        0 <= k < rows.deep_view().len() ==> spec_migration_preserves(
                            rows.deep_view()[k],
                            #[trigger] db@.rows[k],
                            entropy.deep_view()[k],
                        )
                    &&& db@.next_id == (if rows.deep_view().len() == 0 {
                        1int
                    } else {
                        rows.deep_view()[rows.deep_view().len() - 1].id + 1
                    })
                    &&& !spec_backfill_collision(rows.deep_view(), entropy.deep_view())
                },
                Err(e) => {
                    &&& e == StorageError::IdentityConflict
                    &&& spec_backfill_collision(rows.deep_view(), entropy.deep_view())
                },
            },
    {
        let ghost origv = rows.deep_view();
        let ghost ent = entropy.deep_view();
        let mut db = Database { rows: rows, next_id: 1 };
        if db.rows.len() > 0 {
            let last_id = db.rows[db.rows.len() - 1].id;
            proof {
                assert(origv[origv.len() - 1].id < i64::MAX);
            }
            db.next_id = last_id + 1;
        }
        let ghost nid = db@.next_id;
        let mut i: usize = 0;
        while i < db.rows.len()
            invariant
                i <= db.rows@.len(),
                db.rows@.len() == origv.len(),
                origv == rows.deep_view(),
                ent == entropy.deep_view(),
                origv.len() == ent.len(),
                db@.next_id == nid,
                forall|a: int, b: int|
                    0 <= a < b < origv.len() ==> (#[trigger] origv[a]).id < (
                    #[trigger] origv[b]).id,
                forall|a: int, b: int|
                    0 <= a < b < origv.len() && (#[trigger] origv[a]).local_uuid is Some && (
                    #[trigger] origv[b]).local_uuid is Some ==> origv[a].local_uuid
                        != origv[b].local_uuid,
                forall|k: int| i <= k < origv.len() ==> (#[trigger] db@.rows[k]) == origv[k],
                forall|k: int|
                    0 <= k < i ==> spec_migration_preserves(
                        origv[k],
                        #[trigger] db@.rows[k],
                        ent[k],
                    ),
                forall|a: int, b: int|
                    0 <= a < b < origv.len() && (#[trigger] db@.rows[a]).local_uuid is Some && (
                    #[trigger] db@.rows[b]).local_uuid is Some ==> db@.rows[a].local_uuid
                        != db@.rows[b].local_uuid,
            decreases db.rows@.len() - i,
        {
            let lacks = match &db.rows[i].local_uuid {
                Some(_) => false,
                None => true,
            };
            if lacks {
                let u = allocate(&entropy[i]);
                proof {
                    assert(db.rows@[i as int].local_uuid is None);
                    assert(db@.rows[i as int] == origv[i as int]);
                    assert(origv[i as int].local_uuid is None);
                    assert(ent[i as int] =~= entropy@[i as int]@);
                    assert(u@ == uuid_of(entropy@[i as int]@));
                    assert(uuid_of(ent[i as int]) == uuid_of(entropy@[i as int]@));
                    assert(u@ == spec_migrated_uuid(origv[i as int], ent[i as int]));
                }
                if db.uuid_in_use(&u) {
                    proof {
                        let j = choose|j: int|
                            0 <= j < db@.rows.len() && (#[trigger] db@.rows[j]).local_uuid == Some(
                                u@,
                            );
                        assert(j != i);
                        if j < i as int {
                            assert(spec_migrated_uuid(origv[j], ent[j]) == u@);
                            assert(spec_migrated_uuid(origv[j], ent[j]) == spec_migrated_uuid(
                                origv[i as int],
                                ent[i as int],
                            ));
                        } else {
                            assert(db@.rows[j] == origv[j]);
                            assert(spec_migrated_uuid(origv[j], ent[j]) == u@);
                            assert(spec_migrated_uuid(origv[i as int], ent[i as int])
                                == spec_migrated_uuid(origv[j], ent[j]));
                        }
                        assert(spec_backfill_collision(origv, ent));
                    }
                    return Err(StorageError::IdentityConflict);
                }
                let row = &db.rows[i];
                let updated = NoteRow {
                    id: row.id,
                    title: row.title.clone(),
                    content: clone_opt_text(&row.content),
                    created_at: row.created_at.clone(),
                    updated_at: row.updated_at.clone(),
                    pb_id: clone_opt_text(&row.pb_id),
                    local_uuid: Some(u),
                };
                let ghost before_rows = db@.rows;
                db.rows.set(i, updated);
                proof {
                    assert(db@.rows =~= before_rows.update(i as int, updated@));
                    assert(spec_migration_preserves(
                        origv[i as int],
                        db@.rows[i as int],
                        ent[i as int],
                    ));
                    assert forall|a: int, b: int|
                        0 <= a < b < origv.len() && (#[trigger] db@.rows[a]).local_uuid is Some
                            && (#[trigger] db@.rows[b]).local_uuid is Some implies db@.rows[a].local_uuid
                        != db@.rows[b].local_uuid by {
                        if a == i as int {
                            assert(before_rows[b].local_uuid != Some(u@));
                            assert(db@.rows[b] == before_rows[b]);
                        } else if b == i as int {
                            assert(before_rows[a].local_uuid != Some(u@));
                            assert(db@.rows[a] == before_rows[a]);
                        } else {
                            assert(db@.rows[a] == before_rows[a]);
                            assert(db@.rows[b] == before_rows[b]);
                        }
                    }
                    assert forall|k: int| i as int + 1 <= k < origv.len() implies (
                    #[trigger] db@.rows[k]) == origv[k] by {
                        assert(db@.rows[k] == before_rows[k]);
                    }
                    assert forall|k: int| 0 <= k < i as int + 1 implies spec_migration_preserves(
                        origv[k],
                        #[trigger] db@.rows[k],
                        ent[k],
                    ) by {
                        if k < i as int {
                            assert(db@.rows[k] == before_rows[k]);
                        }
                    }
                }
            } else {
                proof {
                    assert(db@.rows[i as int] == origv[i as int]);
                    assert(origv[i as int].local_uuid is Some);
                    assert(spec_migration_preserves(
                        origv[i as int],
                        db@.rows[i as int],
                        ent[i as int],
                    ));
                }
            }
            i = i + 1;
        }
        proof {
            assert forall|k: int| 0 <= k < origv.len() implies 0 < (#[trigger] db@.rows[k]).id
                < nid by {
                assert(db@.rows[k].id == origv[k].id);
                if k < origv.len() - 1 {
                    assert(origv[k].id < origv[origv.len() - 1].id);
                }
            }
            assert forall|a: int, b: int|
                0 <= a < b < origv.len() implies (#[trigger] db@.rows[a]).id < (
            #[trigger] db@.rows[b]).id by {
                assert(db@.rows[a].id == origv[a].id);
                assert(db@.rows[b].id == origv[b].id);
            }
            assert(db.wf());
            assert forall|a: int, b: int|
                0 <= a < b < origv.len() implies spec_migrated_uuid(#[trigger] origv[a], ent[a])
                != spec_migrated_uuid(#[trigger] origv[b], ent[b]) by {
                assert(db@.rows[a].local_uuid == Some(spec_migrated_uuid(origv[a], ent[a])));
                assert(db@.rows[b].local_uuid == Some(spec_migrated_uuid(origv[b], ent[b])));
            }
        }
        Ok(db)
    }
}

} // verus!
