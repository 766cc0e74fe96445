use crate::identity::{allocate, uuid_of};
use crate::store::{
    clone_opt_text, opt_holds_text, uuid_taken, wf_db, Database, DatabaseV, NoteRow, NoteRowV,
    StorageError,
};
use vstd::prelude::*;

verus! {

/// One remote note payload, as a sync cycle hands it to the engine.
pub struct PayloadV {
    pub pb_id: Seq<char>,
    pub title: Seq<char>,
    pub content: Seq<char>,
    pub updated_at: Seq<char>,
    pub local_uuid: Option<Seq<char>>,
}

/// The payload the import arguments describe.
pub open spec fn payload_of(
    pb_id: Seq<char>,
    title: Seq<char>,
    content: Seq<char>,
    updated_at: Seq<char>,
    local_uuid: Option<Seq<char>>,
) -> PayloadV {
    PayloadV {
        pb_id: pb_id,
        title: title,
        content: content,
        updated_at: updated_at,
        local_uuid: local_uuid,
    }
}

/// A row corresponds to the payload when its remote id equals the payload's,
/// or when the payload supplies a local identifier and the row holds exactly
/// it: two independent match keys, either one sufficient.
pub open spec fn payload_match(r: NoteRowV, pb: Seq<char>, u: Option<Seq<char>>) -> bool {
    r.pb_id == Some(pb) || (u is Some && r.local_uuid == u)
}

/// The scan position of the first row corresponding to the payload keys.
pub open spec fn find_payload_match(rows: Seq<NoteRowV>, pb: Seq<char>, u: Option<Seq<char>>) -> Option<
    int,
>
    decreases rows.len(),
{
    if rows.len() == 0 {
        None
    } else if payload_match(rows[0], pb, u) {
        Some(0)
    } else {
        match find_payload_match(rows.drop_first(), pb, u) {
            Some(i) => Some(i + 1),
            None => None,
        }
    }
}

/// What `find_payload_match` returns: the first corresponding row, or
/// nothing when no row corresponds.
pub proof fn lemma_find_payload_match_characterization(
    rows: Seq<NoteRowV>,
    pb: Seq<char>,
    u: Option<Seq<char>>,
)
    ensures
        match find_payload_match(rows, pb, u) {
            Some(i) => 0 <= i < rows.len() && payload_match(rows[i], pb, u) && forall|j: int|
                0 <= j < i ==> !payload_match(#[trigger] rows[j], pb, u),
            None => forall|j: int| 0 <= j < rows.len() ==> !payload_match(#[trigger] rows[j], pb, u),
        },
    decreases rows.len(),
{
    if rows.len() > 0 && !payload_match(rows[0], pb, u) {
        let tail = rows.drop_first();
        lemma_find_payload_match_characterization(tail, pb, u);
        assert forall|j: int| 1 <= j < rows.len() implies #[trigger] rows[j] == tail[j - 1] by {}
    }
}

/// A corresponding row, with none before it, is what `find_payload_match`
/// returns.
pub proof fn lemma_find_payload_match_from_witness(
    rows: Seq<NoteRowV>,
    pb: Seq<char>,
    u: Option<Seq<char>>,
    i: int,
)
    requires
        0 <= i < rows.len(),
        payload_match(rows[i], pb, u),
        forall|j: int| 0 <= j < i ==> !payload_match(#[trigger] rows[j], pb, u),
    ensures
        find_payload_match(rows, pb, u) == Some(i),
{
    lemma_find_payload_match_characterization(rows, pb, u);
    if find_payload_match(rows, pb, u) is None {
        assert(!payload_match(rows[i], pb, u));
    } else {
        let k = find_payload_match(rows, pb, u).unwrap();
        if k < i {
            assert(!payload_match(rows[k], pb, u));
        } else if k > i {
            assert(!payload_match(rows[i], pb, u));
        }
    }
}

/// A matched row after reconciliation: the payload's title, content and
/// remote timestamp land on it (the remote clock is authoritative here, not
/// the local one), the remote id is set, and the local identifier coalesces:
/// a supplied identifier fills a null, but never overwrites a value already
/// present — that is what lets a note authored before its first sync keep
/// its identity.
pub open spec fn spec_reconciled(r: NoteRowV, p: PayloadV) -> NoteRowV {
    NoteRowV {
        title: p.title,
        content: Some(p.content),
        updated_at: p.updated_at,
        pb_id: Some(p.pb_id),
        local_uuid: if r.local_uuid is Some {
            r.local_uuid
        } else {
            p.local_uuid
        },
        ..r
    }
}

/// The row an import inserts when nothing matches: the payload's values,
/// the local clock only for the creation stamp, and the chosen identifier.
pub open spec fn spec_imported(id: int, p: PayloadV, created: Seq<char>, chosen: Seq<char>) -> NoteRowV {
    NoteRowV {
        id: id,
        title: p.title,
        content: Some(p.content),
        created_at: created,
        updated_at: p.updated_at,
        pb_id: Some(p.pb_id),
        local_uuid: Some(chosen),
    }
}

/// The identifier an import persists when it inserts: the supplied one, or
/// a fresh one allocated from the entropy when none came.
pub open spec fn spec_chosen_uuid(p: PayloadV, fresh: Seq<u8>) -> Seq<char> {
    match p.local_uuid {
        Some(u) => u,
        None => uuid_of(fresh),
    }
}

/// The coalescing write on a matched row violates identifier uniqueness:
/// the row is about to take the supplied identifier and some row already
/// holds it. Only a payload whose two keys point at two different rows can
/// produce this; it is surfaced as a conflict, exactly as the storage
/// engine's uniqueness constraint would surface it, rather than resolved by
/// a guessed merge policy.
pub open spec fn spec_coalesce_conflict(db: DatabaseV, i: int, p: PayloadV) -> bool {
    match p.local_uuid {
        Some(u) => db.rows[i].local_uuid is None && uuid_taken(db.rows, u),
        None => false,
    }
}

/// What one reconciliation does to the store value. A payload that
/// corresponds to an existing row overwrites that row and returns its local
/// id; one that corresponds to nothing inserts a new row under the next id.
/// Either write surfaces an identifier-uniqueness violation as a conflict
/// and then changes nothing.
pub open spec fn spec_reconcile(db: DatabaseV, p: PayloadV, created: Seq<char>, fresh: Seq<u8>) -> (
    DatabaseV,
    Result<int, StorageError>,
) {
    match find_payload_match(db.rows, p.pb_id, p.local_uuid) {
        Some(i) => {
            if spec_coalesce_conflict(db, i, p) {
                (db, Err(StorageError::IdentityConflict))
            } else {
                (
                    DatabaseV {
                        rows: db.rows.update(i, spec_reconciled(db.rows[i], p)),
                        next_id: db.next_id,
                    },
                    Ok(db.rows[i].id),
                )
            }
        },
        None => {
            let chosen = spec_chosen_uuid(p, fresh);
            if uuid_taken(db.rows, chosen) {
                (db, Err(StorageError::IdentityConflict))
            } else {
                (
                    DatabaseV {
                        rows: db.rows.push(spec_imported(db.next_id, p, created, chosen)),
                        next_id: db.next_id + 1,
                    },
                    Ok(db.next_id),
                )
            }
        },
    }
}

impl Database {
    /// The scan position of the first row corresponding to the payload keys.
    fn position_of_match(&self, pb_id: &String, local_uuid: &Option<String>) -> (r: Option<usize>)
        ensures
            match r {
                Some(pos) => pos < self.rows@.len() && find_payload_match(
                    self@.rows,
                    pb_id@,
                    local_uuid.deep_view(),
                ) == Some(pos as int),
                None => find_payload_match(self@.rows, pb_id@, local_uuid.deep_view()) is None,
            },
    {
        let mut i: usize = 0;
        while i < self.rows.len()
            invariant
                i <= self.rows@.len(),
                forall|j: int|
                    0 <= j < i ==> !payload_match(
                        #[trigger] self@.rows[j],
                        pb_id@,
                        local_uuid.deep_view(),
                    ),
            decreases self.rows@.len() - i,
        {
            let by_pb = opt_holds_text(&self.rows[i].pb_id, pb_id);
            let by_uuid = match local_uuid {
                Some(u) => opt_holds_text(&self.rows[i].local_uuid, u),
                None => false,
            };
            if by_pb || by_uuid {
                proof {
                    assert(payload_match(self@.rows[i as int], pb_id@, local_uuid.deep_view()));
                    lemma_find_payload_match_from_witness(
                        self@.rows,
                        pb_id@,
                        local_uuid.deep_view(),
                        i as int,
                    );
                }
                return Some(i);
            }
            i = i + 1;
        }
        proof {
            lemma_find_payload_match_characterization(self@.rows, pb_id@, local_uuid.deep_view());
            if find_payload_match(self@.rows, pb_id@, local_uuid.deep_view()) is Some {
                let k = find_payload_match(self@.rows, pb_id@, local_uuid.deep_view()).unwrap();
                assert(!payload_match(self@.rows[k], pb_id@, local_uuid.deep_view()));
            }
        }
        None
    }

    /// Merges one remote note payload into the store, idempotently. A row
    /// matching the payload's remote id — or its supplied local identifier —
    /// is overwritten with the payload's title, content and timestamp, its
    /// remote id set and its local identifier only coalesced, and its local
    /// id is returned; when nothing matches, a new row is inserted under the
    /// next id, with a fresh identifier allocated from the entropy if the
    /// payload supplied none, and stamped with the caller's clock reading
    /// only in its creation column. An identifier-uniqueness violation on
    /// either path is surfaced as a conflict with the store untouched.
    pub fn import_note_from_pb(
        &mut self,
        pb_id: String,
        title: String,
        content: String,
        updated_at: String,
        local_uuid: Option<String>,
        now: &str,
        entropy: &[u8; 16],
    ) -> (r: Result<i64, StorageError>)
        requires
            old(self).wf(),
            old(self)@.next_id < i64::MAX,
        ensures
            final(self).wf(),
            ({
                let p = payload_of(pb_id@, title@, content@, updated_at@, local_uuid.deep_view());
                &&& final(self)@ == spec_reconcile(old(self)@, p, now@, entropy@).0
                &&& match r {
                    Ok(id) => spec_reconcile(old(self)@, p, now@, entropy@).1 == Ok::<
                        int,
                        StorageError,
                    >(id as int),
                    Err(e) => spec_reconcile(old(self)@, p, now@, entropy@).1 == Err::<
                        int,
                        StorageError,
                    >(e),
                }
            }),
    {
        let ghost p = payload_of(pb_id@, title@, content@, updated_at@, local_uuid.deep_view());
        match self.position_of_match(&pb_id, &local_uuid) {
            Some(pos) => {
                let row_lacks_uuid = match &self.rows[pos].local_uuid {
                    Some(_) => false,
                    None => true,
                };
                if row_lacks_uuid {
                    match &local_uuid {
                        Some(u) => {
                            if self.uuid_in_use(u) {
                                return Err(StorageError::IdentityConflict);
                            }
                        },
                        None => {},
                    }
                }
                let row = &self.rows[pos];
                let new_uuid = match &row.local_uuid {
                    Some(x) => Some(x.clone()),
                    None => clone_opt_text(&local_uuid),
                };
                let id = row.id;
                let updated = NoteRow {
                    id: id,
                    title: title,
                    content: Some(content),
                    created_at: row.created_at.clone(),
                    updated_at: updated_at,
                    pb_id: Some(pb_id),
                    local_uuid: new_uuid,
                };
                self.rows.set(pos, updated);
                proof {
                    assert(self@.rows =~= old(self)@.rows.update(
                        pos as int,
                        spec_reconciled(old(self)@.rows[pos as int], p),
                    ));
                }
                Ok(id)
            },
            None => {
                let u = match &local_uuid {
                    Some(x) => x.clone(),
                    None => allocate(entropy),
                };
                if self.uuid_in_use(&u) {
                    return Err(StorageError::IdentityConflict);
                }
                let id = self.next_id;
                let row = NoteRow {
                    id: id,
                    title: title,
                    content: Some(content),
                    created_at: now.to_owned(),
                    updated_at: updated_at,
                    pb_id: Some(pb_id),
                    local_uuid: Some(u),
                };
                self.rows.push(row);
                self.next_id = id + 1;
                proof {
                    assert(self@.rows =~= old(self)@.rows.push(
                        spec_imported(old(self)@.next_id, p, now@, spec_chosen_uuid(p, entropy@)),
                    ));
                }
                Ok(id)
            },
        }
    }
}

/// Reconciling the same payload a second time returns the same local id and
/// leaves the store exactly as the first reconciliation left it, whatever
/// entropy or clock reading the second pass drew.
pub proof fn lemma_reconcile_idempotent(
    db: DatabaseV,
    p: PayloadV,
    created1: Seq<char>,
    fresh1: Seq<u8>,
    created2: Seq<char>,
    fresh2: Seq<u8>,
)
    requires
        wf_db(db),
        spec_reconcile(db, p, created1, fresh1).1 is Ok,
    ensures
        ({
            let (db1, r1) = spec_reconcile(db, p, created1, fresh1);
            spec_reconcile(db1, p, created2, fresh2) == (db1, r1)
        }),
{
    let (db1, r1) = spec_reconcile(db, p, created1, fresh1);
    lemma_find_payload_match_characterization(db.rows, p.pb_id, p.local_uuid);
    match find_payload_match(db.rows, p.pb_id, p.local_uuid) {
        Some(i) => {
            let merged = spec_reconciled(db.rows[i], p);
            assert(db1.rows == db.rows.update(i, merged));
            assert(payload_match(db1.rows[i], p.pb_id, p.local_uuid));
            assert forall|j: int| 0 <= j < i implies !payload_match(
                #[trigger] db1.rows[j],
                p.pb_id,
                p.local_uuid,
            ) by {
                assert(db1.rows[j] == db.rows[j]);
            }
            lemma_find_payload_match_from_witness(db1.rows, p.pb_id, p.local_uuid, i);
            assert(spec_reconciled(db1.rows[i], p) == merged);
            assert(db1.rows.update(i, merged) =~= db1.rows);
        },
        None => {
            let chosen = spec_chosen_uuid(p, fresh1);
            let fresh_row = spec_imported(db.next_id, p, created1, chosen);
            assert(db1.rows == db.rows.push(fresh_row));
            let n = db.rows.len() as int;
            assert(db1.rows[n] == fresh_row);
            assert(payload_match(db1.rows[n], p.pb_id, p.local_uuid));
            assert forall|j: int| 0 <= j < n implies !payload_match(
                #[trigger] db1.rows[j],
                p.pb_id,
                p.local_uuid,
            ) by {
                assert(db1.rows[j] == db.rows[j]);
            }
            lemma_find_payload_match_from_witness(db1.rows, p.pb_id, p.local_uuid, n);
            assert(spec_reconciled(db1.rows[n], p) == fresh_row);
            assert(db1.rows.update(n, fresh_row) =~= db1.rows);
        },
    }
}

/// The store after reconciling one payload once per entropy draw, oldest
/// draw first.
pub open spec fn spec_reconcile_n(
    db: DatabaseV,
    p: PayloadV,
    created: Seq<char>,
    freshs: Seq<Seq<u8>>,
) -> DatabaseV
    decreases freshs.len(),
{
    if freshs.len() == 0 {
        db
    } else {
        spec_reconcile(
            spec_reconcile_n(db, p, created, freshs.drop_last()),
            p,
            created,
            freshs.last(),
        ).0
    }
}

/// Replaying one unchanged payload any positive number of times converges
/// on the first successful application: the store equals what that single
/// reconciliation produced, and exactly one row carries the payload's
/// remote id, holding the payload's title, content and timestamp. The
/// premise that at most one row corresponds to the payload is the design's
/// stated assumption; a store already holding two rows with that remote id
/// keeps both.
pub proof fn lemma_replay_converges(
    db: DatabaseV,
    p: PayloadV,
    created: Seq<char>,
    freshs: Seq<Seq<u8>>,
)
    requires
        wf_db(db),
        freshs.len() >= 1,
        spec_reconcile(db, p, created, freshs[0]).1 is Ok,
        forall|a: int, b: int|
            0 <= a < db.rows.len() && 0 <= b < db.rows.len() && payload_match(
                #[trigger] db.rows[a],
                p.pb_id,
                p.local_uuid,
            ) && payload_match(#[trigger] db.rows[b], p.pb_id, p.local_uuid) ==> a == b,
    ensures
        spec_reconcile_n(db, p, created, freshs) == spec_reconcile(db, p, created, freshs[0]).0,
        ({
            let rows = spec_reconcile(db, p, created, freshs[0]).0.rows;
            exists|i: int|
                0 <= i < rows.len() && (#[trigger] rows[i]).pb_id == Some(p.pb_id)
                    && rows[i].title == p.title && rows[i].content == Some(p.content)
                    && rows[i].updated_at == p.updated_at && forall|j: int|
                    0 <= j < rows.len() && j != i ==> (#[trigger] rows[j]).pb_id != Some(p.pb_id)
        }),
    decreases freshs.len(),
{
    let (db1, r1) = spec_reconcile(db, p, created, freshs[0]);
    lemma_find_payload_match_characterization(db.rows, p.pb_id, p.local_uuid);
    if freshs.len() == 1 {
        assert(freshs.drop_last().len() == 0);
        assert(freshs.last() == freshs[0]);
        assert(spec_reconcile_n(db, p, created, freshs.drop_last()) == db);
        assert(spec_reconcile_n(db, p, created, freshs) == spec_reconcile(
            db,
            p,
            created,
            freshs[0],
        ).0);
    } else {
        let head = freshs.drop_last();
        assert(head[0] == freshs[0]);
        lemma_replay_converges(db, p, created, head);
        assert(spec_reconcile_n(db, p, created, head) == db1);
        lemma_reconcile_idempotent(db, p, created, freshs[0], created, freshs.last());
        assert(spec_reconcile(db1, p, created, freshs.last()).0 == db1);
        assert(spec_reconcile_n(db, p, created, freshs) == spec_reconcile(
            spec_reconcile_n(db, p, created, head),
            p,
            created,
            freshs.last(),
        ).0);
    }
    match find_payload_match(db.rows, p.pb_id, p.local_uuid) {
        Some(i) => {
            assert(db1.rows == db.rows.update(i, spec_reconciled(db.rows[i], p)));
            assert((db1.rows[i]).pb_id == Some(p.pb_id));
            assert forall|j: int|
                0 <= j < db1.rows.len() && j != i implies (#[trigger] db1.rows[j]).pb_id != Some(
                p.pb_id,
            ) by {
                assert(db1.rows[j] == db.rows[j]);
                if db.rows[j].pb_id == Some(p.pb_id) {
                    assert(payload_match(db.rows[j], p.pb_id, p.local_uuid));
                    assert(payload_match(db.rows[i], p.pb_id, p.local_uuid));
                }
            }
        },
        None => {
            let n = db.rows.len() as int;
            assert(db1.rows[n].pb_id == Some(p.pb_id));
            assert forall|j: int|
                0 <= j < db1.rows.len() && j != n implies (#[trigger] db1.rows[j]).pb_id != Some(
                p.pb_id,
            ) by {
                assert(db1.rows[j] == db.rows[j]);
                if db.rows[j].pb_id == Some(p.pb_id) {
                    assert(payload_match(db.rows[j], p.pb_id, p.local_uuid));
                }
            }
        },
    }
}

/// A note authored locally before any sync keeps its identity when it first
/// meets the remote system: reconciling a payload that carries the note's
/// local identifier and a remote id no row holds yet updates that very row —
/// the same local id — sets the remote id on it, and leaves the local
/// identifier exactly as it was.
pub proof fn lemma_local_note_adopts_remote_id(
    db: DatabaseV,
    i: int,
    p: PayloadV,
    created: Seq<char>,
    fresh: Seq<u8>,
)
    requires
        wf_db(db),
        0 <= i < db.rows.len(),
        db.rows[i].pb_id is None,
        p.local_uuid is Some,
        db.rows[i].local_uuid == p.local_uuid,
        forall|j: int| 0 <= j < db.rows.len() ==> (#[trigger] db.rows[j]).pb_id != Some(p.pb_id),
    ensures
        ({
            let (db1, r1) = spec_reconcile(db, p, created, fresh);
            &&& r1 == Ok::<int, StorageError>(db.rows[i].id)
            &&& db1.next_id == db.next_id
            &&& db1.rows == db.rows.update(i, spec_reconciled(db.rows[i], p))
            &&& db1.rows[i].id == db.rows[i].id
            &&& db1.rows[i].pb_id == Some(p.pb_id)
            &&& db1.rows[i].local_uuid == p.local_uuid
        }),
{
    assert(payload_match(db.rows[i], p.pb_id, p.local_uuid));
    assert forall|j: int| 0 <= j < i implies !payload_match(
        #[trigger] db.rows[j],
        p.pb_id,
        p.local_uuid,
    ) by {
        if db.rows[j].local_uuid == p.local_uuid {
            assert(db.rows[j].local_uuid != db.rows[i].local_uuid);
        }
    }
    lemma_find_payload_match_from_witness(db.rows, p.pb_id, p.local_uuid, i);
}

} // verus!
