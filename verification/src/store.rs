use crate::identity::{allocate, uuid_of};
use vstd::prelude::*;

verus! {

/// A note summary, as the listing returns it.
pub struct Note {
    pub id: i64,
    pub title: String,
    pub updated_at: String,
    pub pb_id: Option<String>,
    pub local_uuid: Option<String>,
}

/// The full detail of one note.
pub struct NoteDetail {
    pub id: i64,
    pub title: String,
    pub content: Option<String>,
    pub updated_at: String,
    pub pb_id: Option<String>,
    pub local_uuid: Option<String>,
}

/// One persisted row of the note table.
pub struct NoteRow {
    pub id: i64,
    pub title: String,
    pub content: Option<String>,
    pub created_at: String,
    pub updated_at: String,
    pub pb_id: Option<String>,
    pub local_uuid: Option<String>,
}

/// The mathematical value of a summary.
pub struct NoteV {
    pub id: int,
    pub title: Seq<char>,
    pub updated_at: Seq<char>,
    pub pb_id: Option<Seq<char>>,
    pub local_uuid: Option<Seq<char>>,
}

/// The mathematical value of a detail.
pub struct NoteDetailV {
    pub id: int,
    pub title: Seq<char>,
    pub content: Option<Seq<char>>,
    pub updated_at: Seq<char>,
    pub pb_id: Option<Seq<char>>,
    pub local_uuid: Option<Seq<char>>,
}

/// The mathematical value of a row.
pub struct NoteRowV {
    pub id: int,
    pub title: Seq<char>,
    pub content: Option<Seq<char>>,
    pub created_at: Seq<char>,
    pub updated_at: Seq<char>,
    pub pb_id: Option<Seq<char>>,
    pub local_uuid: Option<Seq<char>>,
}

impl View for Note {
    type V = NoteV;

    open spec fn view(&self) -> NoteV {
        NoteV {
            id: self.id as int,
            title: self.title@,
            updated_at: self.updated_at@,
            pb_id: self.pb_id.deep_view(),
            local_uuid: self.local_uuid.deep_view(),
        }
    }
}

impl DeepView for Note {
    type V = NoteV;

    open spec fn deep_view(&self) -> NoteV {
        self.view()
    }
}

impl View for NoteDetail {
    type V = NoteDetailV;

    open spec fn view(&self) -> NoteDetailV {
        NoteDetailV {
            id: self.id as int,
            title: self.title@,
            content: self.content.deep_view(),
            updated_at: self.updated_at@,
            pb_id: self.pb_id.deep_view(),
            local_uuid: self.local_uuid.deep_view(),
        }
    }
}

impl View for NoteRow {
    type V = NoteRowV;

    open spec fn view(&self) -> NoteRowV {
        NoteRowV {
            id: self.id as int,
            title: self.title@,
            content: self.content.deep_view(),
            created_at: self.created_at@,
            updated_at: self.updated_at@,
            pb_id: self.pb_id.deep_view(),
            local_uuid: self.local_uuid.deep_view(),
        }
    }
}

impl DeepView for NoteRow {
    type V = NoteRowV;

    open spec fn deep_view(&self) -> NoteRowV {
        self.view()
    }
}

/// Why a store operation failed. Failures of the persistence engine itself
/// (I/O and the like) belong to the unverified edge that drives this store;
/// the store model surfaces the two failures that its own rules can produce.
#[derive(Clone, Copy, Debug, PartialEq, Eq, Structural)]
pub enum StorageError {
    /// A local identifier about to be persisted is already held by another
    /// row: a uniqueness violation, surfaced and never repaired silently.
    IdentityConflict,
    /// The operation requires an existing row and none has the given id.
    NotFound,
}

/// The mathematical value of the whole store.
pub struct DatabaseV {
    pub rows: Seq<NoteRowV>,
    pub next_id: int,
}

/// The note store: the one owner of the note table. Rows stand in scan
/// order; `next_id` is the next primary key to assign, never reused after a
/// deletion.
pub struct Database {
    pub rows: Vec<NoteRow>,
    pub next_id: i64,
}

impl View for Database {
    type V = DatabaseV;

    open spec fn view(&self) -> DatabaseV {
        DatabaseV { rows: self.rows.deep_view(), next_id: self.next_id as int }
    }
}

/// The index of the first row with the given id, scanning front to back.
pub open spec fn find_id(rows: Seq<NoteRowV>, id: int) -> Option<int>
    decreases rows.len(),
{
    if rows.len() == 0 {
        None
    } else if rows[0].id == id {
        Some(0)
    } else {
        match find_id(rows.drop_first(), id) {
            Some(i) => Some(i + 1),
            None => None,
        }
    }
}

/// What `find_id` returns: the first match, or nothing when no row has the id.
pub proof fn lemma_find_id_characterization(rows: Seq<NoteRowV>, id: int)
    ensures
        match find_id(rows, id) {
            Some(i) => 0 <= i < rows.len() && rows[i].id == id && forall|j: int|
                0 <= j < i ==> (#[trigger] rows[j]).id != id,
            None => forall|j: int| 0 <= j < rows.len() ==> (#[trigger] rows[j]).id != id,
        },
    decreases rows.len(),
{
    if rows.len() > 0 && rows[0].id != id {
        let tail = rows.drop_first();
        lemma_find_id_characterization(tail, id);
        assert forall|j: int| 1 <= j < rows.len() implies #[trigger] rows[j] == tail[j - 1] by {}
    }
}

/// A row with the id, with none before it, is what `find_id` returns.
pub proof fn lemma_find_id_from_witness(rows: Seq<NoteRowV>, id: int, i: int)
    requires
        0 <= i < rows.len(),
        rows[i].id == id,
        forall|j: int| 0 <= j < i ==> (#[trigger] rows[j]).id != id,
    ensures
        find_id(rows, id) == Some(i),
{
    lemma_find_id_characterization(rows, id);
    if find_id(rows, id) is None {
        assert(rows[i].id != id);
    } else {
        let k = find_id(rows, id).unwrap();
        if k < i {
            assert(rows[k].id != id);
        } else if k > i {
            assert(rows[i].id != id);
        }
    }
}

/// Some row already holds this local identifier.
pub open spec fn uuid_taken(rows: Seq<NoteRowV>, u: Seq<char>) -> bool {
    exists|i: int| 0 <= i < rows.len() && (#[trigger] rows[i]).local_uuid == Some(u)
}

/// The row a local creation inserts.
pub open spec fn spec_created(
    id: int,
    title: Seq<char>,
    content: Seq<char>,
    now: Seq<char>,
    u: Seq<char>,
) -> NoteRowV {
    NoteRowV {
        id: id,
        title: title,
        content: Some(content),
        created_at: now,
        updated_at: now,
        pb_id: None,
        local_uuid: Some(u),
    }
}

/// A row after a direct local edit: new title and content, the update
/// timestamp maintained by the store.
pub open spec fn spec_edited(
    r: NoteRowV,
    title: Seq<char>,
    content: Seq<char>,
    now: Seq<char>,
) -> NoteRowV {
    NoteRowV { title: title, content: Some(content), updated_at: now, ..r }
}

/// A row after its remote id is set directly.
pub open spec fn spec_with_pb(r: NoteRowV, pb: Seq<char>, now: Seq<char>) -> NoteRowV {
    NoteRowV { pb_id: Some(pb), updated_at: now, ..r }
}

/// A row after a lazily allocated local identifier lands on it.
pub open spec fn spec_with_uuid(r: NoteRowV, u: Seq<char>, now: Seq<char>) -> NoteRowV {
    NoteRowV { local_uuid: Some(u), updated_at: now, ..r }
}

/// The detail a lookup reports for a row.
pub open spec fn spec_detail(r: NoteRowV) -> NoteDetailV {
    NoteDetailV {
        id: r.id,
        title: r.title,
        content: r.content,
        updated_at: r.updated_at,
        pb_id: r.pb_id,
        local_uuid: r.local_uuid,
    }
}

/// The summary the listing reports for a row.
pub open spec fn spec_summary(r: NoteRowV) -> NoteV {
    NoteV {
        id: r.id,
        title: r.title,
        updated_at: r.updated_at,
        pb_id: r.pb_id,
        local_uuid: r.local_uuid,
    }
}

/// Copies an optional text value; the copy carries the same value.
pub(crate) fn clone_opt_text(o: &Option<String>) -> (r: Option<String>)
    ensures
        r == *o,
{
    match o {
        Some(s) => Some(s.clone()),
        None => None,
    }
}

/// Whether an optional text holds exactly the given text.
pub(crate) fn opt_holds_text(o: &Option<String>, s: &String) -> (r: bool)
    ensures
        r == (o.deep_view() == Some(s@)),
{
    match o {
        Some(x) => *x == *s,
        None => false,
    }
}

impl NoteRow {
    /// Copies a row; the copy has the same value in every field.
    pub(crate) fn duplicate(&self) -> (r: NoteRow)
        ensures
            r == *self,
    {
        NoteRow {
            id: self.id,
            title: self.title.clone(),
            content: clone_opt_text(&self.content),
            created_at: self.created_at.clone(),
            updated_at: self.updated_at.clone(),
            pb_id: clone_opt_text(&self.pb_id),
            local_uuid: clone_opt_text(&self.local_uuid),
        }
    }
}

/// The store's invariant. Row ids are positive, strictly increasing in scan
/// order (so never reused and never duplicated), and below the next id to
/// assign; local identifiers, where present, are unique across all rows.
pub open spec fn wf_rows(rows: Seq<NoteRowV>, next_id: int) -> bool {
    &&& 0 < next_id
    &&& forall|i: int| 0 <= i < rows.len() ==> 0 < (#[trigger] rows[i]).id < next_id
    &&& forall|i: int, j: int|
        0 <= i < j < rows.len() ==> (#[trigger] rows[i]).id < (#[trigger] rows[j]).id
    &&& forall|i: int, j: int|
        0 <= i < j < rows.len() && (#[trigger] rows[i]).local_uuid is Some && (
        #[trigger] rows[j]).local_uuid is Some ==> rows[i].local_uuid != rows[j].local_uuid
}

/// The invariant, over the store's mathematical value.
pub open spec fn wf_db(db: DatabaseV) -> bool {
    wf_rows(db.rows, db.next_id)
}

/// What one `ensure_local_uuid` call does to the store value: nothing on an
/// absent id; nothing on a row that already holds an identifier, whose value
/// it returns; otherwise it persists the identifier allocated from the fresh
/// entropy and stamps the row, unless that identifier is already held
/// somewhere, which is a surfaced conflict.
pub open spec fn spec_ensure_uuid(db: DatabaseV, id: int, now: Seq<char>, fresh: Seq<u8>) -> (
    DatabaseV,
    Result<Seq<char>, StorageError>,
) {
    match find_id(db.rows, id) {
        None => (db, Err(StorageError::NotFound)),
        Some(i) => match db.rows[i].local_uuid {
            Some(u) => (db, Ok(u)),
            None => {
                if uuid_taken(db.rows, uuid_of(fresh)) {
                    (db, Err(StorageError::IdentityConflict))
                } else {
                    (
                        DatabaseV {
                            rows: db.rows.update(
                                i,
                                spec_with_uuid(db.rows[i], uuid_of(fresh), now),
                            ),
                            next_id: db.next_id,
                        },
                        Ok(uuid_of(fresh)),
                    )
                }
            },
        },
    }
}

/// A locally created note carries a local identifier from the moment it
/// exists, and that identifier is unique across the store: the fresh row
/// holds one, and no older row holds the same value. The premise is exactly
/// the condition under which `create_note` reports success.
pub proof fn lemma_created_note_identity(
    db: DatabaseV,
    title: Seq<char>,
    content: Seq<char>,
    now: Seq<char>,
    fresh: Seq<u8>,
)
    requires
        wf_db(db),
        !uuid_taken(db.rows, uuid_of(fresh)),
    ensures
        ({
            let rows = db.rows.push(spec_created(db.next_id, title, content, now, uuid_of(fresh)));
            let n = db.rows.len() as int;
            &&& rows[n].local_uuid is Some
            &&& forall|j: int|
                0 <= j < n ==> (#[trigger] rows[j]).local_uuid != rows[n].local_uuid
        }),
{
    let rows = db.rows.push(spec_created(db.next_id, title, content, now, uuid_of(fresh)));
    let n = db.rows.len() as int;
    assert forall|j: int| 0 <= j < n implies (#[trigger] rows[j]).local_uuid
        != rows[n].local_uuid by {
        assert(rows[j] == db.rows[j]);
        assert(db.rows[j].local_uuid != Some(uuid_of(fresh)));
    }
}

/// Ensuring a local identifier is idempotent. The storage engine serializes
/// the two writes of two racing calls; whichever lands first persists its
/// identifier, and the later call — modelled here as the second — returns
/// exactly the identifier the first call returned and changes nothing, so
/// the row ends with a single non-null identifier.
pub proof fn lemma_ensure_uuid_converges(
    db: DatabaseV,
    id: int,
    now1: Seq<char>,
    fresh1: Seq<u8>,
    now2: Seq<char>,
    fresh2: Seq<u8>,
)
    requires
        wf_db(db),
        spec_ensure_uuid(db, id, now1, fresh1).1 is Ok,
    ensures
        ({
            let (db1, r1) = spec_ensure_uuid(db, id, now1, fresh1);
            spec_ensure_uuid(db1, id, now2, fresh2) == (db1, r1)
        }),
{
    let (db1, r1) = spec_ensure_uuid(db, id, now1, fresh1);
    lemma_find_id_characterization(db.rows, id);
    let i = find_id(db.rows, id).unwrap();
    match db.rows[i].local_uuid {
        Some(u) => {
            assert(db1 == db);
        },
        None => {
            assert(db1.rows == db.rows.update(
                i,
                spec_with_uuid(db.rows[i], uuid_of(fresh1), now1),
            ));
            assert(db1.rows[i].local_uuid == Some(uuid_of(fresh1)));
            assert forall|j: int| 0 <= j < i implies (#[trigger] db1.rows[j]).id != id by {
                assert(db1.rows[j] == db.rows[j]);
            }
            lemma_find_id_from_witness(db1.rows, id, i);
        },
    }
}

impl Database {
    /// The store's invariant; see `wf_rows`.
    pub open spec fn wf(self) -> bool {
        wf_db(self@)
    }

    /// An empty store, as a fresh table presents it.
    pub fn new() -> (db: Database)
        ensures
            db.wf(),
            db@.rows == Seq::<NoteRowV>::empty(),
            db@.next_id == 1,
    {
        let db = Database { rows: Vec::new(), next_id: 1 };
        proof {
            assert(db@.rows =~= Seq::<NoteRowV>::empty());
        }
        db
    }

    /// The scan position of the row with the given id, if any.
    fn position_of_id(&self, id: i64) -> (r: Option<usize>)
        ensures
            match r {
                Some(p) => p < self.rows@.len() && find_id(self@.rows, id as int) == Some(p as int),
                None => find_id(self@.rows, id as int) is None,
            },
    {
        let mut i: usize = 0;
        while i < self.rows.len()
            invariant
                i <= self.rows@.len(),
                forall|j: int| 0 <= j < i ==> (#[trigger] self@.rows[j]).id != id as int,
            decreases self.rows@.len() - i,
        {
            if self.rows[i].id == id {
                proof {
                    lemma_find_id_characterization(self@.rows, id as int);
                    assert(self@.rows[i as int].id == id as int);
                    if find_id(self@.rows, id as int) is None {
                        assert(false);
                    } else {
                        let k = find_id(self@.rows, id as int).unwrap();
                        if k < i as int {
                            assert(self@.rows[k].id != id as int);
                        }
                        if k > i as int {
                            assert(self@.rows[i as int].id != id as int);
                        }
                    }
                }
                return Some(i);
            }
            i = i + 1;
        }
        proof {
            lemma_find_id_characterization(self@.rows, id as int);
            if find_id(self@.rows, id as int) is Some {
                let k = find_id(self@.rows, id as int).unwrap();
                assert(self@.rows[k].id != id as int);
            }
        }
        None
    }

    /// Whether some row already holds the given local identifier.
    pub(crate) fn uuid_in_use(&self, u: &String) -> (r: bool)
        ensures
            r == uuid_taken(self@.rows, u@),
    {
        let mut i: usize = 0;
        while i < self.rows.len()
            invariant
                i <= self.rows@.len(),
                forall|j: int| 0 <= j < i ==> (#[trigger] self@.rows[j]).local_uuid != Some(u@),
            decreases self.rows@.len() - i,
        {
            if opt_holds_text(&self.rows[i].local_uuid, u) {
                proof {
                    assert(self@.rows[i as int].local_uuid == Some(u@));
                }
                return true;
            }
            i = i + 1;
        }
        false
    }

    /// Creates a locally authored note: a fresh row with the next id, the
    /// given title and content, both timestamps set to the caller's clock
    /// reading, no remote id, and a local identifier allocated from the
    /// entropy — non-null from the moment the note exists. The one failure is
    /// an identity conflict: the freshly allocated identifier is already
    /// held by some row, and the store is then left untouched.
    pub fn create_note(&mut self, title: String, content: String, now: &str, entropy: &[u8; 16]) -> (r:
        Result<i64, StorageError>)
        requires
            old(self).wf(),
            old(self)@.next_id < i64::MAX,
        ensures
            final(self).wf(),
            match r {
                Ok(id) => {
                    &&& !uuid_taken(old(self)@.rows, uuid_of(entropy@))
                    &&& id == old(self)@.next_id
                    &&& final(self)@.rows == old(self)@.rows.push(
                        spec_created(
                            old(self)@.next_id,
                            title@,
                            content@,
                            now@,
                            uuid_of(entropy@),
                        ),
                    )
                    &&& final(self)@.next_id == old(self)@.next_id + 1
                },
                Err(e) => {
                    &&& e == StorageError::IdentityConflict
                    &&& uuid_taken(old(self)@.rows, uuid_of(entropy@))
                    &&& final(self)@ == old(self)@
                },
            },
    {
        let u = allocate(entropy);
        if self.uuid_in_use(&u) {
            return Err(StorageError::IdentityConflict);
        }
        let id = self.next_id;
        let row = NoteRow {
            id: id,
            title: title,
            content: Some(content),
            created_at: now.to_owned(),
            updated_at: now.to_owned(),
            pb_id: None,
            local_uuid: Some(u),
        };
        self.rows.push(row);
        self.next_id = id + 1;
        proof {
            assert(self@.rows =~= old(self)@.rows.push(
                spec_created(old(self)@.next_id, title@, content@, now@, uuid_of(entropy@)),
            ));
        }
        Ok(id)
    }

    /// The full detail of the note with the given id, or nothing.
    pub fn get_note_content(&self, id: i64) -> (r: Option<NoteDetail>)
        ensures
            match find_id(self@.rows, id as int) {
                Some(i) => match r {
                    Some(d) => d@ == spec_detail(self@.rows[i]),
                    None => false,
                },
                None => r is None,
            },
    {
        match self.position_of_id(id) {
            Some(p) => {
                let row = &self.rows[p];
                Some(
                    NoteDetail {
                        id: row.id,
                        title: row.title.clone(),
                        content: clone_opt_text(&row.content),
                        updated_at: row.updated_at.clone(),
                        pb_id: clone_opt_text(&row.pb_id),
                        local_uuid: clone_opt_text(&row.local_uuid),
                    },
                )
            },
            None => None,
        }
    }

    /// Overwrites title and content of the note with the given id and stamps
    /// it with the caller's clock reading; editing an absent id changes
    /// nothing. Succeeds either way: the model knows no other failure here.
    pub fn update_note(&mut self, id: i64, title: String, content: String, now: &str) -> (r: Result<
        (),
        StorageError,
    >)
        requires
            old(self).wf(),
        ensures
            final(self).wf(),
            r == Ok::<(), StorageError>(()),
            final(self)@.next_id == old(self)@.next_id,
            match find_id(old(self)@.rows, id as int) {
                Some(i) => final(self)@.rows == old(self)@.rows.update(
                    i,
                    spec_edited(old(self)@.rows[i], title@, content@, now@),
                ),
                None => final(self)@ == old(self)@,
            },
    {
        match self.position_of_id(id) {
            Some(p) => {
                let row = &self.rows[p];
                let updated = NoteRow {
                    id: row.id,
                    title: title,
                    content: Some(content),
                    created_at: row.created_at.clone(),
                    updated_at: now.to_owned(),
                    pb_id: clone_opt_text(&row.pb_id),
                    local_uuid: clone_opt_text(&row.local_uuid),
                };
                self.rows.set(p, updated);
                proof {
                    let i = find_id(old(self)@.rows, id as int).unwrap();
                    assert(self@.rows =~= old(self)@.rows.update(
                        i,
                        spec_edited(old(self)@.rows[i], title@, content@, now@),
                    ));
                }
                Ok(())
            },
            None => Ok(()),
        }
    }

    /// Sets the remote id of the note with the given id and stamps it with
    /// the caller's clock reading; an absent id changes nothing.
    pub fn update_note_pb_id(&mut self, id: i64, pb_id: String, now: &str) -> (r: Result<
        (),
        StorageError,
    >)
        requires
            old(self).wf(),
        ensures
            final(self).wf(),
            r == Ok::<(), StorageError>(()),
            final(self)@.next_id == old(self)@.next_id,
            match find_id(old(self)@.rows, id as int) {
                Some(i) => final(self)@.rows == old(self)@.rows.update(
                    i,
                    spec_with_pb(old(self)@.rows[i], pb_id@, now@),
                ),
                None => final(self)@ == old(self)@,
            },
    {
        match self.position_of_id(id) {
            Some(p) => {
                let row = &self.rows[p];
                let updated = NoteRow {
                    id: row.id,
                    title: row.title.clone(),
                    content: clone_opt_text(&row.content),
                    created_at: row.created_at.clone(),
                    updated_at: now.to_owned(),
                    pb_id: Some(pb_id),
                    local_uuid: clone_opt_text(&row.local_uuid),
                };
                self.rows.set(p, updated);
                proof {
                    let i = find_id(old(self)@.rows, id as int).unwrap();
                    assert(self@.rows =~= old(self)@.rows.update(
                        i,
                        spec_with_pb(old(self)@.rows[i], pb_id@, now@),
                    ));
                }
                Ok(())
            },
            None => Ok(()),
        }
    }

    /// Deletes the note with the given id. Deleting an absent id is a
    /// successful no-op, so remote-driven deletes may be retried safely.
    pub fn delete_note(&mut self, id: i64) -> (r: Result<(), StorageError>)
        requires
            old(self).wf(),
        ensures
            final(self).wf(),
            r == Ok::<(), StorageError>(()),
            final(self)@.next_id == old(self)@.next_id,
            match find_id(old(self)@.rows, id as int) {
                Some(i) => final(self)@.rows == old(self)@.rows.remove(i),
                None => final(self)@ == old(self)@,
            },
    {
        match self.position_of_id(id) {
            Some(p) => {
                self.rows.remove(p);
                proof {
                    let i = find_id(old(self)@.rows, id as int).unwrap();
                    assert(self@.rows =~= old(self)@.rows.remove(i));
                }
                Ok(())
            },
            None => Ok(()),
        }
    }

    /// Deletes every note carrying the given remote id; none is a successful
    /// no-op. The surviving rows keep their scan order.
    pub fn delete_note_by_pb_id(&mut self, pb_id: String) -> (r: Result<(), StorageError>)
        requires
            old(self).wf(),
        ensures
            final(self).wf(),
            r == Ok::<(), StorageError>(()),
            final(self)@.next_id == old(self)@.next_id,
            final(self)@.rows == old(self)@.rows.filter(
                |row: NoteRowV| row.pb_id != Some(pb_id@),
            ),
    {
        let ghost pred = |row: NoteRowV| row.pb_id != Some(pb_id@);
        let mut kept: Vec<NoteRow> = Vec::new();
        let mut i: usize = 0;
        proof {
            reveal(Seq::filter);
            assert(old(self)@.rows.subrange(0, 0) =~= Seq::<NoteRowV>::empty());
            assert(kept.deep_view() =~= old(self)@.rows.subrange(0, 0).filter(pred));
        }
        while i < self.rows.len()
            invariant
                i <= self.rows@.len(),
                *self == *old(self),
                pred == (|row: NoteRowV| row.pb_id != Some(pb_id@)),
                kept.deep_view() == old(self)@.rows.subrange(0, i as int).filter(pred),
            decreases self.rows@.len() - i,
        {
            let ghost prefix = old(self)@.rows.subrange(0, i as int);
            let ghost prefix_next = old(self)@.rows.subrange(0, i as int + 1);
            proof {
                assert(prefix_next =~= prefix.push(old(self)@.rows[i as int]));
                prefix.lemma_filter_push(old(self)@.rows[i as int], pred);
            }
            if !opt_holds_text(&self.rows[i].pb_id, &pb_id) {
                kept.push(self.rows[i].duplicate());
                proof {
                    assert(pred(old(self)@.rows[i as int]));
                    assert(kept.deep_view() =~= prefix.filter(pred).push(
                        old(self)@.rows[i as int],
                    ));
                }
            } else {
                proof {
                    assert(!pred(old(self)@.rows[i as int]));
                }
            }
            i = i + 1;
        }
        proof {
            assert(old(self)@.rows.subrange(0, old(self)@.rows.len() as int) =~= old(self)@.rows);
        }
        self.rows = kept;
        proof {
            lemma_filter_keeps_wf(old(self)@.rows, pred, old(self)@.next_id);
        }
        Ok(())
    }

    /// Returns the note's stable local identifier, allocating one from the
    /// entropy if the row still lacks one (a legacy row), persisting it and
    /// stamping the row with the caller's clock reading. Idempotent: once a
    /// row holds an identifier, every later call returns that same value and
    /// changes nothing. Fails with `NotFound` on an absent id, and with
    /// `IdentityConflict` when the freshly allocated identifier is already
    /// held by some row — the store is then left untouched.
    pub fn ensure_local_uuid(&mut self, id: i64, now: &str, entropy: &[u8; 16]) -> (r: Result<
        String,
        StorageError,
    >)
        requires
            old(self).wf(),
        ensures
            final(self).wf(),
            final(self)@ == spec_ensure_uuid(old(self)@, id as int, now@, entropy@).0,
            match r {
                Ok(s) => spec_ensure_uuid(old(self)@, id as int, now@, entropy@).1 == Ok::<
                    Seq<char>,
                    StorageError,
                >(s@),
                Err(e) => spec_ensure_uuid(old(self)@, id as int, now@, entropy@).1 == Err::<
                    Seq<char>,
                    StorageError,
                >(e),
            },
    {
        match self.position_of_id(id) {
            Some(p) => {
                match &self.rows[p].local_uuid {
                    Some(u) => Ok(u.clone()),
                    None => {
                        let u = allocate(entropy);
                        if self.uuid_in_use(&u) {
                            return Err(StorageError::IdentityConflict);
                        }
                        let row = &self.rows[p];
                        let updated = NoteRow {
                            id: row.id,
                            title: row.title.clone(),
                            content: clone_opt_text(&row.content),
                            created_at: row.created_at.clone(),
                            updated_at: now.to_owned(),
                            pb_id: clone_opt_text(&row.pb_id),
                            local_uuid: Some(u.clone()),
                        };
                        self.rows.set(p, updated);
                        proof {
                            let i = find_id(old(self)@.rows, id as int).unwrap();
                            assert(self@.rows =~= old(self)@.rows.update(
                                i,
                                spec_with_uuid(old(self)@.rows[i], uuid_of(entropy@), now@),
                            ));
                        }
                        Ok(u)
                    },
                }
            },
            None => Err(StorageError::NotFound),
        }
    }
}

/// Each element the filter keeps equals some element of the original
/// sequence at an index at least as large as its own.
proof fn lemma_filter_element_origin(rows: Seq<NoteRowV>, pred: spec_fn(NoteRowV) -> bool)
    ensures
        forall|k: int|
            0 <= k < rows.filter(pred).len() ==> exists|m: int|
                k <= m < rows.len() && (#[trigger] rows[m]) == #[trigger] rows.filter(pred)[k],
    decreases rows.len(),
{
    reveal(Seq::filter);
    if rows.len() > 0 {
        let head = rows.drop_last();
        lemma_filter_element_origin(head, pred);
        let f = rows.filter(pred);
        assert forall|k: int| #![trigger f[k]] 0 <= k < f.len() implies exists|m: int|
            k <= m < rows.len() && (#[trigger] rows[m]) == f[k] by {
            if pred(rows.last()) && k == f.len() - 1 {
                assert(rows[rows.len() - 1] == f[k]);
            } else {
                let m = choose|m: int|
                    k <= m < head.len() && (#[trigger] head[m]) == head.filter(pred)[k];
                assert(rows[m] == f[k]);
            }
        }
    }
}

/// Dropping rows keeps the invariant: ids stay increasing and identifiers
/// stay unique in any subsequence the filter leaves.
proof fn lemma_filter_keeps_wf(rows: Seq<NoteRowV>, pred: spec_fn(NoteRowV) -> bool, next_id: int)
    requires
        forall|i: int| 0 <= i < rows.len() ==> 0 < (#[trigger] rows[i]).id < next_id,
        forall|i: int, j: int|
            0 <= i < j < rows.len() ==> (#[trigger] rows[i]).id < (#[trigger] rows[j]).id,
        forall|i: int, j: int|
            0 <= i < j < rows.len() && (#[trigger] rows[i]).local_uuid is Some && (
            #[trigger] rows[j]).local_uuid is Some ==> rows[i].local_uuid != rows[j].local_uuid,
    ensures
        forall|i: int|
            0 <= i < rows.filter(pred).len() ==> 0 < (#[trigger] rows.filter(pred)[i]).id
                < next_id,
        forall|i: int, j: int|
            0 <= i < j < rows.filter(pred).len() ==> (#[trigger] rows.filter(pred)[i]).id < (
            #[trigger] rows.filter(pred)[j]).id,
        forall|i: int, j: int|
            0 <= i < j < rows.filter(pred).len() && (#[trigger] rows.filter(pred)[i]).local_uuid
                is Some && (#[trigger] rows.filter(pred)[j]).local_uuid is Some ==> rows.filter(
                pred,
            )[i].local_uuid != rows.filter(pred)[j].local_uuid,
    decreases rows.len(),
{
    reveal(Seq::filter);
    if rows.len() > 0 {
        let head = rows.drop_last();
        lemma_filter_keeps_wf(head, pred, next_id);
        lemma_filter_element_origin(head, pred);
        let f = head.filter(pred);
        assert forall|k: int| 0 <= k < f.len() implies (#[trigger] f[k]).id < rows.last().id && (
        f[k].local_uuid is Some && rows.last().local_uuid is Some ==> f[k].local_uuid
            != rows.last().local_uuid) by {
            let m = choose|m: int| k <= m < head.len() && (#[trigger] head[m]) == f[k];
            assert(rows[m] == f[k]);
            assert(rows[m].id < rows[rows.len() - 1].id);
        }
        if pred(rows.last()) {
            assert(rows.filter(pred) == f.push(rows.last()));
        } else {
            assert(rows.filter(pred) == f);
        }
    }
}

} // verus!
