use crate::order::{lemma_lex_le_antisym, lemma_lex_le_total, lemma_lex_le_trans, lex_le, str_le};
use crate::store::{clone_opt_text, spec_summary, Database, Note, NoteRowV, NoteV};
use vstd::multiset::Multiset;
use vstd::prelude::*;

verus! {

broadcast use vstd::seq_lib::group_to_multiset_ensures;

/// Listing order: a summary may stand before another when its update stamp
/// is lexicographically greater, or equal with an id at least as large —
/// the most recently updated note first, a tie going to the newest creation.
pub open spec fn listed_le(a: NoteV, b: NoteV) -> bool {
    if a.updated_at == b.updated_at {
        a.id >= b.id
    } else {
        lex_le(b.updated_at, a.updated_at)
    }
}

/// Any two summaries are comparable in listing order.
pub proof fn lemma_listed_le_total(a: NoteV, b: NoteV)
    ensures
        listed_le(a, b) || listed_le(b, a),
{
    lemma_lex_le_total(a.updated_at, b.updated_at);
}

/// The listing order is transitive.
pub proof fn lemma_listed_le_trans(a: NoteV, b: NoteV, c: NoteV)
    requires
        listed_le(a, b),
        listed_le(b, c),
    ensures
        listed_le(a, c),
{
    if a.updated_at == b.updated_at {
        if b.updated_at != c.updated_at {
            assert(lex_le(c.updated_at, a.updated_at));
        }
    } else {
        if b.updated_at == c.updated_at {
            assert(lex_le(c.updated_at, a.updated_at));
        } else {
            lemma_lex_le_trans(c.updated_at, b.updated_at, a.updated_at);
            if a.updated_at == c.updated_at {
                lemma_lex_le_antisym(b.updated_at, a.updated_at);
            }
        }
    }
}

/// Decides the listing order on two summaries.
fn listed_before(a: &Note, b: &Note) -> (r: bool)
    ensures
        r == listed_le(a@, b@),
{
    if a.updated_at == b.updated_at {
        a.id >= b.id
    } else {
        str_le(b.updated_at.as_str(), a.updated_at.as_str())
    }
}

/// The summaries of all rows, in listing order.
pub open spec fn spec_listing_of(rows: Seq<NoteRowV>) -> Multiset<NoteV> {
    rows.map_values(|row: NoteRowV| spec_summary(row)).to_multiset()
}

impl Database {
    /// Every note as a summary, ordered by update stamp descending, ties
    /// broken by id descending: exactly the rows' summaries, reordered and
    /// nothing else.
    pub fn get_notes(&self) -> (r: Vec<Note>)
        ensures
            r.deep_view().to_multiset() == spec_listing_of(self@.rows),
            forall|a: int, b: int|
                0 <= a < b < r.deep_view().len() ==> listed_le(
                    #[trigger] r.deep_view()[a],
                    #[trigger] r.deep_view()[b],
                ),
    {
        let ghost to_summary = |row: NoteRowV| spec_summary(row);
        let mut out: Vec<Note> = Vec::new();
        let mut i: usize = 0;
        proof {
            assert(out.deep_view() =~= Seq::<NoteV>::empty());
            assert(self@.rows.subrange(0, 0).map_values(to_summary) =~= Seq::<NoteV>::empty());
        }
        while i < self.rows.len()
            invariant
                i <= self.rows@.len(),
                to_summary == (|row: NoteRowV| spec_summary(row)),
                out.deep_view().to_multiset() == self@.rows.subrange(0, i as int).map_values(
                    to_summary,
                ).to_multiset(),
                forall|a: int, b: int|
                    0 <= a < b < out.deep_view().len() ==> listed_le(
                        #[trigger] out.deep_view()[a],
                        #[trigger] out.deep_view()[b],
                    ),
            decreases self.rows@.len() - i,
        {
            let row = &self.rows[i];
            let s = Note {
                id: row.id,
                title: row.title.clone(),
                updated_at: row.updated_at.clone(),
                pb_id: clone_opt_text(&row.pb_id),
                local_uuid: clone_opt_text(&row.local_uuid),
            };
            proof {
                assert(s@ == spec_summary(self@.rows[i as int]));
            }
            let mut p: usize = 0;
            loop
                invariant
                    p <= out@.len(),
                    forall|q: int|
                        0 <= q < p ==> listed_le(#[trigger] out.deep_view()[q], s@),
                ensures
                    p <= out@.len(),
                    forall|q: int|
                        0 <= q < p ==> listed_le(#[trigger] out.deep_view()[q], s@),
                    p == out@.len() || listed_le(s@, out.deep_view()[p as int]),
                decreases out@.len() - p,
            {
                if p == out.len() {
                    break ;
                }
                if !listed_before(&out[p], &s) {
                    proof {
                        lemma_listed_le_total(out.deep_view()[p as int], s@);
                    }
                    break ;
                }
                p = p + 1;
            }
            let ghost before = out.deep_view();
            out.insert(p, s);
            proof {
                let after = out.deep_view();
                assert(after =~= before.insert(p as int, s@));
                let prefix = self@.rows.subrange(0, i as int);
                let prefix_next = self@.rows.subrange(0, i as int + 1);
                assert(prefix_next.map_values(to_summary) =~= prefix.map_values(to_summary).push(
                    s@,
                ));
                assert(after.to_multiset() == prefix_next.map_values(to_summary).to_multiset());
                assert forall|a: int, b: int|
                    0 <= a < b < after.len() implies listed_le(
                    #[trigger] after[a],
                    #[trigger] after[b],
                ) by {
                    if a < p as int && b > p as int {
                        assert(after[a] == before[a]);
                        assert(after[b] == before[b - 1]);
                        if b - 1 == p as int {
                        } else {
                            lemma_listed_le_trans(before[a], s@, before[p as int]);
                            lemma_listed_le_trans(s@, before[p as int], before[b - 1]);
                        }
                        lemma_listed_le_trans(before[a], s@, before[b - 1]);
                    } else if a == p as int && b > p as int {
                        assert(after[b] == before[b - 1]);
                        if b - 1 > p as int {
                            lemma_listed_le_trans(s@, before[p as int], before[b - 1]);
                        }
                    }
                }
            }
            i = i + 1;
        }
        proof {
            assert(self@.rows.subrange(0, self@.rows.len() as int) =~= self@.rows);
        }
        out
    }
}

} // verus!
