//! The `ticket` record, an abstract model of the `ticket` table, the four
//! logical operations the query shim runs against it, and the laws that
//! relate them.
//!
//! The model captures what the program relies on from either backend: the
//! table exists after schema creation, ids are assigned by the backend and
//! grow monotonically, rows are append-only, and the two read paths see the
//! same rows. The surrounding binary runs the corresponding SQL (from
//! `crate::backend`) against a real pool.

use vstd::prelude::*;
use crate::digits::int_digits;
use crate::digits::i64_to_dec;

verus! {

/// One committed row of the `ticket` table.
#[derive(Debug, Clone, PartialEq)]
pub struct Ticket {
    pub id: i64,
    pub name: String,
}

impl Ticket {
    /// The row as a plain {id, name} pair.
    pub open spec fn pair(self) -> (i64, Seq<char>) {
        (self.id, self.name@)
    }
}

/// The {id, name} pairs of a row sequence.
pub open spec fn pairs_of(rows: Seq<Ticket>) -> Seq<(i64, Seq<char>)> {
    rows.map_values(|t: Ticket| t.pair())
}

/// One pair rendered for display: "id - name".
pub open spec fn spec_render_pair(p: (i64, Seq<char>)) -> Seq<char> {
    int_digits(p.0 as int) + " - "@ + p.1
}

/// A pair sequence rendered for display, entries joined with ", ".
pub open spec fn spec_render_pairs(ps: Seq<(i64, Seq<char>)>) -> Seq<char>
    decreases ps.len(),
{
    if ps.len() == 0 {
        Seq::<char>::empty()
    } else if ps.len() == 1 {
        spec_render_pair(ps[0])
    } else {
        spec_render_pairs(ps.drop_last()) + ", "@ + spec_render_pair(ps.last())
    }
}

/// Appending one pair appends its rendering, behind a separator when
/// something was already there.
pub proof fn lemma_render_pairs_push(ps: Seq<(i64, Seq<char>)>, p: (i64, Seq<char>))
    ensures
        spec_render_pairs(ps.push(p)) == if ps.len() == 0 {
            spec_render_pair(p)
        } else {
            spec_render_pairs(ps) + ", "@ + spec_render_pair(p)
        },
{
    assert(ps.push(p).drop_last() =~= ps);
    assert(ps.push(p).last() == p);
}

/// Renders rows the way the raw read path displays them: each row as
/// "id - name", rows joined with ", ".
pub fn render_tickets(rows: &Vec<Ticket>) -> (r: String)
    ensures
        r@ == spec_render_pairs(pairs_of(rows@)),
{
    let mut out = String::new();
    let mut i: usize = 0;
    while i < rows.len()
        invariant
            i <= rows@.len(),
            out@ == spec_render_pairs(pairs_of(rows@.subrange(0, i as int))),
        decreases rows@.len() - i,
    {
        if i > 0 {
            out.append(", ");
        }
        let d = i64_to_dec(rows[i].id);
        out.append(d.as_str());
        out.append(" - ");
        out.append(rows[i].name.as_str());
        proof {
            let prefix = pairs_of(rows@.subrange(0, i as int));
            let p = rows@[i as int].pair();
            assert(pairs_of(rows@.subrange(0, i + 1 as int)) =~= prefix.push(p));
            lemma_render_pairs_push(prefix, p);
            assert(out@ =~= spec_render_pairs(pairs_of(rows@.subrange(0, i + 1 as int))));
        }
        i += 1;
    }
    proof {
        assert(rows@.subrange(0, rows@.len() as int) =~= rows@);
    }
    out
}

/// Abstract state of the `ticket` table in one database: whether the table
/// exists, the committed rows in insertion order, and the next id the
/// backend will assign.
pub struct TicketTable {
    pub table_exists: bool,
    pub rows: Vec<Ticket>,
    pub next_id: i64,
}

impl TicketTable {
    /// Well-formed: ids are backend-assigned starting at one, strictly
    /// increasing in insertion order, all below the next id, and no row is
    /// committed before the table exists.
    pub open spec fn wf(self) -> bool {
        &&& 1 <= self.next_id
        &&& forall|i: int|
            0 <= i < self.rows@.len() ==> 1 <= (#[trigger] self.rows@[i]).id < self.next_id
        &&& forall|i: int, j: int|
            0 <= i < j < self.rows@.len() ==> (#[trigger] self.rows@[i]).id < (
            #[trigger] self.rows@[j]).id
        &&& (!self.table_exists ==> self.rows@.len() == 0)
    }

    /// A database nothing has touched: no table, no rows, first id one.
    pub fn new() -> (r: TicketTable)
        ensures
            r.wf(),
            !r.table_exists,
            r.rows@.len() == 0,
            r.next_id == 1,
    {
        TicketTable { table_exists: false, rows: Vec::new(), next_id: 1 }
    }

    /// What ensuring the schema does to a database state.
    pub open spec fn spec_ensure_schema(t: TicketTable) -> TicketTable {
        TicketTable { table_exists: true, ..t }
    }

    /// Ensure schema: create the `ticket` table when it is missing. Rows
    /// and the id counter are untouched, so it never fails and never
    /// duplicates anything, however often it runs.
    pub fn ensure_schema(&mut self)
        requires
            old(self).wf(),
        ensures
            final(self).wf(),
            *final(self) == Self::spec_ensure_schema(*old(self)),
            final(self).table_exists,
            final(self).rows == old(self).rows,
            final(self).next_id == old(self).next_id,
    {
        self.table_exists = true;
    }

    /// Ensuring the schema a second time changes nothing: the operation is
    /// idempotent on the database state.
    pub proof fn lemma_ensure_schema_idempotent(t: TicketTable)
        ensures
            Self::spec_ensure_schema(Self::spec_ensure_schema(t)) == Self::spec_ensure_schema(t),
    {
    }

    /// Insert one row and report the id the backend assigned in the same
    /// round trip. The new id is distinct from and greater than every id
    /// handed out before; the old rows are untouched.
    pub fn insert_returning_id(&mut self, name: &str) -> (id: i64)
        requires
            old(self).wf(),
            old(self).table_exists,
            old(self).next_id < i64::MAX,
        ensures
            final(self).wf(),
            final(self).table_exists,
            id == old(self).next_id,
            final(self).next_id == old(self).next_id + 1,
            pairs_of(final(self).rows@) == pairs_of(old(self).rows@).push((id, name@)),
            forall|i: int|
                0 <= i < old(self).rows@.len() ==> (#[trigger] old(self).rows@[i]).id < id,
    {
        let id = self.next_id;
        self.rows.push(Ticket { id, name: name.to_owned() });
        self.next_id = self.next_id + 1;
        proof {
            assert(pairs_of(self.rows@) =~= pairs_of(old(self).rows@).push((id, name@)));
        }
        id
    }

    /// In a well-formed table no two rows share an id, whatever sequence of
    /// inserts produced them.
    pub proof fn lemma_ids_distinct(t: TicketTable)
        requires
            t.wf(),
        ensures
            forall|i: int, j: int|
                0 <= i < t.rows@.len() && 0 <= j < t.rows@.len() && i != j ==> (
                #[trigger] t.rows@[i]).id != (#[trigger] t.rows@[j]).id,
    {
    }

    /// What the raw read path shows of a database state.
    pub open spec fn spec_select_raw(t: TicketTable) -> Seq<char> {
        spec_render_pairs(pairs_of(t.rows@))
    }

    /// What the typed read path returns of a database state.
    pub open spec fn spec_select_typed(t: TicketTable) -> Seq<(i64, Seq<char>)> {
        pairs_of(t.rows@)
    }

    /// Select-all, raw: every row rendered "id - name", joined with ", ",
    /// in backend row order.
    pub fn select_all_raw(&self) -> (r: String)
        requires
            self.wf(),
            self.table_exists,
        ensures
            r@ == Self::spec_select_raw(*self),
    {
        render_tickets(&self.rows)
    }

    /// Select-all, typed: every row as a record, in backend row order.
    pub fn select_all_typed(&self) -> (r: Vec<Ticket>)
        requires
            self.wf(),
            self.table_exists,
        ensures
            pairs_of(r@) == Self::spec_select_typed(*self),
    {
        let mut out: Vec<Ticket> = Vec::new();
        let mut i: usize = 0;
        while i < self.rows.len()
            invariant
                i <= self.rows@.len(),
                out@.len() == i,
                forall|j: int| 0 <= j < i ==> (#[trigger] out@[j]).pair() == self.rows@[j].pair(),
            decreases self.rows@.len() - i,
        {
            let name = self.rows[i].name.clone();
            out.push(Ticket { id: self.rows[i].id, name });
            i += 1;
        }
        proof {
            assert(pairs_of(out@) =~= pairs_of(self.rows@));
        }
        out
    }

    /// The two read paths agree: the raw path shows exactly the pairs the
    /// typed path returns, after any sequence of inserts.
    pub proof fn lemma_read_paths_agree(t: TicketTable)
        ensures
            Self::spec_select_raw(t) == spec_render_pairs(Self::spec_select_typed(t)),
    {
    }
}

} // verus!
