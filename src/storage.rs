use vstd::prelude::*;

use crate::catalog::YoutubeItem;
use crate::error::Error;

verus! {

/// A stored row: row id, external id, timestamp, duration in seconds, title.
pub struct Row {
    pub id: i64,
    pub key: String,
    pub timestamp: i64,
    pub duration: i64,
    pub title: String,
}

/// `a` is older than `b`: an earlier timestamp, or the same timestamp and an
/// earlier row id (rows with equal timestamps are ordered by insertion).
pub open spec fn older(a: Row, b: Row) -> bool {
    a.timestamp < b.timestamp || (a.timestamp == b.timestamp && a.id < b.id)
}

/// Rows ordered from oldest to newest.
pub open spec fn oldest_first(rows: Seq<Row>) -> bool {
    forall|i: int, j: int| 0 <= i < j < rows.len() ==> older(#[trigger] rows[i], #[trigger] rows[j])
}

/// Where a row with timestamp `ts` and a fresh row id goes in `rows`: after
/// every row whose timestamp is not later.
pub open spec fn slot(rows: Seq<Row>, ts: i64) -> int
    decreases rows.len(),
{
    if rows.len() == 0 || rows.last().timestamp <= ts {
        rows.len() as int
    } else {
        slot(rows.drop_last(), ts)
    }
}

/// `rows` with `row` put in its place.
pub open spec fn with_row(rows: Seq<Row>, row: Row) -> Seq<Row> {
    rows.insert(slot(rows, row.timestamp), row)
}

/// A record type that the store can build from a row and whose timestamp orders it.
pub trait FromRow: Sized {
    /// The row that the record stands for.
    spec fn row_of(&self) -> Row;

    fn from_row(row: &Row) -> (r: Self)
        ensures
            r.row_of() == *row,
    ;

    fn timestamp(&self) -> (t: i64)
        ensures
            t == self.row_of().timestamp,
    ;
}

/// The queries of one kind's append-only history.
pub trait Storage<T: FromRow> {
    /// The stored rows, oldest first.
    spec fn records(&self) -> Seq<Row>;

    spec fn well_formed(&self) -> bool;

    /// The newest record.
    fn current(&self) -> (r: Result<T, Error>)
        requires
            self.well_formed(),
        ensures
            self.records().len() == 0 ==> r == Err::<T, Error>(Error::NotFound),
            self.records().len() > 0 ==> (r matches Ok(t) && t.row_of() == self.records().last()),
    ;

    /// The record just before the newest one.
    fn previous(&self) -> (r: Result<T, Error>)
        requires
            self.well_formed(),
        ensures
            self.records().len() < 2 ==> r == Err::<T, Error>(Error::NotFound),
            self.records().len() >= 2 ==> (r matches Ok(t) && t.row_of()
                == self.records()[self.records().len() - 2]),
    ;

    /// Every record, newest first.
    fn all(&self) -> (r: Vec<T>)
        requires
            self.well_formed(),
        ensures
            r@.len() == self.records().len(),
            forall|i: int|
                0 <= i < r@.len() ==> (#[trigger] r@[i]).row_of() == self.records()[r@.len() - 1
                    - i],
    ;
}

/// An append-only log of rows, kept from oldest to newest.
pub struct Log {
    rows: Vec<Row>,
    next_id: i64,
}

impl Log {
    pub closed spec fn view_rows(&self) -> Seq<Row> {
        self.rows@
    }

    pub closed spec fn spec_next_id(&self) -> i64 {
        self.next_id
    }

    pub closed spec fn wf(&self) -> bool {
        &&& oldest_first(self.rows@)
        &&& 1 <= self.next_id
        &&& forall|i: int| 0 <= i < self.rows@.len() ==> (#[trigger] self.rows@[i]).id < self.next_id
    }

    /// A well-formed log holds its rows from oldest to newest, so its last row
    /// has the largest timestamp.
    pub proof fn lemma_oldest_first(&self)
        requires
            self.wf(),
        ensures
            oldest_first(self.view_rows()),
            forall|i: int|
                0 <= i < self.view_rows().len() ==> (#[trigger] self.view_rows()[i]).timestamp
                    <= self.view_rows().last().timestamp,
    {
        assert forall|i: int| 0 <= i < self.view_rows().len() implies (#[trigger] self.view_rows()[
            i]).timestamp <= self.view_rows().last().timestamp by {
            if i < self.view_rows().len() - 1 {
                assert(older(self.rows@[i], self.rows@[self.rows@.len() - 1]));
            }
        }
    }

    /// An empty log whose first row gets the id 1.
    pub fn new() -> (r: Log)
        ensures
            r.wf(),
            r.view_rows().len() == 0,
            r.spec_next_id() == 1,
    {
        Log { rows: Vec::new(), next_id: 1 }
    }

    pub fn len(&self) -> (r: usize)
        ensures
            r == self.view_rows().len(),
    {
        self.rows.len()
    }

    /// The row at position `i`, oldest first.
    pub fn row(&self, i: usize) -> (r: &Row)
        requires
            i < self.view_rows().len(),
        ensures
            *r == self.view_rows()[i as int],
    {
        &self.rows[i]
    }

    /// Appends a row with the next row id; fails when the ids are used up.
    #[verifier::rlimit(40)]
    pub fn append(&mut self, key: String, timestamp: i64, duration: i64, title: String) -> (r:
        Result<(), Error>)
        requires
            old(self).wf(),
        ensures
            final(self).wf(),
            old(self).spec_next_id() == i64::MAX ==> (r matches Err(Error::Storage(_)) && *final(self)
                == *old(self)),
            old(self).spec_next_id() < i64::MAX ==> {
                &&& r is Ok
                &&& final(self).spec_next_id() == old(self).spec_next_id() + 1
                &&& final(self).view_rows() == with_row(
                    old(self).view_rows(),
                    Row { id: old(self).spec_next_id(), key, timestamp, duration, title },
                )
            },
    {
        if self.next_id == i64::MAX {
            return Err(Error::Storage(String::from_str("row ids are used up")));
        }
        let ghost rows = self.rows@;
        let mut p: usize = self.rows.len();
        assert(rows.subrange(0, rows.len() as int) =~= rows);
        while p > 0 && self.rows[p - 1].timestamp > timestamp
            invariant
                rows == self.rows@,
                p <= rows.len(),
                slot(rows, timestamp) == slot(rows.subrange(0, p as int), timestamp),
                forall|k: int| p <= k < rows.len() ==> (#[trigger] rows[k]).timestamp > timestamp,
            decreases p,
        {
            proof {
                assert(rows.subrange(0, p as int).drop_last() =~= rows.subrange(0, p - 1));
            }
            p = p - 1;
        }
        assert(slot(rows, timestamp) == p) by {
            if p > 0 {
                assert(rows.subrange(0, p as int).last() == rows[p - 1]);
            }
        }
        let row = Row { id: self.next_id, key, timestamp, duration, title };
        self.rows.insert(p, row);
        self.next_id = self.next_id + 1;
        proof {
            let nr = self.rows@;
            assert forall|i: int, j: int| 0 <= i < j < nr.len() implies older(
                #[trigger] nr[i],
                #[trigger] nr[j],
            ) by {
                if j == p {
                    assert(nr[i] == rows[i]);
                } else if i == p {
                    assert(nr[j] == rows[j - 1]);
                } else {
                    let ii = if i < p { i } else { i - 1 };
                    let jj = if j < p { j } else { j - 1 };
                    assert(nr[i] == rows[ii]);
                    assert(nr[j] == rows[jj]);
                    assert(older(rows[ii], rows[jj]));
                }
            }
        }
        Ok(())
    }
}

} // verus!

verus! {

/// The rows of a log that started empty and took `rows` in this order.
pub open spec fn replay(rows: Seq<Row>) -> Seq<Row>
    decreases rows.len(),
{
    if rows.len() == 0 {
        Seq::empty()
    } else {
        with_row(replay(rows.drop_last()), rows.last())
    }
}

/// A row whose timestamp is later than every stored one becomes the newest.
pub proof fn lemma_later_row_goes_last(rows: Seq<Row>, row: Row)
    requires
        forall|i: int| 0 <= i < rows.len() ==> (#[trigger] rows[i]).timestamp < row.timestamp,
    ensures
        with_row(rows, row) == rows.push(row),
{
    if rows.len() > 0 {
        assert(rows[rows.len() - 1].timestamp < row.timestamp);
    }
    assert(rows.insert(rows.len() as int, row) =~= rows.push(row));
}

/// Every insert adds exactly one row, whatever the timestamps: after `n`
/// inserts into a log the log holds `n` rows.
pub proof fn lemma_replay_len(rows: Seq<Row>)
    ensures
        replay(rows).len() == rows.len(),
    decreases rows.len(),
{
    if rows.len() > 0 {
        lemma_replay_len(rows.drop_last());
        lemma_slot_bound(replay(rows.drop_last()), rows.last().timestamp);
    }
}

proof fn lemma_slot_bound(rows: Seq<Row>, ts: i64)
    ensures
        0 <= slot(rows, ts) <= rows.len(),
    decreases rows.len(),
{
    if rows.len() > 0 && rows.last().timestamp > ts {
        lemma_slot_bound(rows.drop_last(), ts);
    }
}

/// Inserts with strictly increasing timestamps leave the rows in insertion
/// order: the newest is the last one inserted and the one before it is the
/// second last.
pub proof fn lemma_increasing_inserts(rows: Seq<Row>)
    requires
        forall|i: int, j: int|
            0 <= i < j < rows.len() ==> (#[trigger] rows[i]).timestamp < (#[trigger] rows[j]).timestamp,
    ensures
        replay(rows) == rows,
        rows.len() >= 1 ==> replay(rows).last() == rows[rows.len() - 1],
        rows.len() >= 2 ==> replay(rows)[rows.len() - 2] == rows[rows.len() - 2],
    decreases rows.len(),
{
    if rows.len() > 0 {
        let init = rows.drop_last();
        lemma_increasing_inserts(init);
        assert forall|i: int| 0 <= i < init.len() implies (#[trigger] init[i]).timestamp
            < rows.last().timestamp by {
            assert(init[i] == rows[i]);
            assert(rows[i].timestamp < rows[rows.len() - 1].timestamp);
        }
        lemma_later_row_goes_last(init, rows.last());
        assert(init.push(rows.last()) =~= rows);
    } else {
        assert(replay(rows) =~= rows);
    }
}

} // verus!
