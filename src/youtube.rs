use vstd::prelude::*;

use crate::catalog::YoutubeItem;
use crate::error::Error;
use crate::link::{extract_id, link_id};
use crate::storage::{oldest_first, with_row, FromRow, Log, Row, Storage};

verus! {

/// Where a played item comes from.
pub enum ItemKind {
    /// A file on this machine, by its path.
    Local(String),
    /// A link to a video of the catalog.
    Youtube(String),
}

/// An item that started playing at `ts`, in seconds since the epoch.
pub struct Item {
    pub kind: ItemKind,
    pub ts: i64,
}

/// A played video as the history keeps it.
pub struct Song {
    pub id: i64,
    pub vid: String,
    pub timestamp: i64,
    pub duration: i64,
    pub title: String,
}

impl FromRow for Song {
    open spec fn row_of(&self) -> Row {
        Row {
            id: self.id,
            key: self.vid,
            timestamp: self.timestamp,
            duration: self.duration,
            title: self.title,
        }
    }

    fn from_row(row: &Row) -> (r: Self) {
        Song {
            id: row.id,
            vid: row.key.clone(),
            timestamp: row.timestamp,
            duration: row.duration,
            title: row.title.clone(),
        }
    }

    fn timestamp(&self) -> (t: i64) {
        self.timestamp
    }
}

/// The history of played videos.
pub struct Youtube {
    log: Log,
}

impl Youtube {
    /// Row id that the next inserted record gets.
    pub closed spec fn next_row_id(&self) -> i64 {
        self.log.spec_next_id()
    }

    /// The records are kept oldest first: the current record has the largest
    /// timestamp, and among equal timestamps the one inserted last counts as newest.
    pub proof fn lemma_newest_last(&self)
        requires
            self.well_formed(),
        ensures
            oldest_first(self.records()),
            forall|i: int|
                0 <= i < self.records().len() ==> (#[trigger] self.records()[i]).timestamp
                    <= self.records().last().timestamp,
    {
        self.log.lemma_oldest_first();
    }

    /// An empty history.
    pub fn new() -> (r: Youtube)
        ensures
            r.well_formed(),
            r.records().len() == 0,
            r.next_row_id() == 1,
    {
        Youtube { log: Log::new() }
    }

    /// The id of the video that a submitted item links to.
    pub fn video_id(item: &Item) -> (r: Result<String, Error>)
        requires
            item.kind is Youtube,
        ensures
            match link_id(item.kind->Youtube_0@) {
                Some(id) => r matches Ok(v) && v@ == id,
                None => r matches Err(Error::InvalidSource(u)) && u@ == item.kind->Youtube_0@,
            },
    {
        match &item.kind {
            ItemKind::Youtube(url) => extract_id(url.as_str()),
            ItemKind::Local(_) => Err(Error::InvalidSource(String::new())),
        }
    }

    /// Records that the video `vid` started playing at `timestamp`, with the
    /// metadata that the catalog lookup gave. A failed lookup is handed back
    /// and nothing is stored.
    pub fn insert(&mut self, vid: String, timestamp: i64, fetched: Result<YoutubeItem, Error>) -> (r:
        Result<(), Error>)
        requires
            old(self).well_formed(),
        ensures
            final(self).well_formed(),
            fetched is Err ==> r is Err && r->Err_0 == fetched->Err_0 && final(self).records()
                == old(self).records() && final(self).next_row_id() == old(self).next_row_id(),
            fetched is Ok && old(self).next_row_id() == i64::MAX ==> (r matches Err(
                Error::Storage(_),
            ) && final(self).records() == old(self).records()),
            fetched is Ok && old(self).next_row_id() < i64::MAX ==> {
                &&& r is Ok
                &&& final(self).next_row_id() == old(self).next_row_id() + 1
                &&& final(self).records() == with_row(
                    old(self).records(),
                    Row {
                        id: old(self).next_row_id(),
                        key: vid,
                        timestamp,
                        duration: fetched->Ok_0.duration,
                        title: fetched->Ok_0.title,
                    },
                )
            },
    {
        match fetched {
            Err(e) => Err(e),
            Ok(info) => self.log.append(vid, timestamp, info.duration, info.title),
        }
    }
}

impl Default for Youtube {
    fn default() -> (r: Youtube)
        ensures
            r.well_formed(),
            r.records().len() == 0,
            r.next_row_id() == 1,
    {
        Youtube::new()
    }
}

impl Storage<Song> for Youtube {
    closed spec fn records(&self) -> Seq<Row> {
        self.log.view_rows()
    }

    closed spec fn well_formed(&self) -> bool {
        self.log.wf()
    }

    fn current(&self) -> (r: Result<Song, Error>) {
        let n = self.log.len();
        if n == 0 {
            Err(Error::NotFound)
        } else {
            Ok(Song::from_row(self.log.row(n - 1)))
        }
    }

    fn previous(&self) -> (r: Result<Song, Error>) {
        let n = self.log.len();
        if n < 2 {
            Err(Error::NotFound)
        } else {
            Ok(Song::from_row(self.log.row(n - 2)))
        }
    }

    fn all(&self) -> (r: Vec<Song>) {
        let n = self.log.len();
        let mut out: Vec<Song> = Vec::new();
        let mut i: usize = 0;
        while i < n
            invariant
                n == self.records().len(),
                i <= n,
                out@.len() == i,
                forall|k: int|
                    0 <= k < i ==> (#[trigger] out@[k]).row_of() == self.records()[n - 1 - k],
            decreases n - i,
        {
            out.push(Song::from_row(self.log.row(n - 1 - i)));
            i = i + 1;
        }
        out
    }
}

} // verus!
