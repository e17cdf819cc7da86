use vstd::prelude::*;

verus! {

/// Failures of the ingestion pipeline and of the history queries.
#[derive(Debug, PartialEq, Eq)]
pub enum Error {
    /// No video id could be taken from the submitted link, which is kept as given.
    InvalidSource(String),
    /// The catalog could not be reached.
    Transport(String),
    /// The catalog answered with a non-2xx status and this reason.
    RemoteStatus(u16, String),
    /// The catalog knows no item for the id.
    EmptyCatalog,
    /// The catalog's answer did not have the expected shape.
    Deserialization(String),
    /// The store could not take the record.
    Storage(String),
    /// The log holds too few records for the query.
    NotFound,
}

} // verus!
