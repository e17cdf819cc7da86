use vstd::prelude::*;
use vstd::string::{StringExecFns, StringSliceAdditionalSpecFns};

use crate::duration::{duration_seconds, from_iso8601};
use crate::encode::{encode, percent_encoded};
use crate::error::Error;

verus! {

/// Base address of the catalog.
pub const CATALOG_BASE: &'static str = "https://www.googleapis.com/youtube/v3";

/// The parts of a video that a lookup asks for.
pub const PART: &'static str = "snippet,contentDetails";

/// The fields of the answer that a lookup asks for.
pub const FIELDS: &'static str = "items(id,snippet(title),contentDetails(duration))";

/// Query string of a lookup of `id` with the credential `key`, each value
/// percent-encoded.
pub open spec fn query_text(id: Seq<u8>, key: Seq<u8>) -> Seq<char> {
    "id="@ + percent_encoded(id) + "&part="@ + percent_encoded(PART.spec_bytes()) + "&fields="@
        + percent_encoded(FIELDS.spec_bytes()) + "&key="@ + percent_encoded(key)
}

/// One entry of the catalog's answer, as the answer writes it.
pub struct CatalogEntry {
    pub title: String,
    pub duration: String,
}

/// The metadata that the catalog holds for a video.
pub struct YoutubeItem {
    pub title: String,
    pub duration: i64,
}

pub open spec fn is_success(status: u16) -> bool {
    200 <= status && status < 300
}

impl YoutubeItem {
    /// Builds the query string of a lookup of `id` with the credential `key`.
    pub fn build_query(id: &str, key: &str) -> (r: String)
        ensures
            r@ == query_text(id.spec_bytes(), key.spec_bytes()),
    {
        let mut q = String::new();
        q.append("id=");
        let v = encode(id);
        q.append(v.as_str());
        q.append("&part=");
        let v = encode(PART);
        q.append(v.as_str());
        q.append("&fields=");
        let v = encode(FIELDS);
        q.append(v.as_str());
        q.append("&key=");
        let v = encode(key);
        q.append(v.as_str());
        q
    }

    /// Full address of a lookup of `id` with the credential `key`.
    pub fn request_url(id: &str, key: &str) -> (r: String)
        ensures
            r@ == CATALOG_BASE@ + "/videos/?"@ + query_text(id.spec_bytes(), key.spec_bytes()),
    {
        let mut u = String::from_str(CATALOG_BASE);
        u.append("/videos/?");
        let q = Self::build_query(id, key);
        u.append(q.as_str());
        u
    }

    /// The metadata of the first entry of a decoded answer; `EmptyCatalog` when
    /// the answer has none.
    pub fn from_entries(entries: &Vec<CatalogEntry>) -> (r: Result<YoutubeItem, Error>)
        ensures
            entries@.len() == 0 ==> r == Err::<YoutubeItem, Error>(Error::EmptyCatalog),
            entries@.len() > 0 ==> (r matches Ok(item) && item.title@ == entries@[0].title@
                && item.duration == duration_seconds(entries@[0].duration@)),
    {
        if entries.len() == 0 {
            Err(Error::EmptyCatalog)
        } else {
            let first = &entries[0];
            let duration = from_iso8601(first.duration.as_str());
            Ok(YoutubeItem { title: first.title.clone(), duration })
        }
    }

    /// Interprets the catalog's answer: its status, its reason text, and its
    /// body decoded into entries (or the reason why it could not be).
    pub fn from_response(
        status: u16,
        reason: String,
        body: Result<Vec<CatalogEntry>, String>,
    ) -> (r: Result<YoutubeItem, Error>)
        ensures
            !is_success(status) ==> r == Err::<YoutubeItem, Error>(Error::RemoteStatus(status, reason)),
            is_success(status) ==> match body {
                Err(m) => r == Err::<YoutubeItem, Error>(Error::Deserialization(m)),
                Ok(entries) => if entries@.len() == 0 {
                    r == Err::<YoutubeItem, Error>(Error::EmptyCatalog)
                } else {
                    r matches Ok(item) && item.title@ == entries@[0].title@ && item.duration
                        == duration_seconds(entries@[0].duration@)
                },
            },
    {
        if status < 200 || status >= 300 {
            return Err(Error::RemoteStatus(status, reason));
        }
        match body {
            Err(m) => Err(Error::Deserialization(m)),
            Ok(entries) => Self::from_entries(&entries),
        }
    }
}

} // verus!
