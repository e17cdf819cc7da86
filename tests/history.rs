use dono::catalog::{CatalogEntry, YoutubeItem};
use dono::error::Error;
use dono::storage::{FromRow, Log, Row, Storage};
use dono::youtube::{Song, Youtube};

fn meta(title: &str, duration: i64) -> Result<YoutubeItem, Error> {
    Ok(YoutubeItem { title: title.to_string(), duration })
}

fn entry(title: &str, duration: &str) -> CatalogEntry {
    CatalogEntry { title: title.to_string(), duration: duration.to_string() }
}

#[test]
fn empty_history_has_no_current_or_previous() {
    let y = Youtube::new();
    assert!(matches!(y.current(), Err(Error::NotFound)));
    assert!(matches!(y.previous(), Err(Error::NotFound)));
    assert_eq!(y.all().len(), 0);
}

#[test]
fn single_record_has_no_previous() {
    let mut y = Youtube::new();
    assert_eq!(y.insert("aaaaaaaaaaa".to_string(), 10, meta("one", 60)), Ok(()));
    let c = y.current().ok().unwrap();
    assert_eq!(c.vid, "aaaaaaaaaaa");
    assert_eq!(c.timestamp, 10);
    assert_eq!(c.duration, 60);
    assert_eq!(c.title, "one");
    assert_eq!(c.id, 1);
    assert!(matches!(y.previous(), Err(Error::NotFound)));
}

#[test]
fn increasing_timestamps_give_current_and_previous() {
    let mut y = Youtube::new();
    for (i, ts) in [100i64, 200, 300, 400].iter().enumerate() {
        let vid = format!("video{:06}", i);
        assert_eq!(y.insert(vid, *ts, meta("t", 1)), Ok(()));
    }
    assert_eq!(y.current().ok().unwrap().timestamp, 400);
    assert_eq!(y.previous().ok().unwrap().timestamp, 300);
    assert_eq!(y.current().ok().unwrap().vid, "video000003");
}

#[test]
fn all_returns_every_record_newest_first() {
    let mut y = Youtube::new();
    for ts in [30i64, 10, 20] {
        assert_eq!(y.insert(format!("v{}", ts), ts, meta("t", 0)), Ok(()));
    }
    let all = y.all();
    let stamps: Vec<i64> = all.iter().map(|s| s.timestamp()).collect();
    assert_eq!(stamps, vec![30, 20, 10]);
}

#[test]
fn all_counts_inserts_of_one_kind_only() {
    let mut a = Youtube::new();
    let mut b = Youtube::new();
    for ts in 0..5i64 {
        assert_eq!(a.insert("x".to_string(), ts, meta("a", 1)), Ok(()));
        if ts % 2 == 0 {
            assert_eq!(b.insert("y".to_string(), ts, meta("b", 1)), Ok(()));
        }
    }
    assert_eq!(a.all().len(), 5);
    assert_eq!(b.all().len(), 3);
}

#[test]
fn equal_timestamps_order_by_insertion() {
    let mut y = Youtube::new();
    assert_eq!(y.insert("first".to_string(), 7, meta("1", 1)), Ok(()));
    assert_eq!(y.insert("second".to_string(), 7, meta("2", 1)), Ok(()));
    assert_eq!(y.current().ok().unwrap().vid, "second");
    assert_eq!(y.previous().ok().unwrap().vid, "first");
}

#[test]
fn out_of_order_insert_is_placed_by_timestamp() {
    let mut y = Youtube::new();
    assert_eq!(y.insert("late".to_string(), 50, meta("l", 1)), Ok(()));
    assert_eq!(y.insert("early".to_string(), 5, meta("e", 1)), Ok(()));
    assert_eq!(y.current().ok().unwrap().vid, "late");
    assert_eq!(y.previous().ok().unwrap().vid, "early");
    assert_eq!(y.current().ok().unwrap().id, 1);
    assert_eq!(y.previous().ok().unwrap().id, 2);
}

#[test]
fn status_404_gives_remote_status_and_no_insert() {
    let mut y = Youtube::new();
    let fetched = YoutubeItem::from_response(404, "Not Found".to_string(), Ok(vec![]));
    assert!(matches!(&fetched, Err(Error::RemoteStatus(404, r)) if r == "Not Found"));
    assert_eq!(
        y.insert("dQw4w9WgXcQ".to_string(), 1, fetched),
        Err(Error::RemoteStatus(404, "Not Found".to_string()))
    );
    assert_eq!(y.all().len(), 0);
}

#[test]
fn empty_items_give_empty_catalog_and_no_insert() {
    let mut y = Youtube::new();
    let fetched = YoutubeItem::from_response(200, "OK".to_string(), Ok(vec![]));
    assert!(matches!(fetched, Err(Error::EmptyCatalog)));
    assert_eq!(y.insert("dQw4w9WgXcQ".to_string(), 1, fetched), Err(Error::EmptyCatalog));
    assert_eq!(y.all().len(), 0);
}

#[test]
fn malformed_body_gives_deserialization_error() {
    let fetched = YoutubeItem::from_response(200, "OK".to_string(), Err("missing field".to_string()));
    assert!(matches!(fetched, Err(Error::Deserialization(m)) if m == "missing field"));
}

#[test]
fn first_entry_is_taken_and_decoded() {
    let fetched = YoutubeItem::from_response(
        200,
        "OK".to_string(),
        Ok(vec![entry("Song A", "PT3M33S"), entry("Song B", "PT1S")]),
    )
    .ok()
    .unwrap();
    assert_eq!(fetched.title, "Song A");
    assert_eq!(fetched.duration, 213);
}

#[test]
fn from_entries_empty() {
    assert!(matches!(YoutubeItem::from_entries(&vec![]), Err(Error::EmptyCatalog)));
}

#[test]
fn fetched_metadata_is_stored() {
    let mut y = Youtube::new();
    let fetched = YoutubeItem::from_response(204, "No Content".to_string(), Ok(vec![entry("T", "PT1H")]));
    assert_eq!(y.insert("dQw4w9WgXcQ".to_string(), 9, fetched), Ok(()));
    let c = y.current().ok().unwrap();
    assert_eq!(c.title, "T");
    assert_eq!(c.duration, 3600);
}

#[test]
fn song_from_row_keeps_fields() {
    let row = Row { id: 3, key: "k".to_string(), timestamp: 4, duration: 5, title: "t".to_string() };
    let s = Song::from_row(&row);
    assert_eq!((s.id, s.vid.as_str(), s.timestamp, s.duration, s.title.as_str()), (3, "k", 4, 5, "t"));
    assert_eq!(s.timestamp(), 4);
}

#[test]
fn log_assigns_increasing_row_ids() {
    let mut log = Log::new();
    assert_eq!(log.append("a".to_string(), 2, 0, "a".to_string()), Ok(()));
    assert_eq!(log.append("b".to_string(), 1, 0, "b".to_string()), Ok(()));
    assert_eq!(log.len(), 2);
    assert_eq!(log.row(0).id, 2);
    assert_eq!(log.row(1).id, 1);
}
