use dono::catalog::YoutubeItem;
use dono::duration::from_iso8601;
use dono::encode::encode;

#[test]
fn decode_hours_minutes_seconds() {
    assert_eq!(from_iso8601("PT1H2M3S"), 3723);
}

#[test]
fn decode_minutes_only() {
    assert_eq!(from_iso8601("PT5M"), 300);
}

#[test]
fn decode_seconds_only() {
    assert_eq!(from_iso8601("PT45S"), 45);
}

#[test]
fn decode_zero_days() {
    assert_eq!(from_iso8601("P0D"), 0);
}

#[test]
fn decode_empty() {
    assert_eq!(from_iso8601(""), 0);
}

#[test]
fn decode_garbage() {
    assert_eq!(from_iso8601("garbage"), 0);
}

#[test]
fn decode_multi_digit_runs() {
    assert_eq!(from_iso8601("PT10H20M30S"), 10 * 3600 + 20 * 60 + 30);
}

#[test]
fn decode_unit_without_digits_counts_zero() {
    assert_eq!(from_iso8601("PTHM5S"), 5);
}

#[test]
fn decode_run_too_large_for_i64_counts_zero() {
    assert_eq!(from_iso8601("PT99999999999999999999H7S"), 7);
}

#[test]
fn decode_saturates_at_i64_max() {
    assert_eq!(from_iso8601("PT9223372036854775807H"), i64::MAX);
}

#[test]
fn encode_keeps_unreserved() {
    let safe = "AZaz09-_.~";
    assert_eq!(encode(safe), safe);
}

#[test]
fn encode_is_noop_on_safe_text() {
    let once = encode("dQw4w9WgXcQ");
    assert_eq!(encode(&once), once);
}

#[test]
fn encode_escapes_reserved_bytes_uppercase() {
    assert_eq!(encode("a b,c(d)"), "a%20b%2Cc%28d%29");
    assert_eq!(encode("%"), "%25");
    assert_eq!(encode("\n"), "%0A");
}

#[test]
fn encode_escapes_each_utf8_byte() {
    assert_eq!(encode("é"), "%C3%A9");
}

#[test]
fn query_has_every_parameter_encoded() {
    let q = YoutubeItem::build_query("dQw4w9WgXcQ", "k y");
    assert_eq!(
        q,
        "id=dQw4w9WgXcQ&part=snippet%2CcontentDetails\
         &fields=items%28id%2Csnippet%28title%29%2CcontentDetails%28duration%29%29&key=k%20y"
    );
}

#[test]
fn request_url_points_at_videos() {
    let u = YoutubeItem::request_url("abcdefghijk", "KEY");
    assert!(u.starts_with("https://www.googleapis.com/youtube/v3/videos/?id=abcdefghijk&"));
    assert!(u.ends_with("&key=KEY"));
}
