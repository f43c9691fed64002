//! Small helpers: text, times, volumes, URIs.

use myx::hex::hex_text;
use myx::liblog::loudness;
use myx::liblog::LibrespotLog;
use myx::liblog::Loudness;
use myx::text::decimal_text;
use myx::text::has_text;
use myx::util::center_v;
use myx::util::fmt_ms;
use myx::util::track_id_from_uri;
use myx::util::truncate;
use myx::util::uri_to_url;
use myx::util::urlencode;
use myx::util::vol_u16;
use myx::util::Rect;

#[test]
fn truncate_replaces_the_tail_with_an_ellipsis() {
    assert_eq!(truncate("short", 10), "short");
    assert_eq!(truncate("exact", 5), "exact");
    assert_eq!(truncate("too long", 5), "too …");
    assert_eq!(truncate("日本語です", 3), "日本…");
    assert_eq!(truncate("ab", 1), "…");
    assert_eq!(truncate("ab", 0), "");
    assert_eq!(truncate("", 0), "");
}

#[test]
fn fmt_ms_is_minutes_and_seconds() {
    assert_eq!(fmt_ms(0), "0:00");
    assert_eq!(fmt_ms(59_999), "0:59");
    assert_eq!(fmt_ms(61_000), "1:01");
    assert_eq!(fmt_ms(3_600_000), "60:00");
    assert_eq!(fmt_ms(u32::MAX), "71582:47");
}

#[test]
fn vol_u16_spans_the_mixer_range() {
    assert_eq!(vol_u16(0), 0);
    assert_eq!(vol_u16(50), 32767);
    assert_eq!(vol_u16(80), 52428);
    assert_eq!(vol_u16(100), 65535);
    assert_eq!(vol_u16(101), 654);
}

#[test]
fn center_v_centers_and_clamps() {
    let area = Rect { x: 3, y: 10, width: 40, height: 20 };
    assert_eq!(center_v(area, 4), Rect { x: 3, y: 18, width: 40, height: 4 });
    assert_eq!(center_v(area, 5), Rect { x: 3, y: 17, width: 40, height: 5 });
    assert_eq!(center_v(area, 50), Rect { x: 3, y: 10, width: 40, height: 20 });
}

#[test]
fn uri_to_url_links_to_the_web_player() {
    assert_eq!(
        uri_to_url("spotify:album:4aawyAB9vmqN3uQ7FjRGTy"),
        "https://open.spotify.com/album/4aawyAB9vmqN3uQ7FjRGTy"
    );
    assert_eq!(uri_to_url("nonsense"), "https://open.spotify.com//");
    assert_eq!(uri_to_url("a:b"), "https://open.spotify.com/b/");
}

#[test]
fn track_id_from_uri_reads_tracks_only() {
    assert_eq!(track_id_from_uri("spotify:track:abc"), Some("abc".to_string()));
    assert_eq!(track_id_from_uri("spotify:track:abc:def"), Some("abc".to_string()));
    assert_eq!(track_id_from_uri("spotify:track:"), Some(String::new()));
    assert_eq!(track_id_from_uri("spotify:album:abc"), None);
    assert_eq!(track_id_from_uri("spotify:track"), None);
    assert_eq!(track_id_from_uri(""), None);
}

#[test]
fn urlencode_escapes_by_bytes() {
    assert_eq!(urlencode("abc-_.~XYZ019"), "abc-_.~XYZ019");
    assert_eq!(urlencode("spotify:track:1"), "spotify%3Atrack%3A1");
    assert_eq!(urlencode("a b&c"), "a%20b%26c");
    assert_eq!(urlencode("é"), "%C3%A9");
    assert_eq!(urlencode(""), "");
}

#[test]
fn numbers_and_bytes_are_written_out() {
    assert_eq!(decimal_text(0), "0");
    assert_eq!(decimal_text(u64::MAX), "18446744073709551615");
    assert_eq!(hex_text(&[0, 0x0f, 0xa0, 0xff]), "000fa0ff");
    assert!(has_text("256,clipboard,sixel,title", "sixel"));
    assert!(!has_text("256,clipboard", "sixel"));
    assert!(has_text("x", ""));
}

#[test]
fn the_log_level_is_read_from_the_value() {
    assert_eq!(loudness("TRACE"), Loudness::Trace);
    assert_eq!(loudness("debug"), Loudness::Debug);
    assert_eq!(loudness("Warn"), Loudness::Warn);
    assert_eq!(loudness("1"), Loudness::Info);
    assert_eq!(loudness(""), Loudness::Info);
    assert!(LibrespotLog.enabled());
    assert_eq!(
        LibrespotLog.line("INFO", "librespot_connect", "device became inactive"),
        "INFO librespot_connect: device became inactive"
    );
}
