//! The Web API: rows, pages, the library fetch, menus and writes.

use myx::api::actions::action_message;
use myx::api::actions::action_write;
use myx::api::actions::after_attempt;
use myx::api::actions::api_contains;
use myx::api::actions::build_action_menu;
use myx::api::actions::contains_url;
use myx::api::actions::menu_questions;
use myx::api::actions::AfterAttempt;
use myx::api::actions::Attempt;
use myx::api::actions::Method;
use myx::api::feed::LibraryFetch;
use myx::api::lists::queue_rows;
use myx::api::lists::queue_url;
use myx::api::lists::search_rows;
use myx::api::lists::search_url;
use myx::api::lists::track_answer;
use myx::api::lists::track_url;
use myx::api::pages::Pages;
use myx::api::rows::parse_playlist_track;
use myx::api::rows::parse_row;
use myx::api::rows::playlist_subtitle;
use myx::api::rows::playlist_total;
use myx::api::rows::RowKind;
use myx::app::action::ActionKind;
use myx::json::parse;
use myx::json::Json;
use myx::library::LibItem;
use myx::library::Section;

const API: &str = "https://api.test/v1";

fn doc(text: &str) -> Json {
    parse(text).expect("a document")
}

fn names(items: &[LibItem]) -> Vec<&str> {
    items.iter().map(|i| i.name.as_str()).collect()
}

// ----------------------------------------------------------------------- rows

#[test]
fn playlist_entries_are_read_in_both_shapes() {
    let newer = doc(r#"{"item":{"name":"N","uri":"u","artists":[{"name":"A"}]}}"#);
    let older = doc(r#"{"track":{"name":"O","uri":"v"}}"#);
    let n = parse_playlist_track(&newer).unwrap();
    assert_eq!((n.name.as_str(), n.subtitle.as_str(), n.is_track), ("N", "A", true));
    let o = parse_playlist_track(&older).unwrap();
    assert_eq!((o.name.as_str(), o.subtitle.as_str()), ("O", ""));
    assert!(parse_playlist_track(&doc(r#"{"item":null,"track":null}"#)).is_none());
    assert!(parse_playlist_track(&doc(r#"{"track":{"name":"no uri"}}"#)).is_none());
}

#[test]
fn playlist_subtitles_put_the_count_first() {
    assert_eq!(playlist_subtitle("me", Some(142)), "142 · me");
    assert_eq!(playlist_subtitle("", Some(142)), "142");
    assert_eq!(playlist_subtitle("me", None), "me");
    assert_eq!(playlist_total(&doc(r#"{"items":{"total":3},"tracks":{"total":9}}"#)), Some(3));
    assert_eq!(playlist_total(&doc(r#"{"tracks":{"total":9}}"#)), Some(9));
    assert_eq!(playlist_total(&doc(r#"{"items":[]}"#)), None);
}

#[test]
fn each_kind_of_row_is_read() {
    let album = doc(r#"{"album":{"name":"L","uri":"u","artists":[{"name":"A"}]}}"#);
    assert_eq!(parse_row(RowKind::SavedAlbum, &album).unwrap().subtitle, "album · A");
    let artist = doc(r#"{"name":"A","uri":"u"}"#);
    let a = parse_row(RowKind::Artist, &artist).unwrap();
    assert!(!a.is_track && a.subtitle.is_empty());
    let played = doc(r#"{"track":{"name":"T","uri":"u"}}"#);
    assert!(parse_row(RowKind::PlayedTrack, &played).unwrap().is_track);
    let list = doc(r#"{"name":"P","uri":"u","owner":{"display_name":"me"},"items":{"total":2}}"#);
    assert_eq!(parse_row(RowKind::Playlist, &list).unwrap().subtitle, "2 · me");
    assert!(parse_row(RowKind::Track, &doc("[]")).is_none());
}

// ----------------------------------------------------------------------- pages

#[test]
fn pages_are_walked_until_there_are_no_more() {
    let mut walk = Pages::new(Vec::new(), "first".into(), Some("artists".into()), 5, RowKind::Artist);
    assert_eq!(walk.next().as_deref(), Some("first"));
    let page = doc(
        r#"{"artists":{"items":[{"name":"a","uri":"1"},null,{"name":"b","uri":"2"}],"next":"second"}}"#,
    );
    walk.turn(Some(&page));
    assert_eq!(walk.next().as_deref(), Some("second"));
    walk.turn(Some(&doc(r#"{"artists":{"items":[{"name":"c","uri":"3"}],"next":null}}"#)));
    assert_eq!(walk.next(), None);
    assert_eq!(names(&walk.rows), ["a", "b", "c"]);

    let mut failing = Pages::new(Vec::new(), "u".into(), None, 5, RowKind::Track);
    failing.turn(None);
    assert_eq!(failing.next(), None);

    let mut limited = Pages::new(Vec::new(), "u".into(), None, 1, RowKind::Track);
    limited.turn(Some(&doc(r#"{"items":[],"next":"more"}"#)));
    assert_eq!(limited.next(), None);
}

// ------------------------------------------------------------- the library fetch

fn tracks(n: usize, next: Option<&str>) -> Json {
    let items: Vec<String> = (0..n)
        .map(|i| format!(r#"{{"track":{{"name":"t{i}","uri":"u{i}"}}}}"#))
        .collect();
    let next = match next {
        Some(u) => format!("\"{u}\""),
        None => "null".to_string(),
    };
    doc(&format!(r#"{{"items":[{}],"next":{next}}}"#, items.join(",")))
}

#[test]
fn the_library_is_fetched_section_by_section() {
    let mut fetch = LibraryFetch::new(API.to_string());
    assert_eq!(
        fetch.next().unwrap(),
        "https://api.test/v1/me/player/recently-played?limit=10"
    );
    assert!(fetch.page(Some(&tracks(9, None))).is_empty());
    assert_eq!(fetch.next().unwrap(), "https://api.test/v1/me/top/tracks?limit=10");
    assert!(fetch.page(Some(&doc(r#"{"items":[{"name":"top","uri":"u"}]}"#))).is_empty());
    assert_eq!(fetch.next().unwrap(), "https://api.test/v1/me/top/artists?limit=10");
    let home = fetch.page(None);
    assert_eq!(home.len(), 1);
    assert_eq!(home[0].0, Section::Home);
    assert_eq!(
        names(&home[0].1),
        ["Recently Played", "t0", "t1", "t2", "t3", "t4", "t5", "Your Top Tracks", "top"]
    );
    assert!(fetch.got_any());
    for section in [Section::Recent, Section::Playlists, Section::Albums, Section::Artists] {
        let out = fetch.page(None);
        assert_eq!(out[0].0, section);
        assert!(out[0].1.is_empty());
    }
    assert_eq!(fetch.next().unwrap(), "https://api.test/v1/me/tracks?limit=50");
    // Streamed every third page, and once more at the end.
    assert!(fetch.page(Some(&tracks(1, Some("p2")))).is_empty());
    assert_eq!(fetch.next().unwrap(), "p2");
    assert!(fetch.page(Some(&tracks(1, Some("p3")))).is_empty());
    let third = fetch.page(Some(&tracks(1, Some("p4"))));
    assert_eq!(third.len(), 1);
    assert_eq!(third[0].1.len(), 5);
    let last = fetch.page(Some(&tracks(1, None)));
    assert_eq!(last.len(), 1);
    assert_eq!(last[0].0, Section::Liked);
    assert_eq!(last[0].1[0].uri, "myx:action:liked-play");
    assert_eq!(last[0].1.len(), 6);
    assert_eq!(fetch.next(), None);
}

#[test]
fn a_fetch_that_brings_nothing_says_so() {
    let mut fetch = LibraryFetch::new(API.to_string());
    let mut pages = 0;
    while fetch.next().is_some() {
        fetch.page(None);
        pages += 1;
    }
    assert_eq!(pages, 8);
    assert!(!fetch.got_any());
}

// ----------------------------------------------------------------------- lists

#[test]
fn search_results_come_in_groups() {
    let found = doc(
        r#"{"tracks":{"items":[{"name":"s","uri":"1","artists":[{"name":"x"}]}]},
            "artists":{"items":[]},
            "albums":{"items":[{"name":"l","uri":"2","artists":[{"name":"y"}]}]},
            "playlists":{"items":[null,{"name":"p","uri":"3"}]}}"#,
    );
    let rows = search_rows(Some(&found));
    assert_eq!(names(&rows), ["Songs", "s", "Albums", "l", "Playlists", "p"]);
    assert!(rows[0].is_header && rows[1].is_track);
    assert_eq!(rows[3].subtitle, "y");
    assert!(search_rows(None).is_empty());
    assert_eq!(
        search_url(API, "daft punk"),
        "https://api.test/v1/search?q=daft%20punk&type=track,artist,album,playlist&limit=6"
    );
}

#[test]
fn the_queue_is_read() {
    let q = doc(r#"{"queue":[{"name":"n","uri":"u","artists":[{"name":"a"}]},{"name":"x"}]}"#);
    assert_eq!(queue_rows(Some(&q)), [("n — a".to_string(), "u".to_string())]);
    assert!(queue_rows(Some(&doc("{}"))).is_empty());
    assert!(queue_rows(None).is_empty());
    assert_eq!(queue_url(API), "https://api.test/v1/me/player/queue");
}

#[test]
fn track_metadata_is_read() {
    let t = doc(
        r#"{"name":"T","artists":[{"name":"A"}],"duration_ms":4294967297,
            "album":{"name":"L","images":[{"url":"c"}]}}"#,
    );
    let answer = track_answer("id", Some(&t));
    assert_eq!(answer.meta.uri, "spotify:track:id");
    assert_eq!((answer.meta.title.as_str(), answer.meta.album.as_str()), ("T", "L"));
    assert_eq!(answer.meta.duration_ms, 1);
    assert_eq!(answer.cover_url.as_deref(), Some("c"));
    let none = track_answer("id", None);
    assert_eq!(none.meta.uri, "spotify:track:id");
    assert!(none.meta.title.is_empty() && none.cover_url.is_none());
    assert_eq!(track_url(API, "id"), "https://api.test/v1/tracks/id");
}

// ------------------------------------------------------------------------ menus

fn labels(item: &LibItem, saved: bool, d: Option<&Json>) -> Vec<String> {
    build_action_menu(item, saved, d).items.into_iter().map(|i| i.label).collect()
}

#[test]
fn a_track_menu_leads_to_its_artist_and_album() {
    let item = LibItem::track("Song".into(), "Band".into(), "spotify:track:9".into());
    let asked = menu_questions(API, &item);
    assert_eq!(asked.contains.as_deref(), Some("spotify:track:9"));
    assert_eq!(asked.detail_url.as_deref(), Some("https://api.test/v1/tracks/9"));
    let d = doc(
        r#"{"artists":[{"name":"Band","uri":"spotify:artist:1"}],
            "album":{"name":"LP","uri":"spotify:album:2"}}"#,
    );
    assert_eq!(
        labels(&item, true, Some(&d)),
        [
            "♥  Remove from Liked",
            "＋  Add to Queue",
            "≡  Add to Playlist…",
            "→  Go to Artist (Band)",
            "→  Go to Album",
            "⧉  Copy Link"
        ]
    );
    let bare = build_action_menu(&item, false, None);
    assert_eq!(bare.items.len(), 4);
    assert_eq!(bare.title, "Song");
    let ActionKind::Queue { display, .. } = &bare.items[1].kind else {
        panic!("the second entry queues");
    };
    assert_eq!(display, "Song — Band");
}

#[test]
fn other_menus_open_play_and_follow() {
    let artist = LibItem::ctx("A".into(), String::new(), "spotify:artist:1".into());
    assert_eq!(labels(&artist, true, None), ["Unfollow", "▶︎  Play", "→  Open", "⧉  Copy Link"]);
    let album = LibItem::ctx("L".into(), String::new(), "spotify:album:1".into());
    assert_eq!(
        labels(&album, false, None),
        ["Save Album", "▶︎  Play", "→  Open Album", "⧉  Copy Link"]
    );
    let list = LibItem::ctx("P".into(), String::new(), "spotify:playlist:1".into());
    assert_eq!(labels(&list, false, None)[0], "＋  Add to Your Library");
    assert!(menu_questions(API, &list).contains.is_none());
    assert!(labels(&LibItem::header("x"), false, None).is_empty());
}

// ----------------------------------------------------------------------- writes

#[test]
fn toggles_write_their_reverse() {
    let like = |saved| ActionKind::ToggleLike { id: "1".into(), saved };
    let add = action_write(API, &like(false)).unwrap();
    let remove = action_write(API, &like(true)).unwrap();
    assert_eq!(add.method, Method::Put);
    assert_eq!(remove.method, Method::Delete);
    assert_eq!(add.url, remove.url);
    assert_eq!(add.url, "https://api.test/v1/me/library?uris=spotify%3Atrack%3A1");
    let queue = ActionKind::Queue { uri: "spotify:track:1".into(), display: String::new() };
    let w = action_write(API, &queue).unwrap();
    assert_eq!(w.method, Method::Post);
    assert_eq!(w.url, "https://api.test/v1/me/player/queue?uri=spotify%3Atrack%3A1");
    let add_to = ActionKind::AddToPlaylist { playlist_id: "p".into(), track_uri: "a:b".into() };
    assert_eq!(
        action_write(API, &add_to).unwrap().url,
        "https://api.test/v1/playlists/p/items?uris=a%3Ab"
    );
    let follow = ActionKind::ToggleFollowArtist { id: "1".into(), following: false };
    assert!(action_write(API, &follow).unwrap().url.ends_with("spotify%3Aartist%3A1"));
    let album = ActionKind::ToggleSaveAlbum { id: "1".into(), saved: true };
    assert_eq!(action_write(API, &album).unwrap().method, Method::Delete);
    let list = ActionKind::FollowPlaylist { id: "1".into() };
    assert!(action_write(API, &list).unwrap().url.ends_with("spotify%3Aplaylist%3A1"));
    assert!(action_write(API, &ActionKind::CopyLink { uri: "u".into() }).is_none());
}

#[test]
fn the_user_is_told_what_came_of_it() {
    let like = ActionKind::ToggleLike { id: "1".into(), saved: false };
    assert_eq!(action_message(&like, &Ok(())), "added to Liked ♥ (press r to refresh)");
    assert_eq!(action_message(&like, &Err("HTTP 403".into())), "like failed: HTTP 403");
    let queue = ActionKind::Queue { uri: "u".into(), display: String::new() };
    assert_eq!(
        action_message(&queue, &Err("HTTP 404".into())),
        "queue failed: HTTP 404 (start playback first)"
    );
    let album = ActionKind::ToggleSaveAlbum { id: "1".into(), saved: true };
    assert_eq!(action_message(&album, &Ok(())), "removed album");
    assert_eq!(action_message(&album, &Err("x".into())), "album action failed: x");
    let list = ActionKind::FollowPlaylist { id: "1".into() };
    assert_eq!(action_message(&list, &Ok(())), "added to library");
    let open = ActionKind::Open { uri: "u".into(), name: "n".into() };
    assert_eq!(action_message(&open, &Ok(())), "");
}

#[test]
fn a_write_is_retried_once_when_rate_limited() {
    let limited = |after: Option<&str>| Attempt::Answered {
        status: 429,
        retry_after: after.map(|s| s.to_string()),
    };
    assert!(matches!(after_attempt(&limited(Some("3")), true), AfterAttempt::Retry(3)));
    assert!(matches!(after_attempt(&limited(Some("3600")), true), AfterAttempt::Retry(5)));
    assert!(matches!(after_attempt(&limited(Some("soon")), true), AfterAttempt::Retry(1)));
    assert!(matches!(after_attempt(&limited(None), true), AfterAttempt::Retry(1)));
    assert!(matches!(
        after_attempt(&limited(Some("3")), false),
        AfterAttempt::Done(Err(e)) if e == "HTTP 429"
    ));
    let ok = Attempt::Answered { status: 204, retry_after: None };
    assert!(matches!(after_attempt(&ok, true), AfterAttempt::Done(Ok(()))));
    assert!(matches!(after_attempt(&Attempt::TimedOut, true), AfterAttempt::Done(Err(e)) if e == "timeout"));
    assert!(matches!(after_attempt(&Attempt::Failed, true), AfterAttempt::Done(Err(e)) if e == "network error"));
}

#[test]
fn only_a_clear_yes_is_in_the_library() {
    assert!(api_contains(Some(&doc("[true]"))));
    assert!(!api_contains(Some(&doc("[false]"))));
    assert!(!api_contains(Some(&doc("[]"))));
    assert!(!api_contains(Some(&doc("{}"))));
    assert!(!api_contains(None));
    assert_eq!(
        contains_url(API, "spotify:track:1"),
        "https://api.test/v1/me/library/contains?uris=spotify%3Atrack%3A1"
    );
}
