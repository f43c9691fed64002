//! The room over HTTP: the host's rules, the guest's requests, the player.

use std::sync::Arc;

use myx::app::room::RoomKey;
use myx::app::room::RoomRequest;
use myx::engine::EngineEvent;
use myx::json::parse;
use myx::library::LibItem;
use myx::room::client::join_outcome;
use myx::room::client::resolve_outcome;
use myx::room::client::RoomClient;
use myx::room::fetch::decode_key;
use myx::room::host::Handled;
use myx::room::host::RoomHandle;
use myx::room::host::RoomHost;
use myx::room::host::ROOM_PORT;
use myx::room::player::open_stream;
use myx::room::player::reset_event;
use myx::room::player::LoadStep;
use myx::room::player::PlayStep;
use myx::room::player::PlayerState;
use myx::room::player::RoomEvent;
use myx::room::player::Started;
use myx::room::player::POSITION_TICK;
use myx::room::resolver::Track;
use myx::room::resolver::VorbisFormat;
use myx::room::token::valid_token;
use myx::ui::room::RoomInput;
use myx::ui::room::RoomMode;
use myx::ui::room::RoomState;

fn client(token: &str) -> RoomClient {
    RoomClient {
        url: "127.0.0.1:8787".to_string(),
        token: token.to_string(),
    }
}

fn answered(handled: Handled) -> (u16, String) {
    match handled {
        Handled::Answer(reply) => (reply.status, reply.body()),
        Handled::Resolve(uri) => panic!("unexpected resolve of {uri}"),
    }
}

// ------------------------------------------------------------------------- host

#[test]
fn a_guest_with_the_token_is_let_in() {
    let mut host = RoomHost::new(ROOM_PORT, "s3cret".to_string());
    let guest = client("s3cret");
    assert_eq!(guest.join_url(), "http://127.0.0.1:8787/join");
    assert_eq!(
        answered(host.handle("POST", "/join", &guest.join_body())),
        (200, r#"{"ok":true}"#.to_string())
    );
    assert_eq!(host.info().joins, 1);
    let Handled::Resolve(uri) =
        host.handle("POST", "/resolve?x=1", &guest.resolve_body("spotify:track:\"quoted\"\n"))
    else {
        panic!("the track must be resolved");
    };
    assert_eq!(uri, "spotify:track:\"quoted\"\n");
}

/// A wrong token is refused at both endpoints, and nothing is resolved.
#[test]
fn a_wrong_token_is_rejected_at_both_endpoints() {
    let mut host = RoomHost::new(ROOM_PORT, "s3cret".to_string());
    let guest = client("guess");
    let refused = (403, r#"{"error":"invalid room token"}"#.to_string());
    assert_eq!(answered(host.handle("POST", "/join", &guest.join_body())), refused);
    assert_eq!(
        answered(host.handle("POST", "/resolve", &guest.resolve_body("spotify:track:fixture"))),
        refused
    );
    assert_eq!(answered(host.handle("POST", "/join", "not json")), refused);
    assert_eq!(answered(host.handle("POST", "/join", r#"{"token":7}"#)), refused);
    assert_eq!(host.info().joins, 0);
    let err = join_outcome(403, "{}").unwrap_err();
    assert!(err.contains("invalid room token"));
}

#[test]
fn the_host_answers_everything_else() {
    let mut host = RoomHost::new(ROOM_PORT, "t".to_string());
    let (status, body) = answered(host.handle("GET", "/info", ""));
    assert_eq!(status, 200);
    let info = parse(&body).unwrap();
    assert_eq!(info.text_field("app").unwrap(), "myx");
    assert_eq!(info.text_field("resolve").unwrap(), "/resolve");
    assert_eq!(answered(host.handle("GET", "/join", "")).0, 404);
    assert_eq!(answered(host.handle("POST", "/nowhere", "{}")).0, 404);
    let missing = (400, r#"{"error":"missing uri"}"#.to_string());
    assert_eq!(answered(host.handle("POST", "/resolve", r#"{"token":"t"}"#)), missing);
    assert_eq!(answered(host.handle("POST", "/resolve", r#"{"token":"t","uri":""}"#)), missing);
}

#[test]
fn a_resolved_track_is_sent_whole() {
    let mut host = RoomHost::new(ROOM_PORT, "t".to_string());
    let track = Arc::new(Track {
        key: [0xab; 16],
        format: VorbisFormat::OggVorbis160,
        urls: vec!["https://cdn/0".into(), "https://cdn/1".into()],
        resolved_at: 0,
    });
    let reply = host.resolved("spotify:track:x", &Ok(track));
    assert_eq!(reply.status, 200);
    let doc = parse(&reply.body()).unwrap();
    assert_eq!(doc.text_field("track").unwrap(), "spotify:track:x");
    assert_eq!(doc.text_field("format").unwrap(), "OGG_VORBIS_160");
    assert_eq!(doc.text_field("key_hex").unwrap(), &"ab".repeat(16));
    assert_eq!(decode_key(doc.text_field("key_hex").unwrap()), Ok([0xab; 16]));
    let urls = doc.list_field("urls").unwrap();
    assert_eq!(urls.len(), 2);
    assert_eq!(urls[1].as_text().unwrap(), "https://cdn/1");
    assert_eq!(host.info().resolves, 1);
    let failed = host.resolved("spotify:track:x", &Err("no vorbis file for track".into()));
    assert_eq!(failed.status, 400);
    assert_eq!(failed.body(), r#"{"error":"resolve failed: no vorbis file for track"}"#);
    assert_eq!(host.info().resolves, 1);
}

#[test]
fn rotating_the_token_locks_guests_out() {
    let mut room = RoomHandle::new();
    assert!(room.rotate_token().is_none(), "not hosting");
    let info = room.start_host(ROOM_PORT, "old".to_string()).unwrap();
    assert_eq!((info.port, info.token.as_str()), (8787, "old"));
    assert!(room.hosting());
    assert_eq!(
        room.start_host(1, "other".to_string()).err().unwrap(),
        "already hosting a room"
    );
    let fresh = room.rotate_token().unwrap();
    assert!(valid_token(&fresh));
    assert_eq!(room.host_info().unwrap().token, fresh);
    let mut host = room.stop_host().unwrap();
    assert!(!room.hosting() && room.host_info().is_none());
    assert_eq!(answered(host.handle("POST", "/join", &client("old").join_body())).0, 403);
    assert_eq!(answered(host.handle("POST", "/join", &client(&fresh).join_body())).0, 200);
}

#[test]
fn answers_are_understood() {
    assert!(join_outcome(200, "").is_ok());
    assert_eq!(join_outcome(500, "oops").unwrap_err(), "join failed (HTTP 500): oops");
    assert!(resolve_outcome(200, "").is_ok());
    assert_eq!(resolve_outcome(400, "bad").unwrap_err(), "resolve failed (HTTP 400): bad");
}

// ----------------------------------------------------------------------- player

fn joined() -> PlayerState {
    let mut p = PlayerState::new(0);
    assert!(matches!(
        p.joined(client("t"), Ok(())),
        RoomEvent::Joined { ok: true, .. }
    ));
    p
}

#[test]
fn playing_needs_a_room() {
    let mut p = PlayerState::new(0);
    let PlayStep::Refused(RoomEvent::Error { message }) = p.begin_play("u".into(), 0) else {
        panic!("must be refused");
    };
    assert_eq!(message, "not joined to a room — press J in the Room view first");
    assert!(matches!(
        p.joined(client("t"), Err("invalid room token".into())),
        RoomEvent::Joined { ok: false, message } if message == "join failed: invalid room token"
    ));
    assert!(p.client.is_none());
}

#[test]
fn a_superseded_load_is_ignored() {
    let mut p = joined();
    let PlayStep::Load { gen: first, .. } = p.begin_play("a".into(), 0) else {
        panic!("must load");
    };
    let PlayStep::Load { gen: second, .. } = p.begin_play("b".into(), 0) else {
        panic!("must load");
    };
    assert!(matches!(p.finish_play("a".into(), 0, first, Ok(vec![1])), LoadStep::Ignored));
    assert!(matches!(p.finish_play("b".into(), 7, second, Ok(vec![2])), LoadStep::Start { pos_ms: 7, .. }));
    let PlayStep::Load { gen: third, .. } = p.begin_play("c".into(), 0) else {
        panic!("must load");
    };
    p.stop_all();
    assert!(matches!(p.finish_play("c".into(), 0, third, Ok(vec![3])), LoadStep::Ignored));
    assert!(matches!(p.begin_play("b".into(), 0), PlayStep::Start { .. }), "cached");
}

#[test]
fn a_started_track_is_announced_and_sought_in() {
    let mut p = joined();
    let PlayStep::Load { gen, .. } = p.begin_play("u".into(), 500) else {
        panic!("must load");
    };
    p.finish_play("u".into(), 500, gen, Ok(vec![9]));
    p.before_start();
    let events = p.start_loaded("u".into(), 500, Started::At(10));
    assert!(matches!(&events[0], RoomEvent::Playback(EngineEvent::TrackChanged { .. })));
    assert!(matches!(&events[1], RoomEvent::Playback(EngineEvent::Playing { position_ms: 500, .. })));
    assert_eq!(p.position(250), 750);
    assert!(matches!(
        p.toggle(100),
        Some(RoomEvent::Playback(EngineEvent::Paused { position_ms: 600, .. }))
    ));
    assert!(p.tick(false, 100, POSITION_TICK * 9).is_none(), "paused");
    assert!(matches!(p.toggle(100), Some(RoomEvent::Playback(EngineEvent::Playing { .. }))));
    let (uri, bytes) = p.seek_source().expect("cached");
    assert_eq!((uri.as_str(), bytes.as_slice()), ("u", &[9u8][..]));
    assert!(matches!(
        p.seek_to(uri, 9_000, Started::At(20)),
        RoomEvent::Playback(EngineEvent::PositionCorrection { position_ms: 9_000, .. })
    ));
    assert!(p.tick(false, 5, 19 + POSITION_TICK).is_none());
    assert!(matches!(
        p.tick(false, 5, 20 + POSITION_TICK),
        Some(RoomEvent::Playback(EngineEvent::PositionCorrection { position_ms: 9_005, .. }))
    ));
    assert!(matches!(p.tick(true, 0, 0), Some(RoomEvent::Ended { uri }) if uri == "u"));
    assert!(p.tick(true, 0, 0).is_none());
}

#[test]
fn a_failure_leaves_the_transport_idle() {
    let mut p = joined();
    let events = p.start_loaded("u".into(), 0, Started::PastEnd);
    assert!(matches!(&events[0], RoomEvent::Error { message } if message == "room: nothing to play at that position"));
    let events = p.start_loaded("u".into(), 0, Started::Failed("decode: x".into()));
    assert!(matches!(&events[0], RoomEvent::Error { message } if message == "playback failed: decode: x"));
    assert!(p.current.is_none() && p.tick(true, 0, 0).is_none());
    let PlayStep::Load { gen, .. } = p.begin_play("u".into(), 0) else {
        panic!("must load");
    };
    assert!(matches!(
        p.finish_play("u".into(), 0, gen, Err("resolve: boom".into())),
        LoadStep::Failed(RoomEvent::Error { message }) if message == "room: resolve: boom"
    ));
    p.start_loaded("u".into(), 0, Started::At(0));
    assert!(matches!(p.seek_to("u".into(), 1, Started::PastEnd), RoomEvent::Ended { .. }));
    assert!(p.seek_source().is_none());
    p.start_loaded("u".into(), 0, Started::At(0));
    assert!(matches!(p.leave(), RoomEvent::Playback(EngineEvent::Stopped)));
    assert!(p.client.is_none() && !p.sink);
    assert!(matches!(reset_event(), RoomEvent::Error { .. }));
}

/// Seeking past the end is the end, for a paused player too.
#[test]
fn a_paused_player_sought_past_the_end_is_idle() {
    let mut p = joined();
    p.start_loaded("u".into(), 0, Started::At(0));
    p.toggle(0);
    assert!(p.paused);
    assert!(matches!(p.seek_to("u".into(), 1, Started::PastEnd), RoomEvent::Ended { uri } if uri == "u"));
    assert!(!p.paused && !p.sink && p.current.is_none());
}

#[test]
fn garbage_has_no_stream() {
    assert!(open_stream(&Arc::new(b"not ogg".to_vec()), 0).is_none());
}

// ------------------------------------------------------------- the room's keys

fn room(mode: RoomMode) -> RoomState {
    RoomState {
        mode,
        guest_url: String::new(),
        guest_token: String::new(),
        queue: Vec::new(),
        queue_index: 0,
        input: None,
    }
}

#[test]
fn hosting_and_joining_are_mutually_exclusive() {
    let mut guest = room(RoomMode::Guest);
    assert_eq!(guest.press(RoomKey::Host), RoomRequest::Nothing);
    assert!(!guest.hosted(), "joined in the meantime");
    assert_eq!(guest.mode, RoomMode::Guest);

    let mut host = room(RoomMode::Host);
    assert_eq!(host.press(RoomKey::Join), RoomRequest::Nothing);
    assert!(host.input.is_none(), "no form for a host");
    assert!(!host.joined(), "opened in the meantime");
    assert_eq!(host.mode, RoomMode::Host);
}

#[test]
fn the_room_keys_open_close_and_leave() {
    let mut r = room(RoomMode::Idle);
    assert_eq!(r.press(RoomKey::Leave), RoomRequest::Nothing);
    assert_eq!(r.press(RoomKey::NewToken), RoomRequest::Nothing);
    assert_eq!(r.press(RoomKey::Host), RoomRequest::StartHost);
    assert_eq!(r.mode, RoomMode::Idle, "not before the server is up");
    assert!(r.hosted());
    assert_eq!(r.press(RoomKey::NewToken), RoomRequest::RotateToken);
    assert_eq!(r.press(RoomKey::Host), RoomRequest::StopHost);
    assert_eq!(r.press(RoomKey::Join), RoomRequest::Nothing);
    assert_eq!(r.input, Some(RoomInput::Url));
    assert!(r.joined());
    assert_eq!(r.press(RoomKey::Leave), RoomRequest::LeaveRoom);
    assert_eq!(r.mode, RoomMode::Idle);
}

#[test]
fn the_room_queue_is_lined_up_and_skipped_through() {
    let track = |id: &str| LibItem::track(id.into(), String::new(), format!("spotify:track:{id}"));
    let items = vec![LibItem::header("Songs"), track("a"), track("b"), track("c")];
    let mut r = room(RoomMode::Guest);
    r.line_up(&items, "spotify:track:b");
    assert_eq!(r.queue, ["spotify:track:a", "spotify:track:b", "spotify:track:c"]);
    assert_eq!(r.queue_index, 1);
    assert_eq!(r.skip(1).unwrap(), "spotify:track:c");
    assert!(r.skip(1).is_none());
    assert_eq!(r.queue_index, 2);
    assert_eq!(r.skip(-2).unwrap(), "spotify:track:a");
    assert!(r.skip(-1).is_none());
    r.line_up(&items, "spotify:track:elsewhere");
    assert_eq!(r.queue_index, 0);
}
