//! The external source: metadata, transport, messages.

use myx::engine::EngineEvent;
use myx::external::cannot_decode;
use myx::external::helper_args;
use myx::external::is_a_path;
use myx::external::no_metadata;
use myx::external::position_ms;
use myx::external::spawn_error;
use myx::external::Ctl;
use myx::external::Packet;
use myx::external::SourceMeta;
use myx::external::SpawnFailure;
use myx::external::StderrDrain;
use myx::external::Worker;
use myx::external::POSITION_INTERVAL;

#[test]
fn parses_earshot_metadata() {
    let json = r#"{"codec":"vorbis","rate":44100,"channels":2,
            "duration_ms":214533,"requested_start_ms":90000,
            "actual_start_ms":89020,"start_granule":3925504,
            "container_offset":0,"header_pages":2}"#;
    let meta = SourceMeta::parse(json).expect("parse");
    assert_eq!(meta.codec, "vorbis");
    assert_eq!(meta.rate, 44_100);
    assert_eq!(meta.channels, 2);
    assert_eq!(meta.duration_ms, Some(214_533));
    assert_eq!(meta.requested_start_ms, 90_000);
    // The number the progress bar must use.
    assert_eq!(meta.actual_start_ms, 89_020);
}

#[test]
fn metadata_defaults_are_sane_when_fields_are_missing() {
    let meta = SourceMeta::parse("{}").expect("parse");
    assert_eq!(meta.rate, 44_100);
    assert_eq!(meta.channels, 2);
    assert_eq!(meta.duration_ms, None);
    assert_eq!(meta.actual_start_ms, 0);
    assert_eq!(meta.codec, "unknown");
}

#[test]
fn malformed_metadata_is_an_error_not_a_panic() {
    assert!(SourceMeta::parse("not json at all").is_err());
    assert!(SourceMeta::parse("").is_err());
    let err = SourceMeta::parse("").unwrap_err();
    assert!(err.starts_with("parse source metadata json: "), "got {err:?}");
}

#[test]
fn metadata_of_another_type_counts_as_missing() {
    let meta = SourceMeta::parse(r#"{"codec":7,"rate":"x","duration_ms":-1}"#).unwrap();
    assert_eq!(meta.codec, "unknown");
    assert_eq!(meta.rate, 44_100);
    assert_eq!(meta.duration_ms, None);
    let wide = SourceMeta::parse(r#"{"rate":4294967297,"channels":65538}"#).unwrap();
    assert_eq!(wide.rate, 1);
    assert_eq!(wide.channels, 2);
    assert_eq!(SourceMeta::parse("[1]").unwrap().channels, 2);
}

fn meta(actual: u64) -> SourceMeta {
    SourceMeta {
        codec: "vorbis".to_string(),
        rate: 44_100,
        channels: 2,
        duration_ms: Some(5_000),
        requested_start_ms: 3_000,
        actual_start_ms: actual,
    }
}

/// Position must be counted from the helper's actual start, not the request.
#[test]
fn position_starts_from_actual_start_not_requested() {
    let mut w = Worker::new(u16::MAX);
    w.load("file.ogg".to_string(), Ok(meta(2_020)), 0);
    assert_eq!(w.state.position_ms, 2_020);
    assert!(w.pump(Packet::Played(44_100), 1).is_none());
    assert_eq!(w.state.position_ms, 3_020);
    assert_eq!(position_ms(&SourceMeta::default(), 7), 7_000, "a rate of zero counts as one");
    assert_eq!(position_ms(&meta(u64::MAX / 2), 0), u32::MAX);
}

#[test]
fn emits_track_changed_then_playing() {
    let mut w = Worker::new(u16::MAX);
    let events = w.load("file.ogg".to_string(), Ok(meta(0)), 0);
    assert!(matches!(&events[0], EngineEvent::TrackChanged { uri } if uri == "file.ogg"));
    assert!(matches!(&events[1], EngineEvent::Playing { position_ms: 0, .. }));
    assert_eq!(events.len(), 2);
    assert!(w.playing() && w.active);
    assert_eq!(w.state.duration_ms, Some(5_000));
    assert_eq!(w.state.meta.as_ref().unwrap().codec, "vorbis");
}

/// Pause is backpressure: nothing is read while paused, and nothing is lost.
#[test]
fn pause_stops_the_flow_and_resume_restarts_it() {
    let mut w = Worker::new(u16::MAX);
    assert!(w.pause().is_none(), "nothing is loaded");
    w.load("file.ogg".to_string(), Ok(meta(0)), 0);
    w.pump(Packet::Played(22_050), 1);
    assert!(matches!(w.pause(), Some(EngineEvent::Paused { position_ms: 500, .. })));
    assert!(!w.playing() && !w.active);
    assert!(matches!(w.resume(), Some(EngineEvent::Playing { position_ms: 500, .. })));
    assert!(w.playing() && w.active);
}

/// Seek is respawn: there is no seek to send, only a new invocation to start.
#[test]
fn seek_respawns_the_helper_at_the_new_position() {
    let mut w = Worker::new(u16::MAX);
    assert!(w.state.seek(4_000).is_none(), "nothing is loaded");
    w.load("file.ogg".to_string(), Ok(meta(0)), 0);
    let Some(Ctl::Load { uri, start_ms }) = w.state.seek(4_000) else {
        panic!("a seek must respawn");
    };
    assert_eq!((uri.as_str(), start_ms), ("file.ogg", 4_000));
    assert!(matches!(w.state.toggle(), Ctl::Pause));
    w.pause();
    assert!(matches!(w.state.toggle(), Ctl::Resume));
}

/// Reaching the end of a stream must surface as an event, not a stall.
#[test]
fn end_of_stream_reports_end_of_track() {
    let mut w = Worker::new(u16::MAX);
    w.load("file.ogg".to_string(), Ok(meta(0)), 0);
    let end = w.pump(Packet::End, 5);
    assert!(matches!(end, Some(EngineEvent::EndOfTrack { uri }) if uri == "file.ogg"));
    assert!(!w.state.playing && w.stream.is_none());
    assert!(w.pump(Packet::End, 6).is_none());
}

#[test]
fn stop_disposes_of_the_helper() {
    let mut w = Worker::new(u16::MAX);
    w.load("file.ogg".to_string(), Ok(meta(0)), 0);
    w.pump(Packet::Played(44_100), 1);
    assert!(matches!(w.stop(), EngineEvent::Stopped));
    assert!(w.stream.is_none() && !w.state.playing);
    assert_eq!(w.state.position_ms, 0);
}

/// A failed load must not leave the source looking as if it played.
#[test]
fn a_helper_failure_reports_an_error() {
    let mut w = Worker::new(u16::MAX);
    let events = w.load("bad.ogg".to_string(), Err("boom".to_string()), 0);
    assert!(matches!(events[0], EngineEvent::Stopped));
    assert_eq!(w.state.error.as_deref(), Some("boom"));
    assert!(!w.state.playing);

    w.load("file.ogg".to_string(), Ok(meta(0)), 0);
    assert!(w.state.error.is_none());
    let ev = w.pump(Packet::Failed("broken pipe".to_string()), 1);
    assert!(matches!(ev, Some(EngineEvent::Stopped)));
    assert_eq!(w.state.error.as_deref(), Some("source read failed: broken pipe"));
}

#[test]
fn loading_again_replaces_the_previous_helper() {
    let mut w = Worker::new(u16::MAX);
    w.load("one.ogg".to_string(), Ok(meta(0)), 0);
    w.pump(Packet::Played(44_100), 1);
    w.load("two.ogg".to_string(), Ok(meta(3_000)), 2);
    assert_eq!(w.state.uri.as_deref(), Some("two.ogg"));
    assert_eq!(w.state.position_ms, 3_000);
    assert_eq!(w.stream.as_ref().unwrap().frames, 0);
}

#[test]
fn the_position_is_reported_every_second() {
    let mut w = Worker::new(u16::MAX);
    w.load("file.ogg".to_string(), Ok(meta(0)), 0);
    assert!(w.pump(Packet::Played(100), POSITION_INTERVAL - 1).is_none());
    assert!(matches!(
        w.pump(Packet::Played(44_000), POSITION_INTERVAL),
        Some(EngineEvent::PositionCorrection { position_ms: 1_000, .. })
    ));
    assert!(w.pump(Packet::Played(0), POSITION_INTERVAL + 1).is_none());
    assert!(w.pump(Packet::Foreign, u64::MAX).is_none());
    assert!(w.can_count(&Packet::Played(1)));
    assert!(!w.can_count(&Packet::Played(u64::MAX)));
}

/// A missing helper must land in the error state, with nothing playing.
#[test]
fn a_missing_helper_reports_an_error() {
    let mut w = Worker::new(u16::MAX);
    let why = spawn_error(
        "/definitely/not/a/real/program",
        '/',
        SpawnFailure::NotFound,
        "No such file or directory (os error 2)",
    );
    let events = w.load("whatever.ogg".to_string(), Err(why), 0);

    assert!(matches!(events[..], [EngineEvent::Stopped]));
    assert!(w.state.error.is_some(), "no error recorded for a missing helper");
    assert!(!w.state.playing);
    let error = w.state.error.unwrap();
    assert!(
        error.contains("spawn") || error.contains("No such file"),
        "unhelpful error: {error}",
    );
    assert!(error.contains("/definitely/not/a/real/program"));
}

#[test]
fn a_failed_start_is_explained() {
    assert!(!is_a_path("earshot", '/'));
    assert!(is_a_path("./earshot", '\\'));
    assert!(is_a_path("bin\\earshot", '\\'));
    assert_eq!(
        spawn_error("earshot", '/', SpawnFailure::NotFound, "x"),
        "earshot is not on PATH — install: cargo install earshot"
    );
    assert_eq!(
        spawn_error("bin\\earshot", '\\', SpawnFailure::NotFound, "x"),
        "no such source program: bin\\earshot: x"
    );
    assert_eq!(
        spawn_error("./e", '/', SpawnFailure::PermissionDenied, "denied"),
        "./e is not executable: denied"
    );
    assert_eq!(
        spawn_error("e", '/', SpawnFailure::Other, "odd"),
        "could not start e: odd"
    );
}

#[test]
fn the_helper_is_invoked_and_its_metadata_line_found() {
    assert_eq!(myx::external::DEFAULT_PROGRAM, "earshot");
    assert_eq!(helper_args("uri", 90_000), ["uri", "--start-ms", "90000"]);
    let mut drain = StderrDrain { meta_sent: false };
    assert_eq!(drain.line("warming up"), None);
    assert_eq!(drain.line("earshot-meta: {}"), Some("{}".to_string()));
    assert_eq!(drain.line("earshot-meta: again"), None, "only the first counts");
    assert_eq!(no_metadata("earshot"), "earshot: no metadata line within 10s");
    assert!(cannot_decode("opus", "unsupported").contains("symphonia has no Opus decoder"));
}
