//! The application state: selection, playing, events, replies, resuming.

use myx::app::action::ActionItem;
use myx::app::action::ActionKind;
use myx::app::action::ActionMenu;
use myx::app::event::meta_is_current;
use myx::app::event::worth_logging;
use myx::app::event::MediaUpdate;
use myx::app::event::MetaReply;
use myx::app::event::TrackMeta;
use myx::app::media::consume_media_event;
use myx::app::media::MediaAction;
use myx::app::media::MediaKey;
use myx::app::play::context_target;
use myx::app::play::enter_label;
use myx::app::play::Activated;
use myx::app::play::Resume;
use myx::app::replies::Radio;
use myx::app::replies::RemotePlaybackState;
use myx::app::state::App;
use myx::app::state::EngineCmd;
use myx::app::ui_loop::first_clock;
use myx::engine::EngineEvent;
use myx::frame::should_draw;
use myx::frame::ArtRepaint;
use myx::frame::ThemeState;
use myx::frame::ANIM_FRAME;
use myx::frame::IDLE_REDRAW;
use myx::frame::MIN_FRAME;
use myx::frame::SYNC_EVERY;
use myx::library::sort_list;
use myx::library::LibItem;
use myx::library::RightView;
use myx::library::Section;
use myx::library::SortMode;
use myx::persist::initial_volume;
use myx::persist::LastPlayed;
use myx::persist::PlaySource;
use myx::persist::SavedState;
use myx::playback::scrub_target;
use myx::playback::should_apply_engine_position;
use myx::playback::NowPlaying;
use myx::playback::PlaybackState;
use myx::playback::SEEK_REPEAT;
use myx::playback::SEEK_SETTLE;
use myx::startup::auth_then_terminal;
use myx::startup::optional_integration;

fn track(name: &str) -> LibItem {
    LibItem::track(name.into(), "artist".into(), format!("spotify:track:{name}"))
}

fn album(name: &str) -> LibItem {
    LibItem::ctx(name.into(), String::new(), format!("spotify:album:{name}"))
}

fn app() -> App {
    App::boot(SavedState::fresh(), true, 0)
}

fn showing(items: Vec<LibItem>) -> App {
    let mut a = app();
    a.browse.library.set(Section::Home, items);
    a
}

fn now(uri: &str, position_ms: u32, is_playing: bool) -> NowPlaying {
    NowPlaying {
        uri: uri.to_string(),
        title: "Title".to_string(),
        artist: "Artist".to_string(),
        album: "Album".to_string(),
        duration_ms: 200_000,
        position_ms,
        position_at: 0,
        is_playing,
    }
}

const MS: u64 = 1_000_000;

// ------------------------------------------------------------------- selection

#[test]
fn the_selection_skips_headers() {
    let mut a = showing(vec![
        LibItem::header("One"),
        track("a"),
        LibItem::header("Two"),
        LibItem::header("Three"),
        track("b"),
    ]);
    a.normalize_selection();
    assert_eq!(a.browse.selected, 1);
    a.move_sel(1);
    assert_eq!(a.browse.selected, 4);
    a.move_sel(1);
    assert_eq!(a.browse.selected, 4, "clamped at the end");
    a.move_sel(-1);
    assert_eq!(a.browse.selected, 1);
    a.move_sel(-1);
    assert_eq!(a.browse.selected, 1, "no selectable row above");
    a.move_sel(0);
    assert_eq!(a.browse.selected, 1);
    assert_eq!(a.first_selectable(), 1);
    assert_eq!(showing(vec![LibItem::header("x")]).first_selectable(), 0);
    let mut empty = app();
    empty.move_sel(1);
    assert_eq!(empty.browse.selected, 0);
}

#[test]
fn the_list_in_place_is_the_one_on_screen() {
    let mut a = showing(vec![track("a")]);
    a.cur_list_mut().push(track("b"));
    assert_eq!(a.browse.library.home.len(), 2);
    a.search.searching = true;
    a.cur_list_mut().push(track("s"));
    assert_eq!(a.search.search_results.len(), 1);
    a.detail_ready("ctx".into(), "t".into(), Vec::new());
    a.cur_list_mut().push(track("d"));
    assert_eq!(a.cur_items()[0].name, "d");
    assert_eq!(a.browse.details[0].items.len(), 1);
}

// --------------------------------------------------------------------- playing

#[test]
fn enter_on_a_track_plays_the_list_from_there() {
    let mut a = showing(vec![LibItem::header("Top"), track("a"), album("x"), track("b")]);
    a.browse.selected = 3;
    let (out, cmd) = a.activate();
    assert!(matches!(out, Activated::Nothing));
    let Some(EngineCmd::PlayTracks { uris, track, position_ms, shuffle }) = cmd else {
        panic!("a list must play");
    };
    assert_eq!(uris, ["spotify:track:a", "spotify:track:b"]);
    assert_eq!(track.as_deref(), Some("spotify:track:b"));
    assert_eq!((position_ms, shuffle), (0, false));
    assert_eq!(a.status, "starting b…");
    assert!(matches!(a.transport.source, PlaySource::Unknown));
    assert_eq!(a.transport.source_name, "Home");
}

#[test]
fn enter_on_the_liked_row_plays_all_liked_songs() {
    let mut a = app();
    a.browse.section = Section::Liked;
    a.browse.library.liked = vec![
        LibItem::play("▶︎  Play Liked Songs".into(), "myx:action:liked-play".into()),
        LibItem::header("Songs"),
    ];
    let (_, cmd) = a.activate();
    assert!(cmd.is_none(), "nothing liked yet");
    a.browse.library.liked.push(track("l1"));
    a.browse.library.liked.push(track("l2"));
    a.transport.shuffle = true;
    let (_, cmd) = a.activate();
    let Some(EngineCmd::PlayTracks { uris, track: None, shuffle: true, .. }) = cmd else {
        panic!("the liked songs must play");
    };
    assert_eq!(uris, ["spotify:track:l1", "spotify:track:l2"]);
    assert!(matches!(a.transport.source, PlaySource::Liked));
    a.browse.selected = 3;
    a.activate();
    assert_eq!(a.transport.source_name, "Liked Songs");
}

#[test]
fn enter_in_a_drill_in_plays_its_context() {
    let mut a = showing(vec![album("x")]);
    let (out, cmd) = a.activate();
    assert!(matches!(out, Activated::Open(uri, name) if uri == "spotify:album:x" && name == "x"));
    assert!(cmd.is_none());
    assert_eq!(a.status, "opening x…");
    a.detail_ready(
        "spotify:album:x".into(),
        "Album X".into(),
        vec![LibItem::play("▶︎ Play".into(), "spotify:album:x".into()), track("t")],
    );
    assert_eq!(a.browse.details[0].parent_selected, 0);
    let (_, cmd) = a.activate();
    assert!(matches!(cmd, Some(EngineCmd::PlayContext { uri, .. }) if uri == "spotify:album:x"));
    assert_eq!(a.transport.source_name, "Album X");
    a.browse.selected = 1;
    let (_, cmd) = a.activate();
    assert!(matches!(cmd, Some(EngineCmd::PlayContextAt { track: Some(t), .. }) if t == "spotify:track:t"));
    assert!(matches!(&a.transport.source, PlaySource::Context(u) if u == "spotify:album:x"));
}

#[test]
fn enter_on_a_search_result_starts_its_radio() {
    let mut a = app();
    a.search.searching = true;
    a.search_ready(vec![LibItem::header("Songs"), track("seed")]);
    assert_eq!(a.browse.selected, 1);
    let (out, cmd) = a.activate();
    assert!(matches!(out, Activated::Radio(u) if u == "spotify:track:seed"));
    assert!(cmd.is_none());
    assert_eq!(a.transport.source_name, "Radio · seed");
    a.search_ready(Vec::new());
    assert_eq!(a.status, "no results");
}

#[test]
fn a_guest_is_told_that_playback_needs_premium() {
    let mut a = showing(vec![track("a")]);
    a.engine_up = false;
    let (_, cmd) = a.activate();
    assert!(cmd.is_none());
    assert_eq!(a.status, "guest mode: playback needs Spotify Premium");
    assert!(a.guest_only());
    assert!(a.bump_volume(5).is_none());
    assert!(matches!(a.resume_source(), Resume::Engine(None)));
}

#[test]
fn the_play_keys_play_contexts_only() {
    let mut a = showing(vec![album("x"), track("t")]);
    let cmd = a.play_selected_context(true);
    assert!(matches!(cmd, Some(EngineCmd::PlayContext { shuffle: true, .. })));
    assert_eq!(a.status, "starting x…");
    a.browse.selected = 1;
    assert!(a.play_selected_context(false).is_none());
    assert_eq!(a.status, "not a playlist, album, or artist");
    a.browse.selected = 9;
    assert!(a.play_selected_context(false).is_none());
    assert!(context_target(&album("x")).is_some());
    assert!(context_target(&track("x")).is_none());
    assert!(context_target(&LibItem::header("x")).is_none());
    assert_eq!(enter_label(Some(&album("x"))), "open");
    assert_eq!(enter_label(Some(&track("x"))), "select");
    assert_eq!(enter_label(None), "select");
    a.play_failed("no device");
    assert_eq!(a.status, "couldn't play: no device");
}

#[test]
fn the_volume_is_clamped() {
    let mut a = app();
    assert_eq!(a.transport.volume, 80);
    assert!(matches!(a.bump_volume(50), Some(EngineCmd::SetVolume(65535))));
    assert_eq!(a.transport.volume, 100);
    assert!(matches!(a.bump_volume(i16::MIN), Some(EngineCmd::SetVolume(0))));
    a.apply_volume(200);
    assert_eq!(a.transport.volume, 100);
}

// ---------------------------------------------------------------------- events

#[test]
fn a_new_track_is_waited_for_and_late_replies_are_dropped() {
    let mut a = app();
    let effects = a.handle_engine_event(EngineEvent::TrackChanged { uri: "spotify:track:new".into() }, 0);
    assert_eq!(effects.fetch_meta.as_deref(), Some("new"));
    assert_eq!(a.status, "loading track…");
    let meta = |uri: &str| TrackMeta {
        uri: uri.into(),
        title: "T".into(),
        artist: "A".into(),
        album: "L".into(),
        duration_ms: 1_000,
    };
    assert_eq!(a.apply_meta(meta("spotify:track:old"), 5), MetaReply::Stale);
    assert!(a.playback.now.is_none());
    a.view.lyrics_synced = true;
    assert_eq!(a.apply_meta(meta("spotify:track:new"), 5), MetaReply::Applied { fetch_lyrics: true });
    assert_eq!(a.playback.now.as_ref().unwrap().title, "T");
    assert!(!a.view.lyrics_synced && a.status.is_empty());
    assert_eq!(a.art_repaint, ArtRepaint::Draw);
    assert!(meta_is_current(None, "x"));
    assert!(meta_is_current(Some("x"), "x"));
    assert!(!meta_is_current(Some("x"), "y"));
}

#[test]
fn modes_are_reapplied_once_per_playback() {
    let mut a = app();
    a.transport.shuffle = true;
    a.playback.now = Some(now("u", 0, false));
    let playing = |ms| EngineEvent::Playing { uri: "u".into(), position_ms: ms };
    let first = a.handle_engine_event(playing(10), 0);
    assert_eq!(first.cmds.len(), 3);
    assert!(matches!(first.cmds[0], EngineCmd::Shuffle(true)));
    assert!(matches!(first.cmds[1], EngineCmd::Repeat(false)));
    assert!(matches!(first.cmds[2], EngineCmd::SetVolume(52428)));
    assert_eq!(first.media, Some(MediaUpdate::Playing(10)));
    assert!(a.playback.now.as_ref().unwrap().is_playing);
    assert!(a.handle_engine_event(playing(20), 0).cmds.is_empty());
    let paused = a.handle_engine_event(EngineEvent::Paused { uri: "u".into(), position_ms: 30 }, 0);
    assert_eq!(paused.media, Some(MediaUpdate::Paused(30)));
    let tick = a.handle_engine_event(
        EngineEvent::PositionCorrection { uri: "u".into(), position_ms: 40 },
        0,
    );
    assert_eq!(tick.media, Some(MediaUpdate::Paused(40)));
    a.session.reclaimed = true;
    a.handle_engine_event(EngineEvent::Reconnected, 0);
    assert_eq!(a.status, "reconnected — press play to resume");
    let stop = a.handle_engine_event(EngineEvent::Stopped, 0);
    assert_eq!(stop.media, Some(MediaUpdate::Stopped));
    assert!(a.playback.now.is_none() && !a.session.reclaimed && !a.transport.playback_started);
    a.handle_engine_event(EngineEvent::Reconnecting, 0);
    assert_eq!(a.status, "connection dropped — reconnecting…");
    a.handle_engine_event(EngineEvent::Reconnected, 0);
    assert_eq!(a.status, "reconnected");
    assert!(worth_logging(&EngineEvent::Stopped));
    assert!(!worth_logging(&playing_tick()));
}

fn playing_tick() -> EngineEvent {
    EngineEvent::PositionCorrection { uri: String::new(), position_ms: 0 }
}

// -------------------------------------------------------------------- playhead

#[test]
fn scrubbing_is_coalesced_into_one_seek() {
    let mut p = PlaybackState::new(Some(now("u", 10_000, true)), 0);
    assert_eq!(p.position_ms(2_000 * MS), 12_000);
    p.seek_step(5_000, 0);
    assert_eq!(p.seek_target, Some(15_000));
    p.seek_step(5_000, SEEK_REPEAT - 1);
    assert_eq!(p.seek_target, Some(15_000), "throttled");
    p.seek_step(5_000, SEEK_REPEAT);
    assert_eq!(p.seek_target, Some(20_000));
    p.set_local_position(1, true, SEEK_REPEAT);
    assert_eq!(p.now.as_ref().unwrap().position_ms, 20_000, "the engine is not believed mid-scrub");
    assert_eq!(p.flush_seek(SEEK_REPEAT + SEEK_SETTLE - 1), None);
    assert_eq!(p.flush_seek(SEEK_REPEAT + SEEK_SETTLE), Some(20_000));
    assert_eq!(p.flush_seek(SEEK_REPEAT + SEEK_SETTLE), None);
    p.set_local_position(1, true, 0);
    assert_eq!(p.now.as_ref().unwrap().position_ms, 1);
}

#[test]
fn the_playhead_stays_inside_the_track() {
    let mut p = PlaybackState::new(Some(now("u", 199_000, true)), 0);
    assert_eq!(p.position_ms(60_000 * MS), 200_000);
    assert_eq!(p.seek_to(900_000, 0), Some(200_000));
    let mut nothing = PlaybackState::new(None, 0);
    assert_eq!(nothing.position_ms(5), 0);
    assert_eq!(nothing.seek_to(1, 0), None);
    nothing.seek_step(5_000, 0);
    assert_eq!(nothing.seek_target, None);
    assert_eq!(scrub_target(2_000, 10_000, -5_000), 0);
    assert_eq!(scrub_target(9_000, 10_000, 5_000), 10_000);
    assert_eq!(scrub_target(1_000, 10_000, 5_000), 6_000);
    assert!(should_apply_engine_position(true, None));
    assert!(!should_apply_engine_position(true, Some(1)));
    assert!(should_apply_engine_position(false, Some(1)));
    let far = PlaybackState::new(Some(now("u", u32::MAX, true)), 0);
    assert!(!far.is_countable(MS));
    assert!(far.is_countable(0));
}

// -------------------------------------------------------------------- resuming

fn saved() -> SavedState {
    SavedState {
        volume: 42,
        shuffle: true,
        repeat: true,
        last_played: Some(LastPlayed {
            uri: "spotify:track:last".into(),
            title: "Last".into(),
            artist: "A".into(),
            album: "B".into(),
            duration_ms: 100_000,
            position_ms: 33_000,
        }),
        queue: vec!["q1 — a".into()],
        queue_uris: vec!["spotify:track:q1".into()],
        source: PlaySource::Context("spotify:playlist:p".into()),
        source_name: "P".into(),
    }
}

#[test]
fn a_session_resumes_where_it_was_left() {
    let mut a = App::boot(saved(), true, 7);
    assert_eq!(a.playback.position_ms(7 + 60_000 * MS), 33_000, "shown paused");
    assert_eq!(a.transport.volume, 42);
    assert_eq!(a.take_restored().as_deref(), Some("last"));
    assert_eq!(a.session.pending_meta.as_deref(), Some("spotify:track:last"));
    assert!(a.take_restored().is_none(), "once");
    let Resume::Engine(Some(EngineCmd::PlayContextAt { uri, track, position_ms, shuffle })) =
        a.resume_source()
    else {
        panic!("the context must resume");
    };
    assert_eq!(uri, "spotify:playlist:p");
    assert_eq!(track.as_deref(), Some("spotify:track:last"));
    assert_eq!((position_ms, shuffle), (33_000, true));

    let again = a.snapshot(99);
    assert_eq!(again.volume, 42);
    assert_eq!(again.last_played.unwrap().position_ms, 33_000);
    assert_eq!(again.queue_uris, ["spotify:track:q1"]);
    assert_eq!(again.source_name, "P");
}

#[test]
fn each_source_resumes_in_its_own_way() {
    let mut a = App::boot(saved(), true, 0);
    a.transport.source = PlaySource::Radio("spotify:track:seed".into());
    assert!(matches!(a.resume_source(), Resume::Radio { position_ms: 33_000, .. }));
    assert_eq!(a.status, "resuming radio…");

    a.transport.source = PlaySource::Liked;
    let Resume::Engine(Some(EngineCmd::PlayTracks { uris, .. })) = a.resume_source() else {
        panic!("the saved queue must resume");
    };
    assert_eq!(uris, ["spotify:track:last", "spotify:track:q1"], "nothing liked is loaded yet");
    a.browse.library.liked = vec![track("l")];
    let Resume::Engine(Some(EngineCmd::PlayTracks { uris, .. })) = a.resume_source() else {
        panic!("the liked songs must resume");
    };
    assert_eq!(uris, ["spotify:track:l"]);

    a.transport.source = PlaySource::Unknown;
    a.transport.queue_uris.clear();
    assert!(matches!(
        a.resume_source(),
        Resume::Engine(Some(EngineCmd::PlayTrackAt { position_ms: 33_000, .. }))
    ));
    a.playback.now = None;
    assert!(matches!(a.resume_source(), Resume::Engine(Some(EngineCmd::Play))));
}

#[test]
fn the_initial_volume_is_sensible() {
    assert_eq!(initial_volume(0), 80);
    assert_eq!(initial_volume(1), 1);
    assert_eq!(initial_volume(255), 100);
}

// ------------------------------------------------------------------ media keys

#[test]
fn a_play_key_resumes_when_nothing_is_live() {
    let mut a = App::boot(saved(), true, 0);
    assert!(matches!(a.handle_media_key(MediaKey::Toggle, 0), MediaAction::Resume(_)));
    assert!(a.transport.playback_started);
    assert!(matches!(
        a.handle_media_key(MediaKey::Toggle, 0),
        MediaAction::Engine(Some(EngineCmd::Toggle))
    ));
    let mut b = App::boot(saved(), true, 0);
    b.session.reclaimed = true;
    assert!(matches!(
        b.handle_media_key(MediaKey::Play, 0),
        MediaAction::Engine(Some(EngineCmd::Play))
    ));
    assert!(b.transport.playback_started);
}

#[test]
fn media_keys_seek_and_skip() {
    let mut a = App::boot(saved(), true, 0);
    assert!(matches!(
        a.handle_media_key(MediaKey::SetPosition(500_000), 0),
        MediaAction::Engine(Some(EngineCmd::Seek(100_000)))
    ));
    a.handle_media_key(MediaKey::SeekBackwardBy(1_000), 0);
    assert_eq!(a.playback.seek_target, Some(99_000));
    a.handle_media_key(MediaKey::SeekBackward, SEEK_REPEAT);
    assert_eq!(a.playback.seek_target, Some(94_000));
    a.handle_media_key(MediaKey::SeekForward, 2 * SEEK_REPEAT);
    assert_eq!(a.playback.seek_target, Some(99_000));
    assert!(matches!(
        a.handle_media_key(MediaKey::Next, 0),
        MediaAction::Engine(Some(EngineCmd::Next))
    ));
    assert!(matches!(a.handle_media_key(MediaKey::Other, 0), MediaAction::Engine(None)));
    assert!(a.can_take(MediaKey::SeekForward, 3 * SEEK_REPEAT));
    assert!(!a.can_take(MediaKey::SeekForwardBy(i64::MAX), 3 * SEEK_REPEAT));
    assert!(!a.can_take(MediaKey::SeekBackwardBy(i64::MIN), 3 * SEEK_REPEAT));
    assert!(a.can_take(MediaKey::SeekBackwardBy(i64::MAX), 3 * SEEK_REPEAT));
}

#[test]
fn a_closed_media_channel_stays_closed() {
    let mut open = true;
    assert_eq!(consume_media_event(Ok(7), &mut open), Some(7));
    assert!(open);
    let gone: Result<u8, flume::RecvError> = Err(flume::RecvError::Disconnected);
    assert_eq!(consume_media_event(gone, &mut open), None);
    assert!(!open);
}

// --------------------------------------------------------------------- replies

#[test]
fn a_section_arrives_numbered_and_sorted() {
    let mut a = app();
    a.browse.sort = SortMode::Title;
    a.library_loaded(Section::Home, vec![LibItem::header("Top"), track("b"), track("a")]);
    let home = &a.browse.library.home;
    assert_eq!(home[1].name, "a");
    assert_eq!((home[1].order, home[2].order), (2, 1));
    assert_eq!(a.browse.selected, 1, "off the header");
    assert_eq!(a.status, "loaded Home");
}

#[test]
fn the_library_is_retried_twice() {
    let mut a = app();
    let mut attempts = 0;
    assert!(a.library_done(false, &mut attempts));
    assert!(a.library_done(false, &mut attempts));
    assert!(!a.library_done(false, &mut attempts));
    assert_eq!(a.status, "library failed — press r to reload");
    assert!(!a.library_done(true, &mut attempts));
    assert_eq!(attempts, 0);
    assert!(a.status.is_empty());
}

#[test]
fn a_station_starts_when_it_has_tracks() {
    let mut a = app();
    let radio = Radio { start_position_ms: 5, uris: vec!["u".into()] };
    assert!(matches!(
        a.radio_ready(Ok(radio)),
        Some(EngineCmd::PlayTracks { position_ms: 5, shuffle: false, .. })
    ));
    assert!(a.transport.playback_started && a.wants_queue());
    assert!(a.radio_ready(Ok(Radio { start_position_ms: 0, uris: vec![] })).is_none());
    assert_eq!(a.status, "radio: no tracks returned");
    a.radio_ready(Err("timed out".into()));
    assert_eq!(a.status, "radio failed: timed out");
}

#[test]
fn an_empty_queue_does_not_wipe_the_snapshot() {
    let mut a = App::boot(saved(), true, 0);
    a.queue_ready(Vec::new());
    assert_eq!(a.transport.queue, ["q1 — a"]);
    a.queue_ready(vec![("x — y".into(), "u".into())]);
    assert_eq!(a.transport.queue, ["x — y"]);
    assert_eq!(a.transport.queue_uris, ["u"]);
}

fn menu(n: usize, selected: usize) -> ActionMenu {
    ActionMenu {
        title: "t".into(),
        items: (0..n)
            .map(|_| ActionItem { label: "l".into(), kind: ActionKind::CopyLink { uri: "u".into() } })
            .collect(),
        selected,
    }
}

#[test]
fn an_enriched_menu_keeps_the_selection() {
    let mut a = app();
    a.menu_ready(menu(3, 0));
    assert!(a.view.actions.is_none(), "a closed menu is not reopened");
    a.view.actions = Some(menu(6, 5));
    a.menu_ready(menu(3, 0));
    assert_eq!(a.view.actions.as_ref().unwrap().selected, 2);
    a.menu_ready(menu(0, 0));
    assert_eq!(a.view.actions.as_ref().unwrap().items.len(), 3);
}

#[test]
fn a_live_session_is_taken_over_paused() {
    let mut a = app();
    let cmd = a.reclaimed(
        RemotePlaybackState {
            track_id: "live".into(),
            progress_ms: 9_000,
            shuffle: true,
            repeat: false,
            volume: 250,
        },
        3,
    );
    assert!(matches!(cmd, Some(EngineCmd::SetVolume(65535))));
    let n = a.playback.now.as_ref().unwrap();
    assert_eq!((n.uri.as_str(), n.position_ms, n.is_playing), ("spotify:track:live", 9_000, false));
    assert_eq!(a.session.pending_meta.as_deref(), Some("spotify:track:live"));
    assert!(a.session.reclaimed && a.transport.shuffle);
    a.say("hello".into());
    assert_eq!(a.status, "hello");
    a.lyrics_ready(vec![(1, "la".into())], true);
    a.view.mode = RightView::Lyrics;
    assert!(a.animating(false, false));
}

// ----------------------------------------------------------------------- frames

#[test]
fn frames_are_drawn_when_they_are_worth_it() {
    assert!(should_draw(true, false, MIN_FRAME));
    assert!(!should_draw(true, true, MIN_FRAME - 1));
    assert!(should_draw(false, true, ANIM_FRAME));
    assert!(!should_draw(false, true, ANIM_FRAME - 1));
    assert!(should_draw(false, false, IDLE_REDRAW));
    assert!(!should_draw(false, false, IDLE_REDRAW - 1));
    assert_eq!(ArtRepaint::Wipe.advance(), ArtRepaint::Draw);
    assert_eq!(ArtRepaint::Draw.advance(), ArtRepaint::Idle);
    assert_eq!(ArtRepaint::Idle.advance(), ArtRepaint::Idle);
}

#[test]
fn a_tick_draws_and_persists_in_time() {
    let mut a = app();
    let t0 = 10 * IDLE_REDRAW;
    let mut clock = first_clock(&a, t0);
    let first = a.tick_end(&mut clock, false, false, t0);
    assert_eq!(first.draw, Some(ArtRepaint::Idle));
    assert!(!first.save);
    assert_eq!(a.tick_end(&mut clock, false, false, t0 + MIN_FRAME).draw, None);
    a.view.zen = true;
    assert_eq!(a.tick_end(&mut clock, false, false, t0 + MIN_FRAME).draw, Some(ArtRepaint::Wipe));
    assert_eq!(a.art_repaint, ArtRepaint::Draw);
    assert_eq!(a.tick_end(&mut clock, false, false, t0 + 2 * MIN_FRAME).draw, Some(ArtRepaint::Draw));
    a.view.actions = Some(menu(1, 0));
    assert_eq!(a.tick_end(&mut clock, false, false, t0 + 3 * MIN_FRAME).draw, Some(ArtRepaint::Idle));
    a.view.actions = None;
    assert_eq!(a.tick_end(&mut clock, false, false, t0 + 4 * MIN_FRAME).draw, Some(ArtRepaint::Wipe));
    a.transport.playback_started = true;
    let sync = a.tick_end(&mut clock, false, false, t0 + SYNC_EVERY);
    assert!(sync.save && sync.fetch_queue);
    a.playback = PlaybackState::new(Some(now("u", 0, false)), 0);
    a.playback.seek_step(7_000, 0);
    assert!(matches!(a.tick_begin(SEEK_SETTLE), Some(EngineCmd::Seek(7_000))));
    a.repainted();
    assert_eq!(a.art_repaint, ArtRepaint::Wipe);
}

#[test]
fn a_finished_fade_snaps_to_its_target() {
    let mut theme = ThemeState { displayed: 0u32, target: 0, fading: false };
    theme.advance(5, false);
    assert_eq!(theme.displayed, 0);
    theme.start_fade(100);
    theme.advance(60, false);
    assert_eq!((theme.displayed, theme.fading), (60, true));
    theme.advance(99, true);
    assert_eq!((theme.displayed, theme.fading), (100, false));
}

// ----------------------------------------------------------------------- startup

#[test]
fn the_terminal_waits_for_authorization() {
    let ok: Result<(u8, u8), &str> = auth_then_terminal(|| Ok(1), || Ok(2));
    assert_eq!(ok, Ok((1, 2)));
    let denied: Result<(u8, u8), &str> =
        auth_then_terminal(|| Err("denied"), || panic!("the terminal must not be touched"));
    assert_eq!(denied, Err("denied"));
    let dumb: Result<(u8, u8), &str> = auth_then_terminal(|| Ok(1), || Err("no tty"));
    assert_eq!(dumb, Err("no tty"));
}

#[test]
fn a_missing_integration_is_left_out() {
    assert_eq!(optional_integration(true, || Ok::<u8, ()>(3)), Some(3));
    assert_eq!(optional_integration(true, || Err::<u8, ()>(())), None);
    let untried: Option<u8> = optional_integration(false, || -> Result<u8, ()> {
        panic!("not ready, not tried")
    });
    assert_eq!(untried, None);
}

#[test]
fn a_loaded_section_can_be_sorted_to_and_fro() {
    let mut a = app();
    let items = vec![LibItem::header("Songs"), track("c"), track("a"), track("b")];
    a.library_loaded(Section::Liked, items);
    let shown = |a: &App| -> Vec<String> {
        a.browse.library.items(Section::Liked).iter().map(|i| i.name.clone()).collect()
    };
    assert_eq!(shown(&a), ["Songs", "c", "a", "b"]);
    sort_list(a.browse.library.items_mut(Section::Liked), SortMode::Title);
    assert_eq!(shown(&a), ["Songs", "a", "b", "c"]);
    sort_list(a.browse.library.items_mut(Section::Liked), SortMode::Added);
    assert_eq!(shown(&a), ["Songs", "c", "a", "b"]);
}

#[test]
fn a_second_ctrl_c_soon_after_quits() {
    let mut a = app();
    assert!(!a.session.ctrl_c(10_000 * MS));
    assert!(!a.session.ctrl_c(11_500 * MS), "a second and a half later");
    assert!(a.session.ctrl_c(12_999 * MS));
}
