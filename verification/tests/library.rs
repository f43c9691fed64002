//! Sections, rows, sorting, and the sidebar.

use myx::app::state::App;
use myx::cover::choose_protocol;
use myx::cover::lacks_placeholders;
use myx::cover::needs_encode;
use myx::cover::tmux_stores_sixel;
use myx::cover::CoverCache;
use myx::cover::CoverStep;
use myx::cover::Protocol;
use myx::cover::Terminal;
use myx::library::sort_list;
use myx::library::LibItem;
use myx::library::Library;
use myx::library::RightView;
use myx::library::Section;
use myx::library::SortMode;
use myx::persist::SavedState;
use myx::room::host::HostInfo;
use myx::ui::library::library_pane;
use myx::ui::library::scroll_offset;
use myx::ui::library::split_at_cursor;
use myx::ui::library::thumb;
use myx::ui::library::PaneList;
use myx::ui::library::Thumb;
use myx::ui::room::room_lines;
use myx::ui::room::Playing;
use myx::ui::room::RoomInput;
use myx::ui::room::RoomMode;
use myx::ui::room::RoomState;
use myx::ui::spans::inset;
use myx::ui::spans::Span;
use myx::ui::spans::Tone;
use myx::util::Rect;

fn track(name: &str, artist: &str, order: u32) -> LibItem {
    let mut t = LibItem::track(name.into(), artist.into(), format!("spotify:track:{name}"));
    t.order = order;
    t
}

fn names(items: &[LibItem]) -> Vec<&str> {
    items.iter().map(|i| i.name.as_str()).collect()
}

#[test]
fn sections_are_leafed_through_in_a_ring() {
    assert_eq!(Section::Home.shift(1), Section::Liked);
    assert_eq!(Section::Home.shift(-1), Section::Recent);
    assert_eq!(Section::Recent.shift(1), Section::Home);
    assert_eq!(Section::Albums.shift(-9), Section::Home);
    assert_eq!(Section::Albums.index(), 3);
    assert_eq!(Section::Playlists.label(), "Playlists");
    assert_eq!(RightView::NowPlaying.shift(-1), RightView::Queue);
    assert_eq!(RightView::Queue.shift(4), RightView::NowPlaying);
    assert_eq!(RightView::NowPlaying.label(), "Now Playing");
    assert_eq!(RightView::Lyrics.shift(isize::MIN), RightView::Queue);
    assert_eq!(RightView::NowPlaying.shift(isize::MAX), RightView::Lyrics);
}

#[test]
fn sorting_keeps_leading_rows_pinned() {
    let mut items = vec![
        LibItem::play("Play".into(), "myx:action:liked-play".into()),
        LibItem::header("Songs"),
        track("beta", "Zed", 0),
        track("Alpha", "young", 1),
        track("alpha", "Young", 2),
        track("Éclair", "abba", 3),
    ];
    sort_list(&mut items, SortMode::Title);
    assert_eq!(names(&items), ["Play", "Songs", "Alpha", "alpha", "beta", "Éclair"]);
    sort_list(&mut items, SortMode::Artist);
    assert_eq!(names(&items), ["Play", "Songs", "Éclair", "Alpha", "alpha", "beta"]);
    sort_list(&mut items, SortMode::Added);
    assert_eq!(names(&items), ["Play", "Songs", "beta", "Alpha", "alpha", "Éclair"]);
}

#[test]
fn the_orders_come_round() {
    assert_eq!(SortMode::Added.next(), SortMode::Title);
    assert_eq!(SortMode::Title.next(), SortMode::Artist);
    assert_eq!(SortMode::Artist.next(), SortMode::Added);
    assert_eq!(SortMode::Artist.label(), "artist");
}

#[test]
fn each_section_holds_its_own_rows() {
    let mut library = Library::default();
    library.set(Section::Albums, vec![track("a", "", 0)]);
    library.items_mut(Section::Liked).push(track("l", "", 0));
    assert_eq!(names(library.items(Section::Albums)), ["a"]);
    assert_eq!(names(library.items(Section::Liked)), ["l"]);
    assert!(library.items(Section::Home).is_empty());
}

// ------------------------------------------------------------------ the sidebar

fn read(line: &[Span]) -> String {
    line.iter().map(|s| s.text.as_str()).collect()
}

fn app_with(items: Vec<LibItem>) -> App {
    let mut app = App::boot(SavedState::fresh(), true, 0);
    app.browse.library.set(Section::Home, items);
    app
}

const AREA: Rect = Rect { x: 0, y: 0, width: 34, height: 8 };

#[test]
fn the_pane_shows_the_section_and_its_rows() {
    let app = app_with(vec![
        LibItem::header("Recently Played"),
        track("A song with quite a long name", "Someone", 0),
        LibItem::ctx("Mix".into(), "142 · me".into(), "spotify:playlist:1".into()),
    ]);
    let pane = library_pane(&app, AREA, 0, 0).expect("room for the pane");
    assert_eq!(read(&pane.head), "‹ Home ›  1/6 · 3");
    let PaneList::Rows { lines, viewport, scrollbar, first, total } = pane.list else {
        panic!("rows expected");
    };
    assert_eq!((first, total), (0, 3));
    assert_eq!(viewport, Rect { x: 2, y: 3, width: 30, height: 4 });
    assert!(scrollbar.is_none());
    assert_eq!(read(&lines[0]), "Recently Played");
    assert_eq!(lines[0][0].tone, Tone::Label);
    assert_eq!(read(&lines[1]), " A song with quite a long na…");
    assert_eq!(read(&lines[2]), " ▶ Mix · 142 · me");
}

#[test]
fn a_long_list_has_a_scrollbar() {
    let items: Vec<LibItem> = (0..40).map(|i| track(&format!("t{i}"), "", i)).collect();
    let mut app = app_with(items);
    app.browse.selected = 36;
    let pane = library_pane(&app, AREA, 0, 36).expect("room for the pane");
    let PaneList::Rows { lines, scrollbar, .. } = pane.list else {
        panic!("rows expected");
    };
    assert_eq!(lines.len(), 4);
    assert_eq!(read(&lines[0]), " t36");
    assert_eq!(lines[0][0].tone, Tone::Strong);
    assert_eq!(lines[1][0].tone, Tone::Muted);
    let bar = scrollbar.expect("a scrollbar");
    assert_eq!(bar.thumb, Thumb { top: 3, height: 1 });
    assert_eq!(bar.track, Rect { x: 32, y: 3, width: 1, height: 4 });
}

#[test]
fn the_thumb_follows_the_list() {
    assert_eq!(thumb(10, 20, 0), Thumb { top: 0, height: 5 });
    assert_eq!(thumb(10, 20, 5), Thumb { top: 3, height: 5 });
    assert_eq!(thumb(10, 20, 10), Thumb { top: 5, height: 5 });
    assert_eq!(thumb(10, 100_000, 99_990), Thumb { top: 9, height: 1 });
}

#[test]
fn the_head_shows_search_and_drill_ins() {
    let mut app = app_with(Vec::new());
    let pane = library_pane(&app, AREA, 0, 0).unwrap();
    assert!(matches!(pane.list, PaneList::Empty(r) if r.y == 3 && r.height == 1));
    app.search.query = "daft".to_string();
    app.search.input_mode = true;
    assert_eq!(read(&library_pane(&app, AREA, 2, 0).unwrap().head), "search: da▏ft");
    app.search.input_mode = false;
    app.search.searching = true;
    assert_eq!(read(&library_pane(&app, AREA, 0, 0).unwrap().head), "search: daft  (Esc)");
    app.detail_ready("spotify:album:1".into(), "Discovery".into(), Vec::new());
    assert_eq!(read(&library_pane(&app, AREA, 0, 0).unwrap().head), "‹ Discovery  Esc");
    let low = Rect { height: 4, ..AREA };
    assert!(matches!(library_pane(&app, low, 0, 0).unwrap().list, PaneList::Hidden));
    assert!(library_pane(&app, Rect { height: 3, ..AREA }, 0, 0).is_none());
    app.browse.details.clear();
    app.search.searching = false;
    app.browse.sort = SortMode::Title;
    assert_eq!(read(&library_pane(&app, AREA, 0, 0).unwrap().head), "‹ Home ›  1/6 · 0  ⇅title");
}

#[test]
fn the_cursor_splits_the_query_by_characters() {
    let split = |q: &str, c| split_at_cursor(q, c);
    assert_eq!(split("日本語", 1), ("日".to_string(), "本語".to_string()));
    assert_eq!(split("abc", 0), (String::new(), "abc".to_string()));
    assert_eq!(split("abc", 9), ("abc".to_string(), String::new()));
}

#[test]
fn a_margin_larger_than_the_area_leaves_nothing() {
    let small = Rect { x: 9, y: 9, width: 3, height: 9 };
    assert_eq!(inset(small, 2, 1), Rect { x: 0, y: 0, width: 0, height: 0 });
}

// ----------------------------------------------------------------- the room view

fn room(mode: RoomMode) -> RoomState {
    RoomState {
        mode,
        guest_url: "192.168.0.7:8787".to_string(),
        guest_token: "0123456789abcdef".to_string(),
        queue: Vec::new(),
        queue_index: 0,
        input: None,
    }
}

#[test]
fn the_room_view_says_what_can_be_done() {
    let idle = room_lines(&room(RoomMode::Idle), false, None, None, 80);
    assert_eq!(read(&idle[0]), "LISTENING ROOM");
    assert_eq!(idle.len(), 7);
    let guest = room_lines(&room(RoomMode::Idle), true, None, None, 80);
    assert_eq!(read(&guest[0]), "GUEST MODE");
    assert_eq!(guest.len(), 8);
}

#[test]
fn a_host_sees_its_counters() {
    let info = HostInfo {
        port: 8787,
        token: "t0ken".to_string(),
        resolves: 5,
        joins: 2,
        cache_hits: 3,
        coalesced: 4,
        upstream: 1,
    };
    let lines = room_lines(&room(RoomMode::Host), false, Some(&info), None, 80);
    assert_eq!(read(&lines[2]), "port    8787");
    assert_eq!(read(&lines[3]), "token   t0ken");
    assert_eq!(read(&lines[4]), "joined  2   resolved  5");
    assert_eq!(read(&lines[5]), "upstream  1   cached  3   shared  4");
    assert_eq!(lines.len(), 12);
    let none = room_lines(&room(RoomMode::Host), false, None, None, 80);
    assert_eq!(read(&none[2]), "port    0");
}

#[test]
fn a_guest_sees_the_room_and_the_form() {
    let mut r = room(RoomMode::Guest);
    r.queue = vec!["a".into(), "b".into()];
    r.queue_index = 1;
    r.input = Some(RoomInput::Token);
    let now = Playing { title: "Song".into(), artist: "Band".into() };
    let lines = room_lines(&r, true, None, Some(&now), 20);
    assert_eq!(read(&lines[2]), "host   192.168.0.7:…");
    assert_eq!(read(&lines[5]), "playing Song  Band");
    assert_eq!(read(&lines[6]), "queue   2/2  (n/b to skip)");
    assert_eq!(read(&lines[lines.len() - 2]), "room token: 0123456…_");
}

// --------------------------------------------------------------------- the cover

const PLAIN: Terminal = Terminal {
    tmux_stores_sixel: false,
    no_placeholders: false,
    kitty_window: false,
};

#[test]
fn the_protocol_suits_the_terminal_unless_one_is_asked_for() {
    let pick = |d, t, e: Option<&str>, c: Option<&str>| choose_protocol(d, t, e, c);
    assert_eq!(pick(Protocol::Kitty, PLAIN, None, None), Protocol::Kitty);
    let tmux = Terminal { tmux_stores_sixel: true, ..PLAIN };
    assert_eq!(pick(Protocol::Kitty, tmux, None, None), Protocol::Sixel);
    let warp = Terminal { no_placeholders: true, ..PLAIN };
    assert_eq!(pick(Protocol::Kitty, warp, None, None), Protocol::Iterm2);
    let kitty = Terminal { kitty_window: true, ..PLAIN };
    assert_eq!(pick(Protocol::Halfblocks, kitty, None, None), Protocol::Kitty);
    assert_eq!(pick(Protocol::Sixel, kitty, None, None), Protocol::Sixel);
    assert_eq!(pick(Protocol::Kitty, tmux, Some("HalfBlocks"), Some("iterm2")), Protocol::Halfblocks);
    assert_eq!(pick(Protocol::Kitty, PLAIN, None, Some("iterm2")), Protocol::Iterm2);
    assert_eq!(pick(Protocol::Kitty, tmux, Some("bogus"), Some("iterm2")), Protocol::Sixel);
}

#[test]
fn the_terminal_is_told_apart() {
    assert!(tmux_stores_sixel(true, Some("256,sixel")));
    assert!(!tmux_stores_sixel(true, Some("256")));
    assert!(!tmux_stores_sixel(false, Some("sixel")));
    assert!(!tmux_stores_sixel(true, None));
    assert!(lacks_placeholders(true, None));
    assert!(lacks_placeholders(false, Some("WarpTerminal")));
    assert!(!lacks_placeholders(false, Some("iTerm.app")));
}

#[test]
fn the_cover_is_encoded_once_per_size() {
    let mut cache = CoverCache { encoded_for: None };
    let small = Rect { x: 0, y: 0, width: 30, height: 15 };
    assert_eq!(cache.plan(Rect { width: 0, ..small }), CoverStep::Skip);
    assert_eq!(cache.plan(small), CoverStep::Encode);
    cache.encoded(small);
    assert_eq!(cache.plan(small), CoverStep::Draw);
    assert_eq!(cache.plan(Rect { width: 31, ..small }), CoverStep::Encode);
    cache.invalidate_cache();
    assert_eq!(cache.plan(small), CoverStep::Encode);
    assert!(needs_encode(None, small));
    assert!(needs_encode(Some(Rect { height: 16, ..small }), small));
    assert!(!needs_encode(Some(small), small));
    assert!(!needs_encode(None, Rect { height: 0, ..small }));
}

/// The list stays where it is while the selection is on screen.
#[test]
fn scrolling_is_sticky() {
    assert_eq!(scroll_offset(5, 7, 10, 100), 5);
    assert_eq!(scroll_offset(5, 14, 10, 100), 5);
    assert_eq!(scroll_offset(5, 15, 10, 100), 6);
    assert_eq!(scroll_offset(5, 4, 10, 100), 4);
    assert_eq!(scroll_offset(99, 99, 10, 100), 90);
    assert_eq!(scroll_offset(95, 96, 10, 100), 90, "no room is left behind the last row");
    assert_eq!(scroll_offset(3, 2, 10, 4), 0);
    assert_eq!(scroll_offset(0, 0, 10, 0), 0);
}
