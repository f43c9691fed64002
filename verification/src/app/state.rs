//! The parts of the application state.

use crate::app::action::ActionMenu;
use crate::frame::ArtRepaint;
use crate::json;
use crate::library::LibItem;
use crate::library::Library;
use crate::library::RightView;
use crate::library::Section;
use crate::library::SortMode;
use crate::persist;
use crate::persist::PlaySource;
use crate::persist::SavedState;
use crate::playback::NowPlaying;
use crate::playback::PlaybackState;
use crate::text;
use crate::text::optional;
use vstd::prelude::*;

verus! {

/// A drill-in detail view (artist / album / playlist contents).
pub struct Detail {
    pub context_uri: String,
    pub title: String,
    pub items: Vec<LibItem>,
    pub parent_selected: usize,
}

/// Playback controls and the queue — everything the transport bar and the
/// persisted state care about. None of it touches the playhead.
pub struct Transport {
    pub shuffle: bool,
    pub repeat: bool,
    /// 0..=100.
    pub volume: u8,
    pub queue: Vec<String>,
    pub queue_uris: Vec<String>,
    /// Whether real playback has started this session (gates resume-on-play).
    pub playback_started: bool,
    /// What's playing (context/radio/liked), for faithful resume on reboot.
    pub source: PlaySource,
    pub source_name: String,
}

/// The library browser: what's loaded, where the cursor is, and the drill-in
/// stack.
pub struct BrowseState {
    pub library: Library,
    pub section: Section,
    pub selected: usize,
    pub sort: SortMode,
    /// Drill-in stack (artist → album → …). Topmost is what's shown.
    pub details: Vec<Detail>,
}

/// The `/` search overlay: whether the prompt is capturing keys, the typed
/// query, and the results that temporarily replace the library list.
pub struct SearchState {
    pub input_mode: bool,
    pub query: String,
    pub searching: bool,
    pub search_results: Vec<LibItem>,
}

/// What the user is looking at.
pub struct ViewState {
    /// Which view fills the right pane.
    pub mode: RightView,
    /// Sidebar hidden, so the right view (and its cover) gets the whole width.
    pub zen: bool,
    /// Lyrics: (timestamp_ms, line).
    pub lyrics: Vec<(u32, String)>,
    pub lyrics_synced: bool,
    /// Context actions menu overlay.
    pub actions: Option<ActionMenu>,
}

/// Cross-cutting session bookkeeping: what was resumed into, which metadata
/// fetch is still in flight, and input timestamps.
pub struct SessionState {
    pub restore_uri: Option<String>,
    /// Track URI whose metadata was last requested. Fetches can land out of
    /// order when skipping quickly, so a reply for any other track is stale.
    pub pending_meta: Option<String>,
    /// Whether a live server-side session was reclaimed.
    pub reclaimed: bool,
    /// When Ctrl-C was last pressed: a second press soon after quits.
    pub last_ctrl_c: Option<u64>,
    pub last_click: Option<(u16, u64)>,
}

/// How soon a second Ctrl-C quits, in nanoseconds.
pub const CTRL_C_AGAIN: u64 = 1_500_000_000;

impl SessionState {
    /// Ctrl-C was pressed; whether to quit.
    pub fn ctrl_c(&mut self, now: u64) -> (quit: bool)
        ensures
            quit == (match old(self).last_ctrl_c {
                Some(at) => now - at < CTRL_C_AGAIN,
                None => false,
            }),
            *final(self) == (SessionState { last_ctrl_c: Some(now), ..*old(self) }),
            quit == (old(self).last_ctrl_c matches Some(at) && now - at < 1_500_000_000),
    {
        let quit = match self.last_ctrl_c {
            Some(at) => now.saturating_sub(at) < CTRL_C_AGAIN,
            None => false,
        };
        self.last_ctrl_c = Some(now);
        quit
    }
}

/// The whole state.
pub struct App {
    /// Whether there is a streaming engine; a guest has none.
    pub engine_up: bool,
    pub playback: PlaybackState,
    pub status: String,
    pub browse: BrowseState,
    pub transport: Transport,
    pub search: SearchState,
    pub view: ViewState,
    pub session: SessionState,
    /// What the album art box owes the next frame.
    pub art_repaint: ArtRepaint,
}

/// A command to the streaming engine.
#[derive(Debug)]
pub enum EngineCmd {
    PlayContext { uri: String, shuffle: bool },
    PlayContextAt { uri: String, track: Option<String>, position_ms: u32, shuffle: bool },
    PlayTracks { uris: Vec<String>, track: Option<String>, position_ms: u32, shuffle: bool },
    PlayTrackAt { uri: String, position_ms: u32 },
    Play,
    Pause,
    Toggle,
    Stop,
    Next,
    Prev,
    Seek(u32),
    SetVolume(u16),
    Shuffle(bool),
    Repeat(bool),
}

/// The model of a command.
pub ghost enum CmdView {
    PlayContext { uri: Seq<char>, shuffle: bool },
    PlayContextAt { uri: Seq<char>, track: Option<Seq<char>>, position_ms: u32, shuffle: bool },
    PlayTracks {
        uris: Seq<Seq<char>>,
        track: Option<Seq<char>>,
        position_ms: u32,
        shuffle: bool,
    },
    PlayTrackAt { uri: Seq<char>, position_ms: u32 },
    Play,
    Pause,
    Toggle,
    Stop,
    Next,
    Prev,
    Seek(u32),
    SetVolume(u16),
    Shuffle(bool),
    Repeat(bool),
}

impl EngineCmd {
    /// The model of this command.
    pub open spec fn view(self) -> CmdView {
        match self {
            EngineCmd::PlayContext { uri, shuffle } => CmdView::PlayContext { uri: uri@, shuffle },
            EngineCmd::PlayContextAt { uri, track, position_ms, shuffle } =>
                CmdView::PlayContextAt {
                    uri: uri@,
                    track: optional(track),
                    position_ms,
                    shuffle,
                },
            EngineCmd::PlayTracks { uris, track, position_ms, shuffle } => CmdView::PlayTracks {
                uris: json::texts(uris@),
                track: optional(track),
                position_ms,
                shuffle,
            },
            EngineCmd::PlayTrackAt { uri, position_ms } => CmdView::PlayTrackAt {
                uri: uri@,
                position_ms,
            },
            EngineCmd::Play => CmdView::Play,
            EngineCmd::Pause => CmdView::Pause,
            EngineCmd::Toggle => CmdView::Toggle,
            EngineCmd::Stop => CmdView::Stop,
            EngineCmd::Next => CmdView::Next,
            EngineCmd::Prev => CmdView::Prev,
            EngineCmd::Seek(ms) => CmdView::Seek(ms),
            EngineCmd::SetVolume(v) => CmdView::SetVolume(v),
            EngineCmd::Shuffle(on) => CmdView::Shuffle(on),
            EngineCmd::Repeat(on) => CmdView::Repeat(on),
        }
    }
}

/// The model of a command that may be absent.
pub open spec fn cmd_view(cmd: Option<EngineCmd>) -> Option<CmdView> {
    match cmd {
        Some(cmd) => Some(cmd.view()),
        None => None,
    }
}

/// What a guest is told who tries to play.
pub open spec fn guest_message() -> Seq<char> {
    "guest mode: playback needs Spotify Premium"@
}

/// Whether `app` is the state that a session starts from.
pub open spec fn is_booted(app: App, saved: SavedState, engine_up: bool, clock: u64) -> bool {
    &&& app.engine_up == engine_up
    &&& app.playback == (PlaybackState {
        now: match saved.last_played {
            Some(last) => Some(
                NowPlaying {
                    uri: last.uri,
                    title: last.title,
                    artist: last.artist,
                    album: last.album,
                    duration_ms: last.duration_ms,
                    position_ms: last.position_ms,
                    position_at: clock,
                    is_playing: false,
                },
            ),
            None => None,
        },
        seek_target: None,
        seek_last_step: clock,
        seek_last_input: clock,
    })
    &&& app.status@ == "loading library…"@
    &&& forall|s: Section|
        (#[trigger] app.browse.library.of(s))@ == Seq::<LibItem>::empty()
    &&& app.browse.section is Home
    &&& app.browse.selected == 0
    &&& app.browse.sort is Added
    &&& app.browse.details@.len() == 0
    &&& app.transport == (Transport {
        shuffle: saved.shuffle,
        repeat: saved.repeat,
        volume: persist::start_volume(saved.volume),
        queue: saved.queue,
        queue_uris: saved.queue_uris,
        playback_started: false,
        source: saved.source,
        source_name: saved.source_name,
    })
    &&& !app.search.input_mode && !app.search.searching
    &&& app.search.query@.len() == 0
    &&& app.search.search_results@.len() == 0
    &&& app.view.mode is NowPlaying
    &&& !app.view.zen && !app.view.lyrics_synced
    &&& app.view.lyrics@.len() == 0
    &&& app.view.actions is None
    &&& optional(app.session.restore_uri) == (match saved.last_played {
        Some(last) => Some(last.uri@),
        None => None,
    })
    &&& app.session.pending_meta is None
    &&& !app.session.reclaimed
    &&& app.session.last_ctrl_c is None
    &&& app.session.last_click is None
    &&& app.art_repaint is Idle
}

/// Whether `saved` is what is to be persisted of `app`.
pub open spec fn is_snapshot(saved: SavedState, app: App, clock: u64) -> bool {
    &&& saved.volume == app.transport.volume
    &&& saved.shuffle == app.transport.shuffle
    &&& saved.repeat == app.transport.repeat
    &&& match app.playback.now {
        Some(n) => saved.last_played == Some(
            persist::LastPlayed {
                uri: n.uri,
                title: n.title,
                artist: n.artist,
                album: n.album,
                duration_ms: n.duration_ms,
                position_ms: app.playback.head(clock) as u32,
            },
        ),
        None => saved.last_played is None,
    }
    &&& saved.queue@ == app.transport.queue@
    &&& saved.queue_uris@ == app.transport.queue_uris@
    &&& saved.source == app.transport.source
    &&& saved.source_name@ == app.transport.source_name@
}

/// A session that is saved and started again shows the last track, paused where
/// it was left, with the same queue, the same modes and the same source; the
/// volume is kept too, except that silence is not.
pub proof fn law_a_session_resumes_where_it_was_left(
    left: App,
    saved: SavedState,
    resumed: App,
    engine_up: bool,
    saved_at: u64,
    started_at: u64,
    later: u64,
)
    requires
        left.playback.countable(saved_at),
        is_snapshot(saved, left, saved_at),
        is_booted(resumed, saved, engine_up, started_at),
    ensures
        resumed.playback.now is Some <==> left.playback.now is Some,
        left.playback.now matches Some(n) ==> {
            &&& resumed.playback.now->0.uri == n.uri
            &&& resumed.playback.head(later) == left.playback.head(saved_at)
            &&& optional(resumed.session.restore_uri) == Some(n.uri@)
        },
        resumed.transport.queue@ == left.transport.queue@,
        resumed.transport.queue_uris@ == left.transport.queue_uris@,
        resumed.transport.source == left.transport.source,
        resumed.transport.source_name@ == left.transport.source_name@,
        resumed.transport.shuffle == left.transport.shuffle,
        resumed.transport.repeat == left.transport.repeat,
        0 < left.transport.volume <= 100 ==> resumed.transport.volume == left.transport.volume,
{
}

impl App {
    /// The state a session starts from.
    pub fn boot(saved: SavedState, engine_up: bool, clock: u64) -> (app: App)
        ensures
            is_booted(app, saved, engine_up, clock),
    {
        let now = saved.restored(clock);
        let restore_uri = match &saved.last_played {
            Some(last) => Some(last.uri.clone()),
            None => None,
        };
        App {
            engine_up,
            playback: PlaybackState::new(now, clock),
            status: "loading library…".to_owned(),
            browse: BrowseState {
                library: Library::default(),
                section: Section::Home,
                selected: 0,
                sort: SortMode::Added,
                details: Vec::new(),
            },
            transport: Transport {
                shuffle: saved.shuffle,
                repeat: saved.repeat,
                volume: persist::initial_volume(saved.volume),
                queue: saved.queue,
                queue_uris: saved.queue_uris,
                playback_started: false,
                source: saved.source,
                source_name: saved.source_name,
            },
            search: SearchState {
                input_mode: false,
                query: String::new(),
                searching: false,
                search_results: Vec::new(),
            },
            view: ViewState {
                mode: RightView::NowPlaying,
                zen: false,
                lyrics: Vec::new(),
                lyrics_synced: false,
                actions: None,
            },
            session: SessionState {
                restore_uri,
                pending_meta: None,
                reclaimed: false,
                last_ctrl_c: None,
                last_click: None,
            },
            art_repaint: ArtRepaint::Idle,
        }
    }

    /// What to persist of the session.
    pub fn snapshot(&self, clock: u64) -> (saved: SavedState)
        requires
            self.playback.countable(clock),
        ensures
            is_snapshot(saved, *self, clock),
    {
        SavedState {
            volume: self.transport.volume,
            shuffle: self.transport.shuffle,
            repeat: self.transport.repeat,
            last_played: persist::last_played(&self.playback, clock),
            queue: text::copy_texts(&self.transport.queue),
            queue_uris: text::copy_texts(&self.transport.queue_uris),
            source: self.transport.source.clone(),
            source_name: self.transport.source_name.clone(),
        }
    }

    /// True when this Myx booted without a streaming engine (`--guest`).
    pub fn guest_only(&self) -> (yes: bool)
        ensures
            yes == !self.engine_up,
    {
        !self.engine_up
    }

    /// A fire-and-forget engine command, if there is an engine.
    pub fn engine_do(&self, cmd: EngineCmd) -> (out: Option<EngineCmd>)
        ensures
            out == (if self.engine_up {
                Some(cmd)
            } else {
                None::<EngineCmd>
            }),
    {
        if self.engine_up {
            Some(cmd)
        } else {
            None
        }
    }

    /// An engine play command — or, with no engine, a word that there is none
    /// instead of silently doing nothing.
    pub fn engine_play(&mut self, cmd: EngineCmd) -> (out: Option<EngineCmd>)
        ensures
            if old(self).engine_up {
                out == Some(cmd) && *final(self) == *old(self)
            } else {
                &&& out is None
                &&& final(self).status@ == guest_message()
                &&& *final(self) == (App { status: final(self).status, ..*old(self) })
            },
    {
        if self.engine_up {
            Some(cmd)
        } else {
            self.status = "guest mode: playback needs Spotify Premium".to_owned();
            None
        }
    }

    /// The engine refused a play command.
    pub fn play_failed(&mut self, why: &str)
        ensures
            final(self).status@ == "couldn't play: "@ + why@,
            *final(self) == (App { status: final(self).status, ..*old(self) }),
    {
        self.status = text::join2("couldn't play: ", why);
    }
}

// ----------------------------------------------------------------------- laws

/// What is modelled of a command is what it holds.
pub proof fn law_a_command_is_modelled_whole(cmd: EngineCmd)
    ensures
        match cmd {
            EngineCmd::PlayContext { uri, shuffle } => {
                &&& cmd.view() matches CmdView::PlayContext { uri: u, shuffle: s }
                &&& u == uri@ && s == shuffle
            },
            EngineCmd::PlayContextAt { uri, track, position_ms, shuffle } => {
                &&& cmd.view() matches CmdView::PlayContextAt {
                    uri: u,
                    track: t,
                    position_ms: p,
                    shuffle: s,
                }
                &&& u == uri@ && p == position_ms && s == shuffle
                &&& t is Some <==> track is Some
                &&& track matches Some(track) ==> t == Some(track@)
            },
            EngineCmd::PlayTracks { uris, track, position_ms, shuffle } => {
                &&& cmd.view() matches CmdView::PlayTracks {
                    uris: u,
                    track: t,
                    position_ms: p,
                    shuffle: s,
                }
                &&& u.len() == uris@.len()
                &&& forall|i: int| 0 <= i < uris@.len() ==> #[trigger] u[i] == uris@[i]@
                &&& p == position_ms && s == shuffle
                &&& t is Some <==> track is Some
                &&& track matches Some(track) ==> t == Some(track@)
            },
            EngineCmd::PlayTrackAt { uri, position_ms } => {
                &&& cmd.view() matches CmdView::PlayTrackAt { uri: u, position_ms: p }
                &&& u == uri@ && p == position_ms
            },
            EngineCmd::Play => cmd.view() is Play,
            EngineCmd::Pause => cmd.view() is Pause,
            EngineCmd::Toggle => cmd.view() is Toggle,
            EngineCmd::Stop => cmd.view() is Stop,
            EngineCmd::Next => cmd.view() is Next,
            EngineCmd::Prev => cmd.view() is Prev,
            EngineCmd::Seek(ms) => cmd.view() == CmdView::Seek(ms),
            EngineCmd::SetVolume(v) => cmd.view() == CmdView::SetVolume(v),
            EngineCmd::Shuffle(on) => cmd.view() == CmdView::Shuffle(on),
            EngineCmd::Repeat(on) => cmd.view() == CmdView::Repeat(on),
        },
        cmd_view(Some(cmd)) == Some(cmd.view()),
        cmd_view(None) is None,
{
}

/// A resumed track is the one that was left, by name, artist, album and length,
/// and it does not play yet.
pub proof fn law_a_resumed_track_is_described_as_before(
    left: App,
    saved: SavedState,
    resumed: App,
    engine_up: bool,
    saved_at: u64,
    started_at: u64,
)
    requires
        left.playback.countable(saved_at),
        is_snapshot(saved, left, saved_at),
        is_booted(resumed, saved, engine_up, started_at),
    ensures
        left.playback.now matches Some(n) ==> {
            let shown = resumed.playback.now->0;
            &&& shown.title == n.title
            &&& shown.artist == n.artist
            &&& shown.album == n.album
            &&& shown.duration_ms == n.duration_ms
            &&& shown.position_ms == left.playback.head(saved_at)
            &&& !shown.is_playing
        },
        resumed.engine_up == engine_up,
        resumed.playback.seek_target is None,
        !resumed.transport.playback_started,
        left.transport.volume == 0 ==> resumed.transport.volume == 80,
        left.transport.volume > 100 ==> resumed.transport.volume == 100,
{
}

/// A session starts at the top of an empty home section, with nothing searched,
/// opened, scrolled to or asked for.
pub proof fn law_a_session_starts_at_home(app: App, saved: SavedState, engine_up: bool, clock: u64)
    requires
        is_booted(app, saved, engine_up, clock),
    ensures
        app.browse.section is Home,
        app.browse.selected == 0,
        app.browse.sort is Added,
        app.browse.details@.len() == 0,
        app.browse.library.home@.len() == 0,
        app.browse.library.liked@.len() == 0,
        app.browse.library.playlists@.len() == 0,
        app.browse.library.albums@.len() == 0,
        app.browse.library.artists@.len() == 0,
        app.browse.library.recent@.len() == 0,
        app.status@ == "loading library…"@,
        !app.search.searching,
        !app.search.input_mode,
        app.search.query@.len() == 0,
        app.search.search_results@.len() == 0,
        app.view.mode is NowPlaying,
        !app.view.zen,
        app.view.lyrics@.len() == 0,
        !app.view.lyrics_synced,
        app.view.actions is None,
        app.session.pending_meta is None,
        !app.session.reclaimed,
        app.session.last_ctrl_c is None,
        app.session.last_click is None,
        app.art_repaint is Idle,
        app.transport.shuffle == saved.shuffle,
        app.transport.repeat == saved.repeat,
        app.transport.queue == saved.queue,
        app.transport.queue_uris == saved.queue_uris,
        app.transport.source == saved.source,
        app.transport.source_name == saved.source_name,
        optional(app.session.restore_uri) is Some <==> saved.last_played is Some,
{
    let lib = app.browse.library;
    assert(lib.of(Section::Home)@.len() == 0);
    assert(lib.of(Section::Liked)@.len() == 0);
    assert(lib.of(Section::Playlists)@.len() == 0);
    assert(lib.of(Section::Albums)@.len() == 0);
    assert(lib.of(Section::Artists)@.len() == 0);
    assert(lib.of(Section::Recent)@.len() == 0);
}

} // verus!
