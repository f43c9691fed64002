//! Playing: what Enter, the play keys and a resume hand to the engine, and what
//! is remembered of where playback came from.

use crate::app::state::cmd_view;
use crate::app::state::guest_message;
use crate::app::state::App;
use crate::app::state::CmdView;
use crate::app::state::EngineCmd;
use crate::app::state::Transport;
use crate::json;
use crate::library;
use crate::library::LibItem;
use crate::library::Row;
use crate::library::Section;
use crate::persist::PlaySource;
use crate::persist::SourceView;
use crate::playback::NowPlaying;
use crate::text;
use crate::text::optional;
use crate::util;
use vstd::prelude::*;

verus! {

/// Result of activating (Enter on) a library item.
#[derive(Debug)]
pub enum Activated {
    Nothing,
    /// Drill into a context (uri, name).
    Open(String, String),
    /// Start this song's radio (seed uri).
    Radio(String),
}

/// The model of that result.
pub ghost enum ActivatedView {
    Nothing,
    Open(Seq<char>, Seq<char>),
    Radio(Seq<char>),
}

impl Activated {
    /// The model of this result.
    pub open spec fn view(self) -> ActivatedView {
        match self {
            Activated::Nothing => ActivatedView::Nothing,
            Activated::Open(uri, name) => ActivatedView::Open(uri@, name@),
            Activated::Radio(uri) => ActivatedView::Radio(uri@),
        }
    }
}

/// The URIs of the tracks among `list`, in order.
pub open spec fn track_uris(list: Seq<Row>) -> Seq<Seq<char>>
    decreases list.len(),
{
    if list.len() == 0 {
        Seq::empty()
    } else if list.last().is_track {
        track_uris(list.drop_last()).push(list.last().uri)
    } else {
        track_uris(list.drop_last())
    }
}

/// The URIs of all of `list`, in order.
pub open spec fn all_uris(list: Seq<Row>) -> Seq<Seq<char>> {
    list.map_values(|r: Row| r.uri)
}

/// What is said while something starts.
pub open spec fn starting_message(name: Seq<char>) -> Seq<char> {
    "starting "@ + name + "…"@
}

/// What playing something does: the command to the engine, what is said, and
/// what is remembered of the source.
pub ghost struct Effect {
    pub out: ActivatedView,
    pub cmd: Option<CmdView>,
    pub status: Seq<char>,
    pub source: SourceView,
    pub source_name: Seq<char>,
}

/// The URI of the row that plays the liked songs.
pub open spec fn liked_play_uri() -> Seq<char> {
    "myx:action:liked-play"@
}

impl App {
    /// Nothing happens.
    pub open spec fn inert(self) -> Effect {
        Effect {
            out: ActivatedView::Nothing,
            cmd: None,
            status: self.status@,
            source: self.transport.source.view(),
            source_name: self.transport.source_name@,
        }
    }

    /// Something starts, if there is an engine; without one, that is said.
    pub open spec fn starting(
        self,
        cmd: CmdView,
        status: Seq<char>,
        source: SourceView,
        source_name: Seq<char>,
    ) -> Effect {
        Effect {
            out: ActivatedView::Nothing,
            cmd: if self.engine_up {
                Some(cmd)
            } else {
                None
            },
            status: if self.engine_up {
                status
            } else {
                guest_message()
            },
            source,
            source_name,
        }
    }

    /// Whether this is `before` once `effect` has been applied.
    pub open spec fn shows(self, before: App, effect: Effect) -> bool {
        &&& self.status@ == effect.status
        &&& self.transport.source.view() == effect.source
        &&& self.transport.source_name@ == effect.source_name
        &&& self == (App {
            status: self.status,
            transport: Transport {
                source: self.transport.source,
                source_name: self.transport.source_name,
                ..before.transport
            },
            ..before
        })
    }

    /// What playing a context does.
    pub open spec fn playing_context(
        self,
        uri: Seq<char>,
        name: Seq<char>,
        shuffle: bool,
    ) -> Effect {
        self.starting(
            CmdView::PlayContext { uri, shuffle },
            starting_message(name),
            SourceView::Context(uri),
            name,
        )
    }

    /// What Enter on the selected row does.
    pub open spec fn activation(self) -> Effect {
        let list = self.shown_rows();
        let at = self.browse.selected as int;
        let shuffle = self.transport.shuffle;
        if at >= list.len() || list[at].is_header {
            self.inert()
        } else if list[at].is_play {
            let liked = track_uris(library::rows(self.browse.library.liked@));
            if list[at].uri == liked_play_uri() {
                if liked.len() == 0 {
                    self.inert()
                } else {
                    self.starting(
                        CmdView::PlayTracks { uris: liked, track: None, position_ms: 0, shuffle },
                        "starting Liked Songs…"@,
                        SourceView::Liked,
                        "Liked Songs"@,
                    )
                }
            } else {
                let name = if self.browse.details@.len() > 0 {
                    self.browse.details@.last().title@
                } else {
                    list[at].name
                };
                self.playing_context(list[at].uri, name, shuffle)
            }
        } else if list[at].is_track {
            if self.search.searching {
                Effect {
                    out: ActivatedView::Radio(list[at].uri),
                    source: SourceView::Radio(list[at].uri),
                    source_name: "Radio · "@ + list[at].name,
                    ..self.inert()
                }
            } else if self.browse.details@.len() > 0 {
                let d = self.browse.details@.last();
                self.starting(
                    CmdView::PlayContextAt {
                        uri: d.context_uri@,
                        track: Some(list[at].uri),
                        position_ms: 0,
                        shuffle,
                    },
                    starting_message(list[at].name),
                    SourceView::Context(d.context_uri@),
                    d.title@,
                )
            } else {
                let liked = self.browse.section == Section::Liked;
                self.starting(
                    CmdView::PlayTracks {
                        uris: track_uris(list),
                        track: Some(list[at].uri),
                        position_ms: 0,
                        shuffle,
                    },
                    starting_message(list[at].name),
                    if liked {
                        SourceView::Liked
                    } else {
                        SourceView::Unknown
                    },
                    if liked {
                        "Liked Songs"@
                    } else {
                        self.browse.section.name()
                    },
                )
            }
        } else {
            Effect {
                out: ActivatedView::Open(list[at].uri, list[at].name),
                status: "opening "@ + list[at].name + "…"@,
                ..self.inert()
            }
        }
    }
}

/// The URIs of the tracks among `items`.
pub(crate) fn uris_of_tracks(items: &Vec<LibItem>) -> (uris: Vec<String>)
    ensures
        json::texts(uris@) == track_uris(library::rows(items@)),
{
    let mut uris: Vec<String> = Vec::new();
    let mut i: usize = 0;
    let ghost list = library::rows(items@);
    assert(json::texts(uris@) =~= track_uris(list.take(0)));
    while i < items.len()
        invariant
            i <= items@.len(),
            list == library::rows(items@),
            json::texts(uris@) == track_uris(list.take(i as int)),
        decreases items@.len() - i,
    {
        let ghost before = uris@;
        assert(list.take(i + 1).drop_last() =~= list.take(i as int));
        assert(list.take(i + 1).last() == items@[i as int]@);
        if items[i].is_track {
            uris.push(items[i].uri.clone());
            assert(json::texts(uris@) =~= json::texts(before).push(items@[i as int].uri@));
        }
        i += 1;
    }
    assert(list.take(items@.len() as int) =~= list);
    uris
}

/// The URIs of all of `items`.
fn uris_of_all(items: &Vec<LibItem>) -> (uris: Vec<String>)
    ensures
        json::texts(uris@) == all_uris(library::rows(items@)),
{
    let mut uris: Vec<String> = Vec::new();
    let mut i: usize = 0;
    while i < items.len()
        invariant
            i <= items@.len(),
            json::texts(uris@) == all_uris(library::rows(items@)).take(i as int),
        decreases items@.len() - i,
    {
        let ghost before = uris@;
        uris.push(items[i].uri.clone());
        assert(json::texts(uris@) =~= json::texts(before).push(items@[i as int].uri@));
        assert(all_uris(library::rows(items@))[i as int] == items@[i as int].uri@);
        i += 1;
    }
    uris
}

/// What is said while something starts.
fn starting_status(name: &str) -> (status: String)
    ensures
        status@ == starting_message(name@),
{
    text::join3("starting ", name, "…")
}

impl App {
    /// The single entry point for "play this context URI".
    ///
    /// Every caller must route through here so the source and its name stay in
    /// sync with what is actually playing — they back the Queue view's PLAYING
    /// FROM header and the resume-on-launch path.
    pub fn play_context_row(&mut self, uri: String, name: String, shuffle: bool) -> (cmd: Option<
        EngineCmd,
    >)
        ensures
            final(self).shows(*old(self), old(self).playing_context(uri@, name@, shuffle)),
            cmd_view(cmd) == old(self).playing_context(uri@, name@, shuffle).cmd,
    {
        self.status = starting_status(name.as_str());
        self.transport.source = PlaySource::Context(uri.clone());
        self.transport.source_name = name;
        self.engine_play(EngineCmd::PlayContext { uri, shuffle })
    }

    /// Set the volume.
    pub fn apply_volume(&mut self, volume: u8) -> (cmd: Option<EngineCmd>)
        ensures
            ({
                let v = if volume <= 100 {
                    volume
                } else {
                    100
                };
                &&& *final(self) == (App {
                    transport: Transport { volume: v, ..old(self).transport },
                    ..*old(self)
                })
                &&& cmd_view(cmd) == (if old(self).engine_up {
                    Some(CmdView::SetVolume((v * 65535 / 100) as u16))
                } else {
                    None
                })
            }),
    {
        self.transport.volume = if volume <= 100 {
            volume
        } else {
            100
        };
        self.engine_do(EngineCmd::SetVolume(util::vol_u16(self.transport.volume)))
    }

    /// Nudge the volume by `delta`, clamped to 0..=100.
    pub fn bump_volume(&mut self, delta: i16) -> (cmd: Option<EngineCmd>)
        requires
            old(self).transport.volume + delta <= i16::MAX,
        ensures
            ({
                let sum = old(self).transport.volume + delta;
                let v = if sum < 0 {
                    0
                } else if sum > 100 {
                    100
                } else {
                    sum
                };
                &&& *final(self) == (App {
                    transport: Transport { volume: v as u8, ..old(self).transport },
                    ..*old(self)
                })
                &&& cmd_view(cmd) == (if old(self).engine_up {
                    Some(CmdView::SetVolume((v * 65535 / 100) as u16))
                } else {
                    None
                })
            }),
    {
        let sum: i16 = self.transport.volume as i16 + delta;
        let next: u8 = if sum < 0 {
            0
        } else if sum > 100 {
            100
        } else {
            sum as u8
        };
        self.apply_volume(next)
    }

    /// Act on the selected item. Returns what the caller should do next.
    pub fn activate(&mut self) -> (out: (Activated, Option<EngineCmd>))
        ensures
            final(self).shows(*old(self), old(self).activation()),
            out.0.view() == old(self).activation().out,
            cmd_view(out.1) == old(self).activation().cmd,
    {
        let at = self.browse.selected;
        let items = self.cur_items();
        if at >= items.len() {
            return (Activated::Nothing, None);
        }
        let item = items[at].clone();
        assert(self.shown_rows()[at as int] == item@);
        if item.is_header {
            return (Activated::Nothing, None);
        }
        let shuffle = self.transport.shuffle;
        let depth = self.browse.details.len();
        if item.is_play {
            if text::same_text(item.uri.as_str(), "myx:action:liked-play") {
                let uris = uris_of_tracks(&self.browse.library.liked);
                if uris.len() == 0 {
                    assert(json::texts(uris@).len() == 0);
                    return (Activated::Nothing, None);
                }
                assert(json::texts(uris@).len() > 0);
                self.transport.source = PlaySource::Liked;
                self.transport.source_name = "Liked Songs".to_owned();
                self.status = "starting Liked Songs…".to_owned();
                let cmd = self.engine_play(
                    EngineCmd::PlayTracks { uris, track: None, position_ms: 0, shuffle },
                );
                return (Activated::Nothing, cmd);
            }
            let name = if depth > 0 {
                self.browse.details[depth - 1].title.clone()
            } else {
                item.name.clone()
            };
            let cmd = self.play_context_row(item.uri, name, shuffle);
            return (Activated::Nothing, cmd);
        }
        if item.is_track {
            if self.search.searching {
                self.transport.source = PlaySource::Radio(item.uri.clone());
                self.transport.source_name = text::join2("Radio · ", item.name.as_str());
                return (Activated::Radio(item.uri), None);
            }
            if depth > 0 {
                let context = self.browse.details[depth - 1].context_uri.clone();
                let title = self.browse.details[depth - 1].title.clone();
                self.transport.source = PlaySource::Context(context.clone());
                self.transport.source_name = title;
                self.status = starting_status(item.name.as_str());
                let cmd = self.engine_play(
                    EngineCmd::PlayContextAt {
                        uri: context,
                        track: Some(item.uri),
                        position_ms: 0,
                        shuffle,
                    },
                );
                return (Activated::Nothing, cmd);
            }
            let uris = uris_of_tracks(self.cur_items());
            self.status = starting_status(item.name.as_str());
            if self.browse.section == Section::Liked {
                self.transport.source = PlaySource::Liked;
                self.transport.source_name = "Liked Songs".to_owned();
            } else {
                self.transport.source = PlaySource::Unknown;
                self.transport.source_name = self.browse.section.label().to_owned();
            }
            let cmd = self.engine_play(
                EngineCmd::PlayTracks { uris, track: Some(item.uri), position_ms: 0, shuffle },
            );
            return (Activated::Nothing, cmd);
        }
        self.status = text::join3("opening ", item.name.as_str(), "…");
        (Activated::Open(item.uri, item.name), None)
    }
}

// ------------------------------------------------------------- the play keys

/// Whether a row carries a playable context URI: a playlist, an album, an
/// artist, or a row that plays one.
pub open spec fn plays_a_context(row: Row) -> bool {
    !row.is_header && !row.is_track
}

/// Does this row carry a playable context URI, and under what name?
pub fn context_target(item: &LibItem) -> (target: Option<(String, String)>)
    ensures
        match target {
            Some((uri, name)) => plays_a_context(item@) && uri@ == item@.uri && name@
                == item@.name,
            None => !plays_a_context(item@),
        },
{
    if !item.is_header && !item.is_track {
        Some((item.uri.clone(), item.name.clone()))
    } else {
        None
    }
}

/// Enter opens context rows and plays everything else.
pub fn enter_label(item: Option<&LibItem>) -> (label: &'static str)
    ensures
        label@ == (match item {
            Some(i) => if plays_a_context(i@) {
                "open"@
            } else {
                "select"@
            },
            None => "select"@,
        }),
{
    match item {
        Some(i) => if !i.is_track && !i.is_header {
            "open"
        } else {
            "select"
        },
        None => "select",
    }
}

impl App {
    /// `P` / `S`: play the highlighted context from anywhere — library section,
    /// search results, or inside a drill-in.
    pub fn play_selected_context(&mut self, shuffle: bool) -> (cmd: Option<EngineCmd>)
        ensures
            ({
                let list = old(self).shown_rows();
                let at = old(self).browse.selected as int;
                let effect = if at >= list.len() {
                    old(self).inert()
                } else if plays_a_context(list[at]) {
                    old(self).playing_context(list[at].uri, list[at].name, shuffle)
                } else {
                    Effect { status: "not a playlist, album, or artist"@, ..old(self).inert() }
                };
                final(self).shows(*old(self), effect) && cmd_view(cmd) == effect.cmd
            }),
    {
        let at = self.browse.selected;
        let items = self.cur_items();
        if at >= items.len() {
            return None;
        }
        assert(self.shown_rows()[at as int] == items@[at as int]@);
        match context_target(&items[at]) {
            Some((uri, name)) => self.play_context_row(uri, name, shuffle),
            None => {
                self.status = "not a playlist, album, or artist".to_owned();
                None
            },
        }
    }
}

// --------------------------------------------------------------------- resume

/// How playback is resumed.
#[derive(Debug)]
pub enum Resume {
    /// By a command to the engine, or not at all where there is none.
    Engine(Option<EngineCmd>),
    /// By fetching the radio of a seed track first, to be started at a position.
    Radio { seed: String, position_ms: u32 },
}

/// The model of that.
pub ghost enum ResumeView {
    Engine(Option<CmdView>),
    Radio { seed: Seq<char>, position_ms: u32 },
}

impl Resume {
    /// The model of this resume.
    pub open spec fn view(self) -> ResumeView {
        match self {
            Resume::Engine(cmd) => ResumeView::Engine(cmd_view(cmd)),
            Resume::Radio { seed, position_ms } => ResumeView::Radio { seed: seed@, position_ms },
        }
    }
}

/// A text, as a run of one; nothing when it is absent.
pub open spec fn as_run(s: Option<Seq<char>>) -> Seq<Seq<char>> {
    match s {
        Some(s) => seq![s],
        None => Seq::empty(),
    }
}

impl App {
    /// The track to resume at, if one is known.
    pub open spec fn resume_track(self) -> Option<Seq<char>> {
        match self.playback.now {
            Some(n) => if n.uri@.len() > 0 {
                Some(n.uri@)
            } else {
                None
            },
            None => None,
        }
    }

    /// The position to resume at.
    pub open spec fn resume_position(self) -> u32 {
        match self.playback.now {
            Some(n) => n.position_ms,
            None => 0,
        }
    }

    /// The command that resumes the source: its own context, the liked songs,
    /// or else the last track followed by the saved queue. A radio has none.
    pub open spec fn resume_cmd(self) -> CmdView {
        let track = self.resume_track();
        let position_ms = self.resume_position();
        let shuffle = self.transport.shuffle;
        let liked = library::rows(self.browse.library.liked@);
        let queue = json::texts(self.transport.queue_uris@);
        match self.transport.source {
            PlaySource::Context(uri) => CmdView::PlayContextAt {
                uri: uri@,
                track,
                position_ms,
                shuffle,
            },
            _ => if self.transport.source is Liked && liked.len() > 0 {
                CmdView::PlayTracks { uris: all_uris(liked), track, position_ms, shuffle }
            } else if queue.len() > 0 {
                CmdView::PlayTracks { uris: as_run(track) + queue, track, position_ms, shuffle }
            } else {
                match track {
                    Some(uri) => CmdView::PlayTrackAt { uri, position_ms },
                    None => CmdView::Play,
                }
            },
        }
    }

    /// How the source is resumed: by its command, or by fetching its station; a
    /// guest resumes nothing.
    pub open spec fn resume_how(self) -> ResumeView {
        if !self.engine_up {
            ResumeView::Engine(None)
        } else {
            match self.transport.source {
                PlaySource::Radio(seed) => ResumeView::Radio {
                    seed: seed@,
                    position_ms: self.resume_position(),
                },
                _ => ResumeView::Engine(Some(self.resume_cmd())),
            }
        }
    }

    /// What the status says of it.
    pub open spec fn resume_status(self) -> Seq<char> {
        if !self.engine_up {
            guest_message()
        } else if self.transport.source is Radio {
            "resuming radio…"@
        } else {
            self.status@
        }
    }

    /// Resume the persisted playback source at the last track/position — the
    /// faithful reboot resume (real context ⇒ real queue continuation).
    pub fn resume_source(&mut self) -> (how: Resume)
        ensures
            *final(self) == (App { status: final(self).status, ..*old(self) }),
            final(self).status@ == old(self).resume_status(),
            how.view() == old(self).resume_how(),
    {
        let (track, position_ms): (Option<String>, u32) = match &self.playback.now {
            Some(n) => (
                if n.uri.as_str().unicode_len() > 0 {
                    Some(n.uri.clone())
                } else {
                    None
                },
                n.position_ms,
            ),
            None => (None, 0),
        };
        assert(optional(track) == self.resume_track());
        let shuffle = self.transport.shuffle;
        let source = self.transport.source.clone();
        let cmd = match source {
            PlaySource::Context(uri) => EngineCmd::PlayContextAt {
                uri,
                track,
                position_ms,
                shuffle,
            },
            PlaySource::Radio(seed) => {
                if !self.engine_up {
                    return Resume::Engine(self.engine_play(EngineCmd::Play));
                }
                self.status = "resuming radio…".to_owned();
                return Resume::Radio { seed, position_ms };
            },
            _ => {
                let from_liked = match source {
                    PlaySource::Liked => self.browse.library.liked.len() > 0,
                    _ => false,
                };
                assert(library::rows(self.browse.library.liked@).len()
                    == self.browse.library.liked@.len());
                if from_liked {
                    let uris = uris_of_all(&self.browse.library.liked);
                    EngineCmd::PlayTracks { uris, track, position_ms, shuffle }
                } else if self.transport.queue_uris.len() > 0 {
                    assert(json::texts(self.transport.queue_uris@).len() > 0);
                    let mut uris: Vec<String> = Vec::new();
                    if let Some(uri) = &track {
                        uris.push(uri.clone());
                    }
                    let mut rest = text::copy_texts(&self.transport.queue_uris);
                    let ghost lead = uris@;
                    assert(json::texts(lead) =~= as_run(optional(track)));
                    uris.append(&mut rest);
                    assert(json::texts(uris@) =~= as_run(optional(track)) + json::texts(
                        self.transport.queue_uris@,
                    ));
                    EngineCmd::PlayTracks { uris, track, position_ms, shuffle }
                } else {
                    assert(json::texts(self.transport.queue_uris@).len() == 0);
                    match track {
                        Some(uri) => EngineCmd::PlayTrackAt { uri, position_ms },
                        None => EngineCmd::Play,
                    }
                }
            },
        };
        assert(cmd.view() == self.resume_cmd());
        Resume::Engine(self.engine_play(cmd))
    }
}

// ----------------------------------------------------------------------- laws

/// Enter opens exactly the rows that `P` plays and that are not play rows
/// themselves.
pub proof fn law_enter_opens_what_p_plays(app: App)
    requires
        app.browse.selected < app.shown_rows().len(),
    ensures
        ({
            let row = app.shown_rows()[app.browse.selected as int];
            app.activation().out is Open <==> plays_a_context(row) && !row.is_play
        }),
{
}

/// Whatever starts to play is what is remembered as the source: a context by
/// its URI, so that a resume returns to it, and never a context for a bare run
/// of tracks.
pub proof fn law_the_source_follows_what_plays(app: App, after: App)
    requires
        after.shows(app, app.activation()),
        app.engine_up,
    ensures
        match app.activation().cmd {
            Some(CmdView::PlayContext { uri, shuffle }) => after.transport.source.view()
                == SourceView::Context(uri),
            Some(CmdView::PlayContextAt { uri, track, position_ms, shuffle }) =>
                after.transport.source.view() == SourceView::Context(uri),
            Some(_) => after.transport.source is Liked || after.transport.source is Unknown,
            None => true,
        },
{
}

/// A guest plays nothing: no activation hands a command to an engine, and where
/// there would be one with an engine, the attempt is answered.
pub proof fn law_a_guest_plays_nothing(app: App)
    requires
        !app.engine_up,
    ensures
        app.activation().cmd is None,
        (App { engine_up: true, ..app }).activation().cmd is Some ==> app.activation().status
            == guest_message(),
{
    let host = App { engine_up: true, ..app };
    assert(host.shown_rows() == app.shown_rows());
}

/// Resuming after a context was played plays that context again, at the track
/// and the position where it was left.
pub proof fn law_a_played_context_is_resumed(app: App, uri: Seq<char>)
    requires
        app.transport.source.view() == SourceView::Context(uri),
    ensures
        app.resume_cmd() == (CmdView::PlayContextAt {
            uri,
            track: app.resume_track(),
            position_ms: app.resume_position(),
            shuffle: app.transport.shuffle,
        }),
{
}

/// A resume returns to the track that was playing and to where it stood, in
/// whatever way the source is resumed: as a place in a context, as one of a run
/// of tracks, or as the track alone. The shuffle mode stays as it is.
pub proof fn law_a_resume_returns_to_the_track_and_its_position(app: App, now: NowPlaying)
    requires
        app.engine_up,
        app.playback.now == Some(now),
        now.uri@.len() > 0,
        !(app.transport.source is Radio),
    ensures
        match app.resume_how() {
            ResumeView::Engine(Some(CmdView::PlayContextAt { uri, track, position_ms, shuffle })) =>
            {
                &&& track == Some(now.uri@)
                &&& position_ms == now.position_ms
                &&& shuffle == app.transport.shuffle
                &&& app.transport.source.view() == SourceView::Context(uri)
            },
            ResumeView::Engine(Some(CmdView::PlayTracks { uris, track, position_ms, shuffle })) => {
                &&& track == Some(now.uri@)
                &&& position_ms == now.position_ms
                &&& shuffle == app.transport.shuffle
                &&& !(app.transport.source is Context)
            },
            ResumeView::Engine(Some(CmdView::PlayTrackAt { uri, position_ms })) => {
                &&& uri == now.uri@
                &&& position_ms == now.position_ms
                &&& !(app.transport.source is Context)
            },
            _ => false,
        },
        app.resume_track() == Some(now.uri@),
        app.resume_position() == now.position_ms,
{
}

/// Without a track to return to, a resume names none, and starts at the
/// beginning unless a position is known.
pub proof fn law_a_resume_without_a_track_names_none(app: App)
    requires
        app.engine_up,
        app.playback.now matches Some(now) ==> now.uri@.len() == 0,
        !(app.transport.source is Radio),
    ensures
        match app.resume_how() {
            ResumeView::Engine(Some(CmdView::PlayContextAt { uri, track, position_ms, shuffle })) =>
            track is None && (app.playback.now is None ==> position_ms == 0),
            ResumeView::Engine(Some(CmdView::PlayTracks { uris, track, position_ms, shuffle })) =>
            track is None && (app.playback.now is None ==> position_ms == 0),
            ResumeView::Engine(Some(CmdView::Play)) => app.transport.queue_uris@.len() == 0,
            _ => false,
        },
{
}

/// What plays on after a resume: the liked songs, each of them and in their
/// order, where they were the source; else the last track and behind it the
/// whole saved queue; and with no queue the track alone.
pub proof fn law_a_resume_plays_on_from_its_source(app: App, i: int)
    requires
        app.engine_up,
        !(app.transport.source is Radio),
        !(app.transport.source is Context),
    ensures
        ({
            let liked = app.browse.library.liked@;
            let queue = app.transport.queue_uris@;
            let lead: int = if app.playback.now matches Some(now) && now.uri@.len() > 0 {
                1
            } else {
                0
            };
            if app.transport.source is Liked && liked.len() > 0 {
                &&& app.resume_how() matches ResumeView::Engine(
                    Some(CmdView::PlayTracks { uris, track, position_ms, shuffle }),
                )
                &&& uris.len() == liked.len()
                &&& 0 <= i < liked.len() ==> uris[i] == liked[i].uri@
            } else if queue.len() > 0 {
                &&& app.resume_how() matches ResumeView::Engine(
                    Some(CmdView::PlayTracks { uris, track, position_ms, shuffle }),
                )
                &&& uris.len() == lead + queue.len()
                &&& lead == 1 ==> uris[0] == app.playback.now->0.uri@
                &&& 0 <= i < queue.len() ==> uris[lead + i] == queue[i]@
            } else {
                &&& lead == 1 ==> app.resume_how() == ResumeView::Engine(
                    Some(
                        CmdView::PlayTrackAt {
                            uri: app.playback.now->0.uri@,
                            position_ms: app.playback.now->0.position_ms,
                        },
                    ),
                )
                &&& lead == 0 ==> app.resume_how() == ResumeView::Engine(Some(CmdView::Play))
            }
        }),
{
}

/// A radio is resumed from the song it was started with, at the position where
/// it stood, and that is said. A guest resumes nothing and is told why; nothing
/// else is said of a resume.
pub proof fn law_a_radio_is_resumed_from_its_seed(app: App)
    ensures
        app.engine_up ==> (app.transport.source matches PlaySource::Radio(seed) ==> {
            &&& app.resume_how() matches ResumeView::Radio { seed: from, position_ms }
            &&& from == seed@
            &&& position_ms == (match app.playback.now {
                Some(now) => now.position_ms,
                None => 0,
            })
            &&& app.resume_status() == "resuming radio…"@
        }),
        app.resume_how() is Radio ==> app.engine_up && app.transport.source is Radio,
        app.engine_up && !(app.transport.source is Radio) ==> app.resume_status() == app.status@,
        !app.engine_up ==> app.resume_how() == ResumeView::Engine(None) && app.resume_status()
            == "guest mode: playback needs Spotify Premium"@,
{
}

/// The tracks of a list are all of them, in their order, and nothing else.
pub proof fn law_every_track_is_played_in_order(before: Seq<Row>, row: Row, after: Seq<Row>)
    ensures
        track_uris(before + seq![row] + after) == track_uris(before) + (if row.is_track {
            seq![row.uri]
        } else {
            Seq::empty()
        }) + track_uris(after),
        track_uris(Seq::empty()).len() == 0,
{
    lemma_track_uris_join(before + seq![row], after);
    lemma_track_uris_join(before, seq![row]);
    let one = seq![row];
    assert(one.drop_last() =~= Seq::empty());
    assert(track_uris(one.drop_last()) =~= Seq::empty());
    assert(track_uris(one) =~= (if row.is_track {
        seq![row.uri]
    } else {
        Seq::empty()
    }));
}

proof fn lemma_track_uris_join(a: Seq<Row>, b: Seq<Row>)
    ensures
        track_uris(a + b) == track_uris(a) + track_uris(b),
    decreases b.len(),
{
    if b.len() == 0 {
        assert(a + b =~= a);
        assert(track_uris(a) + track_uris(b) =~= track_uris(a));
    } else {
        lemma_track_uris_join(a, b.drop_last());
        assert((a + b).drop_last() =~= a + b.drop_last());
        assert((a + b).last() == b.last());
        assert(track_uris(a + b) =~= track_uris(a) + track_uris(b));
    }
}

/// Enter on a track plays that track from its beginning, under the shuffle mode
/// that is set, and says so: inside what was drilled into, as a place in that
/// context; in a section, among the tracks that are shown; in search results, by
/// starting its radio.
pub proof fn law_enter_plays_the_selected_track(app: App, row: Row)
    requires
        app.engine_up,
        app.browse.selected < app.shown_rows().len(),
        row == app.shown_rows()[app.browse.selected as int],
        row.is_track,
        !row.is_header,
        !row.is_play,
    ensures
        ({
            let effect = app.activation();
            if app.search.searching {
                &&& effect.out == ActivatedView::Radio(row.uri)
                &&& effect.cmd is None
                &&& effect.source == SourceView::Radio(row.uri)
                &&& effect.source_name == "Radio · "@ + row.name
                &&& effect.status == app.status@
            } else {
                &&& effect.out is Nothing
                &&& effect.status == "starting "@ + row.name + "…"@
                &&& match effect.cmd {
                    Some(CmdView::PlayContextAt { uri, track, position_ms, shuffle }) => {
                        &&& app.browse.details@.len() > 0
                        &&& uri == app.browse.details@.last().context_uri@
                        &&& track == Some(row.uri)
                        &&& position_ms == 0
                        &&& shuffle == app.transport.shuffle
                        &&& effect.source == SourceView::Context(uri)
                        &&& effect.source_name == app.browse.details@.last().title@
                    },
                    Some(CmdView::PlayTracks { uris, track, position_ms, shuffle }) => {
                        &&& app.browse.details@.len() == 0
                        &&& uris.contains(row.uri)
                        &&& uris == track_uris(app.shown_rows())
                        &&& track == Some(row.uri)
                        &&& position_ms == 0
                        &&& shuffle == app.transport.shuffle
                        &&& effect.source == (if app.browse.section is Liked {
                            SourceView::Liked
                        } else {
                            SourceView::Unknown
                        })
                        &&& effect.source_name == (if app.browse.section is Liked {
                            "Liked Songs"@
                        } else {
                            app.browse.section.name()
                        })
                    },
                    _ => false,
                }
            }
        }),
{
    let list = app.shown_rows();
    let at = app.browse.selected as int;
    assert(list =~= list.take(at) + seq![row] + list.skip(at + 1));
    law_every_track_is_played_in_order(list.take(at), row, list.skip(at + 1));
    let uris = track_uris(list);
    assert(uris[track_uris(list.take(at)).len() as int] == row.uri);
}

/// Enter on a label, or below the list, does nothing at all; on a context it
/// opens that context under its own name and plays nothing.
pub proof fn law_enter_elsewhere_plays_nothing(app: App)
    ensures
        ({
            let list = app.shown_rows();
            let at = app.browse.selected as int;
            let effect = app.activation();
            &&& at >= list.len() || list[at].is_header ==> {
                &&& effect.out is Nothing
                &&& effect.cmd is None
                &&& effect.status == app.status@
                &&& effect.source == app.transport.source.view()
                &&& effect.source_name == app.transport.source_name@
            }
            &&& at < list.len() && !list[at].is_header && !list[at].is_track && !list[at].is_play
                ==> {
                &&& effect.out == ActivatedView::Open(list[at].uri, list[at].name)
                &&& effect.cmd is None
                &&& effect.status == "opening "@ + list[at].name + "…"@
                &&& effect.source == app.transport.source.view()
                &&& effect.source_name == app.transport.source_name@
            }
        }),
{
}

/// A play row plays what it stands for from its beginning: the liked songs, all
/// of their tracks in order, or the context whose URI it carries, remembered
/// under the title it was opened with.
pub proof fn law_a_play_row_plays_its_context(app: App, row: Row)
    requires
        app.engine_up,
        app.browse.selected < app.shown_rows().len(),
        row == app.shown_rows()[app.browse.selected as int],
        row.is_play,
        !row.is_header,
    ensures
        row.uri == "myx:action:liked-play"@ ==> {
            let liked = track_uris(library::rows(app.browse.library.liked@));
            &&& liked.len() == 0 ==> app.activation().cmd is None && app.activation().status
                == app.status@
            &&& liked.len() > 0 ==> {
                &&& app.activation().cmd matches Some(
                    CmdView::PlayTracks { uris, track, position_ms, shuffle },
                )
                &&& uris == liked
                &&& track is None
                &&& position_ms == 0
                &&& shuffle == app.transport.shuffle
                &&& app.activation().source is Liked
                &&& app.activation().source_name == "Liked Songs"@
                &&& app.activation().status == "starting Liked Songs…"@
            }
        },
        row.uri != "myx:action:liked-play"@ ==> {
            &&& app.activation().cmd matches Some(CmdView::PlayContext { uri, shuffle })
            &&& uri == row.uri
            &&& shuffle == app.transport.shuffle
            &&& app.activation().source == SourceView::Context(row.uri)
            &&& app.activation().source_name == (if app.browse.details@.len() > 0 {
                app.browse.details@.last().title@
            } else {
                row.name
            })
        },
{
}

/// Playing a context hands exactly that context to the engine, in the mode that
/// was asked for, says its name, and remembers it.
pub proof fn law_a_context_is_played_as_asked(
    app: App,
    uri: Seq<char>,
    name: Seq<char>,
    shuffle: bool,
)
    ensures
        ({
            let effect = app.playing_context(uri, name, shuffle);
            &&& effect.source == SourceView::Context(uri)
            &&& effect.source_name == name
            &&& effect.out is Nothing
            &&& app.engine_up ==> {
                &&& effect.cmd == Some(CmdView::PlayContext { uri, shuffle })
                &&& effect.status == "starting "@ + name + "…"@
            }
            &&& !app.engine_up ==> {
                &&& effect.cmd is None
                &&& effect.status == "guest mode: playback needs Spotify Premium"@
            }
        }),
{
}

/// Playing changes nothing but what is said and what is remembered of the
/// source.
pub proof fn law_playing_changes_nothing_else(before: App, after: App, effect: Effect)
    requires
        after.shows(before, effect),
    ensures
        after.playback == before.playback,
        after.browse == before.browse,
        after.search == before.search,
        after.view == before.view,
        after.session == before.session,
        after.engine_up == before.engine_up,
        after.art_repaint == before.art_repaint,
        after.transport.shuffle == before.transport.shuffle,
        after.transport.repeat == before.transport.repeat,
        after.transport.volume == before.transport.volume,
        after.transport.queue == before.transport.queue,
        after.transport.queue_uris == before.transport.queue_uris,
        after.transport.playback_started == before.transport.playback_started,
        after.status@ == effect.status,
        after.transport.source.view() == effect.source,
        after.transport.source_name@ == effect.source_name,
{
}

/// What is modelled of an activation and of a resume is what it holds.
pub proof fn law_an_activation_is_modelled_whole(a: Activated, r: Resume)
    ensures
        a is Nothing <==> a.view() is Nothing,
        a matches Activated::Open(uri, name) ==> a.view() == ActivatedView::Open(uri@, name@),
        a matches Activated::Radio(uri) ==> a.view() == ActivatedView::Radio(uri@),
        r matches Resume::Engine(cmd) ==> r.view() == ResumeView::Engine(cmd_view(cmd)),
        r matches Resume::Radio { seed, position_ms } ==> r.view() == (ResumeView::Radio {
            seed: seed@,
            position_ms,
        }),
{
}

} // verus!
