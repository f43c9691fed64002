//! Engine events and metadata replies, applied to the state.

use crate::app::state::App;
use crate::app::state::CmdView;
use crate::app::state::EngineCmd;
use crate::app::state::SessionState;
use crate::app::state::Transport;
use crate::app::state::ViewState;
use crate::engine::EngineEvent;
use crate::engine::EngineEventView;
use crate::frame::ArtRepaint;
use crate::playback::NowPlaying;
use crate::playback::PlaybackState;
use crate::text;
use crate::text::optional;
use crate::util;
use vstd::prelude::*;

verus! {

/// What the native media controls are to show.
#[derive(Clone, Copy, PartialEq, Eq, Structural, Debug)]
pub enum MediaUpdate {
    /// Playing, at a position in milliseconds.
    Playing(u32),
    /// Paused, at a position in milliseconds.
    Paused(u32),
    Stopped,
}

/// What an engine event asks of the outside.
pub struct EventEffects {
    /// The id of a track whose metadata is to be fetched.
    pub fetch_meta: Option<String>,
    /// Commands to the engine, in order.
    pub cmds: Vec<EngineCmd>,
    pub media: Option<MediaUpdate>,
}

/// The model of that.
pub ghost struct EffectsView {
    pub fetch_meta: Option<Seq<char>>,
    pub cmds: Seq<CmdView>,
    pub media: Option<MediaUpdate>,
}

impl EventEffects {
    /// The model of these effects.
    pub open spec fn view(self) -> EffectsView {
        EffectsView {
            fetch_meta: optional(self.fetch_meta),
            cmds: self.cmds@.map_values(|c: EngineCmd| c.view()),
            media: self.media,
        }
    }
}

/// The URI of a track by its id.
pub open spec fn track_uri(id: Seq<char>) -> Seq<char> {
    "spotify:track:"@ + id
}

impl PlaybackState {
    /// The state with what plays marked as playing, or as not.
    pub open spec fn marked(self, is_playing: bool) -> PlaybackState {
        PlaybackState {
            now: match self.now {
                Some(n) => Some(NowPlaying { is_playing, ..n }),
                None => None,
            },
            ..self
        }
    }

    /// The state once the engine has reported a position.
    pub open spec fn reported(self, position_ms: u32, clock: u64) -> PlaybackState {
        if self.seek_target is Some {
            self
        } else {
            self.placed(position_ms, clock)
        }
    }

    /// Mark what plays as playing, or as not.
    fn mark(&mut self, is_playing: bool)
        ensures
            *final(self) == old(self).marked(is_playing),
    {
        if let Some(n) = self.now.take() {
            let mut n = n;
            n.is_playing = is_playing;
            self.now = Some(n);
        }
    }
}

/// Whether an event is worth a line in the log: position ticks would bury
/// everything else.
pub fn worth_logging(ev: &EngineEvent) -> (yes: bool)
    ensures
        yes == !(ev is PositionCorrection),
{
    match ev {
        EngineEvent::PositionCorrection { .. } => false,
        _ => true,
    }
}

impl App {
    /// What an event does to everything but the status and the pending fetch.
    pub open spec fn after_event(self, ev: EngineEventView, clock: u64) -> App {
        match ev {
            EngineEventView::Playing { uri, position_ms } => App {
                playback: self.playback.marked(true).reported(position_ms, clock),
                transport: Transport { playback_started: true, ..self.transport },
                ..self
            },
            EngineEventView::Paused { uri, position_ms } => App {
                playback: self.playback.marked(false).reported(position_ms, clock),
                ..self
            },
            EngineEventView::Stopped => App {
                playback: PlaybackState { now: None, ..self.playback },
                transport: Transport { playback_started: false, ..self.transport },
                session: SessionState { reclaimed: false, ..self.session },
                ..self
            },
            EngineEventView::PositionCorrection { uri, position_ms } => App {
                playback: self.playback.reported(position_ms, clock),
                ..self
            },
            _ => self,
        }
    }

    /// What an event makes the status say.
    pub open spec fn event_status(self, ev: EngineEventView) -> Seq<char> {
        match ev {
            EngineEventView::TrackChanged { uri } => "loading track…"@,
            EngineEventView::Reconnecting => "connection dropped — reconnecting…"@,
            EngineEventView::Reconnected => if self.transport.playback_started {
                "reconnected — press play to resume"@
            } else {
                "reconnected"@
            },
            _ => self.status@,
        }
    }

    /// The track whose metadata is waited for after an event.
    pub open spec fn event_pending(self, ev: EngineEventView) -> Option<Seq<char>> {
        match ev {
            EngineEventView::TrackChanged { uri } => match util::track_id(uri) {
                Some(id) => Some(track_uri(id)),
                None => optional(self.session.pending_meta),
            },
            _ => optional(self.session.pending_meta),
        }
    }

    /// What an event asks of the outside: metadata for a new track, the
    /// persisted modes and volume for a freshly started playback, and a word to
    /// the media controls.
    pub open spec fn event_effects(self, ev: EngineEventView) -> EffectsView {
        let nothing = EffectsView { fetch_meta: None, cmds: Seq::empty(), media: None };
        match ev {
            EngineEventView::TrackChanged { uri } => EffectsView {
                fetch_meta: util::track_id(uri),
                ..nothing
            },
            EngineEventView::Playing { uri, position_ms } => EffectsView {
                cmds: if self.engine_up && !self.transport.playback_started {
                    seq![
                        CmdView::Shuffle(self.transport.shuffle),
                        CmdView::Repeat(self.transport.repeat),
                        CmdView::SetVolume(
                            ((self.transport.volume * 65535 / 100) % 65536) as u16,
                        ),
                    ]
                } else {
                    Seq::empty()
                },
                media: Some(MediaUpdate::Playing(position_ms)),
                ..nothing
            },
            EngineEventView::Paused { uri, position_ms } => EffectsView {
                media: Some(MediaUpdate::Paused(position_ms)),
                ..nothing
            },
            EngineEventView::Stopped => EffectsView { media: Some(MediaUpdate::Stopped), ..nothing },
            EngineEventView::PositionCorrection { uri, position_ms } => EffectsView {
                media: match self.playback.now {
                    Some(n) => Some(
                        if n.is_playing {
                            MediaUpdate::Playing(position_ms)
                        } else {
                            MediaUpdate::Paused(position_ms)
                        },
                    ),
                    None => None,
                },
                ..nothing
            },
            _ => nothing,
        }
    }

    /// Apply an engine event.
    pub fn handle_engine_event(&mut self, ev: EngineEvent, clock: u64) -> (effects: EventEffects)
        ensures
            effects.view() == old(self).event_effects(ev.view()),
            final(self).status@ == old(self).event_status(ev.view()),
            optional(final(self).session.pending_meta) == old(self).event_pending(ev.view()),
            ({
                let after = old(self).after_event(ev.view(), clock);
                *final(self) == (App {
                    status: final(self).status,
                    session: SessionState {
                        pending_meta: final(self).session.pending_meta,
                        ..after.session
                    },
                    ..after
                })
            }),
    {
        let mut fetch_meta: Option<String> = None;
        let mut cmds: Vec<EngineCmd> = Vec::new();
        let mut media: Option<MediaUpdate> = None;
        match ev {
            EngineEvent::TrackChanged { uri } => {
                self.status = "loading track…".to_owned();
                if let Some(id) = util::track_id_from_uri(uri.as_str()) {
                    self.session.pending_meta = Some(
                        text::join2("spotify:track:", id.as_str()),
                    );
                    fetch_meta = Some(id);
                }
            },
            EngineEvent::Playing { position_ms, .. } => {
                if !self.transport.playback_started {
                    self.transport.playback_started = true;
                    if self.engine_up {
                        cmds.push(EngineCmd::Shuffle(self.transport.shuffle));
                        cmds.push(EngineCmd::Repeat(self.transport.repeat));
                        cmds.push(EngineCmd::SetVolume(util::vol_u16(self.transport.volume)));
                    }
                }
                self.playback.mark(true);
                self.playback.set_local_position(position_ms, true, clock);
                media = Some(MediaUpdate::Playing(position_ms));
            },
            EngineEvent::Paused { position_ms, .. } => {
                self.playback.mark(false);
                self.playback.set_local_position(position_ms, true, clock);
                media = Some(MediaUpdate::Paused(position_ms));
            },
            EngineEvent::Stopped => {
                self.playback.now = None;
                self.transport.playback_started = false;
                self.session.reclaimed = false;
                media = Some(MediaUpdate::Stopped);
            },
            EngineEvent::PositionCorrection { position_ms, .. } => {
                self.playback.set_local_position(position_ms, true, clock);
                if let Some(n) = &self.playback.now {
                    media = Some(
                        if n.is_playing {
                            MediaUpdate::Playing(position_ms)
                        } else {
                            MediaUpdate::Paused(position_ms)
                        },
                    );
                }
            },
            EngineEvent::Reconnecting => {
                self.status = "connection dropped — reconnecting…".to_owned();
            },
            EngineEvent::Reconnected => {
                self.status = if self.transport.playback_started {
                    "reconnected — press play to resume".to_owned()
                } else {
                    "reconnected".to_owned()
                };
            },
            EngineEvent::EndOfTrack { .. } => {},
        }
        let effects = EventEffects { fetch_meta, cmds, media };
        assert(effects.view().cmds =~= old(self).event_effects(ev.view()).cmds);
        effects
    }
}

// ------------------------------------------------------------------- metadata

/// Whether a metadata reply is the one still waited for. Where nothing specific
/// was requested it is accepted: only a reply that is provably for a different
/// track is discarded.
pub open spec fn is_current(pending: Option<Seq<char>>, meta_uri: Seq<char>) -> bool {
    match pending {
        Some(p) => p == meta_uri,
        None => true,
    }
}

/// Is this metadata reply the one we are still waiting for?
pub fn meta_is_current(pending: Option<&str>, meta_uri: &str) -> (yes: bool)
    ensures
        yes == is_current(
            match pending {
                Some(p) => Some(p@),
                None => None,
            },
            meta_uri@,
        ),
{
    match pending {
        Some(p) => text::same_text(p, meta_uri),
        None => true,
    }
}

/// What is known of a track.
#[derive(Debug)]
pub struct TrackMeta {
    pub uri: String,
    pub title: String,
    pub artist: String,
    pub album: String,
    pub duration_ms: u32,
}

/// What a metadata reply came to.
#[derive(Clone, Copy, PartialEq, Eq, Structural, Debug)]
pub enum MetaReply {
    /// It was for another track.
    Stale,
    /// It was applied; whether lyrics are to be fetched for it.
    Applied { fetch_lyrics: bool },
}

impl App {
    /// What plays once a reply has been applied: the new track, where the
    /// playhead was.
    pub open spec fn with_meta(self, meta: TrackMeta, clock: u64) -> NowPlaying {
        NowPlaying {
            uri: meta.uri,
            title: meta.title,
            artist: meta.artist,
            album: meta.album,
            duration_ms: meta.duration_ms,
            position_ms: match self.playback.now {
                Some(n) => n.position_ms,
                None => 0,
            },
            position_at: clock,
            is_playing: match self.playback.now {
                Some(n) => n.is_playing,
                None => self.transport.playback_started,
            },
        }
    }

    /// Apply a metadata reply.
    ///
    /// Fetches run independently, so skipping quickly can land an earlier
    /// track's reply after a later one. Applying it would replace what plays —
    /// title, artist and cover — with the wrong track's data.
    pub fn apply_meta(&mut self, meta: TrackMeta, clock: u64) -> (reply: MetaReply)
        ensures
            if !is_current(optional(old(self).session.pending_meta), meta.uri@) {
                reply == MetaReply::Stale && *final(self) == *old(self)
            } else {
                &&& reply == (MetaReply::Applied { fetch_lyrics: meta.title@.len() > 0 })
                &&& final(self).status@.len() == 0
                &&& final(self).view.lyrics@.len() == 0
                &&& *final(self) == (App {
                    playback: PlaybackState {
                        now: Some(old(self).with_meta(meta, clock)),
                        ..old(self).playback
                    },
                    status: final(self).status,
                    view: ViewState {
                        lyrics: final(self).view.lyrics,
                        lyrics_synced: false,
                        ..old(self).view
                    },
                    art_repaint: ArtRepaint::Draw,
                    ..*old(self)
                })
            },
    {
        let current = match &self.session.pending_meta {
            Some(p) => meta_is_current(Some(p.as_str()), meta.uri.as_str()),
            None => meta_is_current(None, meta.uri.as_str()),
        };
        if !current {
            return MetaReply::Stale;
        }
        let fetch_lyrics = meta.title.as_str().unicode_len() > 0;
        let (position_ms, is_playing): (u32, bool) = match &self.playback.now {
            Some(n) => (n.position_ms, n.is_playing),
            None => (0, self.transport.playback_started),
        };
        self.art_repaint = ArtRepaint::Draw;
        self.status = String::new();
        self.view.lyrics = Vec::new();
        self.view.lyrics_synced = false;
        self.playback.now = Some(
            NowPlaying {
                uri: meta.uri,
                title: meta.title,
                artist: meta.artist,
                album: meta.album,
                duration_ms: meta.duration_ms,
                position_ms,
                position_at: clock,
                is_playing,
            },
        );
        MetaReply::Applied { fetch_lyrics }
    }
}

// ----------------------------------------------------------------------- laws

/// Mid-scrub, no report from the engine moves the playhead.
pub proof fn law_a_scrub_outlasts_engine_reports(app: App, ev: EngineEventView, clock: u64, at: u64)
    requires
        app.playback.seek_target is Some,
        ev is PositionCorrection,
    ensures
        app.after_event(ev, clock).playback.head(at) == app.playback.head(at),
{
}

/// After a track change, the only metadata accepted is that of the new track.
pub proof fn law_only_the_latest_track_is_shown(app: App, uri: Seq<char>, id: Seq<char>, reply: Seq<char>)
    requires
        util::track_id(uri) == Some(id),
    ensures
        is_current(app.event_pending(EngineEventView::TrackChanged { uri }), reply) <==> reply
            == track_uri(id),
{
}

/// Modes and volume are handed to the engine once per playback: a second
/// "playing" without a stop in between hands over nothing.
pub proof fn law_modes_are_reapplied_once(
    app: App,
    uri: Seq<char>,
    first_ms: u32,
    second_ms: u32,
    clock: u64,
)
    ensures
        ({
            let first = EngineEventView::Playing { uri, position_ms: first_ms };
            let second = EngineEventView::Playing { uri, position_ms: second_ms };
            app.after_event(first, clock).event_effects(second).cmds.len() == 0
        }),
{
}

/// After a stop nothing plays, and neither a live session nor a started
/// playback is claimed: only a fresh load can resume.
pub proof fn law_a_stop_forgets_the_session(app: App, clock: u64)
    ensures
        ({
            let after = app.after_event(EngineEventView::Stopped, clock);
            &&& after.playback.now is None
            &&& !after.transport.playback_started
            &&& !after.session.reclaimed
        }),
{
}

/// A report of the engine that playback goes on or is held is shown as such, at
/// the position it gives; while a scrub is under way the position stays the
/// scrub's. What plays, and every other setting, stays what it is.
pub proof fn law_a_report_is_shown_as_it_comes(
    app: App,
    n: NowPlaying,
    ev: EngineEventView,
    position_ms: u32,
    clock: u64,
)
    requires
        app.playback.now == Some(n),
        ev matches EngineEventView::Playing { uri, position_ms: p } && p == position_ms || (
        ev matches EngineEventView::Paused { uri, position_ms: p } && p == position_ms) || (
        ev matches EngineEventView::PositionCorrection { uri, position_ms: p } && p == position_ms),
    ensures
        ({
            let after = app.after_event(ev, clock);
            &&& after.playback.now matches Some(m)
            &&& m.uri == n.uri && m.title == n.title && m.artist == n.artist && m.album == n.album
            &&& m.duration_ms == n.duration_ms
            &&& ev is Playing ==> m.is_playing
            &&& ev is Paused ==> !m.is_playing
            &&& ev is PositionCorrection ==> m.is_playing == n.is_playing
            &&& app.playback.seek_target is None ==> {
                &&& m.position_at == clock
                &&& position_ms <= n.duration_ms ==> m.position_ms == position_ms
                &&& position_ms > n.duration_ms ==> m.position_ms == n.duration_ms
            }
            &&& app.playback.seek_target is Some ==> m.position_ms == n.position_ms
                && m.position_at == n.position_at
            &&& after.playback.seek_target == app.playback.seek_target
            &&& ev is Playing ==> after.transport.playback_started
            &&& !(ev is Playing) ==> after.transport.playback_started
                == app.transport.playback_started
            &&& after.transport.volume == app.transport.volume
            &&& after.transport.shuffle == app.transport.shuffle
            &&& after.transport.repeat == app.transport.repeat
            &&& after.transport.queue == app.transport.queue
            &&& after.transport.source == app.transport.source
            &&& after.browse == app.browse
            &&& after.view == app.view
            &&& after.session == app.session
        }),
{
}

/// A new track, a lost or a found connection and the end of a track change
/// nothing but what is said and what is waited for; a stop changes nothing else
/// either that is not about the playback.
pub proof fn law_other_events_move_nothing(app: App, ev: EngineEventView, clock: u64)
    ensures
        ev is TrackChanged || ev is Reconnecting || ev is Reconnected || ev is EndOfTrack
            ==> app.after_event(ev, clock) == app,
        ev is Stopped ==> {
            let after = app.after_event(ev, clock);
            &&& after.transport.volume == app.transport.volume
            &&& after.transport.shuffle == app.transport.shuffle
            &&& after.transport.repeat == app.transport.repeat
            &&& after.transport.queue == app.transport.queue
            &&& after.transport.queue_uris == app.transport.queue_uris
            &&& after.transport.source == app.transport.source
            &&& after.transport.source_name == app.transport.source_name
            &&& after.browse == app.browse
            &&& after.view == app.view
            &&& after.search == app.search
        },
        !(ev is TrackChanged) ==> app.event_pending(ev) == optional(app.session.pending_meta),
{
}

/// What is said of an event: that a track is loading, that the connection is
/// lost, and that it is back, with a hint to press play where something was
/// playing. Nothing else is said.
pub proof fn law_an_event_says_what_happened(app: App, ev: EngineEventView)
    ensures
        ev is TrackChanged ==> app.event_status(ev) == "loading track…"@,
        ev is Reconnecting ==> app.event_status(ev) == "connection dropped — reconnecting…"@,
        ev is Reconnected && app.transport.playback_started ==> app.event_status(ev)
            == "reconnected — press play to resume"@,
        ev is Reconnected && !app.transport.playback_started ==> app.event_status(ev)
            == "reconnected"@,
        ev is Playing || ev is Paused || ev is Stopped || ev is PositionCorrection
            || ev is EndOfTrack ==> app.event_status(ev) == app.status@,
{
}

/// A new track is asked about by its own id, and waited for under its own URI.
pub proof fn law_a_new_track_is_asked_about(app: App, id: Seq<char>)
    requires
        text::lacks(id, ':'),
    ensures
        ({
            let uri = "spotify"@ + seq![':'] + ("track"@ + seq![':'] + id);
            let ev = EngineEventView::TrackChanged { uri };
            &&& app.event_effects(ev).fetch_meta == Some(id)
            &&& app.event_pending(ev) == Some(uri)
            &&& app.event_effects(ev).cmds.len() == 0
            &&& app.event_effects(ev).media is None
        }),
{
    reveal_strlit("spotify");
    reveal_strlit("track");
    reveal_strlit("spotify:track:");
    assert(text::lacks("spotify"@, ':'));
    assert(text::lacks("track"@, ':'));
    util::law_a_uri_names_a_kind_and_an_id("spotify"@, "track"@, id);
    let uri = "spotify"@ + seq![':'] + ("track"@ + seq![':'] + id);
    assert(uri =~= track_uri(id));
}

/// When playback starts, the engine is given the modes and the volume that are
/// set, the volume at its own scale; the media controls are told what happens
/// and where. Without an engine there is nobody to give them to.
pub proof fn law_a_started_playback_takes_over_the_settings(
    app: App,
    uri: Seq<char>,
    position_ms: u32,
)
    ensures
        ({
            let playing = app.event_effects(EngineEventView::Playing { uri, position_ms });
            let paused = app.event_effects(EngineEventView::Paused { uri, position_ms });
            let moved = app.event_effects(EngineEventView::PositionCorrection { uri, position_ms });
            let stopped = app.event_effects(EngineEventView::Stopped);
            &&& app.engine_up && !app.transport.playback_started ==> {
                &&& playing.cmds.len() == 3
                &&& playing.cmds[0] == CmdView::Shuffle(app.transport.shuffle)
                &&& playing.cmds[1] == CmdView::Repeat(app.transport.repeat)
                &&& playing.cmds[2] matches CmdView::SetVolume(v)
                &&& v == (app.transport.volume * 65535 / 100) % 65536
                &&& app.transport.volume <= 100 ==> v * 100 <= app.transport.volume * 65535 < (v
                    + 1) * 100
            }
            &&& !app.engine_up || app.transport.playback_started ==> playing.cmds.len() == 0
            &&& playing.media == Some(MediaUpdate::Playing(position_ms))
            &&& paused.media == Some(MediaUpdate::Paused(position_ms))
            &&& stopped.media == Some(MediaUpdate::Stopped)
            &&& moved.media is Some <==> app.playback.now is Some
            &&& app.playback.now matches Some(n) ==> moved.media == Some(
                if n.is_playing {
                    MediaUpdate::Playing(position_ms)
                } else {
                    MediaUpdate::Paused(position_ms)
                },
            )
            &&& paused.cmds.len() == 0 && moved.cmds.len() == 0 && stopped.cmds.len() == 0
            &&& playing.fetch_meta is None && paused.fetch_meta is None
            &&& moved.fetch_meta is None && stopped.fetch_meta is None
        }),
{
}

/// A reply is applied exactly where it is for the track that is waited for, or
/// where none is waited for.
pub proof fn law_a_reply_for_another_track_is_stale(waited: Seq<char>, reply: Seq<char>)
    ensures
        is_current(Some(waited), reply) <==> waited == reply,
        is_current(None, reply),
{
}

/// What is known of a track is shown as it was told, at the playhead's place;
/// it plays if what was there played, or if playback has begun.
pub proof fn law_a_track_is_shown_as_told(app: App, meta: TrackMeta, clock: u64)
    ensures
        ({
            let n = app.with_meta(meta, clock);
            &&& n.uri == meta.uri
            &&& n.title == meta.title
            &&& n.artist == meta.artist
            &&& n.album == meta.album
            &&& n.duration_ms == meta.duration_ms
            &&& n.position_at == clock
            &&& app.playback.now matches Some(m) ==> n.position_ms == m.position_ms
                && n.is_playing == m.is_playing
            &&& app.playback.now is None ==> n.position_ms == 0 && n.is_playing
                == app.transport.playback_started
        }),
{
}

/// What is modelled of an event's effects is what they hold.
pub proof fn law_effects_are_modelled_whole(effects: EventEffects, i: int)
    ensures
        effects.view().media == effects.media,
        effects.view().fetch_meta is Some <==> effects.fetch_meta is Some,
        effects.fetch_meta matches Some(id) ==> effects.view().fetch_meta == Some(id@),
        effects.view().cmds.len() == effects.cmds@.len(),
        0 <= i < effects.cmds@.len() ==> effects.view().cmds[i] == effects.cmds@[i].view(),
{
}

} // verus!
