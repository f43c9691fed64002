//! The guest's room player: what each command and each reply does to the
//! transport, and what the UI is told.
//!
//! The player resolves through the host's premium session, downloads the
//! encrypted file from the CDN, decrypts locally, and plays the Ogg stream. One
//! thread owns the audio output; it asks this state what to do next.

use crate::engine::EngineEvent;
use crate::engine::EngineEventView;
use crate::room::cache;
use crate::room::cache::TrackCache;
use crate::room::client::RoomClient;
use crate::room::ogg;
use crate::room::substream::Substream;
use crate::shared::share;
use crate::text;
use crate::text::optional;
use std::sync::Arc;
use vstd::prelude::*;

verus! {

/// How often position corrections are reported to the UI, in nanoseconds.
pub const POSITION_TICK: u64 = 1_000_000_000;

/// Events the room player reports to the UI.
#[derive(Debug)]
pub enum RoomEvent {
    /// Reply to a join attempt (the actual join round-trip happens off the
    /// UI thread, so this arrives asynchronously).
    Joined { ok: bool, message: String },
    /// A track is being resolved and downloaded — this can take a while, so
    /// the UI says so rather than looking hung.
    Loading { uri: String },
    /// A normal playback event, shaped like an engine's.
    Playback(EngineEvent),
    /// The current track ran out; the UI decides what plays next.
    Ended { uri: String },
    Error { message: String },
}

impl Clone for RoomEvent {
    fn clone(&self) -> (copy: RoomEvent)
        ensures
            copy == *self,
    {
        match self {
            RoomEvent::Joined { ok, message } => RoomEvent::Joined {
                ok: *ok,
                message: message.clone(),
            },
            RoomEvent::Loading { uri } => RoomEvent::Loading { uri: uri.clone() },
            RoomEvent::Playback(ev) => RoomEvent::Playback(ev.clone()),
            RoomEvent::Ended { uri } => RoomEvent::Ended { uri: uri.clone() },
            RoomEvent::Error { message } => RoomEvent::Error { message: message.clone() },
        }
    }
}

/// The model of a room event.
pub ghost enum RoomEventView {
    Joined { ok: bool, message: Seq<char> },
    Loading { uri: Seq<char> },
    Playback(EngineEventView),
    Ended { uri: Seq<char> },
    Error { message: Seq<char> },
}

impl RoomEvent {
    /// The model of this event.
    pub open spec fn view(self) -> RoomEventView {
        match self {
            RoomEvent::Joined { ok, message } => RoomEventView::Joined { ok, message: message@ },
            RoomEvent::Loading { uri } => RoomEventView::Loading { uri: uri@ },
            RoomEvent::Playback(ev) => RoomEventView::Playback(ev.view()),
            RoomEvent::Ended { uri } => RoomEventView::Ended { uri: uri@ },
            RoomEvent::Error { message } => RoomEventView::Error { message: message@ },
        }
    }
}

/// The models of a run of events.
pub open spec fn events_view(events: Seq<RoomEvent>) -> Seq<RoomEventView> {
    events.map_values(|e: RoomEvent| e.view())
}

/// The transport of the room player.
pub struct PlayerState {
    /// The room that was joined.
    pub client: Option<RoomClient>,
    pub cache: TrackCache,
    /// Bumped on every play and every stop, so a slow load that lands after the
    /// user has moved on is discarded instead of hijacking the sink.
    pub load_gen: u64,
    /// Whether audio is queued on a sink.
    pub sink: bool,
    /// The track that plays.
    pub current: Option<String>,
    /// Where in the track the sink began.
    pub base_pos_ms: u32,
    pub paused: bool,
    /// When the UI last heard the position, in nanoseconds.
    pub last_pos: u64,
}

/// The model of the transport.
pub ghost struct Transport {
    pub client: Option<RoomClient>,
    pub cache: Seq<cache::Cached>,
    pub load_gen: u64,
    pub sink: bool,
    pub current: Option<Seq<char>>,
    pub base_pos_ms: u32,
    pub paused: bool,
    pub last_pos: u64,
}

impl View for PlayerState {
    type V = Transport;

    open spec fn view(&self) -> Transport {
        Transport {
            client: self.client,
            cache: self.cache@,
            load_gen: self.load_gen,
            sink: self.sink,
            current: optional(self.current),
            base_pos_ms: self.base_pos_ms,
            paused: self.paused,
            last_pos: self.last_pos,
        }
    }
}

/// What came of putting a track on a new sink.
#[derive(Debug)]
pub enum Started {
    /// It plays, from the moment given in nanoseconds.
    At(u64),
    /// The position is past the end of the track.
    PastEnd,
    /// The decoder or the device refused.
    Failed(String),
}

/// What a request to play leads to.
pub enum PlayStep {
    /// Nothing can be played.
    Refused(RoomEvent),
    /// The track is cached: put it on a sink.
    Start { uri: String, pos_ms: u32, bytes: Arc<Vec<u8>> },
    /// The track must be fetched first. The load carries its generation, so
    /// that a superseded one can be told.
    Load { uri: String, pos_ms: u32, gen: u64, client: RoomClient },
}

/// What a finished load leads to.
pub enum LoadStep {
    /// It was superseded.
    Ignored,
    /// Put the track on a sink.
    Start { uri: String, pos_ms: u32, bytes: Arc<Vec<u8>> },
    /// It failed; tell the UI.
    Failed(RoomEvent),
}

impl Transport {
    /// A track plays exactly when audio is queued.
    pub open spec fn wf(self) -> bool {
        self.sink <==> self.current is Some
    }

    /// The transport left idle.
    pub open spec fn idle(self) -> Transport {
        Transport { sink: false, current: None, paused: false, ..self }
    }

    /// The transport after a stop: idle, and deaf to any load in flight.
    pub open spec fn stopped(self) -> Transport {
        Transport { load_gen: self.load_gen.wrapping_add(1), ..self.idle() }
    }

    /// The transport with a new sink that began at `pos_ms`.
    pub open spec fn on_sink(self, pos_ms: u32, now: u64) -> Transport {
        Transport { sink: true, base_pos_ms: pos_ms, last_pos: now, ..self }
    }

    /// The track's bytes, where they are cached.
    pub open spec fn cached(self, uri: Seq<char>) -> Option<Seq<u8>> {
        cache::lookup(self.cache, uri)
    }
}

/// What a failed start is reported as, after a play.
pub open spec fn start_error(why: Started) -> Seq<char> {
    match why {
        Started::Failed(message) => "playback failed: "@ + message@,
        _ => "room: nothing to play at that position"@,
    }
}

/// Open the part of a cached track that begins at `pos_ms`: the reader shares
/// the cached bytes. `None` when the position is past the end.
pub fn open_stream(bytes: &Arc<Vec<u8>>, pos_ms: u32) -> (out: Option<Substream>)
    ensures
        match out {
            Some(s) => {
                &&& ogg::stream_at(bytes@, pos_ms) == Some(s.content())
                &&& s.position() == 0
                &&& s.buffer() == bytes@
            },
            None => ogg::stream_at(bytes@, pos_ms) is None,
        },
{
    proof {
        ogg::law_stream_ranges_are_inside(bytes@, pos_ms);
    }
    match ogg::substream_ranges(bytes.as_slice(), pos_ms) {
        Some((header, tail)) => Some(Substream::new(share(bytes), header, tail)),
        None => None,
    }
}

impl PlayerState {
    /// An idle player that has joined no room.
    pub fn new(now: u64) -> (state: PlayerState)
        ensures
            state@.client is None,
            state@.cache.len() == 0,
            state@.load_gen == 0,
            !state@.sink,
            state@.current is None,
            state@.base_pos_ms == 0,
            !state@.paused,
            state@.last_pos == now,
    {
        PlayerState {
            client: None,
            cache: TrackCache::default(),
            load_gen: 0,
            sink: false,
            current: None,
            base_pos_ms: 0,
            paused: false,
            last_pos: now,
        }
    }

    /// A join attempt has been answered.
    pub fn joined(&mut self, client: RoomClient, answer: Result<(), String>) -> (event: RoomEvent)
        ensures
            match answer {
                Ok(_) => {
                    &&& final(self)@ == (Transport { client: Some(client), ..old(self)@ })
                    &&& event.view() == (RoomEventView::Joined {
                        ok: true,
                        message: "room joined"@,
                    })
                },
                Err(why) => {
                    &&& final(self)@ == old(self)@
                    &&& event.view() == (RoomEventView::Joined {
                        ok: false,
                        message: "join failed: "@ + why@,
                    })
                },
            },
    {
        match answer {
            Ok(_) => {
                self.client = Some(client);
                RoomEvent::Joined { ok: true, message: "room joined".to_owned() }
            },
            Err(why) => RoomEvent::Joined {
                ok: false,
                message: text::join2("join failed: ", why.as_str()),
            },
        }
    }

    /// Leave the room and stop. The caller hands the audio device back.
    pub fn leave(&mut self) -> (event: RoomEvent)
        ensures
            final(self)@ == (Transport { client: None, ..old(self)@.stopped() }),
            event.view() == RoomEventView::Playback(EngineEventView::Stopped),
    {
        self.client = None;
        self.stop_all()
    }

    /// Stop playback. The output device stays open; leaving releases it.
    pub fn stop_all(&mut self) -> (event: RoomEvent)
        ensures
            final(self)@ == old(self)@.stopped(),
            event.view() == RoomEventView::Playback(EngineEventView::Stopped),
    {
        self.load_gen = self.load_gen.wrapping_add(1);
        self.current = None;
        self.paused = false;
        self.sink = false;
        RoomEvent::Playback(EngineEvent::Stopped)
    }

    /// Start playing `uri`, fetching it first if it is not already cached.
    pub fn begin_play(&mut self, uri: String, pos_ms: u32) -> (step: PlayStep)
        ensures
            match old(self).client {
                None => {
                    &&& final(self)@ == old(self)@
                    &&& step matches PlayStep::Refused(event) && event.view() == (
                    RoomEventView::Error {
                        message: "not joined to a room — press J in the Room view first"@,
                    })
                },
                Some(client) => {
                    let gen = old(self).load_gen.wrapping_add(1);
                    &&& final(self)@ == (Transport { load_gen: gen, ..old(self)@ })
                    &&& match old(self)@.cached(uri@) {
                        Some(data) => step matches PlayStep::Start { uri: u, pos_ms: p, bytes }
                            && u@ == uri@ && p == pos_ms && bytes@ == data,
                        None => step matches PlayStep::Load { uri: u, pos_ms: p, gen: g, client: c }
                            && u@ == uri@ && p == pos_ms && g == gen && c == client,
                    }
                },
            },
    {
        let client = match &self.client {
            Some(client) => client.clone(),
            None => {
                return PlayStep::Refused(
                    RoomEvent::Error {
                        message: "not joined to a room — press J in the Room view first".to_owned(),
                    },
                );
            },
        };
        self.load_gen = self.load_gen.wrapping_add(1);
        match self.cache.get(uri.as_str()) {
            Some(bytes) => PlayStep::Start { uri, pos_ms, bytes },
            None => PlayStep::Load { uri, pos_ms, gen: self.load_gen, client },
        }
    }

    /// A background load landed. Ignore it if the user has since asked for
    /// something else, otherwise cache it and play.
    pub fn finish_play(
        &mut self,
        uri: String,
        pos_ms: u32,
        gen: u64,
        result: Result<Vec<u8>, String>,
    ) -> (step: LoadStep)
        ensures
            if gen != old(self).load_gen {
                final(self)@ == old(self)@ && step is Ignored
            } else {
                match result {
                    Ok(data) => {
                        &&& final(self)@ == (Transport {
                            cache: cache::within_budget(
                                cache::without(old(self)@.cache, uri@).push((uri@, data@)),
                            ),
                            ..old(self)@
                        })
                        &&& step matches LoadStep::Start { uri: u, pos_ms: p, bytes } && u@ == uri@
                            && p == pos_ms && bytes@ == data@
                    },
                    Err(why) => {
                        &&& final(self)@ == old(self)@.idle()
                        &&& step matches LoadStep::Failed(event) && event.view() == (
                        RoomEventView::Error { message: "room: "@ + why@ })
                    },
                }
            },
    {
        if gen != self.load_gen {
            return LoadStep::Ignored;
        }
        match result {
            Ok(data) => {
                let bytes = Arc::new(data);
                self.cache.insert(uri.clone(), share(&bytes));
                LoadStep::Start { uri, pos_ms, bytes }
            },
            Err(why) => LoadStep::Failed(self.fail(text::join2("room: ", why.as_str()))),
        }
    }

    /// Report a failure and leave the transport idle.
    ///
    /// Clearing the current track matters: a dead sink with one still set looks
    /// exactly like "the track just finished" to [`Self::tick`], which would
    /// report an end and silently skip the queue forward.
    pub fn fail(&mut self, message: String) -> (event: RoomEvent)
        ensures
            final(self)@ == old(self)@.idle(),
            event.view() == (RoomEventView::Error { message: message@ }),
    {
        self.sink = false;
        self.current = None;
        self.paused = false;
        RoomEvent::Error { message }
    }

    /// Before a track is put on a new sink by a play: it starts unpaused.
    pub fn before_start(&mut self)
        ensures
            final(self)@ == (Transport { paused: false, ..old(self)@ }),
    {
        self.paused = false;
    }

    /// A play has put its track on a sink, or could not.
    pub fn start_loaded(&mut self, uri: String, pos_ms: u32, outcome: Started) -> (events: Vec<
        RoomEvent,
    >)
        ensures
            match outcome {
                Started::At(now) => {
                    &&& final(self)@ == (Transport {
                        current: Some(uri@),
                        paused: false,
                        ..old(self)@.on_sink(pos_ms, now)
                    })
                    &&& events_view(events@) == seq![
                        RoomEventView::Playback(EngineEventView::TrackChanged { uri: uri@ }),
                        RoomEventView::Playback(
                            EngineEventView::Playing { uri: uri@, position_ms: pos_ms },
                        ),
                    ]
                },
                _ => {
                    &&& final(self)@ == old(self)@.idle()
                    &&& events_view(events@) == seq![
                        RoomEventView::Error { message: start_error(outcome) },
                    ]
                },
            },
    {
        let mut events: Vec<RoomEvent> = Vec::new();
        self.paused = false;
        match outcome {
            Started::At(now) => {
                self.sink = true;
                self.base_pos_ms = pos_ms;
                self.last_pos = now;
                self.current = Some(uri.clone());
                events.push(RoomEvent::Playback(EngineEvent::TrackChanged { uri: uri.clone() }));
                events.push(
                    RoomEvent::Playback(EngineEvent::Playing { uri, position_ms: pos_ms }),
                );
                assert(events_view(events@) =~= seq![
                    RoomEventView::Playback(EngineEventView::TrackChanged { uri: uri@ }),
                    RoomEventView::Playback(
                        EngineEventView::Playing { uri: uri@, position_ms: pos_ms },
                    ),
                ]);
            },
            Started::PastEnd => {
                events.push(self.fail("room: nothing to play at that position".to_owned()));
                assert(events_view(events@) =~= seq![
                    RoomEventView::Error { message: start_error(outcome) },
                ]);
            },
            Started::Failed(why) => {
                events.push(self.fail(text::join2("playback failed: ", why.as_str())));
                assert(events_view(events@) =~= seq![
                    RoomEventView::Error { message: start_error(outcome) },
                ]);
            },
        }
        events
    }

    /// What a seek has to put on a new sink: the track that plays, from the
    /// cache. `None` when nothing plays, or it is no longer cached.
    pub fn seek_source(&self) -> (out: Option<(String, Arc<Vec<u8>>)>)
        ensures
            match out {
                Some((uri, bytes)) => {
                    &&& self@.current == Some(uri@)
                    &&& self@.cached(uri@) == Some(bytes@)
                },
                None => self@.current is None || self@.cached(self@.current->0) is None,
            },
    {
        match &self.current {
            Some(uri) => match self.cache.get(uri.as_str()) {
                Some(bytes) => Some((uri.clone(), bytes)),
                None => None,
            },
            None => None,
        }
    }

    /// A seek has put its track on a new sink, or could not. Seeking past the
    /// outro finishes the track, exactly as playing through to the end would.
    pub fn seek_to(&mut self, uri: String, pos_ms: u32, outcome: Started) -> (event: RoomEvent)
        ensures
            match outcome {
                Started::At(now) => {
                    &&& final(self)@ == old(self)@.on_sink(pos_ms, now)
                    &&& event.view() == RoomEventView::Playback(
                        EngineEventView::PositionCorrection { uri: uri@, position_ms: pos_ms },
                    )
                },
                Started::PastEnd => {
                    &&& final(self)@ == old(self)@.idle()
                    &&& event.view() == (RoomEventView::Ended { uri: uri@ })
                },
                Started::Failed(why) => {
                    &&& final(self)@ == old(self)@.idle()
                    &&& event.view() == (RoomEventView::Error {
                        message: "seek failed: "@ + why@,
                    })
                },
            },
    {
        match outcome {
            Started::At(now) => {
                self.sink = true;
                self.base_pos_ms = pos_ms;
                self.last_pos = now;
                RoomEvent::Playback(EngineEvent::PositionCorrection { uri, position_ms: pos_ms })
            },
            Started::PastEnd => {
                self.sink = false;
                self.current = None;
                self.paused = false;
                RoomEvent::Ended { uri }
            },
            Started::Failed(why) => self.fail(text::join2("seek failed: ", why.as_str())),
        }
    }

    /// Where playback stands, given how long the sink has played.
    pub fn position(&self, sink_ms: u32) -> (ms: u32)
        requires
            self.sink ==> self.base_pos_ms + sink_ms <= u32::MAX,
        ensures
            ms == self.base_pos_ms + (if self.sink {
                sink_ms as int
            } else {
                0
            }),
    {
        if self.sink {
            self.base_pos_ms + sink_ms
        } else {
            self.base_pos_ms
        }
    }

    /// Pause or resume. The event says which the sink must do; there is none
    /// when nothing is queued.
    pub fn toggle(&mut self, sink_ms: u32) -> (event: Option<RoomEvent>)
        requires
            old(self).sink ==> old(self).base_pos_ms + sink_ms <= u32::MAX,
        ensures
            if !old(self).sink {
                final(self)@ == old(self)@ && event is None
            } else {
                let uri = match old(self)@.current {
                    Some(uri) => uri,
                    None => Seq::empty(),
                };
                let position_ms = (old(self).base_pos_ms + sink_ms) as u32;
                &&& final(self)@ == (Transport { paused: !old(self).paused, ..old(self)@ })
                &&& event is Some
                &&& (event->0).view() == RoomEventView::Playback(
                    if old(self).paused {
                        EngineEventView::Playing { uri, position_ms }
                    } else {
                        EngineEventView::Paused { uri, position_ms }
                    },
                )
            },
    {
        if !self.sink {
            return None;
        }
        let uri = match &self.current {
            Some(uri) => uri.clone(),
            None => String::new(),
        };
        assert(uri@ =~= match old(self)@.current {
            Some(uri) => uri,
            None => Seq::empty(),
        });
        let position_ms = self.position(sink_ms);
        if self.paused {
            self.paused = false;
            Some(RoomEvent::Playback(EngineEvent::Playing { uri, position_ms }))
        } else {
            self.paused = true;
            Some(RoomEvent::Playback(EngineEvent::Paused { uri, position_ms }))
        }
    }

    /// The regular look at the sink: whether it has run dry, how long it has
    /// played, and what time it is.
    pub fn tick(&mut self, empty: bool, sink_ms: u32, now: u64) -> (event: Option<RoomEvent>)
        requires
            old(self).sink && !empty ==> old(self).base_pos_ms + sink_ms <= u32::MAX,
        ensures
            ({
                let due = old(self).sink && !empty && !old(self).paused && now
                    - old(self).last_pos >= POSITION_TICK && old(self).current is Some;
                if old(self).sink && empty && old(self).current is Some {
                    &&& final(self)@ == old(self)@.idle()
                    &&& event is Some
                    &&& (event->0).view() == (RoomEventView::Ended {
                        uri: old(self)@.current->0,
                    })
                } else if due {
                    &&& final(self)@ == (Transport { last_pos: now, ..old(self)@ })
                    &&& event is Some
                    &&& (event->0).view() == RoomEventView::Playback(
                        EngineEventView::PositionCorrection {
                            uri: old(self)@.current->0,
                            position_ms: (old(self).base_pos_ms + sink_ms) as u32,
                        },
                    )
                } else {
                    final(self)@ == old(self)@ && event is None
                }
            }),
    {
        if !self.sink {
            return None;
        }
        if empty {
            return match self.current.take() {
                Some(uri) => {
                    self.sink = false;
                    self.paused = false;
                    Some(RoomEvent::Ended { uri })
                },
                None => None,
            };
        }
        if !self.paused && now.saturating_sub(self.last_pos) >= POSITION_TICK {
            let position_ms = self.position(sink_ms);
            if let Some(uri) = &self.current {
                let uri = uri.clone();
                self.last_pos = now;
                return Some(
                    RoomEvent::Playback(EngineEvent::PositionCorrection { uri, position_ms }),
                );
            }
        }
        None
    }
}

/// What the UI is told when the player had to be reset.
pub fn reset_event() -> (event: RoomEvent)
    ensures
        event.view() == (RoomEventView::Error {
            message: "room player hit an internal error and reset"@,
        }),
{
    RoomEvent::Error { message: "room player hit an internal error and reset".to_owned() }
}

// ----------------------------------------------------------------------- laws

/// Every transition of the transport keeps "a track plays exactly when audio is
/// queued".
pub proof fn law_a_track_plays_exactly_when_audio_is_queued(
    t: Transport,
    uri: Seq<char>,
    pos_ms: u32,
    now: u64,
)
    requires
        t.wf(),
    ensures
        t.idle().wf(),
        t.stopped().wf(),
        (Transport { current: Some(uri), paused: false, ..t.on_sink(pos_ms, now) }).wf(),
        t.current is Some ==> t.on_sink(pos_ms, now).wf(),
{
}

/// The generation after `n` plays and stops.
pub open spec fn bumped(gen: u64, n: nat) -> u64
    decreases n,
{
    if n == 0 {
        gen
    } else {
        bumped(gen, (n - 1) as nat).wrapping_add(1)
    }
}

proof fn lemma_bumped(gen: u64, n: nat)
    ensures
        bumped(gen, n) == (gen + n) % 0x1_0000_0000_0000_0000,
    decreases n,
{
    if n > 0 {
        lemma_bumped(gen, (n - 1) as nat);
        let g = gen as int;
        let k = n - 1;
        assert(((g + k) % 0x1_0000_0000_0000_0000 + 1) % 0x1_0000_0000_0000_0000 == (g + k + 1)
            % 0x1_0000_0000_0000_0000) by (nonlinear_arith);
    }
}

/// A load asked for before any number of later plays and stops no longer has
/// the current generation, so it is ignored when it lands.
pub proof fn law_a_later_play_or_stop_discards_a_load(gen: u64, later: nat)
    requires
        0 < later < 0x1_0000_0000_0000_0000,
    ensures
        bumped(gen, later) != gen,
{
    lemma_bumped(gen, later);
}

/// After a failure nothing counts as ended: there is no current track left for
/// the regular look at the sink to report.
pub proof fn law_a_failure_never_ends_a_track(t: Transport)
    ensures
        t.idle().current is None,
        !t.idle().sink,
{
}

/// A track that was just loaded can be sought in: it is in the cache.
pub proof fn law_a_loaded_track_can_be_sought(t: Transport, uri: Seq<char>, data: Seq<u8>)
    ensures
        (Transport {
            cache: cache::within_budget(cache::without(t.cache, uri).push((uri, data))),
            current: Some(uri),
            ..t
        }).cached(uri) == Some(data),
{
    cache::law_an_inserted_track_is_found(t.cache, uri, data);
}

/// Going idle drops what plays and keeps everything else: the room, the cache,
/// the loads that are waited for, and where playback stood.
pub proof fn law_going_idle_keeps_the_rest(t: Transport)
    ensures
        ({
            let after = t.idle();
            &&& !after.sink && after.current is None && !after.paused
            &&& after.client == t.client
            &&& after.cache == t.cache
            &&& after.load_gen == t.load_gen
            &&& after.base_pos_ms == t.base_pos_ms
            &&& after.last_pos == t.last_pos
        }),
        ({
            let after = t.stopped();
            &&& !after.sink && after.current is None && !after.paused
            &&& after.client == t.client
            &&& after.cache == t.cache
            &&& after.load_gen != t.load_gen
            &&& t.load_gen < u64::MAX ==> after.load_gen == t.load_gen + 1
            &&& after.base_pos_ms == t.base_pos_ms
            &&& after.last_pos == t.last_pos
        }),
{
}

/// A new sink begins where it was asked to, and its position is first reported a
/// second later; what plays and whether it is paused is not its business.
pub proof fn law_a_new_sink_begins_where_asked(t: Transport, pos_ms: u32, now: u64)
    ensures
        ({
            let after = t.on_sink(pos_ms, now);
            &&& after.sink
            &&& after.base_pos_ms == pos_ms
            &&& after.last_pos == now
            &&& after.client == t.client
            &&& after.cache == t.cache
            &&& after.load_gen == t.load_gen
            &&& after.current == t.current
            &&& after.paused == t.paused
        }),
        POSITION_TICK == 1_000_000_000,
{
}

/// A start that failed is reported with the reason, and one past the end as
/// having nothing to play.
pub proof fn law_a_failed_start_says_why(why: Started)
    ensures
        why matches Started::Failed(message) ==> start_error(why) == "playback failed: "@
            + message@,
        why is PastEnd ==> start_error(why) == "room: nothing to play at that position"@,
{
}

/// What is modelled of the player and of its events is what they hold.
pub proof fn law_the_player_is_modelled_whole(p: PlayerState, events: Seq<RoomEvent>, i: int)
    ensures
        p@.client == p.client,
        p@.cache == p.cache@,
        p@.load_gen == p.load_gen,
        p@.sink == p.sink,
        p@.current is Some <==> p.current is Some,
        p.current matches Some(uri) ==> p@.current == Some(uri@),
        p@.base_pos_ms == p.base_pos_ms,
        p@.paused == p.paused,
        p@.last_pos == p.last_pos,
        events_view(events).len() == events.len(),
        0 <= i < events.len() ==> match events[i] {
            RoomEvent::Joined { ok, message } => {
                &&& events_view(events)[i] matches RoomEventView::Joined { ok: o, message: m }
                &&& o == ok && m == message@
            },
            RoomEvent::Loading { uri } => events_view(events)[i] == (RoomEventView::Loading {
                uri: uri@,
            }),
            RoomEvent::Playback(ev) => events_view(events)[i] == RoomEventView::Playback(ev.view()),
            RoomEvent::Ended { uri } => events_view(events)[i] == (RoomEventView::Ended {
                uri: uri@,
            }),
            RoomEvent::Error { message } => events_view(events)[i] == (RoomEventView::Error {
                message: message@,
            }),
        },
{
}

} // verus!
