//! External audio source: play whatever a helper program writes to stdout.
//!
//! The helper is earshot, whose contract is `earshot <uri> [--start-ms N]` →
//! Ogg on stdout, one metadata line on stderr, meaningful exit codes. It is
//! stateless per invocation, which decides the transport: pause is to stop
//! reading, seek is to respawn at a new position, stop is to kill.

use crate::engine::EngineEvent;
use crate::engine::EngineEventView;
use crate::json;
use crate::json::Json;
use crate::text;
use vstd::prelude::*;

verus! {

/// How often to push an authoritative position to the UI, in nanoseconds.
pub const POSITION_INTERVAL: u64 = 1_000_000_000;

/// How long to wait for the helper's metadata line, in seconds.
pub const META_TIMEOUT_SECS: u64 = 10;

// ------------------------------------------------------------------- metadata

/// What the helper told us about the stream it is about to write.
#[derive(Debug)]
pub struct SourceMeta {
    pub codec: String,
    pub rate: u32,
    pub channels: u16,
    pub duration_ms: Option<u64>,
    pub requested_start_ms: u64,
    /// Where the audio *actually* begins. Never later than requested.
    pub actual_start_ms: u64,
}

impl Clone for SourceMeta {
    fn clone(&self) -> (copy: SourceMeta)
        ensures
            copy == *self,
    {
        SourceMeta {
            codec: self.codec.clone(),
            rate: self.rate,
            channels: self.channels,
            duration_ms: self.duration_ms,
            requested_start_ms: self.requested_start_ms,
            actual_start_ms: self.actual_start_ms,
        }
    }
}

impl Default for SourceMeta {
    fn default() -> (meta: SourceMeta)
        ensures
            meta.codec@ == Seq::<char>::empty(),
            meta.rate == 0,
            meta.channels == 0,
            meta.duration_ms is None,
            meta.requested_start_ms == 0,
            meta.actual_start_ms == 0,
    {
        SourceMeta {
            codec: String::new(),
            rate: 0,
            channels: 0,
            duration_ms: None,
            requested_start_ms: 0,
            actual_start_ms: 0,
        }
    }
}

/// A number, or what stands in its place.
pub open spec fn number_or(n: Option<u64>, other: u64) -> u64 {
    match n {
        Some(n) => n,
        None => other,
    }
}

/// Whether `meta` is what the document says: a field that is missing or has
/// another type counts as not given, and a number that does not fit keeps its
/// low bits.
pub open spec fn is_meta_of(meta: SourceMeta, doc: json::JsonView) -> bool {
    &&& meta.codec@ == (match doc.text_field("codec"@) {
        Some(codec) => codec,
        None => "unknown"@,
    })
    &&& meta.rate == number_or(doc.number_field("rate"@), 44_100) % 0x1_0000_0000
    &&& meta.channels == number_or(doc.number_field("channels"@), 2) % 0x1_0000
    &&& meta.duration_ms == doc.number_field("duration_ms"@)
    &&& meta.requested_start_ms == number_or(doc.number_field("requested_start_ms"@), 0)
    &&& meta.actual_start_ms == number_or(doc.number_field("actual_start_ms"@), 0)
}

impl SourceMeta {
    /// What a metadata document says.
    pub fn from_document(doc: &Json) -> (meta: SourceMeta)
        ensures
            is_meta_of(meta, doc@),
    {
        let codec = match doc.text_field("codec") {
            Some(codec) => codec.clone(),
            None => "unknown".to_owned(),
        };
        let rate: u64 = doc.number_field("rate").unwrap_or(44_100);
        let channels: u64 = doc.number_field("channels").unwrap_or(2);
        SourceMeta {
            codec,
            rate: (rate % 0x1_0000_0000) as u32,
            channels: (channels % 0x1_0000) as u16,
            duration_ms: doc.number_field("duration_ms"),
            requested_start_ms: doc.number_field("requested_start_ms").unwrap_or(0),
            actual_start_ms: doc.number_field("actual_start_ms").unwrap_or(0),
        }
    }

    /// Parse earshot's one-line metadata JSON.
    pub fn parse(line: &str) -> (out: Result<SourceMeta, String>)
        ensures
            match out {
                Ok(meta) => {
                    &&& json::json_document(line@) is Some
                    &&& is_meta_of(meta, json::json_document(line@)->0)
                },
                Err(message) => {
                    &&& json::json_document(line@) is None
                    &&& exists|cause: Seq<char>|
                        message@ == #[trigger] ("parse source metadata json: "@ + cause)
                },
            },
    {
        match json::parse(line) {
            Ok(doc) => Ok(SourceMeta::from_document(&doc)),
            Err(cause) => Err(text::join2("parse source metadata json: ", cause.as_str())),
        }
    }
}

/// How long `frames` frames of a stream last, in milliseconds, at the stream's
/// own rate.
pub open spec fn lasting(meta: SourceMeta, frames: u64) -> int {
    let rate = if meta.rate > 0 {
        meta.rate as int
    } else {
        1
    };
    frames * 1000 / rate
}

/// Where playback stands after `frames` frames of a stream: counted from where
/// the audio actually begins.
pub open spec fn played_to(meta: SourceMeta, frames: u64) -> int {
    let ms = meta.actual_start_ms + lasting(meta, frames);
    if ms < u32::MAX {
        ms
    } else {
        u32::MAX as int
    }
}

/// Whether counting `frames` frames stays within 64 bits.
pub open spec fn countable(meta: SourceMeta, frames: u64) -> bool {
    frames * 1000 <= u64::MAX && meta.actual_start_ms + lasting(meta, frames) <= u64::MAX
}

/// How long `frames` frames of a stream last, in milliseconds.
fn length_ms(meta: &SourceMeta, frames: u64) -> (ms: u64)
    requires
        frames * 1000 <= u64::MAX,
    ensures
        ms == lasting(*meta, frames),
{
    let rate: u64 = if meta.rate > 0 {
        meta.rate as u64
    } else {
        1
    };
    frames * 1000 / rate
}

/// Where playback stands after `frames` frames of a stream.
pub fn position_ms(meta: &SourceMeta, frames: u64) -> (ms: u32)
    requires
        countable(*meta, frames),
    ensures
        ms == played_to(*meta, frames),
{
    let ms = meta.actual_start_ms + length_ms(meta, frames);
    if ms < u32::MAX as u64 {
        ms as u32
    } else {
        u32::MAX
    }
}

/// Position is counted from where the helper says audio actually begins,
/// whatever was requested.
pub proof fn law_position_counts_from_the_actual_start(
    meta: SourceMeta,
    other: SourceMeta,
    frames: u64,
)
    requires
        meta.rate == other.rate,
        meta.actual_start_ms == other.actual_start_ms,
    ensures
        played_to(meta, frames) == played_to(other, frames),
        played_to(meta, 0) == meta.actual_start_ms || played_to(meta, 0) == u32::MAX,
{
    assert(0int / (if meta.rate > 0 {
        meta.rate as int
    } else {
        1
    }) == 0) by (nonlinear_arith);
}

/// Position never runs backwards as frames are played.
pub proof fn law_position_never_runs_backwards(meta: SourceMeta, early: u64, late: u64)
    requires
        early <= late,
    ensures
        played_to(meta, early) <= played_to(meta, late),
{
    let rate = if meta.rate > 0 {
        meta.rate as int
    } else {
        1
    };
    assert(early * 1000 / rate <= late * 1000 / rate) by (nonlinear_arith)
        requires
            early <= late,
            rate > 0,
    ;
}

// ---------------------------------------------------------------- the worker

/// Snapshot of the source, readable from the UI thread.
#[derive(Debug)]
pub struct SourceState {
    pub uri: Option<String>,
    pub playing: bool,
    pub position_ms: u32,
    pub duration_ms: Option<u64>,
    pub meta: Option<SourceMeta>,
    /// Last failure, for the status line.
    pub error: Option<String>,
}

impl Clone for SourceState {
    fn clone(&self) -> (copy: SourceState)
        ensures
            copy == *self,
    {
        SourceState {
            uri: match &self.uri {
                Some(uri) => Some(uri.clone()),
                None => None,
            },
            playing: self.playing,
            position_ms: self.position_ms,
            duration_ms: self.duration_ms,
            meta: match &self.meta {
                Some(meta) => Some(meta.clone()),
                None => None,
            },
            error: match &self.error {
                Some(error) => Some(error.clone()),
                None => None,
            },
        }
    }
}

impl Default for SourceState {
    fn default() -> (state: SourceState)
        ensures
            state == (SourceState {
                uri: None,
                playing: false,
                position_ms: 0,
                duration_ms: None,
                meta: None,
                error: None,
            }),
    {
        SourceState {
            uri: None,
            playing: false,
            position_ms: 0,
            duration_ms: None,
            meta: None,
            error: None,
        }
    }
}

/// A message to the worker that owns the helper process.
#[derive(Debug)]
pub enum Ctl {
    Load { uri: String, start_ms: u64 },
    Resume,
    Pause,
    Stop,
    Volume(u16),
    Shutdown,
}

impl SourceState {
    /// The message that pauses what plays, and resumes what does not.
    pub fn toggle(&self) -> (ctl: Ctl)
        ensures
            ctl == (if self.playing {
                Ctl::Pause
            } else {
                Ctl::Resume
            }),
    {
        if self.playing {
            Ctl::Pause
        } else {
            Ctl::Resume
        }
    }

    /// The message that seeks: a new invocation of the helper for the loaded
    /// track, at the new position.
    pub fn seek(&self, position_ms: u32) -> (ctl: Option<Ctl>)
        ensures
            match self.uri {
                Some(uri) => ctl matches Some(Ctl::Load { uri: u, start_ms }) && u@ == uri@
                    && start_ms == position_ms,
                None => ctl is None,
            },
    {
        match &self.uri {
            Some(uri) => Some(Ctl::Load { uri: uri.clone(), start_ms: position_ms as u64 }),
            None => None,
        }
    }
}

/// A live helper process, as far as the transport looks at it.
pub struct Stream {
    pub uri: String,
    pub meta: SourceMeta,
    /// Frames (per channel) written since the helper was spawned.
    pub frames: u64,
    /// When the UI last heard the position, in nanoseconds.
    pub last_report: u64,
}

/// The worker's own state.
pub struct Worker {
    pub stream: Option<Stream>,
    pub state: SourceState,
    pub volume: u16,
    /// Whether the visualizer has anything to show.
    pub active: bool,
}

/// What reading one packet from the helper came to.
#[derive(Debug)]
pub enum Packet {
    /// The helper closed stdout, or the stream must be opened anew.
    End,
    /// Reading failed, in the reader's words.
    Failed(String),
    /// The packet belongs to another track of the container.
    Foreign,
    /// So many frames were decoded and written; none where the packet was
    /// damaged, or had nothing to overlap with.
    Played(u64),
}

/// The models of a run of engine events.
pub open spec fn engine_events(events: Seq<EngineEvent>) -> Seq<EngineEventView> {
    events.map_values(|e: EngineEvent| e.view())
}

impl Worker {
    /// A worker with nothing loaded.
    pub fn new(volume: u16) -> (worker: Worker)
        ensures
            worker.stream is None,
            worker.state == (SourceState {
                uri: None,
                playing: false,
                position_ms: 0,
                duration_ms: None,
                meta: None,
                error: None,
            }),
            worker.volume == volume,
            !worker.active,
    {
        Worker { stream: None, state: SourceState::default(), volume, active: false }
    }

    /// What plays is not ahead of what 64 bits can count.
    pub open spec fn wf(self) -> bool {
        self.stream matches Some(s) ==> countable(s.meta, s.frames)
    }

    /// Whether there are packets to read.
    pub fn playing(&self) -> (yes: bool)
        ensures
            yes == (self.stream is Some && self.state.playing),
    {
        self.stream.is_some() && self.state.playing
    }

    /// Before a new helper is spawned: the old one must die first.
    pub fn unload(&mut self)
        ensures
            *final(self) == (Worker { stream: None, active: false, ..*old(self) }),
    {
        self.stream = None;
        self.active = false;
    }

    /// A helper was spawned for `uri`, or could not be.
    pub fn load(&mut self, uri: String, spawned: Result<SourceMeta, String>, now: u64) -> (events: Vec<
        EngineEvent,
    >)
        ensures
            match spawned {
                Ok(meta) => {
                    let position = played_to(meta, 0) as u32;
                    &&& final(self).stream is Some
                    &&& final(self).stream->0.uri@ == uri@
                    &&& final(self).stream->0.meta == meta
                    &&& final(self).stream->0.frames == 0
                    &&& final(self).stream->0.last_report == now
                    &&& final(self).active
                    &&& final(self).volume == old(self).volume
                    &&& final(self).state == (SourceState {
                        uri: Some(uri),
                        playing: true,
                        position_ms: position,
                        duration_ms: meta.duration_ms,
                        meta: Some(meta),
                        error: None,
                    })
                    &&& engine_events(events@) == seq![
                        EngineEventView::TrackChanged { uri: uri@ },
                        EngineEventView::Playing { uri: uri@, position_ms: position },
                    ]
                },
                Err(why) => {
                    &&& *final(self) == (Worker {
                        stream: None,
                        active: false,
                        state: SourceState { playing: false, error: Some(why), ..old(self).state },
                        ..*old(self)
                    })
                    &&& engine_events(events@) == seq![EngineEventView::Stopped]
                },
            },
            final(self).wf(),
    {
        self.unload();
        let mut events: Vec<EngineEvent> = Vec::new();
        match spawned {
            Ok(meta) => {
                let position_ms = position_ms(&meta, 0);
                self.state = SourceState {
                    uri: Some(uri.clone()),
                    playing: true,
                    position_ms,
                    duration_ms: meta.duration_ms,
                    meta: Some(meta.clone()),
                    error: None,
                };
                self.stream = Some(Stream { uri: uri.clone(), meta, frames: 0, last_report: now });
                self.active = true;
                events.push(EngineEvent::TrackChanged { uri: uri.clone() });
                events.push(EngineEvent::Playing { uri, position_ms });
                assert(engine_events(events@) =~= seq![
                    EngineEventView::TrackChanged { uri: uri@ },
                    EngineEventView::Playing { uri: uri@, position_ms },
                ]);
            },
            Err(why) => {
                self.state.playing = false;
                self.state.error = Some(why);
                events.push(EngineEvent::Stopped);
                assert(engine_events(events@) =~= seq![EngineEventView::Stopped]);
            },
        }
        events
    }

    /// Go on playing what is loaded.
    pub fn resume(&mut self) -> (event: Option<EngineEvent>)
        requires
            old(self).wf(),
        ensures
            match old(self).stream {
                Some(s) => {
                    &&& *final(self) == (Worker {
                        active: true,
                        state: SourceState { playing: true, ..old(self).state },
                        ..*old(self)
                    })
                    &&& event is Some
                    &&& (event->0).view() == (EngineEventView::Playing {
                        uri: s.uri@,
                        position_ms: played_to(s.meta, s.frames) as u32,
                    })
                },
                None => *final(self) == *old(self) && event is None,
            },
    {
        match &self.stream {
            Some(s) => {
                let uri = s.uri.clone();
                let position_ms = position_ms(&s.meta, s.frames);
                self.active = true;
                self.state.playing = true;
                Some(EngineEvent::Playing { uri, position_ms })
            },
            None => None,
        }
    }

    /// Pause: the caller stops the sink and ceases to read, and the helper
    /// parks on a full pipe.
    pub fn pause(&mut self) -> (event: Option<EngineEvent>)
        requires
            old(self).wf(),
        ensures
            match old(self).stream {
                Some(s) => {
                    &&& *final(self) == (Worker {
                        active: false,
                        state: SourceState { playing: false, ..old(self).state },
                        ..*old(self)
                    })
                    &&& event is Some
                    &&& (event->0).view() == (EngineEventView::Paused {
                        uri: s.uri@,
                        position_ms: played_to(s.meta, s.frames) as u32,
                    })
                },
                None => *final(self) == *old(self) && event is None,
            },
    {
        match &self.stream {
            Some(s) => {
                let uri = s.uri.clone();
                let position_ms = position_ms(&s.meta, s.frames);
                self.active = false;
                self.state.playing = false;
                Some(EngineEvent::Paused { uri, position_ms })
            },
            None => None,
        }
    }

    /// Stop: the helper is killed and the position falls back to zero.
    pub fn stop(&mut self) -> (event: EngineEvent)
        ensures
            *final(self) == (Worker {
                stream: None,
                active: false,
                state: SourceState { playing: false, position_ms: 0, ..old(self).state },
                ..*old(self)
            }),
            event.view() == EngineEventView::Stopped,
    {
        self.unload();
        self.state.playing = false;
        self.state.position_ms = 0;
        EngineEvent::Stopped
    }

    /// Whether the frames of a packet can still be counted.
    pub fn can_count(&self, packet: &Packet) -> (yes: bool)
        ensures
            yes == self.counts(*packet),
    {
        match (&self.stream, packet) {
            (Some(s), Packet::Played(n)) => match s.frames.checked_add(*n) {
                Some(frames) => frames <= u64::MAX / 1000 && s.meta.actual_start_ms <= u64::MAX
                    - length_ms(&s.meta, frames),
                None => false,
            },
            _ => true,
        }
    }

    /// Whether the frames of a packet can still be counted.
    pub open spec fn counts(self, packet: Packet) -> bool {
        match (self.stream, packet) {
            (Some(s), Packet::Played(n)) => s.frames + n <= u64::MAX && countable(
                s.meta,
                (s.frames + n) as u64,
            ),
            _ => true,
        }
    }

    /// Take in one packet, and say what the UI hears of it.
    pub fn pump(&mut self, packet: Packet, now: u64) -> (event: Option<EngineEvent>)
        requires
            old(self).wf(),
            old(self).counts(packet),
        ensures
            final(self).wf(),
            match old(self).stream {
                None => *final(self) == *old(self) && event is None,
                Some(s) => match packet {
                    Packet::End => {
                        &&& *final(self) == (Worker {
                            stream: None,
                            active: false,
                            state: SourceState { playing: false, ..old(self).state },
                            ..*old(self)
                        })
                        &&& event is Some
                        &&& (event->0).view() == (EngineEventView::EndOfTrack { uri: s.uri@ })
                    },
                    Packet::Failed(why) => {
                        &&& final(self).stream is None
                        &&& !final(self).active
                        &&& final(self).volume == old(self).volume
                        &&& final(self).state.error is Some
                        &&& final(self).state.error->0@ == "source read failed: "@ + why@
                        &&& final(self).state == (SourceState {
                            playing: false,
                            error: final(self).state.error,
                            ..old(self).state
                        })
                        &&& event is Some
                        &&& (event->0).view() == EngineEventView::Stopped
                    },
                    Packet::Foreign => *final(self) == *old(self) && event is None,
                    Packet::Played(n) => {
                        let frames = (s.frames + n) as u64;
                        let position_ms = played_to(s.meta, frames) as u32;
                        let due = now - s.last_report >= POSITION_INTERVAL;
                        &&& *final(self) == (Worker {
                            stream: Some(
                                Stream {
                                    frames,
                                    last_report: if due {
                                        now
                                    } else {
                                        s.last_report
                                    },
                                    ..s
                                },
                            ),
                            state: SourceState { position_ms, ..old(self).state },
                            ..*old(self)
                        })
                        &&& match event {
                            Some(event) => due && event.view() == (
                            EngineEventView::PositionCorrection { uri: s.uri@, position_ms }),
                            None => !due,
                        }
                    },
                },
            },
    {
        let mut s = match self.stream.take() {
            Some(s) => s,
            None => {
                return None;
            },
        };
        match packet {
            Packet::End => {
                self.active = false;
                self.state.playing = false;
                Some(EngineEvent::EndOfTrack { uri: s.uri })
            },
            Packet::Failed(why) => {
                self.active = false;
                self.state.playing = false;
                self.state.error = Some(text::join2("source read failed: ", why.as_str()));
                Some(EngineEvent::Stopped)
            },
            Packet::Foreign => {
                self.stream = Some(s);
                None
            },
            Packet::Played(n) => {
                s.frames = s.frames + n;
                let position_ms = position_ms(&s.meta, s.frames);
                let due = now.saturating_sub(s.last_report) >= POSITION_INTERVAL;
                let uri = s.uri.clone();
                if due {
                    s.last_report = now;
                }
                self.stream = Some(s);
                self.state.position_ms = position_ms;
                if due {
                    Some(EngineEvent::PositionCorrection { uri, position_ms })
                } else {
                    None
                }
            },
        }
    }
}

// ----------------------------------------------------------------- the helper

/// Helper program used when nothing else is configured.
pub const DEFAULT_PROGRAM: &'static str = "earshot";

/// The arguments of one invocation of the helper.
pub fn helper_args(uri: &str, start_ms: u64) -> (args: Vec<String>)
    ensures
        json::texts(args@) == seq![uri@, "--start-ms"@, text::decimal(start_ms as nat)],
{
    let mut args: Vec<String> = Vec::new();
    args.push(uri.to_owned());
    args.push("--start-ms".to_owned());
    args.push(text::decimal_text(start_ms));
    assert(json::texts(args@) =~= seq![uri@, "--start-ms"@, text::decimal(start_ms as nat)]);
    args
}

/// The document on a metadata line of the helper's stderr.
pub open spec fn meta_on(line: Seq<char>) -> Option<Seq<char>> {
    if text::begins_with(line, "earshot-meta: "@) {
        Some(line.skip("earshot-meta: "@.len() as int))
    } else {
        None
    }
}

/// The reading of the helper's stderr: the first metadata line counts, every
/// other line is only logged.
pub struct StderrDrain {
    pub meta_sent: bool,
}

impl StderrDrain {
    /// Take in one line; the document it carries is for the player, and a line
    /// that carries none is for the log.
    pub fn line(&mut self, line: &str) -> (meta: Option<String>)
        ensures
            match meta {
                Some(doc) => {
                    &&& !old(self).meta_sent
                    &&& meta_on(line@) == Some(doc@)
                    &&& final(self).meta_sent
                },
                None => {
                    &&& old(self).meta_sent || meta_on(line@) is None
                    &&& final(self).meta_sent == old(self).meta_sent
                },
            },
    {
        if self.meta_sent {
            return None;
        }
        let chars = text::chars_of(line);
        let prefix = text::chars_of("earshot-meta: ");
        if !text::starts_with(chars.as_slice(), prefix.as_slice()) {
            return None;
        }
        self.meta_sent = true;
        let rest = vstd::slice::slice_subrange(chars.as_slice(), prefix.len(), chars.len());
        assert(rest@ =~= line@.skip("earshot-meta: "@.len() as int));
        Some(text::string_of(rest))
    }
}

/// The message when no metadata line came in time.
pub fn no_metadata(program: &str) -> (message: String)
    ensures
        message@ == program@ + ": no metadata line within "@ + text::decimal(
            META_TIMEOUT_SECS as nat,
        ) + "s"@,
{
    let secs = text::decimal_text(META_TIMEOUT_SECS);
    let head = text::join3(program, ": no metadata line within ", secs.as_str());
    text::join2(head.as_str(), "s")
}

/// The message when the stream's codec cannot be decoded.
pub fn cannot_decode(codec: &str, cause: &str) -> (message: String)
    ensures
        message@ == "cannot decode "@ + codec@
            + ": myx plays Ogg Vorbis (symphonia has no Opus decoder)"@ + ": "@ + cause@,
{
    let head = text::join3(
        "cannot decode ",
        codec,
        ": myx plays Ogg Vorbis (symphonia has no Opus decoder)",
    );
    text::join3(head.as_str(), ": ", cause)
}

/// Why the helper could not be started.
#[derive(Clone, Copy, PartialEq, Eq, Structural, Debug)]
pub enum SpawnFailure {
    NotFound,
    PermissionDenied,
    Other,
}

/// Whether a program was named by its path rather than looked up.
pub open spec fn looks_like_a_path(program: Seq<char>, separator: char) -> bool {
    program.contains(separator) || program.contains('/')
}

/// A failed start in terms the user can act on. A bare name was looked up, so
/// "not found" means "not installed" and deserves the install line; a path that
/// is wrong is named together with the system's own words.
pub open spec fn spawn_message(
    program: Seq<char>,
    separator: char,
    failure: SpawnFailure,
    cause: Seq<char>,
) -> Seq<char> {
    match failure {
        SpawnFailure::NotFound => if looks_like_a_path(program, separator) {
            "no such source program: "@ + program + ": "@ + cause
        } else {
            program + " is not on PATH — "@ + "install: cargo install earshot"@
        },
        SpawnFailure::PermissionDenied => program + " is not executable: "@ + cause,
        SpawnFailure::Other => "could not start "@ + program + ": "@ + cause,
    }
}

fn has_char(s: &[char], c: char) -> (yes: bool)
    ensures
        yes == s@.contains(c),
{
    let at = text::find_char(s, c);
    proof {
        text::lemma_first_index_bounds(s@, c);
    }
    at < s.len()
}

/// Whether a program is named by its path, rather than looked up by its name.
pub fn is_a_path(program: &str, separator: char) -> (yes: bool)
    ensures
        yes == looks_like_a_path(program@, separator),
{
    let chars = text::chars_of(program);
    has_char(chars.as_slice(), separator) || has_char(chars.as_slice(), '/')
}

/// Explain a failed spawn in terms the user can act on.
pub fn spawn_error(program: &str, separator: char, failure: SpawnFailure, cause: &str) -> (message:
    String)
    ensures
        message@ == spawn_message(program@, separator, failure, cause@),
{
    match failure {
        SpawnFailure::NotFound => {
            if is_a_path(program, separator) {
                let head = text::join3("no such source program: ", program, ": ");
                text::join2(head.as_str(), cause)
            } else {
                text::join3(program, " is not on PATH — ", "install: cargo install earshot")
            }
        },
        SpawnFailure::PermissionDenied => text::join3(program, " is not executable: ", cause),
        SpawnFailure::Other => {
            let head = text::join3("could not start ", program, ": ");
            text::join2(head.as_str(), cause)
        },
    }
}

// ----------------------------------------------------------------------- laws

/// One second of frames at the stream's own rate moves the position by exactly a
/// thousand milliseconds, and so does every further one.
pub proof fn law_a_second_of_frames_is_a_second(meta: SourceMeta, seconds: u64, frames: u64)
    requires
        meta.rate > 0,
        frames == seconds * meta.rate,
    ensures
        lasting(meta, frames) == 1000 * seconds,
        meta.actual_start_ms + 1000 * seconds < u32::MAX ==> played_to(meta, frames)
            == meta.actual_start_ms + 1000 * seconds,
{
    let rate = meta.rate as int;
    let n = seconds as int;
    assert((n * rate) * 1000 == rate * (1000 * n)) by (nonlinear_arith);
    vstd::arithmetic::div_mod::lemma_div_multiples_vanish(1000 * n, rate);
}

/// The position is never ahead of what has been heard, and never a millisecond
/// behind it: as many frames as it counts have been played, and one millisecond
/// more would be too many.
pub proof fn law_the_position_is_what_was_heard(meta: SourceMeta, frames: u64)
    requires
        meta.rate > 0,
    ensures
        lasting(meta, frames) * meta.rate <= frames * 1000,
        frames * 1000 < (lasting(meta, frames) + 1) * meta.rate,
        meta.actual_start_ms + lasting(meta, frames) <= u32::MAX ==> played_to(meta, frames)
            == meta.actual_start_ms + lasting(meta, frames),
        meta.actual_start_ms + lasting(meta, frames) > u32::MAX ==> played_to(meta, frames)
            == u32::MAX,
{
    let rate = meta.rate as int;
    let n = frames * 1000;
    vstd::arithmetic::div_mod::lemma_fundamental_div_mod(n, rate);
    vstd::arithmetic::div_mod::lemma_mod_bound(n, rate);
    assert((n / rate) * rate == rate * (n / rate)) by (nonlinear_arith);
    assert((n / rate + 1) * rate == rate * (n / rate) + rate) by (nonlinear_arith);
}

/// A stream can be counted for as long as its frames and its start fit.
pub proof fn law_a_stream_can_be_counted(meta: SourceMeta, frames: u64)
    requires
        meta.actual_start_ms + frames * 1000 <= u64::MAX,
    ensures
        countable(meta, frames),
{
    let rate = if meta.rate > 0 {
        meta.rate as int
    } else {
        1
    };
    let n = frames * 1000;
    assert(0 <= n / rate <= n) by (nonlinear_arith)
        requires
            n >= 0,
            rate >= 1,
    ;
}

/// What the helper says of its stream is what the player knows of it: every
/// number that is given and fits is taken as it is, and what is not given is
/// assumed to be an ordinary stream from the beginning.
pub proof fn law_metadata_is_taken_as_given(meta: SourceMeta, doc: json::JsonView)
    requires
        is_meta_of(meta, doc),
    ensures
        doc.text_field("codec"@) matches Some(codec) ==> meta.codec@ == codec,
        doc.text_field("codec"@) is None ==> meta.codec@ == "unknown"@,
        doc.number_field("rate"@) matches Some(n) ==> n <= u32::MAX ==> meta.rate == n,
        doc.number_field("rate"@) is None ==> meta.rate == 44_100,
        doc.number_field("channels"@) matches Some(n) ==> n <= u16::MAX ==> meta.channels == n,
        doc.number_field("channels"@) is None ==> meta.channels == 2,
        meta.duration_ms == doc.number_field("duration_ms"@),
        doc.number_field("requested_start_ms"@) matches Some(n) ==> meta.requested_start_ms == n,
        doc.number_field("requested_start_ms"@) is None ==> meta.requested_start_ms == 0,
        doc.number_field("actual_start_ms"@) matches Some(n) ==> meta.actual_start_ms == n,
        doc.number_field("actual_start_ms"@) is None ==> meta.actual_start_ms == 0,
{
}

/// The document on a metadata line is everything behind its mark; no other line
/// carries one.
pub proof fn law_a_metadata_line_carries_its_document(doc: Seq<char>, line: Seq<char>)
    ensures
        meta_on("earshot-meta: "@ + doc) == Some(doc),
        meta_on(line) matches Some(d) ==> line == "earshot-meta: "@ + d,
        meta_on(line) is None ==> forall|d: Seq<char>| line != #[trigger] ("earshot-meta: "@ + d),
{
    let mark = "earshot-meta: "@;
    let n = mark.len() as int;
    text::law_what_is_put_in_is_found(Seq::empty(), mark, doc);
    assert((mark + doc).skip(n) =~= doc);
    if text::begins_with(line, mark) {
        assert(line =~= line.take(n) + line.skip(n));
    }
    assert forall|d: Seq<char>| meta_on(line) is None implies line != #[trigger] (mark + d) by {
        text::law_what_is_put_in_is_found(Seq::empty(), mark, d);
    }
}

/// Whatever goes wrong at the start, the user is told which program it was; a
/// name that was looked up in vain comes with the way to install it, and every
/// other failure with the system's own words.
pub proof fn law_a_failed_start_is_explained(
    program: Seq<char>,
    separator: char,
    failure: SpawnFailure,
    cause: Seq<char>,
)
    ensures
        ({
            let said = spawn_message(program, separator, failure, cause);
            let bare = text::lacks(program, '/') && text::lacks(program, separator);
            &&& text::contains_text(said, program)
            &&& failure is NotFound && bare ==> text::contains_text(
                said,
                "install: cargo install earshot"@,
            )
            &&& !(failure is NotFound && bare) ==> text::contains_text(said, cause)
        }),
{
    let said = spawn_message(program, separator, failure, cause);
    let none = Seq::<char>::empty();
    assert(looks_like_a_path(program, separator) <==> !(text::lacks(program, '/') && text::lacks(
        program,
        separator,
    )));
    if failure is NotFound && looks_like_a_path(program, separator) {
        let a = "no such source program: "@;
        assert(said =~= a + program + (": "@ + cause));
        text::law_what_is_put_in_is_found(a, program, ": "@ + cause);
        assert(said =~= (a + program + ": "@) + cause + none);
        text::law_what_is_put_in_is_found(a + program + ": "@, cause, none);
    } else if failure is NotFound {
        let hint = "install: cargo install earshot"@;
        assert(said =~= none + program + (" is not on PATH — "@ + hint));
        text::law_what_is_put_in_is_found(none, program, " is not on PATH — "@ + hint);
        assert(said =~= (program + " is not on PATH — "@) + hint + none);
        text::law_what_is_put_in_is_found(program + " is not on PATH — "@, hint, none);
    } else if failure is PermissionDenied {
        let mid = " is not executable: "@;
        assert(said =~= none + program + (mid + cause));
        text::law_what_is_put_in_is_found(none, program, mid + cause);
        assert(said =~= (program + mid) + cause + none);
        text::law_what_is_put_in_is_found(program + mid, cause, none);
    } else {
        let a = "could not start "@;
        assert(said =~= a + program + (": "@ + cause));
        text::law_what_is_put_in_is_found(a, program, ": "@ + cause);
        assert(said =~= (a + program + ": "@) + cause + none);
        text::law_what_is_put_in_is_found(a + program + ": "@, cause, none);
    }
}

/// A stream that gives no rate counts every frame as a second.
pub proof fn law_a_stream_without_a_rate(meta: SourceMeta, frames: u64)
    requires
        meta.rate == 0,
    ensures
        lasting(meta, frames) == frames * 1000,
{
}

/// Events are modelled one by one, and only a packet that was played adds to what
/// is counted.
pub proof fn law_events_are_modelled_one_by_one(
    events: Seq<EngineEvent>,
    i: int,
    worker: Worker,
    packet: Packet,
)
    ensures
        engine_events(events).len() == events.len(),
        0 <= i < events.len() ==> engine_events(events)[i] == events[i].view(),
        worker.stream is None ==> worker.counts(packet) && worker.wf(),
        !(packet is Played) ==> worker.counts(packet),
        POSITION_INTERVAL == 1_000_000_000,
        META_TIMEOUT_SECS == 10,
{
}

/// What is said of a failed start, in full.
pub proof fn law_what_a_failed_start_says(
    program: Seq<char>,
    separator: char,
    cause: Seq<char>,
)
    ensures
        ({
            let bare = text::lacks(program, '/') && text::lacks(program, separator);
            &&& bare ==> spawn_message(program, separator, SpawnFailure::NotFound, cause) == program
                + " is not on PATH — "@ + "install: cargo install earshot"@
            &&& !bare ==> spawn_message(program, separator, SpawnFailure::NotFound, cause)
                == "no such source program: "@ + program + ": "@ + cause
        }),
        spawn_message(program, separator, SpawnFailure::PermissionDenied, cause) == program
            + " is not executable: "@ + cause,
        spawn_message(program, separator, SpawnFailure::Other, cause) == "could not start "@
            + program + ": "@ + cause,
{
    assert(looks_like_a_path(program, separator) <==> !(text::lacks(program, '/') && text::lacks(
        program,
        separator,
    )));
}

} // verus!
