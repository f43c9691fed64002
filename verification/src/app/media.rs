//! OS media-key input.

use crate::app::play::Resume;
use crate::app::state::cmd_view;
use crate::app::state::App;
use crate::app::state::CmdView;
use crate::app::state::EngineCmd;
use crate::app::state::Transport;
use crate::playback::lesser;
use crate::playback::SEEK_STEP_MS;
use vstd::prelude::*;

verus! {

/// `flume::RecvError`: the channel has no sender left.
#[verifier::external_type_specification]
#[verifier::external_body]
pub struct ExRecvError(flume::RecvError);

/// Take in what the media channel gave. Once it is closed it stays closed: a
/// disconnected receiver would answer at once, forever.
pub fn consume_media_event<T>(event: Result<T, flume::RecvError>, open: &mut bool) -> (out: Option<
    T,
>)
    ensures
        match event {
            Ok(e) => out == Some(e) && *final(open) == *old(open),
            Err(_) => out is None && !*final(open),
        },
{
    match event {
        Ok(event) => Some(event),
        Err(_) => {
            *open = false;
            None
        },
    }
}

/// A media key, or a wish of the native media controls.
#[derive(Clone, Copy, PartialEq, Eq, Structural, Debug)]
pub enum MediaKey {
    Next,
    Previous,
    Toggle,
    Play,
    Pause,
    Stop,
    /// One step back or forward.
    SeekBackward,
    SeekForward,
    /// By so many milliseconds.
    SeekBackwardBy(i64),
    SeekForwardBy(i64),
    /// To a position in milliseconds.
    SetPosition(u32),
    Other,
}

impl MediaKey {
    /// How far a key moves the playhead.
    pub open spec fn delta(self) -> Option<int> {
        match self {
            MediaKey::SeekBackward => Some(-SEEK_STEP_MS),
            MediaKey::SeekForward => Some(SEEK_STEP_MS as int),
            MediaKey::SeekBackwardBy(ms) => Some(-ms),
            MediaKey::SeekForwardBy(ms) => Some(ms as int),
            _ => None,
        }
    }
}

/// What a media key asks of the engine.
#[derive(Debug)]
pub enum MediaAction {
    /// This command, or nothing.
    Engine(Option<EngineCmd>),
    /// Resume the persisted source.
    Resume(Resume),
}

impl App {
    /// A fire-and-forget command, where there is an engine for it.
    pub open spec fn commanded(self, cmd: CmdView) -> Option<CmdView> {
        if self.engine_up {
            Some(cmd)
        } else {
            None
        }
    }

    /// Whether a play key finds nothing live to play, and must resume what was
    /// persisted.
    pub open spec fn must_resume(self, key: MediaKey) -> bool {
        (key is Toggle || key is Play) && !self.transport.playback_started
            && !self.session.reclaimed
    }

    /// The command that a key leads to.
    pub open spec fn media_cmd(self, key: MediaKey) -> Option<CmdView> {
        match key {
            MediaKey::Next => self.commanded(CmdView::Next),
            MediaKey::Previous => self.commanded(CmdView::Prev),
            MediaKey::Toggle => self.commanded(
                if self.transport.playback_started {
                    CmdView::Toggle
                } else {
                    CmdView::Play
                },
            ),
            MediaKey::Play => self.commanded(CmdView::Play),
            MediaKey::Pause => self.commanded(CmdView::Pause),
            MediaKey::Stop => self.commanded(CmdView::Stop),
            MediaKey::SetPosition(ms) => match self.playback.now {
                Some(n) => self.commanded(
                    CmdView::Seek(lesser(ms as int, n.duration_ms as int) as u32),
                ),
                None => None,
            },
            _ => None,
        }
    }

    /// Whether what a key computes stays within 32 and 64 bits.
    pub open spec fn takes(self, key: MediaKey, clock: u64) -> bool {
        match key.delta() {
            Some(d) => d <= i64::MAX && self.playback.steppable(d, clock),
            None => true,
        }
    }

    /// Whether what a key computes stays within 32 and 64 bits.
    pub fn can_take(&self, key: MediaKey, clock: u64) -> (yes: bool)
        ensures
            yes == self.takes(key, clock),
    {
        match key {
            MediaKey::SeekBackward => self.playback.can_step(-SEEK_STEP_MS, clock),
            MediaKey::SeekForward => self.playback.can_step(SEEK_STEP_MS, clock),
            MediaKey::SeekBackwardBy(ms) => ms > i64::MIN && self.playback.can_step(-ms, clock),
            MediaKey::SeekForwardBy(ms) => self.playback.can_step(ms, clock),
            _ => true,
        }
    }

    /// Take in a media key.
    pub fn handle_media_key(&mut self, key: MediaKey, clock: u64) -> (action: MediaAction)
        requires
            old(self).takes(key, clock),
        ensures
            if old(self).must_resume(key) {
                &&& action is Resume
                &&& (action->Resume_0).view() == old(self).resume_how()
                &&& final(self).status@ == old(self).resume_status()
                &&& *final(self) == (App {
                    status: final(self).status,
                    transport: Transport { playback_started: true, ..old(self).transport },
                    ..*old(self)
                })
            } else {
                &&& action is Engine
                &&& cmd_view(action->Engine_0) == old(self).media_cmd(key)
                &&& match key {
                    MediaKey::Toggle => *final(self) == (App {
                        transport: Transport { playback_started: true, ..old(self).transport },
                        ..*old(self)
                    }),
                    MediaKey::Play => *final(self) == (App {
                        transport: Transport { playback_started: true, ..old(self).transport },
                        ..*old(self)
                    }),
                    MediaKey::SetPosition(ms) => *final(self) == (App {
                        playback: match old(self).playback.now {
                            Some(n) => old(self).playback.placed(
                                lesser(ms as int, n.duration_ms as int) as u32,
                                clock,
                            ),
                            None => old(self).playback,
                        },
                        ..*old(self)
                    }),
                    _ => if key.delta() is Some {
                        *final(self) == (App {
                            playback: old(self).playback.stepped(key.delta()->0, clock),
                            ..*old(self)
                        })
                    } else {
                        *final(self) == *old(self)
                    },
                }
            },
    {
        match key {
            MediaKey::Next => MediaAction::Engine(self.engine_do(EngineCmd::Next)),
            MediaKey::Previous => MediaAction::Engine(self.engine_do(EngineCmd::Prev)),
            MediaKey::Toggle => {
                if self.transport.playback_started {
                    MediaAction::Engine(self.engine_do(EngineCmd::Toggle))
                } else if self.session.reclaimed {
                    self.transport.playback_started = true;
                    MediaAction::Engine(self.engine_do(EngineCmd::Play))
                } else {
                    let how = self.resume_source();
                    self.transport.playback_started = true;
                    MediaAction::Resume(how)
                }
            },
            MediaKey::Play => {
                if self.transport.playback_started {
                    MediaAction::Engine(self.engine_do(EngineCmd::Play))
                } else if self.session.reclaimed {
                    self.transport.playback_started = true;
                    MediaAction::Engine(self.engine_do(EngineCmd::Play))
                } else {
                    let how = self.resume_source();
                    self.transport.playback_started = true;
                    MediaAction::Resume(how)
                }
            },
            MediaKey::Pause => MediaAction::Engine(self.engine_do(EngineCmd::Pause)),
            MediaKey::Stop => MediaAction::Engine(self.engine_do(EngineCmd::Stop)),
            MediaKey::SeekBackward => {
                self.playback.seek_step(-SEEK_STEP_MS, clock);
                MediaAction::Engine(None)
            },
            MediaKey::SeekForward => {
                self.playback.seek_step(SEEK_STEP_MS, clock);
                MediaAction::Engine(None)
            },
            MediaKey::SeekBackwardBy(ms) => {
                self.playback.seek_step(-ms, clock);
                MediaAction::Engine(None)
            },
            MediaKey::SeekForwardBy(ms) => {
                self.playback.seek_step(ms, clock);
                MediaAction::Engine(None)
            },
            MediaKey::SetPosition(ms) => match self.playback.seek_to(ms, clock) {
                Some(to) => MediaAction::Engine(self.engine_do(EngineCmd::Seek(to))),
                None => MediaAction::Engine(None),
            },
            MediaKey::Other => MediaAction::Engine(None),
        }
    }
}

// ----------------------------------------------------------------------- laws

/// A seek key moves the playhead by five seconds, or by as much as it says,
/// forward or back; no other key moves it by steps.
pub proof fn law_a_seek_key_moves_by_its_step(ms: i64, key: MediaKey)
    ensures
        MediaKey::SeekForward.delta() == Some(5_000int),
        MediaKey::SeekBackward.delta() == Some(-5_000int),
        MediaKey::SeekForwardBy(ms).delta() == Some(ms as int),
        MediaKey::SeekBackwardBy(ms).delta() == Some(-ms),
        !(key is SeekForward) && !(key is SeekBackward) && !(key is SeekForwardBy)
            && !(key is SeekBackwardBy) ==> key.delta() is None,
{
}

/// A key of the transport asks the engine for just what is written on it, and
/// toggling plays where nothing has been started yet; without an engine no key
/// asks for anything.
pub proof fn law_a_key_asks_for_what_it_says(app: App, ms: u32)
    ensures
        app.engine_up ==> {
            &&& app.media_cmd(MediaKey::Next) == Some(CmdView::Next)
            &&& app.media_cmd(MediaKey::Previous) == Some(CmdView::Prev)
            &&& app.media_cmd(MediaKey::Play) == Some(CmdView::Play)
            &&& app.media_cmd(MediaKey::Pause) == Some(CmdView::Pause)
            &&& app.media_cmd(MediaKey::Stop) == Some(CmdView::Stop)
            &&& app.transport.playback_started ==> app.media_cmd(MediaKey::Toggle) == Some(
                CmdView::Toggle,
            )
            &&& !app.transport.playback_started ==> app.media_cmd(MediaKey::Toggle) == Some(
                CmdView::Play,
            )
            &&& app.playback.now matches Some(n) ==> {
                &&& app.media_cmd(MediaKey::SetPosition(ms)) matches Some(CmdView::Seek(to))
                &&& ms <= n.duration_ms ==> to == ms
                &&& ms > n.duration_ms ==> to == n.duration_ms
            }
        },
        app.playback.now is None ==> app.media_cmd(MediaKey::SetPosition(ms)) is None,
        forall|key: MediaKey| !app.engine_up ==> #[trigger] app.media_cmd(key) is None,
        forall|key: MediaKey|
            key.delta() is Some || key is Other ==> #[trigger] app.media_cmd(key) is None,
{
}

/// Playing and toggling resume what was left, until something has been started
/// or taken over in this session; no other key resumes anything.
pub proof fn law_the_first_play_resumes(app: App, key: MediaKey)
    ensures
        app.must_resume(MediaKey::Play) == (!app.transport.playback_started
            && !app.session.reclaimed),
        app.must_resume(MediaKey::Toggle) == app.must_resume(MediaKey::Play),
        !(key is Play) && !(key is Toggle) ==> !app.must_resume(key),
{
}

/// Every key is taken in, but for a seek that no clock or track could need: with
/// nothing playing, while playback is held, and mid-scrub, any seek of less than
/// two hundred million years is.
pub proof fn law_an_ordinary_key_is_taken(app: App, key: MediaKey, clock: u64)
    requires
        app.playback.now matches Some(n) ==> !n.is_playing || app.playback.seek_target is Some,
        key.delta() matches Some(d) ==> d <= 0x7fff_ffff_0000_0000,
    ensures
        app.takes(key, clock),
{
}

} // verus!
