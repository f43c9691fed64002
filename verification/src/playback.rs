//! The playhead: what is playing, where it stands, and scrubbing.

use vstd::prelude::*;

verus! {

/// How far one Shift+arrow press moves the playhead.
pub const SEEK_STEP_MS: i64 = 5_000;

/// Fastest a held Shift+arrow may step. macOS repeats keys ~30×/s; unthrottled,
/// a one-second hold would throw the playhead 2½ minutes down the track. In
/// nanoseconds.
pub const SEEK_REPEAT: u64 = 200_000_000;

/// Quiet time after the last press before the scrub reaches the engine, in
/// nanoseconds.
pub const SEEK_SETTLE: u64 = 250_000_000;

/// Where a scrub by `delta_ms` lands: inside the track.
pub open spec fn scrubbed(from_ms: int, duration_ms: int, delta_ms: int) -> int {
    let to = from_ms + delta_ms;
    if to < 0 {
        0
    } else if to > duration_ms {
        duration_ms
    } else {
        to
    }
}

/// Where a scrub by `delta_ms` lands.
pub fn scrub_target(from_ms: u32, duration_ms: u32, delta_ms: i64) -> (to: u32)
    requires
        from_ms + delta_ms <= i64::MAX,
    ensures
        to == scrubbed(from_ms as int, duration_ms as int, delta_ms as int),
{
    let to: i64 = from_ms as i64 + delta_ms;
    if to < 0 {
        0
    } else if to > duration_ms as i64 {
        duration_ms
    } else {
        to as u32
    }
}

/// Whether a reported position is to be believed: one from the engine is not,
/// mid-scrub — what was painted is newer than anything it has heard about.
pub fn should_apply_engine_position(from_engine: bool, seek_target: Option<u32>) -> (yes: bool)
    ensures
        yes == !(from_engine && seek_target is Some),
{
    !(from_engine && seek_target.is_some())
}

/// What is playing.
#[derive(Debug)]
pub struct NowPlaying {
    pub uri: String,
    pub title: String,
    pub artist: String,
    pub album: String,
    pub duration_ms: u32,
    pub position_ms: u32,
    /// When the position was set, in nanoseconds.
    pub position_at: u64,
    pub is_playing: bool,
}

/// The lesser of two numbers.
pub open spec fn lesser(a: int, b: int) -> int {
    if a <= b {
        a
    } else {
        b
    }
}

/// How many milliseconds have passed, as far as 32 bits count them.
pub open spec fn passed_ms(since: u64, now: u64) -> int {
    (if now >= since {
        (now - since) as int
    } else {
        0
    }) / 1_000_000 % 0x1_0000_0000
}

/// The playhead: what's playing plus the coalesced Shift+arrow scrub state.
pub struct PlaybackState {
    pub now: Option<NowPlaying>,
    /// Where a scrub stands that the engine has not heard of.
    pub seek_target: Option<u32>,
    pub seek_last_step: u64,
    pub seek_last_input: u64,
}

impl PlaybackState {
    /// Where the playhead stands: it moves while playing, and never past the
    /// end of the track.
    pub open spec fn head(self, clock: u64) -> int {
        match self.now {
            Some(n) => if n.is_playing {
                lesser(n.position_ms + passed_ms(n.position_at, clock), n.duration_ms as int)
            } else {
                lesser(n.position_ms as int, n.duration_ms as int)
            },
            None => 0,
        }
    }

    /// Whether the playhead can be counted in 32 bits.
    pub open spec fn countable(self, clock: u64) -> bool {
        self.now matches Some(n) ==> n.is_playing ==> n.position_ms + passed_ms(
            n.position_at,
            clock,
        ) <= u32::MAX
    }

    /// The state with the position of what plays set to `position_ms`.
    pub open spec fn placed(self, position_ms: u32, clock: u64) -> PlaybackState {
        PlaybackState {
            now: match self.now {
                Some(n) => Some(
                    NowPlaying {
                        position_ms: lesser(position_ms as int, n.duration_ms as int) as u32,
                        position_at: clock,
                        ..n
                    },
                ),
                None => None,
            },
            ..self
        }
    }

    /// Nothing playing.
    pub fn new(now: Option<NowPlaying>, clock: u64) -> (state: PlaybackState)
        ensures
            state == (PlaybackState {
                now,
                seek_target: None,
                seek_last_step: clock,
                seek_last_input: clock,
            }),
    {
        PlaybackState { now, seek_target: None, seek_last_step: clock, seek_last_input: clock }
    }

    /// Whether the playhead can be counted in 32 bits.
    pub fn is_countable(&self, clock: u64) -> (yes: bool)
        ensures
            yes == self.countable(clock),
    {
        match &self.now {
            Some(n) => if n.is_playing {
                let passed: u64 = clock.saturating_sub(n.position_at) / 1_000_000 % 0x1_0000_0000;
                n.position_ms as u64 + passed <= u32::MAX as u64
            } else {
                true
            },
            None => true,
        }
    }

    /// Where the playhead stands.
    pub fn position_ms(&self, clock: u64) -> (ms: u32)
        requires
            self.countable(clock),
        ensures
            ms == self.head(clock),
    {
        match &self.now {
            Some(n) => {
                let at: u32 = if n.is_playing {
                    let passed: u64 = clock.saturating_sub(n.position_at) / 1_000_000
                        % 0x1_0000_0000;
                    n.position_ms + passed as u32
                } else {
                    n.position_ms
                };
                if at <= n.duration_ms {
                    at
                } else {
                    n.duration_ms
                }
            },
            None => 0,
        }
    }

    /// Move the progress bar, without telling the engine.
    pub fn set_local_position(&mut self, position_ms: u32, from_engine: bool, clock: u64)
        ensures
            *final(self) == (if from_engine && old(self).seek_target is Some {
                *old(self)
            } else {
                old(self).placed(position_ms, clock)
            }),
    {
        if !should_apply_engine_position(from_engine, self.seek_target) {
            return;
        }
        if let Some(n) = self.now.take() {
            let mut n = n;
            n.position_ms = if position_ms <= n.duration_ms {
                position_ms
            } else {
                n.duration_ms
            };
            n.position_at = clock;
            self.now = Some(n);
        }
    }

    /// Seek to an absolute position (clamped), updating the local display too.
    /// The result is where the engine must seek to, where there is anything to
    /// seek in.
    pub fn seek_to(&mut self, position_ms: u32, clock: u64) -> (seek: Option<u32>)
        ensures
            match old(self).now {
                Some(n) => {
                    let to = lesser(position_ms as int, n.duration_ms as int) as u32;
                    &&& seek == Some(to)
                    &&& *final(self) == old(self).placed(to, clock)
                },
                None => seek is None && *final(self) == *old(self),
            },
    {
        let duration_ms = match &self.now {
            Some(n) => n.duration_ms,
            None => {
                return None;
            },
        };
        let to: u32 = if position_ms <= duration_ms {
            position_ms
        } else {
            duration_ms
        };
        self.set_local_position(to, false, clock);
        Some(to)
    }

    /// Whether a press at `clock` comes too soon after the last step of a scrub.
    pub open spec fn throttled(self, clock: u64) -> bool {
        self.seek_target is Some && clock - self.seek_last_step < SEEK_REPEAT
    }

    /// Where a press starts from: where the scrub stands, or else the playhead.
    pub open spec fn step_from(self, clock: u64) -> int {
        match self.seek_target {
            Some(at) => at as int,
            None => self.head(clock),
        }
    }

    /// Where a scrub by `delta_ms` would take the playhead.
    pub open spec fn step_target(self, delta_ms: int, clock: u64) -> int {
        scrubbed(self.step_from(clock), self.now->0.duration_ms as int, delta_ms)
    }

    /// Whether what a press computes stays within 32 and 64 bits.
    pub open spec fn steppable(self, delta_ms: int, clock: u64) -> bool {
        ||| self.throttled(clock)
        ||| self.now is None
        ||| (self.seek_target is Some || self.countable(clock)) && self.step_from(clock) + delta_ms
            <= i64::MAX
    }

    /// Whether what a press computes stays within 32 and 64 bits.
    pub fn can_step(&self, delta_ms: i64, clock: u64) -> (yes: bool)
        ensures
            yes == self.steppable(delta_ms as int, clock),
    {
        if self.now.is_none() {
            return true;
        }
        let from: u32 = match self.seek_target {
            Some(at) => {
                if clock.saturating_sub(self.seek_last_step) < SEEK_REPEAT {
                    return true;
                }
                at
            },
            None => {
                if !self.is_countable(clock) {
                    return false;
                }
                self.position_ms(clock)
            },
        };
        delta_ms <= i64::MAX - from as i64
    }

    /// The state after one press that moves the playhead by `delta_ms`. A press
    /// that comes too soon only holds off the settling.
    pub open spec fn stepped(self, delta_ms: int, clock: u64) -> PlaybackState {
        if self.throttled(clock) {
            PlaybackState { seek_last_input: clock, ..self }
        } else if self.now is None {
            self
        } else {
            let to = self.step_target(delta_ms, clock) as u32;
            PlaybackState {
                seek_target: Some(to),
                seek_last_step: clock,
                seek_last_input: clock,
                ..self.placed(to, clock)
            }
        }
    }

    /// One Shift+arrow press, moving the playhead by `delta_ms`.
    ///
    /// Repeats are throttled and the engine seek deferred to `flush_seek`.
    pub fn seek_step(&mut self, delta_ms: i64, clock: u64)
        requires
            old(self).steppable(delta_ms as int, clock),
        ensures
            *final(self) == old(self).stepped(delta_ms as int, clock),
    {
        if self.seek_target.is_some() && clock.saturating_sub(self.seek_last_step) < SEEK_REPEAT {
            self.seek_last_input = clock;
            return;
        }
        let duration_ms = match &self.now {
            Some(n) => n.duration_ms,
            None => {
                return;
            },
        };
        let from: u32 = match self.seek_target {
            Some(at) => at,
            None => self.position_ms(clock),
        };
        let to = scrub_target(from, duration_ms, delta_ms);
        self.seek_target = Some(to);
        self.seek_last_step = clock;
        self.seek_last_input = clock;
        self.set_local_position(to, false, clock);
    }

    /// The state once a scrub that has settled is committed, and where the
    /// engine must then seek to.
    pub open spec fn committed(self, clock: u64) -> (PlaybackState, Option<u32>) {
        if clock - self.seek_last_input < SEEK_SETTLE {
            (self, None)
        } else {
            match (self.seek_target, self.now) {
                (Some(at), Some(n)) => {
                    let to = lesser(at as int, n.duration_ms as int) as u32;
                    (
                        PlaybackState { seek_target: None, ..self.placed(to, clock) },
                        Some(to),
                    )
                },
                _ => (PlaybackState { seek_target: None, ..self }, None),
            }
        }
    }

    /// Commit a finished scrub as a single engine seek, once the keys stop. The
    /// result is where the engine must seek to.
    pub fn flush_seek(&mut self, clock: u64) -> (seek: Option<u32>)
        ensures
            seek == old(self).committed(clock).1,
            *final(self) == old(self).committed(clock).0,
    {
        if clock.saturating_sub(self.seek_last_input) < SEEK_SETTLE {
            return None;
        }
        match self.seek_target.take() {
            Some(at) => self.seek_to(at, clock),
            None => None,
        }
    }
}

// ----------------------------------------------------------------------- laws

/// A scrub stays inside the track.
pub proof fn law_a_scrub_stays_inside_the_track(from_ms: int, duration_ms: int, delta_ms: int)
    requires
        duration_ms >= 0,
    ensures
        0 <= scrubbed(from_ms, duration_ms, delta_ms) <= duration_ms,
        0 <= from_ms + delta_ms <= duration_ms ==> scrubbed(from_ms, duration_ms, delta_ms)
            == from_ms + delta_ms,
{
}

/// The playhead never stands past the end of the track.
pub proof fn law_the_playhead_stays_inside_the_track(p: PlaybackState, clock: u64)
    ensures
        p.now matches Some(n) ==> 0 <= p.head(clock) <= n.duration_ms,
        p.now is None ==> p.head(clock) == 0,
{
}

/// Placing the playhead inside the track is seen at once.
pub proof fn law_a_placed_playhead_stands_there(p: PlaybackState, position_ms: u32, clock: u64)
    requires
        p.now matches Some(n) && position_ms <= n.duration_ms,
    ensures
        p.placed(position_ms, clock).head(clock) == position_ms,
{
}

/// However often a key is pressed, the engine hears nothing before the keys have
/// been quiet for the settling time.
pub proof fn law_a_press_holds_off_the_commit(p: PlaybackState, delta_ms: int, at: u64, later: u64)
    requires
        p.now is Some,
        at <= later,
        later - at < SEEK_SETTLE,
    ensures
        p.stepped(delta_ms, at).committed(later) == (p.stepped(delta_ms, at), None::<u32>),
{
}

/// A settled scrub is committed once: to where it was painted, and a second
/// commit finds nothing left.
pub proof fn law_a_settled_scrub_is_committed_once(p: PlaybackState, clock: u64, later: u64)
    requires
        p.now is Some,
        p.seek_target matches Some(at) && at <= p.now->0.duration_ms,
        clock - p.seek_last_input >= SEEK_SETTLE,
        clock <= later,
    ensures
        p.committed(clock).1 == p.seek_target,
        p.committed(clock).0.committed(later).1 is None,
{
}

/// While it plays, the playhead moves on by one millisecond in every
/// millisecond, up to the end of the track and no further.
pub proof fn law_the_playhead_moves_with_time(p: PlaybackState, n: NowPlaying, ms: u64, clock: u64)
    requires
        p.now == Some(n),
        n.is_playing,
        n.position_at + ms * 1_000_000 <= clock,
        clock < n.position_at + (ms + 1) * 1_000_000,
        ms < 0x1_0000_0000,
    ensures
        n.position_ms + ms <= n.duration_ms ==> p.head(clock) == n.position_ms + ms,
        n.position_ms + ms > n.duration_ms ==> p.head(clock) == n.duration_ms,
{
}

/// While nothing plays, the playhead stands still, and it never moves back
/// because a clock does.
pub proof fn law_a_paused_playhead_stands_still(p: PlaybackState, n: NowPlaying, clock: u64)
    requires
        p.now == Some(n),
        n.position_ms <= n.duration_ms,
        !n.is_playing || clock <= n.position_at,
    ensures
        p.head(clock) == n.position_ms,
        p.countable(clock),
{
}

/// Placing the playhead changes where it stands and nothing else; past the end
/// it is placed at the end.
pub proof fn law_placing_the_playhead_changes_nothing_else(
    p: PlaybackState,
    n: NowPlaying,
    position_ms: u32,
    clock: u64,
)
    requires
        p.now == Some(n),
    ensures
        ({
            let after = p.placed(position_ms, clock);
            &&& after.now matches Some(m)
            &&& m.uri == n.uri
            &&& m.title == n.title
            &&& m.artist == n.artist
            &&& m.album == n.album
            &&& m.duration_ms == n.duration_ms
            &&& m.is_playing == n.is_playing
            &&& m.position_at == clock
            &&& position_ms <= n.duration_ms ==> m.position_ms == position_ms
            &&& position_ms > n.duration_ms ==> m.position_ms == n.duration_ms
            &&& after.seek_target == p.seek_target
            &&& after.seek_last_step == p.seek_last_step
            &&& after.seek_last_input == p.seek_last_input
        }),
{
}

/// A scrub past either end of the track stops at that end.
pub proof fn law_a_scrub_stops_at_the_ends(from_ms: int, duration_ms: int, delta_ms: int)
    requires
        duration_ms >= 0,
    ensures
        from_ms + delta_ms <= 0 ==> scrubbed(from_ms, duration_ms, delta_ms) == 0,
        from_ms + delta_ms >= duration_ms ==> scrubbed(from_ms, duration_ms, delta_ms)
            == duration_ms,
{
}

/// The first press of a scrub moves the playhead by its step from where it
/// stands; that is painted at once, and is what the engine hears when the keys
/// have been quiet for a quarter of a second.
pub proof fn law_a_press_moves_the_playhead_by_its_step(
    p: PlaybackState,
    n: NowPlaying,
    delta_ms: int,
    clock: u64,
    later: u64,
)
    requires
        p.now == Some(n),
        p.seek_target is None,
        0 <= p.head(clock) + delta_ms <= n.duration_ms,
        later >= clock + 250_000_000,
    ensures
        p.stepped(delta_ms, clock).head(clock) == p.head(clock) + delta_ms,
        p.stepped(delta_ms, clock).seek_target == Some((p.head(clock) + delta_ms) as u32),
        p.stepped(delta_ms, clock).committed(later).1 == Some((p.head(clock) + delta_ms) as u32),
{
}

/// A further press moves on from where the scrub stands, whatever the playhead
/// has done since, unless it comes within a fifth of a second of the last step:
/// then it moves nothing.
pub proof fn law_a_held_key_steps_five_times_a_second(
    p: PlaybackState,
    n: NowPlaying,
    at: u32,
    delta_ms: int,
    clock: u64,
)
    requires
        p.now == Some(n),
        p.seek_target == Some(at),
        0 <= at + delta_ms <= n.duration_ms,
        clock >= p.seek_last_step,
    ensures
        clock - p.seek_last_step >= 200_000_000 ==> {
            &&& p.stepped(delta_ms, clock).seek_target == Some((at + delta_ms) as u32)
            &&& p.stepped(delta_ms, clock).head(clock) == at + delta_ms
            &&& p.stepped(delta_ms, clock).seek_last_step == clock
        },
        clock - p.seek_last_step < 200_000_000 ==> {
            &&& p.stepped(delta_ms, clock).seek_target == Some(at)
            &&& p.stepped(delta_ms, clock).now == p.now
            &&& p.stepped(delta_ms, clock).seek_last_step == p.seek_last_step
        },
        p.stepped(delta_ms, clock).seek_last_input == clock,
{
}

/// With no scrub under way there is nothing to commit, and with nothing playing
/// there is nothing to scrub.
pub proof fn law_nothing_is_committed_without_a_scrub(p: PlaybackState, delta_ms: int, clock: u64)
    ensures
        p.seek_target is None ==> p.committed(clock) == (p, None::<u32>),
        p.now is None && p.seek_target is None ==> p.stepped(delta_ms, clock) == p,
        p.now is None ==> p.committed(clock).1 is None,
{
}

/// A playhead can be counted for as long as its place, without regard to the end
/// of the track, stays within thirty-two bits; and a press that moves it by less
/// than that can always be taken.
pub proof fn law_an_ordinary_playhead_can_be_counted(
    p: PlaybackState,
    n: NowPlaying,
    ms: u64,
    delta_ms: int,
    clock: u64,
)
    requires
        p.now == Some(n),
        clock < n.position_at + (ms + 1) * 1_000_000,
        n.position_ms + ms <= u32::MAX,
        delta_ms <= u32::MAX,
    ensures
        p.countable(clock),
        p.steppable(delta_ms, clock),
{
}

} // verus!
