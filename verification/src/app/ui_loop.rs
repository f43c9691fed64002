//! The frame tick: what is committed, drawn and persisted, and when.

use crate::app::state::cmd_view;
use crate::app::state::App;
use crate::app::state::CmdView;
use crate::app::state::EngineCmd;
use crate::frame::frame_time;
use crate::frame::ArtRepaint;
use crate::frame::FrameClock;
use crate::frame::IDLE_REDRAW;
use crate::frame::MIN_FRAME;
use crate::frame::SYNC_EVERY;
use vstd::prelude::*;

verus! {

/// What a tick asks of the outside.
#[derive(Clone, Copy, PartialEq, Eq, Structural, Debug)]
pub struct TickOutcome {
    /// Draw a frame, with this repaint of the album art.
    pub draw: Option<ArtRepaint>,
    /// Fetch the live queue.
    pub fetch_queue: bool,
    /// Persist the session.
    pub save: bool,
}

/// The clock a session starts with: nothing is on screen yet, so the first tick
/// must draw.
pub fn first_clock(app: &App, now: u64) -> (clock: FrameClock)
    ensures
        clock.dirty,
        clock.last_draw == (if now >= IDLE_REDRAW {
            (now - IDLE_REDRAW) as u64
        } else {
            0
        }),
        clock.last_sync == now,
        clock.last_layout == (app.view.mode, app.view.zen),
        clock.overlay_open == (app.view.actions is Some),
        forall|animating: bool|
            now >= MIN_FRAME ==> now - clock.last_draw >= #[trigger] frame_time(true, animating),
{
    FrameClock {
        dirty: true,
        last_draw: now.saturating_sub(IDLE_REDRAW),
        last_sync: now,
        last_layout: (app.view.mode, app.view.zen),
        overlay_open: app.view.actions.is_some(),
    }
}

impl App {
    /// At the beginning of a tick: commit a scrub that has settled.
    pub fn tick_begin(&mut self, now: u64) -> (cmd: Option<EngineCmd>)
        ensures
            *final(self) == (App { playback: old(self).playback.committed(now).0, ..*old(self) }),
            cmd_view(cmd) == (match old(self).playback.committed(now).1 {
                Some(to) => if old(self).engine_up {
                    Some(CmdView::Seek(to))
                } else {
                    None
                },
                None => None,
            }),
    {
        match self.playback.flush_seek(now) {
            Some(to) => self.engine_do(EngineCmd::Seek(to)),
            None => None,
        }
    }

    /// Whether anything on screen moves by itself.
    pub open spec fn is_animating(self, fading: bool, visualizer: bool) -> bool {
        fading || (self.view.mode is Lyrics && self.view.lyrics_synced) || (
        self.view.mode is NowPlaying && visualizer)
    }

    /// What the album art owes once the screen has been looked at: a changed
    /// layout and a closed overlay wipe it.
    pub open spec fn owed(self, clock: FrameClock) -> ArtRepaint {
        let overlay = self.view.actions is Some;
        if (self.view.mode, self.view.zen) != clock.last_layout || (clock.overlay_open && !overlay) {
            ArtRepaint::Wipe
        } else {
            self.art_repaint
        }
    }

    /// Whether there is anything new to draw.
    pub open spec fn is_dirty(self, clock: FrameClock) -> bool {
        clock.dirty || self.art_repaint != ArtRepaint::Idle || (self.view.mode, self.view.zen)
            != clock.last_layout || (self.view.actions is Some) != clock.overlay_open
    }

    /// At the end of a tick, once the workers' replies have been taken in: draw
    /// if it is time, and persist the session every so often.
    pub fn tick_end(&mut self, clock: &mut FrameClock, fading: bool, visualizer: bool, now: u64) -> (
        out: TickOutcome)
        ensures
            ({
                let due = now - old(clock).last_draw >= frame_time(
                    old(self).is_dirty(*old(clock)),
                    old(self).is_animating(fading, visualizer),
                );
                let owed = old(self).owed(*old(clock));
                let sync = now - old(clock).last_sync >= SYNC_EVERY;
                &&& out.draw == (if due {
                    Some(owed)
                } else {
                    None::<ArtRepaint>
                })
                &&& out.save == sync
                &&& out.fetch_queue == (sync && (old(self).transport.playback_started
                    || old(self).session.reclaimed))
                &&& *final(self) == (App {
                    art_repaint: if due {
                        owed.after_frame()
                    } else {
                        owed
                    },
                    ..*old(self)
                })
                &&& *final(clock) == (FrameClock {
                    dirty: !due && old(self).is_dirty(*old(clock)),
                    last_draw: if due {
                        now
                    } else {
                        old(clock).last_draw
                    },
                    last_sync: if sync {
                        now
                    } else {
                        old(clock).last_sync
                    },
                    last_layout: (old(self).view.mode, old(self).view.zen),
                    overlay_open: old(self).view.actions is Some,
                })
            }),
    {
        let animating = self.animating(fading, visualizer);
        let overlay = self.view.actions.is_some();
        let layout = (self.view.mode, self.view.zen);
        self.art_repaint = clock.observe(layout, overlay, self.art_repaint);
        let mut draw: Option<ArtRepaint> = None;
        if clock.draw_due(animating, now) {
            draw = Some(self.art_repaint);
            self.art_repaint = self.art_repaint.advance();
        }
        let save = clock.sync_due(now);
        TickOutcome { draw, fetch_queue: save && self.wants_queue(), save }
    }
}

// ----------------------------------------------------------------------- laws

/// The screen moves by itself while colours fade, while synced lyrics are shown,
/// and while the visualizer is; never for what is not shown.
pub proof fn law_what_moves_by_itself(app: App, visualizer: bool)
    ensures
        app.is_animating(true, visualizer),
        app.view.mode is Lyrics ==> app.is_animating(false, visualizer) == app.view.lyrics_synced,
        app.view.mode is NowPlaying ==> app.is_animating(false, visualizer) == visualizer,
        app.view.mode is Queue ==> !app.is_animating(false, visualizer),
{
}

/// The album art is wiped when what is around it moves or an overlay closes over
/// it; an overlay that opens leaves it as it is.
pub proof fn law_the_art_is_wiped_when_uncovered(app: App, clock: FrameClock)
    ensures
        app.view.mode != clock.last_layout.0 ==> app.owed(clock) is Wipe,
        app.view.zen != clock.last_layout.1 ==> app.owed(clock) is Wipe,
        clock.overlay_open && app.view.actions is None ==> app.owed(clock) is Wipe,
        app.view.mode == clock.last_layout.0 && app.view.zen == clock.last_layout.1 && (
        app.view.actions is Some || !clock.overlay_open) ==> app.owed(clock) == app.art_repaint,
{
}

/// Any change of what is shown is drawn soon; a screen that nothing has changed
/// is not.
pub proof fn law_a_change_makes_the_screen_dirty(app: App, clock: FrameClock)
    ensures
        clock.dirty ==> app.is_dirty(clock),
        !(app.art_repaint is Idle) ==> app.is_dirty(clock),
        app.view.mode != clock.last_layout.0 ==> app.is_dirty(clock),
        app.view.zen != clock.last_layout.1 ==> app.is_dirty(clock),
        clock.overlay_open != (app.view.actions is Some) ==> app.is_dirty(clock),
        !clock.dirty && app.art_repaint is Idle && app.view.mode == clock.last_layout.0
            && app.view.zen == clock.last_layout.1 && clock.overlay_open == (
        app.view.actions is Some) ==> !app.is_dirty(clock),
{
}

} // verus!
