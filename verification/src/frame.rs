//! When to draw, and what the album art owes the next frame.

use vstd::prelude::*;

verus! {

/// Ceiling on the redraw rate: one frame per ~60Hz terminal refresh. In
/// nanoseconds, as are the other times here.
pub const MIN_FRAME: u64 = 16_000_000;

/// Redraw rate while the visualizer or a theme fade is running.
pub const ANIM_FRAME: u64 = 33_000_000;

/// Redraw rate when nothing changed — enough to keep the clock and progress bar
/// honest without repainting an identical frame 60 times a second.
pub const IDLE_REDRAW: u64 = 500_000_000;

/// How often the live queue is re-fetched and the session persisted.
pub const SYNC_EVERY: u64 = 24_000_000_000;

/// How long a frame must have been on screen before the next one.
pub open spec fn frame_time(dirty: bool, animating: bool) -> u64 {
    if dirty {
        MIN_FRAME
    } else if animating {
        ANIM_FRAME
    } else {
        IDLE_REDRAW
    }
}

/// Whether this frame is worth drawing.
///
/// Input beats animation beats the idle clock.
pub fn should_draw(dirty: bool, animating: bool, since_last: u64) -> (yes: bool)
    ensures
        yes == (since_last >= frame_time(dirty, animating)),
{
    if dirty {
        since_last >= MIN_FRAME
    } else if animating {
        since_last >= ANIM_FRAME
    } else {
        since_last >= IDLE_REDRAW
    }
}

/// Whatever is drawn without input or animation would be drawn with it, and no
/// frame follows another faster than the terminal refreshes.
pub proof fn law_input_beats_animation_beats_idle(since_last: u64)
    ensures
        since_last >= frame_time(false, false) ==> since_last >= frame_time(false, true),
        since_last >= frame_time(false, true) ==> since_last >= frame_time(true, true),
        forall|dirty: bool, animating: bool| #[trigger] frame_time(dirty, animating) >= MIN_FRAME,
{
}

/// What the album art box owes the next frame.
///
/// The whole image stands in one cell's symbol and the rest of the box is
/// skipped by the diff, so leftovers stay. Blanking the box for one frame is the
/// only change the diff will emit, and it makes the image that follows one too.
#[derive(Debug, Clone, Copy, PartialEq, Eq, Structural)]
pub enum ArtRepaint {
    /// The box holds what it should.
    Idle,
    /// Blank the box this frame.
    Wipe,
    /// Draw the art; the wipe has gone out.
    Draw,
}

impl ArtRepaint {
    /// What is owed once a frame has been drawn.
    pub open spec fn after_frame(self) -> ArtRepaint {
        match self {
            ArtRepaint::Wipe => ArtRepaint::Draw,
            _ => ArtRepaint::Idle,
        }
    }

    /// What is owed once a frame has been drawn.
    pub fn advance(self) -> (next: ArtRepaint)
        ensures
            next == self.after_frame(),
    {
        match self {
            ArtRepaint::Wipe => ArtRepaint::Draw,
            _ => ArtRepaint::Idle,
        }
    }
}

/// A wiped box is drawn in the next frame, and nothing is owed after that.
pub proof fn law_a_wipe_is_followed_by_a_draw(owed: ArtRepaint)
    ensures
        ArtRepaint::Wipe.after_frame() == ArtRepaint::Draw,
        owed.after_frame().after_frame() == ArtRepaint::Idle,
{
}

/// What the frame timer has to remember between ticks.
pub struct FrameClock {
    pub dirty: bool,
    pub last_draw: u64,
    pub last_sync: u64,
    /// The right view and whether the sidebar is hidden, as last drawn.
    pub last_layout: (crate::library::RightView, bool),
    pub overlay_open: bool,
}

impl FrameClock {
    /// Look at what is on screen before a frame: a changed layout or a closed
    /// overlay wipes the art, and any change makes the screen dirty. Opening an
    /// overlay must not wipe: the image would be redrawn on top of it.
    pub fn observe(
        &mut self,
        layout: (crate::library::RightView, bool),
        overlay: bool,
        owed: ArtRepaint,
    ) -> (now_owed: ArtRepaint)
        ensures
            ({
                let moved = layout != old(self).last_layout;
                let toggled = overlay != old(self).overlay_open;
                &&& now_owed == (if moved || (toggled && !overlay) {
                    ArtRepaint::Wipe
                } else {
                    owed
                })
                &&& *final(self) == (FrameClock {
                    dirty: old(self).dirty || owed != ArtRepaint::Idle || moved || toggled,
                    last_layout: layout,
                    overlay_open: overlay,
                    ..*old(self)
                })
            }),
    {
        let mut out = owed;
        if owed != ArtRepaint::Idle {
            self.dirty = true;
        }
        if layout.0 != self.last_layout.0 || layout.1 != self.last_layout.1 {
            self.last_layout = layout;
            out = ArtRepaint::Wipe;
            self.dirty = true;
        }
        if overlay != self.overlay_open {
            self.overlay_open = overlay;
            if !overlay {
                out = ArtRepaint::Wipe;
            }
            self.dirty = true;
        }
        out
    }

    /// Whether to draw now; if so, the frame counts as drawn.
    pub fn draw_due(&mut self, animating: bool, now: u64) -> (yes: bool)
        ensures
            yes == (now - old(self).last_draw >= frame_time(old(self).dirty, animating)),
            *final(self) == (if yes {
                FrameClock { dirty: false, last_draw: now, ..*old(self) }
            } else {
                *old(self)
            }),
    {
        if should_draw(self.dirty, animating, now.saturating_sub(self.last_draw)) {
            self.dirty = false;
            self.last_draw = now;
            true
        } else {
            false
        }
    }

    /// Whether it is time to persist the session; if so, it counts as done.
    pub fn sync_due(&mut self, now: u64) -> (yes: bool)
        ensures
            yes == (now - old(self).last_sync >= SYNC_EVERY),
            *final(self) == (if yes {
                FrameClock { last_sync: now, ..*old(self) }
            } else {
                *old(self)
            }),
    {
        if now.saturating_sub(self.last_sync) >= SYNC_EVERY {
            self.last_sync = now;
            true
        } else {
            false
        }
    }
}

/// The palette on screen, and the one a cross-fade walks it towards.
pub struct ThemeState<T> {
    pub displayed: T,
    pub target: T,
    /// Whether a cross-fade is running.
    pub fading: bool,
}

impl<T: Copy> ThemeState<T> {
    /// Begin a cross-fade from what is on screen.
    pub fn start_fade(&mut self, to: T)
        ensures
            *final(self) == (ThemeState { target: to, fading: true, ..*old(self) }),
    {
        self.target = to;
        self.fading = true;
    }

    /// Show where the cross-fade stands. A finished one snaps to its target
    /// exactly.
    pub fn advance(&mut self, current: T, done: bool)
        ensures
            *final(self) == (if !old(self).fading {
                *old(self)
            } else if done {
                ThemeState { displayed: old(self).target, fading: false, ..*old(self) }
            } else {
                ThemeState { displayed: current, ..*old(self) }
            }),
    {
        if self.fading {
            self.displayed = current;
            if done {
                self.displayed = self.target;
                self.fading = false;
            }
        }
    }
}

/// A change is drawn within sixteen milliseconds of the last frame, a moving
/// picture about thirty times a second, and an unchanged one twice a second. What
/// the art owes is paid by one frame, or by two where the box is wiped first.
pub proof fn law_how_soon_a_frame_follows(animating: bool)
    ensures
        frame_time(true, animating) == 16_000_000,
        frame_time(false, true) == 33_000_000,
        frame_time(false, false) == 500_000_000,
        SYNC_EVERY == 24_000_000_000,
        ArtRepaint::Draw.after_frame() is Idle,
        ArtRepaint::Idle.after_frame() is Idle,
{
}

} // verus!
