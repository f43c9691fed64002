//! Album art: which graphics protocol draws it, and when it is encoded anew.

use crate::liblog;
use crate::text;
use crate::util::Rect;
use vstd::prelude::*;

verus! {

/// How a terminal draws images.
#[derive(Clone, Copy, PartialEq, Eq, Structural, Debug)]
pub enum Protocol {
    Halfblocks,
    Sixel,
    Kitty,
    Iterm2,
}

/// What is known of the terminal besides its answer to the graphics query.
#[derive(Clone, Copy, PartialEq, Eq, Structural, Debug)]
pub struct Terminal {
    /// tmux runs us and stores sixel images itself.
    pub tmux_stores_sixel: bool,
    /// It answers the kitty query but places no unicode placeholders.
    pub no_placeholders: bool,
    /// It is kitty.
    pub kitty_window: bool,
}

/// Whether tmux both runs us and can store sixel images itself, going by the
/// terminal features it reports.
pub fn tmux_stores_sixel(in_tmux: bool, features: Option<&str>) -> (yes: bool)
    ensures
        yes == (in_tmux && match features {
            Some(f) => text::contains_text(f@, "sixel"@),
            None => false,
        }),
{
    if !in_tmux {
        return false;
    }
    match features {
        Some(f) => text::has_text(f, "sixel"),
        None => false,
    }
}

/// Whether the terminal draws no unicode placeholders: WezTerm and Warp answer
/// the kitty query, but the cells would come out empty.
pub fn lacks_placeholders(in_wezterm: bool, term_program: Option<&str>) -> (yes: bool)
    ensures
        yes == (in_wezterm || match term_program {
            Some(t) => text::contains_text(t@, "WarpTerminal"@),
            None => false,
        }),
{
    if in_wezterm {
        return true;
    }
    match term_program {
        Some(t) => text::has_text(t, "WarpTerminal"),
        None => false,
    }
}

/// The protocol that a name asks for.
pub open spec fn named(name: Seq<char>) -> Option<Protocol> {
    let low = liblog::ascii_lowercased(name);
    if low == "kitty"@ {
        Some(Protocol::Kitty)
    } else if low == "iterm2"@ {
        Some(Protocol::Iterm2)
    } else if low == "sixel"@ {
        Some(Protocol::Sixel)
    } else if low == "halfblocks"@ {
        Some(Protocol::Halfblocks)
    } else {
        None
    }
}

/// The protocol for a terminal, given what its graphics query answered. The
/// cover has to survive a tmux window switch, and sixel is the only protocol
/// tmux stores itself. Inside tmux the query goes unanswered even where the
/// outer terminal is kitty.
pub open spec fn suited(detected: Protocol, t: Terminal) -> Protocol {
    if t.tmux_stores_sixel {
        Protocol::Sixel
    } else if t.no_placeholders {
        Protocol::Iterm2
    } else if detected is Halfblocks && t.kitty_window {
        Protocol::Kitty
    } else {
        detected
    }
}

/// The protocol to draw with: the one asked for by the environment, or else by
/// the configuration, where that names one; otherwise the one that suits the
/// terminal.
pub fn choose_protocol(
    detected: Protocol,
    terminal: Terminal,
    from_env: Option<&str>,
    configured: Option<&str>,
) -> (protocol: Protocol)
    ensures
        ({
            let asked = match (from_env, configured) {
                (Some(name), _) => named(name@),
                (None, Some(name)) => named(name@),
                (None, None) => None,
            };
            protocol == (match asked {
                Some(p) => p,
                None => suited(detected, terminal),
            })
        }),
{
    let suits = if terminal.tmux_stores_sixel {
        Protocol::Sixel
    } else if terminal.no_placeholders {
        Protocol::Iterm2
    } else if detected == Protocol::Halfblocks && terminal.kitty_window {
        Protocol::Kitty
    } else {
        detected
    };
    let name = match from_env {
        Some(name) => name,
        None => match configured {
            Some(name) => name,
            None => {
                return suits;
            },
        },
    };
    let low = liblog::ascii_lowercase(name);
    if text::same_text(low.as_str(), "kitty") {
        Protocol::Kitty
    } else if text::same_text(low.as_str(), "iterm2") {
        Protocol::Iterm2
    } else if text::same_text(low.as_str(), "sixel") {
        Protocol::Sixel
    } else if text::same_text(low.as_str(), "halfblocks") {
        Protocol::Halfblocks
    } else {
        suits
    }
}

/// What to do to show the cover in a region.
#[derive(Clone, Copy, PartialEq, Eq, Structural, Debug)]
pub enum CoverStep {
    /// Nothing: the region has no area.
    Skip,
    /// Encode it for the region, then draw it.
    Encode,
    /// Draw what was encoded before.
    Draw,
}

/// Whether the cover must be encoded to be shown in `area`, given the region it
/// is encoded for.
pub fn needs_encode(cached: Option<Rect>, area: Rect) -> (yes: bool)
    ensures
        yes == (area.width != 0 && area.height != 0 && cached != Some(area)),
{
    if area.width == 0 || area.height == 0 {
        return false;
    }
    match cached {
        Some(cached) => cached != area,
        None => true,
    }
}

/// For which region the cover is encoded. Re-encoding only happens when the box
/// changes size, keeping the render loop cheap.
pub struct CoverCache {
    pub encoded_for: Option<Rect>,
}

impl CoverCache {
    /// What to do to show the cover in `area`.
    pub open spec fn step(self, area: Rect) -> CoverStep {
        if area.width == 0 || area.height == 0 {
            CoverStep::Skip
        } else if self.encoded_for == Some(area) {
            CoverStep::Draw
        } else {
            CoverStep::Encode
        }
    }

    /// What to do to show the cover in `area`.
    pub fn plan(&self, area: Rect) -> (step: CoverStep)
        ensures
            step == self.step(area),
    {
        if needs_encode(self.encoded_for, area) {
            CoverStep::Encode
        } else if area.width == 0 || area.height == 0 {
            CoverStep::Skip
        } else {
            CoverStep::Draw
        }
    }

    /// The cover has been encoded for `area`.
    pub fn encoded(&mut self, area: Rect)
        ensures
            final(self).encoded_for == Some(area),
    {
        self.encoded_for = Some(area);
    }

    /// Drop the cached encode so the next render re-encodes, forcing
    /// retransmission.
    pub fn invalidate_cache(&mut self)
        ensures
            final(self).encoded_for is None,
    {
        self.encoded_for = None;
    }
}

/// A cover is encoded once for a region, however often it is shown there: once
/// encoded, only another region needs a new encode.
pub proof fn law_a_cover_is_encoded_once_per_region(cover: CoverCache, area: Rect, other: Rect)
    requires
        cover.encoded_for == Some(area),
    ensures
        cover.step(area) !is Encode,
        cover.step(other) is Encode <==> other != area && other.width != 0 && other.height != 0,
{
}

/// A protocol is asked for by its name, in capitals or not; no other text names
/// one.
pub proof fn law_a_protocol_goes_by_its_name(name: Seq<char>)
    ensures
        liblog::ascii_lowercased(name) == "kitty"@ ==> named(name) == Some(Protocol::Kitty),
        liblog::ascii_lowercased(name) == "iterm2"@ ==> named(name) == Some(Protocol::Iterm2),
        liblog::ascii_lowercased(name) == "sixel"@ ==> named(name) == Some(Protocol::Sixel),
        liblog::ascii_lowercased(name) == "halfblocks"@ ==> named(name) == Some(
            Protocol::Halfblocks,
        ),
        named(name) is Some ==> {
            let low = liblog::ascii_lowercased(name);
            low == "kitty"@ || low == "iterm2"@ || low == "sixel"@ || low == "halfblocks"@
        },
{
    reveal_strlit("kitty");
    reveal_strlit("iterm2");
    reveal_strlit("sixel");
    reveal_strlit("halfblocks");
    assert("kitty"@.len() == 5 && "iterm2"@.len() == 6 && "sixel"@.len() == 5
        && "halfblocks"@.len() == 10);
    assert("kitty"@[0] != "sixel"@[0]);
}

/// A region without any cells shows nothing; any other shows the cover, encoded
/// anew unless it is encoded for that very region.
pub proof fn law_a_cover_is_shown_wherever_there_is_room(cover: CoverCache, area: Rect)
    ensures
        cover.step(area) is Skip <==> area.width == 0 || area.height == 0,
        area.width > 0 && area.height > 0 ==> (cover.step(area) is Draw <==> cover.encoded_for
            == Some(area)),
        cover.encoded_for is None && area.width > 0 && area.height > 0 ==> cover.step(
            area,
        ) is Encode,
{
}

/// What suits a terminal: sixel where tmux keeps it, iTerm's protocol where there
/// are no placeholders, and the detected one elsewhere, unless nothing better than
/// half blocks was detected in a window of kitty.
pub proof fn law_what_suits_a_terminal(detected: Protocol, t: Terminal)
    ensures
        t.tmux_stores_sixel ==> suited(detected, t) is Sixel,
        !t.tmux_stores_sixel && t.no_placeholders ==> suited(detected, t) is Iterm2,
        !t.tmux_stores_sixel && !t.no_placeholders && !(detected is Halfblocks) ==> suited(
            detected,
            t,
        ) == detected,
        !t.tmux_stores_sixel && !t.no_placeholders && detected is Halfblocks ==> suited(
            detected,
            t,
        ) == (if t.kitty_window {
            Protocol::Kitty
        } else {
            Protocol::Halfblocks
        }),
{
}

} // verus!
