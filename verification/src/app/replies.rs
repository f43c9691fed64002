//! What the workers send back, applied to the state.

use crate::app::action::ActionMenu;
use crate::app::browse::first_row;
use crate::app::event::track_uri;
use crate::app::state::cmd_view;
use crate::app::state::App;
use crate::app::state::BrowseState;
use crate::app::state::CmdView;
use crate::app::state::Detail;
use crate::app::state::EngineCmd;
use crate::app::state::SearchState;
use crate::app::state::SessionState;
use crate::app::state::Transport;
use crate::app::state::ViewState;
use crate::frame::ArtRepaint;
use crate::json;
use crate::library;
use crate::library::LibItem;
use crate::library::RightView;
use crate::library::Row;
use crate::library::Section;
use crate::playback::NowPlaying;
use crate::playback::PlaybackState;
use crate::text;
use crate::text::optional;
use crate::util;
use vstd::prelude::*;

verus! {

// ----------------------------------------------------------------- the library

/// Rows numbered in the order they were fetched.
pub open spec fn numbered(list: Seq<Row>) -> Seq<Row> {
    Seq::new(list.len(), |i: int| Row { order: (i % 0x1_0000_0000) as u32, ..list[i] })
}

/// Number rows in the order they were fetched.
fn number_items(items: &mut Vec<LibItem>)
    ensures
        library::rows(final(items)@) == numbered(library::rows(old(items)@)),
{
    let n = items.len();
    let mut i: usize = 0;
    while i < n
        invariant
            i <= n,
            n == items@.len(),
            n == old(items)@.len(),
            forall|j: int|
                0 <= j < i ==> #[trigger] library::rows(items@)[j] == numbered(
                    library::rows(old(items)@),
                )[j],
            forall|j: int| i <= j < n ==> #[trigger] items@[j] == old(items)@[j],
        decreases n - i,
    {
        let ghost before = items@;
        let mut item = items[i].clone();
        item.order = (i as u64 % 0x1_0000_0000) as u32;
        items.set(i, item);
        assert forall|j: int| 0 <= j < i + 1 implies #[trigger] library::rows(items@)[j]
            == numbered(library::rows(old(items)@))[j] by {
            if j < i {
                assert(library::rows(before)[j] == library::rows(items@)[j]);
            } else {
                assert(library::rows(old(items)@)[j] == old(items)@[j]@);
            }
        }
        i += 1;
    }
    assert(library::rows(items@) =~= numbered(library::rows(old(items)@)));
}

impl App {
    /// A section has arrived: it is numbered, put in the current order, and
    /// shown; the selection leaves any header it now stands on.
    pub fn library_loaded(&mut self, section: Section, items: Vec<LibItem>)
        ensures
            library::rows(final(self).browse.library.of(section)@) == library::sorted_rows(
                numbered(library::rows(items@)),
                old(self).browse.sort,
            ),
            final(self).status@ == "loaded "@ + section.name(),
            ({
                let shown = App {
                    browse: BrowseState {
                        library: old(self).browse.library.with(
                            section,
                            final(self).browse.library.of(section),
                        ),
                        ..old(self).browse
                    },
                    status: final(self).status,
                    ..*old(self)
                };
                *final(self) == (if section == old(self).browse.section {
                    shown.normalized()
                } else {
                    shown
                })
            }),
    {
        let mut items = items;
        number_items(&mut items);
        library::sort_list(&mut items, self.browse.sort);
        self.browse.library.set(section, items);
        self.status = text::join2("loaded ", section.label());
        if section == self.browse.section {
            self.normalize_selection();
        }
    }

    /// The library fetch has come to its end: whether to try once more. After
    /// three attempts that brought nothing the user is told.
    pub fn library_done(&mut self, got_any: bool, attempts: &mut u32) -> (retry: bool)
        ensures
            *final(self) == (App { status: final(self).status, ..*old(self) }),
            retry == (!got_any && *old(attempts) < 2),
            if got_any {
                *final(attempts) == 0 && final(self).status@.len() == 0
            } else if *old(attempts) < 2 {
                *final(attempts) == *old(attempts) + 1 && final(self).status@
                    == "retrying library…"@
            } else {
                *final(attempts) == *old(attempts) && final(self).status@
                    == "library failed — press r to reload"@
            },
    {
        if got_any {
            *attempts = 0;
            self.status = String::new();
            false
        } else if *attempts < 2 {
            *attempts = *attempts + 1;
            self.status = "retrying library…".to_owned();
            true
        } else {
            self.status = "library failed — press r to reload".to_owned();
            false
        }
    }
}

// ------------------------------------------------------------------- the radio

/// The tracks of a station, and where in the first one to start.
#[derive(Debug)]
pub struct Radio {
    pub start_position_ms: u32,
    pub uris: Vec<String>,
}

impl App {
    /// A station has arrived. Where there is a command, the station's queue is
    /// to be fetched shortly after.
    pub fn radio_ready(&mut self, radio: Result<Radio, String>) -> (cmd: Option<EngineCmd>)
        ensures
            match radio {
                Ok(r) => if r.uris@.len() > 0 {
                    &&& cmd_view(cmd) == (if old(self).engine_up {
                        Some(
                            CmdView::PlayTracks {
                                uris: json::texts(r.uris@),
                                track: None,
                                position_ms: r.start_position_ms,
                                shuffle: false,
                            },
                        )
                    } else {
                        None
                    })
                    &&& final(self).status@ == "radio started"@
                    &&& *final(self) == (App {
                        status: final(self).status,
                        transport: Transport { playback_started: true, ..old(self).transport },
                        ..*old(self)
                    })
                } else {
                    &&& cmd is None
                    &&& final(self).status@ == "radio: no tracks returned"@
                    &&& *final(self) == (App { status: final(self).status, ..*old(self) })
                },
                Err(why) => {
                    &&& cmd is None
                    &&& final(self).status@ == "radio failed: "@ + why@
                    &&& *final(self) == (App { status: final(self).status, ..*old(self) })
                },
            },
    {
        match radio {
            Ok(r) => {
                if r.uris.len() == 0 {
                    self.status = "radio: no tracks returned".to_owned();
                    return None;
                }
                self.transport.playback_started = true;
                self.status = "radio started".to_owned();
                self.engine_do(
                    EngineCmd::PlayTracks {
                        uris: r.uris,
                        track: None,
                        position_ms: r.start_position_ms,
                        shuffle: false,
                    },
                )
            },
            Err(why) => {
                self.status = text::join2("radio failed: ", why.as_str());
                None
            },
        }
    }

    // --------------------------------------------------------------- the queue

    /// The live queue has arrived. An empty one (e.g. a bare resumed track) must
    /// not wipe the restored snapshot.
    pub fn queue_ready(&mut self, queue: Vec<(String, String)>)
        ensures
            if queue@.len() == 0 {
                *final(self) == *old(self)
            } else {
                &&& final(self).transport.queue@ == queue@.map_values(|q: (String, String)| q.0)
                &&& final(self).transport.queue_uris@ == queue@.map_values(
                    |q: (String, String)| q.1,
                )
                &&& *final(self) == (App {
                    transport: Transport {
                        queue: final(self).transport.queue,
                        queue_uris: final(self).transport.queue_uris,
                        ..old(self).transport
                    },
                    ..*old(self)
                })
            },
    {
        if queue.len() == 0 {
            return;
        }
        let mut shown: Vec<String> = Vec::new();
        let mut uris: Vec<String> = Vec::new();
        let ghost displays = queue@.map_values(|q: (String, String)| q.0);
        let ghost links = queue@.map_values(|q: (String, String)| q.1);
        let mut i: usize = 0;
        while i < queue.len()
            invariant
                i <= queue@.len(),
                displays == queue@.map_values(|q: (String, String)| q.0),
                links == queue@.map_values(|q: (String, String)| q.1),
                shown@ == displays.take(i as int),
                uris@ == links.take(i as int),
            decreases queue@.len() - i,
        {
            shown.push(queue[i].0.clone());
            uris.push(queue[i].1.clone());
            i += 1;
        }
        assert(displays.take(queue@.len() as int) =~= displays);
        assert(links.take(queue@.len() as int) =~= links);
        self.transport.queue = shown;
        self.transport.queue_uris = uris;
    }

    /// Whether the live queue is worth fetching.
    pub fn wants_queue(&self) -> (yes: bool)
        ensures
            yes == (self.transport.playback_started || self.session.reclaimed),
    {
        self.transport.playback_started || self.session.reclaimed
    }

    // --------------------------------------------------------- search and lists

    /// Search results have arrived.
    pub fn search_ready(&mut self, results: Vec<LibItem>)
        ensures
            final(self).status@ == (if results@.len() == 0 {
                "no results"@
            } else {
                Seq::empty()
            }),
            ({
                let shown = App {
                    search: SearchState { search_results: results, ..old(self).search },
                    status: final(self).status,
                    ..*old(self)
                };
                *final(self) == shown.selecting(first_row(shown.shown_rows(), 0))
            }),
    {
        self.status = if results.len() == 0 {
            "no results".to_owned()
        } else {
            String::new()
        };
        assert(results@.len() > 0 ==> self.status@ =~= Seq::<char>::empty());
        self.search.search_results = results;
        let first = self.first_selectable();
        self.browse.selected = first;
    }

    /// The lyrics of the current track have arrived.
    pub fn lyrics_ready(&mut self, lines: Vec<(u32, String)>, synced: bool)
        ensures
            *final(self) == (App {
                view: ViewState { lyrics: lines, lyrics_synced: synced, ..old(self).view },
                ..*old(self)
            }),
    {
        self.view.lyrics = lines;
        self.view.lyrics_synced = synced;
    }

    /// The contents of a context have arrived: they are shown on top, and the
    /// way back is remembered.
    pub fn detail_ready(&mut self, context_uri: String, title: String, items: Vec<LibItem>)
        ensures
            final(self).status@.len() == 0,
            final(self).browse.details@ == old(self).browse.details@.push(
                Detail {
                    context_uri,
                    title,
                    items,
                    parent_selected: old(self).browse.selected,
                },
            ),
            final(self).browse.selected == first_row(library::rows(items@), 0),
            *final(self) == (App {
                browse: BrowseState {
                    details: final(self).browse.details,
                    selected: final(self).browse.selected,
                    ..old(self).browse
                },
                status: final(self).status,
                ..*old(self)
            }),
    {
        let parent_selected = self.browse.selected;
        self.browse.details.push(Detail { context_uri, title, items, parent_selected });
        let first = self.first_selectable();
        self.browse.selected = first;
        self.status = String::new();
    }

    /// An enriched menu has arrived. Only an already-open menu is replaced, and
    /// the selection is kept.
    pub fn menu_ready(&mut self, menu: ActionMenu)
        ensures
            match old(self).view.actions {
                Some(open) => if menu.items@.len() > 0 {
                    *final(self) == (App {
                        view: ViewState {
                            actions: Some(
                                ActionMenu {
                                    selected: if open.selected < menu.items@.len() {
                                        open.selected
                                    } else {
                                        (menu.items@.len() - 1) as usize
                                    },
                                    ..menu
                                },
                            ),
                            ..old(self).view
                        },
                        ..*old(self)
                    })
                } else {
                    *final(self) == *old(self)
                },
                None => *final(self) == *old(self),
            },
    {
        if menu.items.len() == 0 {
            return;
        }
        let selected = match &self.view.actions {
            Some(open) => if open.selected < menu.items.len() {
                open.selected
            } else {
                menu.items.len() - 1
            },
            None => {
                return;
            },
        };
        let mut menu = menu;
        menu.selected = selected;
        self.view.actions = Some(menu);
    }

    /// A worker has something to say.
    pub fn say(&mut self, message: String)
        ensures
            *final(self) == (App { status: message, ..*old(self) }),
    {
        self.status = message;
    }
}

// ------------------------------------------------------------- a live session

/// What a live server-side session was playing.
#[derive(Debug)]
pub struct RemotePlaybackState {
    pub track_id: String,
    pub progress_ms: u32,
    pub shuffle: bool,
    pub repeat: bool,
    pub volume: u8,
}

impl App {
    /// A live session was reclaimed: its modes, its volume and its track are
    /// taken over, paused. The track's metadata and the queue are to be fetched.
    pub fn reclaimed(&mut self, state: RemotePlaybackState, clock: u64) -> (cmd: Option<EngineCmd>)
        ensures
            ({
                let volume = if state.volume <= 100 {
                    state.volume
                } else {
                    100
                };
                &&& cmd_view(cmd) == (if old(self).engine_up {
                    Some(CmdView::SetVolume((volume * 65535 / 100) as u16))
                } else {
                    None
                })
                &&& final(self).playback.now is Some
                &&& ({
                    let n = final(self).playback.now->0;
                    &&& n.uri@ == track_uri(state.track_id@)
                    &&& n.title@.len() == 0 && n.artist@.len() == 0 && n.album@.len() == 0
                    &&& n.duration_ms == 0
                    &&& n.position_ms == state.progress_ms
                    &&& n.position_at == clock
                    &&& !n.is_playing
                })
                &&& optional(final(self).session.pending_meta) == Some(track_uri(state.track_id@))
                &&& *final(self) == (App {
                    playback: PlaybackState {
                        now: final(self).playback.now,
                        ..old(self).playback
                    },
                    transport: Transport {
                        shuffle: state.shuffle,
                        repeat: state.repeat,
                        volume,
                        ..old(self).transport
                    },
                    session: SessionState {
                        reclaimed: true,
                        pending_meta: final(self).session.pending_meta,
                        ..old(self).session
                    },
                    ..*old(self)
                })
            }),
    {
        self.session.reclaimed = true;
        self.transport.shuffle = state.shuffle;
        self.transport.repeat = state.repeat;
        let cmd = self.apply_volume(state.volume);
        let uri = text::join2("spotify:track:", state.track_id.as_str());
        self.playback.now = Some(
            NowPlaying {
                uri: uri.clone(),
                title: String::new(),
                artist: String::new(),
                album: String::new(),
                duration_ms: 0,
                position_ms: state.progress_ms,
                position_at: clock,
                is_playing: false,
            },
        );
        self.session.pending_meta = Some(uri);
        cmd
    }

    /// The restored last track, to be fetched again for its cover and lyrics:
    /// once.
    pub fn take_restored(&mut self) -> (fetch_meta: Option<String>)
        ensures
            ({
                let id = match optional(old(self).session.restore_uri) {
                    Some(uri) => util::track_id(uri),
                    None => None,
                };
                &&& optional(fetch_meta) == id
                &&& optional(final(self).session.pending_meta) == (match id {
                    Some(id) => Some(track_uri(id)),
                    None => optional(old(self).session.pending_meta),
                })
                &&& *final(self) == (App {
                    session: SessionState {
                        restore_uri: None,
                        pending_meta: final(self).session.pending_meta,
                        ..old(self).session
                    },
                    ..*old(self)
                })
            }),
    {
        match self.session.restore_uri.take() {
            Some(uri) => match util::track_id_from_uri(uri.as_str()) {
                Some(id) => {
                    self.session.pending_meta = Some(
                        text::join2("spotify:track:", id.as_str()),
                    );
                    Some(id)
                },
                None => None,
            },
            None => None,
        }
    }

    /// Whether anything on screen moves by itself: a recolouring, synced lyrics,
    /// or the visualizer while it is shown.
    pub fn animating(&self, fading: bool, visualizer: bool) -> (yes: bool)
        ensures
            yes == self.is_animating(fading, visualizer),
    {
        fading || (self.view.mode == RightView::Lyrics && self.view.lyrics_synced) || (
        self.view.mode == RightView::NowPlaying && visualizer)
    }

    /// The terminal was resized or came back into view: a repaint from its own
    /// buffer loses inline art, so the cover has to go back out.
    pub fn repainted(&mut self)
        ensures
            *final(self) == (App { art_repaint: ArtRepaint::Wipe, ..*old(self) }),
    {
        self.art_repaint = ArtRepaint::Wipe;
    }
}

// ----------------------------------------------------------------------- laws

/// A section that has been loaded can be sorted to and fro: once it is sorted by
/// the order of fetching again, it stands as it was fetched.
pub proof fn law_a_loaded_section_can_be_restored(list: Seq<Row>, mode: library::SortMode)
    requires
        list.len() <= 0x1_0000_0000,
        forall|i: int|
            library::pinned(numbered(list)) <= i < list.len() ==> !(#[trigger] list[i]).is_header
                && !list[i].is_play,
    ensures
        library::sorted_rows(
            library::sorted_rows(numbered(list), mode),
            library::SortMode::Added,
        ) == numbered(list),
{
    let rows = numbered(list);
    let pin = library::pinned(rows);
    assert forall|i: int| pin <= i < rows.len() implies !(#[trigger] rows[i]).is_header
        && !rows[i].is_play by {
        assert(rows[i].is_header == list[i].is_header);
    }
    library::lemma_pinned_bounds(rows);
    assert(library::in_fetch_order(rows.skip(pin)));
    library::law_sorting_by_added_restores_a_list(rows, mode);
}

/// A row is numbered by its place in the list, and is otherwise left as it is.
pub proof fn law_rows_are_numbered_by_their_place(list: Seq<Row>, i: int)
    requires
        0 <= i < list.len(),
    ensures
        numbered(list).len() == list.len(),
        numbered(list)[i].name == list[i].name,
        numbered(list)[i].subtitle == list[i].subtitle,
        numbered(list)[i].uri == list[i].uri,
        numbered(list)[i].is_track == list[i].is_track,
        numbered(list)[i].is_header == list[i].is_header,
        numbered(list)[i].is_play == list[i].is_play,
        i <= u32::MAX ==> numbered(list)[i].order == i,
{
}

} // verus!
