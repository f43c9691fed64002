//! The context actions overlay: what an entry does and what's on the menu.

use vstd::prelude::*;

verus! {

/// What an action-menu entry does when activated.
#[derive(Debug)]
pub enum ActionKind {
    ToggleLike { id: String, saved: bool },
    Queue { uri: String, display: String },
    AddToPlaylistMenu { track_uri: String },
    AddToPlaylist { playlist_id: String, track_uri: String },
    ToggleFollowArtist { id: String, following: bool },
    ToggleSaveAlbum { id: String, saved: bool },
    FollowPlaylist { id: String },
    /// The name is carried so the play path can set the source's name.
    Play { uri: String, name: String },
    Open { uri: String, name: String },
    CopyLink { uri: String },
}

/// The model of an action.
pub ghost enum ActionView {
    ToggleLike { id: Seq<char>, saved: bool },
    Queue { uri: Seq<char>, display: Seq<char> },
    AddToPlaylistMenu { track_uri: Seq<char> },
    AddToPlaylist { playlist_id: Seq<char>, track_uri: Seq<char> },
    ToggleFollowArtist { id: Seq<char>, following: bool },
    ToggleSaveAlbum { id: Seq<char>, saved: bool },
    FollowPlaylist { id: Seq<char> },
    Play { uri: Seq<char>, name: Seq<char> },
    Open { uri: Seq<char>, name: Seq<char> },
    CopyLink { uri: Seq<char> },
}

impl ActionKind {
    /// The model of this action.
    pub open spec fn view(self) -> ActionView {
        match self {
            ActionKind::ToggleLike { id, saved } => ActionView::ToggleLike { id: id@, saved },
            ActionKind::Queue { uri, display } => ActionView::Queue {
                uri: uri@,
                display: display@,
            },
            ActionKind::AddToPlaylistMenu { track_uri } => ActionView::AddToPlaylistMenu {
                track_uri: track_uri@,
            },
            ActionKind::AddToPlaylist { playlist_id, track_uri } => ActionView::AddToPlaylist {
                playlist_id: playlist_id@,
                track_uri: track_uri@,
            },
            ActionKind::ToggleFollowArtist { id, following } => ActionView::ToggleFollowArtist {
                id: id@,
                following,
            },
            ActionKind::ToggleSaveAlbum { id, saved } => ActionView::ToggleSaveAlbum {
                id: id@,
                saved,
            },
            ActionKind::FollowPlaylist { id } => ActionView::FollowPlaylist { id: id@ },
            ActionKind::Play { uri, name } => ActionView::Play { uri: uri@, name: name@ },
            ActionKind::Open { uri, name } => ActionView::Open { uri: uri@, name: name@ },
            ActionKind::CopyLink { uri } => ActionView::CopyLink { uri: uri@ },
        }
    }
}

/// An entry of the menu.
#[derive(Debug)]
pub struct ActionItem {
    pub label: String,
    pub kind: ActionKind,
}

/// The menu.
#[derive(Debug)]
pub struct ActionMenu {
    pub title: String,
    pub items: Vec<ActionItem>,
    pub selected: usize,
}

/// The models of the entries of a menu: each label with what it does.
pub open spec fn entries(items: Seq<ActionItem>) -> Seq<(Seq<char>, ActionView)> {
    items.map_values(|i: ActionItem| (i.label@, i.kind.view()))
}

/// What is modelled of a menu is what it holds: each label with its action, in
/// their order, and each action with all that it carries.
pub proof fn law_a_menu_is_modelled_whole(items: Seq<ActionItem>, i: int)
    requires
        0 <= i < items.len(),
    ensures
        entries(items).len() == items.len(),
        entries(items)[i].0 == items[i].label@,
        match items[i].kind {
            ActionKind::ToggleLike { id, saved } => {
                &&& entries(items)[i].1 matches ActionView::ToggleLike { id: a, saved: b }
                &&& a == id@ && b == saved
            },
            ActionKind::Queue { uri, display } => {
                &&& entries(items)[i].1 matches ActionView::Queue { uri: a, display: b }
                &&& a == uri@ && b == display@
            },
            ActionKind::AddToPlaylistMenu { track_uri } => {
                &&& entries(items)[i].1 matches ActionView::AddToPlaylistMenu { track_uri: a }
                &&& a == track_uri@
            },
            ActionKind::AddToPlaylist { playlist_id, track_uri } => {
                &&& entries(items)[i].1 matches ActionView::AddToPlaylist {
                    playlist_id: a,
                    track_uri: b,
                }
                &&& a == playlist_id@ && b == track_uri@
            },
            ActionKind::ToggleFollowArtist { id, following } => {
                &&& entries(items)[i].1 matches ActionView::ToggleFollowArtist {
                    id: a,
                    following: b,
                }
                &&& a == id@ && b == following
            },
            ActionKind::ToggleSaveAlbum { id, saved } => {
                &&& entries(items)[i].1 matches ActionView::ToggleSaveAlbum { id: a, saved: b }
                &&& a == id@ && b == saved
            },
            ActionKind::FollowPlaylist { id } => {
                &&& entries(items)[i].1 matches ActionView::FollowPlaylist { id: a }
                &&& a == id@
            },
            ActionKind::Play { uri, name } => {
                &&& entries(items)[i].1 matches ActionView::Play { uri: a, name: b }
                &&& a == uri@ && b == name@
            },
            ActionKind::Open { uri, name } => {
                &&& entries(items)[i].1 matches ActionView::Open { uri: a, name: b }
                &&& a == uri@ && b == name@
            },
            ActionKind::CopyLink { uri } => {
                &&& entries(items)[i].1 matches ActionView::CopyLink { uri: a }
                &&& a == uri@
            },
        },
{
}

} // verus!
