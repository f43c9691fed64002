//! Library writes and the action menu that drives them.

use crate::api::rows;
use crate::app::action;
use crate::app::action::ActionItem;
use crate::app::action::ActionKind;
use crate::app::action::ActionMenu;
use crate::app::action::ActionView;
use crate::json;
use crate::json::Json;
use crate::library::LibItem;
use crate::library::Row;
use crate::text;
use crate::util;
use vstd::prelude::*;

verus! {

// ------------------------------------------------------------------- the menu

/// What is asked about an item before its menu is complete.
pub struct MenuQuestions {
    /// The URI whose presence in the library is asked for.
    pub contains: Option<String>,
    /// The document that names its artist and its album.
    pub detail_url: Option<String>,
}

/// The kind of thing that a URI names.
pub open spec fn kind_of(uri: Seq<char>) -> Seq<char> {
    util::uri_part(uri, 1)
}

/// Its id.
pub open spec fn id_of(uri: Seq<char>) -> Seq<char> {
    util::uri_part(uri, 2)
}

/// The kind and the id in a URI.
fn parts_of(uri: &str) -> (out: (String, String))
    ensures
        out.0@ == kind_of(uri@),
        out.1@ == id_of(uri@),
{
    let chars = text::chars_of(uri);
    let parts = text::split_on(chars.as_slice(), ':');
    let kind = if parts.len() > 1 {
        text::string_of(parts[1].as_slice())
    } else {
        String::new()
    };
    let id = if parts.len() > 2 {
        text::string_of(parts[2].as_slice())
    } else {
        String::new()
    };
    assert(kind@ =~= kind_of(uri@));
    assert(id@ =~= id_of(uri@));
    (kind, id)
}

/// What is asked about an item: whether a track, an artist or an album is in
/// the library, and what a track or an album belongs to.
pub fn menu_questions(api: &str, item: &LibItem) -> (asked: MenuQuestions)
    ensures
        ({
            let kind = kind_of(item@.uri);
            let id = id_of(item@.uri);
            &&& text::optional(asked.contains) == (if kind == "track"@ {
                Some("spotify:track:"@ + id)
            } else if kind == "artist"@ {
                Some("spotify:artist:"@ + id)
            } else if kind == "album"@ {
                Some("spotify:album:"@ + id)
            } else {
                None
            })
            &&& text::optional(asked.detail_url) == (if kind == "track"@ {
                Some(api@ + "/tracks/"@ + id)
            } else if kind == "album"@ {
                Some(api@ + "/albums/"@ + id)
            } else {
                None
            })
        }),
{
    let (kind, id) = parts_of(item.uri.as_str());
    proof {
        lemma_kinds_differ();
    }
    if text::same_text(kind.as_str(), "track") {
        MenuQuestions {
            contains: Some(text::join2("spotify:track:", id.as_str())),
            detail_url: Some(text::join3(api, "/tracks/", id.as_str())),
        }
    } else if text::same_text(kind.as_str(), "artist") {
        MenuQuestions {
            contains: Some(text::join2("spotify:artist:", id.as_str())),
            detail_url: None,
        }
    } else if text::same_text(kind.as_str(), "album") {
        MenuQuestions {
            contains: Some(text::join2("spotify:album:", id.as_str())),
            detail_url: Some(text::join3(api, "/albums/", id.as_str())),
        }
    } else {
        MenuQuestions { contains: None, detail_url: None }
    }
}

/// The kinds of things have different names.
proof fn lemma_kinds_differ()
    ensures
        "track"@ != "artist"@,
        "track"@ != "album"@,
        "track"@ != "playlist"@,
        "artist"@ != "album"@,
        "artist"@ != "playlist"@,
        "album"@ != "playlist"@,
{
    reveal_strlit("track");
    reveal_strlit("artist");
    reveal_strlit("album");
    reveal_strlit("playlist");
    assert("track"@[0] != "album"@[0]);
    assert("track"@.len() != "artist"@.len());
    assert("artist"@.len() != "album"@.len());
    assert("playlist"@.len() != "track"@.len());
    assert("playlist"@.len() != "artist"@.len());
    assert("playlist"@.len() != "album"@.len());
}

/// An entry of a menu.
pub type Entry = (Seq<char>, ActionView);

/// The entry that leads to the artist a document names.
pub open spec fn artist_entry(doc: Option<json::JsonView>) -> Seq<Entry> {
    match doc {
        Some(v) => match (
            rows::first_text(v, "artists"@, "uri"@),
            rows::first_text(v, "artists"@, "name"@),
        ) {
            (Some(uri), Some(name)) => seq![
                ("→  Go to Artist ("@ + name + ")"@, ActionView::Open { uri, name }),
            ],
            _ => Seq::empty(),
        },
        None => Seq::empty(),
    }
}

/// The entry that leads to the album a document names.
pub open spec fn album_entry(doc: Option<json::JsonView>) -> Seq<Entry> {
    match doc {
        Some(v) => match (
            rows::inner_text(v, "album"@, "uri"@),
            rows::inner_text(v, "album"@, "name"@),
        ) {
            (Some(uri), Some(name)) => seq![("→  Go to Album"@, ActionView::Open { uri, name })],
            _ => Seq::empty(),
        },
        None => Seq::empty(),
    }
}

/// How a queued track is shown.
pub open spec fn queue_display(row: Row) -> Seq<char> {
    if row.subtitle.len() == 0 {
        row.name
    } else {
        row.name + " — "@ + row.subtitle
    }
}

/// The entries of the menu for an item, given whether it is in the library and
/// what it belongs to.
pub open spec fn menu_entries(row: Row, saved: bool, doc: Option<json::JsonView>) -> Seq<Entry> {
    let kind = kind_of(row.uri);
    let id = id_of(row.uri);
    let play: Entry = ("▶︎  Play"@, ActionView::Play { uri: row.uri, name: row.name });
    let copy: Entry = ("⧉  Copy Link"@, ActionView::CopyLink { uri: row.uri });
    let open = ActionView::Open { uri: row.uri, name: row.name };
    if kind == "track"@ {
        seq![
            (
                if saved {
                    "♥  Remove from Liked"@
                } else {
                    "♡  Add to Liked"@
                },
                ActionView::ToggleLike { id, saved },
            ),
            (
                "＋  Add to Queue"@,
                ActionView::Queue { uri: row.uri, display: queue_display(row) },
            ),
            ("≡  Add to Playlist…"@, ActionView::AddToPlaylistMenu { track_uri: row.uri }),
        ] + artist_entry(doc) + album_entry(doc) + seq![copy]
    } else if kind == "artist"@ {
        seq![
            (
                if saved {
                    "Unfollow"@
                } else {
                    "Follow"@
                },
                ActionView::ToggleFollowArtist { id, following: saved },
            ),
            play,
            ("→  Open"@, open),
            copy,
        ]
    } else if kind == "album"@ {
        seq![
            (
                if saved {
                    "Remove from Library"@
                } else {
                    "Save Album"@
                },
                ActionView::ToggleSaveAlbum { id, saved },
            ),
            play,
            ("→  Open Album"@, open),
        ] + artist_entry(doc) + seq![copy]
    } else if kind == "playlist"@ {
        seq![
            ("＋  Add to Your Library"@, ActionView::FollowPlaylist { id }),
            play,
            ("→  Open"@, open),
            copy,
        ]
    } else {
        Seq::empty()
    }
}

/// Append an entry to a menu.
fn add_entry(items: &mut Vec<ActionItem>, label: String, kind: ActionKind)
    ensures
        action::entries(final(items)@) == action::entries(old(items)@).push((label@, kind.view())),
{
    let ghost before = items@;
    items.push(ActionItem { label, kind });
    assert(action::entries(items@) =~= action::entries(before).push((label@, kind.view())));
}

/// Append the entry that leads to the artist a document names.
fn add_artist(items: &mut Vec<ActionItem>, doc: Option<&Json>)
    ensures
        action::entries(final(items)@) == action::entries(old(items)@) + artist_entry(
            match doc {
                Some(doc) => Some(doc@),
                None => None,
            },
        ),
{
    let ghost before = action::entries(items@);
    if let Some(v) = doc {
        match (rows::text_in_first(v, "artists", "uri"), rows::text_in_first(v, "artists", "name")) {
            (Some(uri), Some(name)) => {
                let label = text::join3("→  Go to Artist (", name.as_str(), ")");
                add_entry(
                    items,
                    label,
                    ActionKind::Open { uri: uri.clone(), name: name.clone() },
                );
                assert(action::entries(items@) =~= before + artist_entry(Some(v@)));
                return;
            },
            _ => {},
        }
    }
    assert(action::entries(items@) =~= before + Seq::empty());
}

/// Append the entry that leads to the album a document names.
fn add_album(items: &mut Vec<ActionItem>, doc: Option<&Json>)
    ensures
        action::entries(final(items)@) == action::entries(old(items)@) + album_entry(
            match doc {
                Some(doc) => Some(doc@),
                None => None,
            },
        ),
{
    let ghost before = action::entries(items@);
    if let Some(v) = doc {
        match (rows::text_in(v, "album", "uri"), rows::text_in(v, "album", "name")) {
            (Some(uri), Some(name)) => {
                add_entry(
                    items,
                    "→  Go to Album".to_owned(),
                    ActionKind::Open { uri: uri.clone(), name: name.clone() },
                );
                assert(action::entries(items@) =~= before + album_entry(Some(v@)));
                return;
            },
            _ => {},
        }
    }
    assert(action::entries(items@) =~= before + Seq::empty());
}

/// Append the entries that play and open an item.
fn add_play_and_open(items: &mut Vec<ActionItem>, item: &LibItem, open_label: &str)
    ensures
        action::entries(final(items)@) == action::entries(old(items)@).push(
            ("▶︎  Play"@, ActionView::Play { uri: item@.uri, name: item@.name }),
        ).push((open_label@, ActionView::Open { uri: item@.uri, name: item@.name })),
{
    add_entry(
        items,
        "▶︎  Play".to_owned(),
        ActionKind::Play { uri: item.uri.clone(), name: item.name.clone() },
    );
    add_entry(
        items,
        open_label.to_owned(),
        ActionKind::Open { uri: item.uri.clone(), name: item.name.clone() },
    );
}

/// Build the context menu for `item`. Before the answers are known it is built
/// as for an item that is not in the library and belongs to nothing.
pub fn build_action_menu(item: &LibItem, saved: bool, doc: Option<&Json>) -> (menu: ActionMenu)
    ensures
        menu.title@ == item@.name,
        menu.selected == 0,
        action::entries(menu.items@) == menu_entries(
            item@,
            saved,
            match doc {
                Some(doc) => Some(doc@),
                None => None,
            },
        ),
{
    let (kind, id) = parts_of(item.uri.as_str());
    let mut items: Vec<ActionItem> = Vec::new();
    let ghost view = match doc {
        Some(doc) => Some(doc@),
        None => None,
    };
    proof {
        lemma_kinds_differ();
    }
    assert(action::entries(items@) =~= Seq::<Entry>::empty());
    if text::same_text(kind.as_str(), "track") {
        let label = if saved {
            "♥  Remove from Liked".to_owned()
        } else {
            "♡  Add to Liked".to_owned()
        };
        add_entry(&mut items, label, ActionKind::ToggleLike { id, saved });
        let display = if item.subtitle.as_str().unicode_len() == 0 {
            item.name.clone()
        } else {
            text::join3(item.name.as_str(), " — ", item.subtitle.as_str())
        };
        add_entry(
            &mut items,
            "＋  Add to Queue".to_owned(),
            ActionKind::Queue { uri: item.uri.clone(), display },
        );
        add_entry(
            &mut items,
            "≡  Add to Playlist…".to_owned(),
            ActionKind::AddToPlaylistMenu { track_uri: item.uri.clone() },
        );
        add_artist(&mut items, doc);
        add_album(&mut items, doc);
        add_entry(
            &mut items,
            "⧉  Copy Link".to_owned(),
            ActionKind::CopyLink { uri: item.uri.clone() },
        );
    } else if text::same_text(kind.as_str(), "artist") {
        let label = if saved {
            "Unfollow".to_owned()
        } else {
            "Follow".to_owned()
        };
        add_entry(&mut items, label, ActionKind::ToggleFollowArtist { id, following: saved });
        add_play_and_open(&mut items, item, "→  Open");
        add_entry(
            &mut items,
            "⧉  Copy Link".to_owned(),
            ActionKind::CopyLink { uri: item.uri.clone() },
        );
    } else if text::same_text(kind.as_str(), "album") {
        let label = if saved {
            "Remove from Library".to_owned()
        } else {
            "Save Album".to_owned()
        };
        add_entry(&mut items, label, ActionKind::ToggleSaveAlbum { id, saved });
        add_play_and_open(&mut items, item, "→  Open Album");
        add_artist(&mut items, doc);
        add_entry(
            &mut items,
            "⧉  Copy Link".to_owned(),
            ActionKind::CopyLink { uri: item.uri.clone() },
        );
    } else if text::same_text(kind.as_str(), "playlist") {
        add_entry(
            &mut items,
            "＋  Add to Your Library".to_owned(),
            ActionKind::FollowPlaylist { id },
        );
        add_play_and_open(&mut items, item, "→  Open");
        add_entry(
            &mut items,
            "⧉  Copy Link".to_owned(),
            ActionKind::CopyLink { uri: item.uri.clone() },
        );
    }
    assert(action::entries(items@) =~= menu_entries(item@, saved, view));
    ActionMenu { title: item.name.clone(), items, selected: 0 }
}

// -------------------------------------------------------------------- writing

/// How a write is sent.
#[derive(Clone, Copy, PartialEq, Eq, Structural, Debug)]
pub enum Method {
    Put,
    Delete,
    Post,
}

/// A write to the library, the queue, or a playlist.
#[derive(Debug)]
pub struct Write {
    pub method: Method,
    pub url: String,
}

/// A text in a query component.
pub open spec fn encoded(s: Seq<char>) -> Seq<char> {
    util::percent_encoded(vstd::utf8::encode_utf8(s))
}

/// Add or remove one library item — track, album, artist or playlist. The URI
/// must go in the query string: a body is rejected as missing it.
pub fn library_write(api: &str, remove: bool, uri: &str) -> (write: Write)
    ensures
        write.method == (if remove {
            Method::Delete
        } else {
            Method::Put
        }),
        write.url@ == api@ + "/me/library?uris="@ + encoded(uri@),
{
    let enc = util::urlencode(uri);
    Write {
        method: if remove {
            Method::Delete
        } else {
            Method::Put
        },
        url: text::join3(api, "/me/library?uris=", enc.as_str()),
    }
}

/// The write that an action stands for; none for those that write nothing.
pub open spec fn write_of(api: Seq<char>, kind: ActionView) -> Option<(Method, Seq<char>)> {
    let library = |remove: bool, uri: Seq<char>|
        (
            if remove {
                Method::Delete
            } else {
                Method::Put
            },
            api + "/me/library?uris="@ + encoded(uri),
        );
    match kind {
        ActionView::ToggleLike { id, saved } => Some(library(saved, "spotify:track:"@ + id)),
        ActionView::Queue { uri, display } => Some(
            (Method::Post, api + "/me/player/queue?uri="@ + encoded(uri)),
        ),
        ActionView::AddToPlaylist { playlist_id, track_uri } => Some(
            (
                Method::Post,
                api + "/playlists/"@ + playlist_id + "/items?uris="@ + encoded(track_uri),
            ),
        ),
        ActionView::ToggleFollowArtist { id, following } => Some(
            library(following, "spotify:artist:"@ + id),
        ),
        ActionView::ToggleSaveAlbum { id, saved } => Some(library(saved, "spotify:album:"@ + id)),
        ActionView::FollowPlaylist { id } => Some(library(false, "spotify:playlist:"@ + id)),
        _ => None,
    }
}

/// The write that an action stands for.
pub fn action_write(api: &str, kind: &ActionKind) -> (write: Option<Write>)
    ensures
        match write {
            Some(w) => write_of(api@, kind.view()) == Some((w.method, w.url@)),
            None => write_of(api@, kind.view()) is None,
        },
{
    match kind {
        ActionKind::ToggleLike { id, saved } => {
            let uri = text::join2("spotify:track:", id.as_str());
            Some(library_write(api, *saved, uri.as_str()))
        },
        ActionKind::Queue { uri, .. } => {
            let enc = util::urlencode(uri.as_str());
            Some(
                Write {
                    method: Method::Post,
                    url: text::join3(api, "/me/player/queue?uri=", enc.as_str()),
                },
            )
        },
        ActionKind::AddToPlaylist { playlist_id, track_uri } => {
            let enc = util::urlencode(track_uri.as_str());
            let head = text::join3(api, "/playlists/", playlist_id.as_str());
            Some(
                Write {
                    method: Method::Post,
                    url: text::join3(head.as_str(), "/items?uris=", enc.as_str()),
                },
            )
        },
        ActionKind::ToggleFollowArtist { id, following } => {
            let uri = text::join2("spotify:artist:", id.as_str());
            Some(library_write(api, *following, uri.as_str()))
        },
        ActionKind::ToggleSaveAlbum { id, saved } => {
            let uri = text::join2("spotify:album:", id.as_str());
            Some(library_write(api, *saved, uri.as_str()))
        },
        ActionKind::FollowPlaylist { id } => {
            let uri = text::join2("spotify:playlist:", id.as_str());
            Some(library_write(api, false, uri.as_str()))
        },
        _ => None,
    }
}

/// What the user is told of an action that went through.
pub open spec fn done_message(kind: ActionView) -> Seq<char> {
    match kind {
        ActionView::ToggleLike { id, saved } => if saved {
            "removed from Liked"@
        } else {
            "added to Liked \u{2665} (press r to refresh)"@
        },
        ActionView::Queue { uri, display } => "added to queue"@,
        ActionView::AddToPlaylist { playlist_id, track_uri } => "added to playlist"@,
        ActionView::ToggleFollowArtist { id, following } => if following {
            "unfollowed"@
        } else {
            "following"@
        },
        ActionView::ToggleSaveAlbum { id, saved } => if saved {
            "removed album"@
        } else {
            "saved album"@
        },
        ActionView::FollowPlaylist { id } => "added to library"@,
        _ => Seq::empty(),
    }
}

/// What the user is told of an action that did not.
pub open spec fn failed_message(kind: ActionView, why: Seq<char>) -> Seq<char> {
    match kind {
        ActionView::ToggleLike { id, saved } => "like failed: "@ + why,
        ActionView::Queue { uri, display } => "queue failed: "@ + why
            + " (start playback first)"@,
        ActionView::AddToPlaylist { playlist_id, track_uri } => "add failed: "@ + why,
        ActionView::ToggleFollowArtist { id, following } => "follow failed: "@ + why,
        ActionView::ToggleSaveAlbum { id, saved } => "album action failed: "@ + why,
        ActionView::FollowPlaylist { id } => "add failed: "@ + why,
        _ => Seq::empty(),
    }
}

/// What the user is told of an action, given what its write came to.
pub fn action_message(kind: &ActionKind, result: &Result<(), String>) -> (message: String)
    ensures
        message@ == (match *result {
            Ok(_) => done_message(kind.view()),
            Err(why) => failed_message(kind.view(), why@),
        }),
{
    match result {
        Ok(_) => match kind {
            ActionKind::ToggleLike { saved, .. } => if *saved {
                "removed from Liked".to_owned()
            } else {
                "added to Liked \u{2665} (press r to refresh)".to_owned()
            },
            ActionKind::Queue { .. } => "added to queue".to_owned(),
            ActionKind::AddToPlaylist { .. } => "added to playlist".to_owned(),
            ActionKind::ToggleFollowArtist { following, .. } => if *following {
                "unfollowed".to_owned()
            } else {
                "following".to_owned()
            },
            ActionKind::ToggleSaveAlbum { saved, .. } => if *saved {
                "removed album".to_owned()
            } else {
                "saved album".to_owned()
            },
            ActionKind::FollowPlaylist { .. } => "added to library".to_owned(),
            _ => {
                let nothing = String::new();
                assert(nothing@ =~= Seq::<char>::empty());
                nothing
            },
        },
        Err(why) => match kind {
            ActionKind::ToggleLike { .. } => text::join2("like failed: ", why.as_str()),
            ActionKind::Queue { .. } => text::join3(
                "queue failed: ",
                why.as_str(),
                " (start playback first)",
            ),
            ActionKind::AddToPlaylist { .. } => text::join2("add failed: ", why.as_str()),
            ActionKind::ToggleFollowArtist { .. } => text::join2("follow failed: ", why.as_str()),
            ActionKind::ToggleSaveAlbum { .. } => text::join2(
                "album action failed: ",
                why.as_str(),
            ),
            ActionKind::FollowPlaylist { .. } => text::join2("add failed: ", why.as_str()),
            _ => {
                let nothing = String::new();
                assert(nothing@ =~= Seq::<char>::empty());
                nothing
            },
        },
    }
}

/// What an attempt at a write came to.
#[derive(Debug)]
pub enum Attempt {
    /// An answer with a status, and what it says of when to try again.
    Answered { status: u16, retry_after: Option<String> },
    TimedOut,
    Failed,
}

/// What to do after an attempt.
#[derive(Debug)]
pub enum AfterAttempt {
    Done(Result<(), String>),
    /// Try again after so many seconds.
    Retry(u64),
}

/// The longest that is waited before a second attempt, in seconds.
pub const LONGEST_WAIT: u64 = 5;

/// How long to wait: as long as the answer says, a second where it says nothing
/// that can be read, and never longer than the limit.
pub open spec fn wait_secs(retry_after: Option<Seq<char>>) -> int {
    let asked = match retry_after {
        Some(s) => match text::unsigned_value(s, u64::MAX as nat) {
            Some(n) => n as int,
            None => 1,
        },
        None => 1,
    };
    if asked <= LONGEST_WAIT {
        asked
    } else {
        LONGEST_WAIT as int
    }
}

/// What to do after an attempt: a success is one, the first "too many requests"
/// is waited out, and anything else is a short reason the UI can give.
pub fn after_attempt(attempt: &Attempt, first: bool) -> (next: AfterAttempt)
    ensures
        match *attempt {
            Attempt::Answered { status, retry_after } => if 200 <= status <= 299 {
                next matches AfterAttempt::Done(Ok(_))
            } else if status == 429 && first {
                next matches AfterAttempt::Retry(secs) && secs == wait_secs(text::optional(retry_after))
            } else {
                next matches AfterAttempt::Done(Err(why)) && why@ == "HTTP "@ + text::decimal(
                    status as nat,
                )
            },
            Attempt::TimedOut => next matches AfterAttempt::Done(Err(why)) && why@ == "timeout"@,
            Attempt::Failed => next matches AfterAttempt::Done(Err(why)) && why@
                == "network error"@,
        },
{
    match attempt {
        Attempt::Answered { status, retry_after } => {
            if 200 <= *status && *status <= 299 {
                AfterAttempt::Done(Ok(()))
            } else if *status == 429 && first {
                let asked: u64 = match retry_after {
                    Some(s) => {
                        let chars = text::chars_of(s.as_str());
                        text::parse_unsigned(chars.as_slice(), u64::MAX).unwrap_or(1)
                    },
                    None => 1,
                };
                AfterAttempt::Retry(
                    if asked <= LONGEST_WAIT {
                        asked
                    } else {
                        LONGEST_WAIT
                    },
                )
            } else {
                let code = text::decimal_text(*status as u64);
                AfterAttempt::Done(Err(text::join2("HTTP ", code.as_str())))
            }
        },
        Attempt::TimedOut => AfterAttempt::Done(Err("timeout".to_owned())),
        Attempt::Failed => AfterAttempt::Done(Err("network error".to_owned())),
    }
}

// ------------------------------------------------------------------ questions

/// Where it is asked whether something is in the library.
pub fn contains_url(api: &str, uri: &str) -> (url: String)
    ensures
        url@ == api@ + "/me/library/contains?uris="@ + encoded(uri@),
{
    let enc = util::urlencode(uri);
    text::join3(api, "/me/library/contains?uris=", enc.as_str())
}

/// Is it in the user's library? Only a clear yes counts.
pub fn api_contains(doc: Option<&Json>) -> (yes: bool)
    ensures
        yes == (match doc {
            Some(doc) => match doc@.items() {
                Some(items) => items.len() > 0 && items[0].flag() == Some(true),
                None => false,
            },
            None => false,
        }),
{
    match doc {
        Some(doc) => match doc.as_list() {
            Some(items) => if items.len() > 0 {
                proof {
                    json::lemma_item(items@, 0);
                }
                match &items[0] {
                    Json::Bool(b) => *b,
                    _ => false,
                }
            } else {
                false
            },
            None => false,
        },
        None => false,
    }
}

// ----------------------------------------------------------------------- laws

/// Liking and unliking are each other's reverse: the write for a saved track
/// removes exactly what the write for an unsaved one adds.
pub proof fn law_a_toggle_undoes_itself(api: Seq<char>, id: Seq<char>)
    ensures
        ({
            let add = write_of(api, ActionView::ToggleLike { id, saved: false });
            let remove = write_of(api, ActionView::ToggleLike { id, saved: true });
            &&& add is Some && remove is Some
            &&& (add->0).1 == (remove->0).1
            &&& (add->0).0 == Method::Put && (remove->0).0 == Method::Delete
        }),
        ({
            let add = write_of(api, ActionView::ToggleFollowArtist { id, following: false });
            let remove = write_of(api, ActionView::ToggleFollowArtist { id, following: true });
            &&& add is Some && remove is Some
            &&& (add->0).1 == (remove->0).1
            &&& (add->0).0 == Method::Put && (remove->0).0 == Method::Delete
        }),
        ({
            let add = write_of(api, ActionView::ToggleSaveAlbum { id, saved: false });
            let remove = write_of(api, ActionView::ToggleSaveAlbum { id, saved: true });
            &&& add is Some && remove is Some
            &&& (add->0).1 == (remove->0).1
            &&& (add->0).0 == Method::Put && (remove->0).0 == Method::Delete
        }),
{
}

/// Every menu that is not empty offers to copy a link to the item itself, last,
/// whatever the answers were.
pub proof fn law_a_menu_ends_with_the_link(row: Row, saved: bool, doc: Option<json::JsonView>)
    ensures
        ({
            let menu = menu_entries(row, saved, doc);
            menu.len() > 0 ==> menu.last() == ("⧉  Copy Link"@, ActionView::CopyLink { uri: row.uri })
        }),
{
}

/// No wait before a second attempt is longer than the limit.
pub proof fn law_a_wait_is_never_long(retry_after: Option<Seq<char>>)
    ensures
        0 <= wait_secs(retry_after) <= LONGEST_WAIT,
{
}

/// The kind and the id of a URI are its second and its third part.
pub proof fn law_a_uri_is_of_its_kind(kind: Seq<char>, id: Seq<char>)
    requires
        text::lacks(kind, ':'),
        text::lacks(id, ':'),
    ensures
        kind_of("spotify"@ + seq![':'] + (kind + seq![':'] + id)) == kind,
        id_of("spotify"@ + seq![':'] + (kind + seq![':'] + id)) == id,
{
    reveal_strlit("spotify");
    assert(text::lacks("spotify"@, ':'));
    util::law_a_uri_names_a_kind_and_an_id("spotify"@, kind, id);
}

/// The menu of a track likes it or takes that back, queues it by its own URI,
/// offers it to a playlist, leads to its artist and its album where they are
/// known, and copies its link.
pub proof fn law_the_menu_of_a_track(row: Row, saved: bool, doc: Option<json::JsonView>)
    requires
        kind_of(row.uri) == "track"@,
    ensures
        ({
            let menu = menu_entries(row, saved, doc);
            let artist = artist_entry(doc);
            let album = album_entry(doc);
            &&& menu.len() == 4 + artist.len() + album.len()
            &&& menu[0].1 == (ActionView::ToggleLike { id: id_of(row.uri), saved })
            &&& saved ==> menu[0].0 == "♥  Remove from Liked"@
            &&& !saved ==> menu[0].0 == "♡  Add to Liked"@
            &&& menu[1].0 == "＋  Add to Queue"@
            &&& menu[1].1 matches ActionView::Queue { uri, display }
            &&& uri == row.uri
            &&& row.subtitle.len() == 0 ==> display == row.name
            &&& row.subtitle.len() > 0 ==> display == row.name + " — "@ + row.subtitle
            &&& menu[2] == (
                "≡  Add to Playlist…"@,
                ActionView::AddToPlaylistMenu { track_uri: row.uri },
            )
            &&& forall|i: int| 0 <= i < artist.len() ==> #[trigger] menu[3 + i] == artist[i]
            &&& forall|i: int|
                0 <= i < album.len() ==> #[trigger] menu[3 + artist.len() + i] == album[i]
            &&& menu.last() == ("⧉  Copy Link"@, ActionView::CopyLink { uri: row.uri })
        }),
{
}

/// The way to an artist or to an album is offered where a document names it with
/// its URI, and leads there.
pub proof fn law_a_menu_leads_to_artist_and_album(
    v: json::JsonView,
    artists: Seq<json::JsonView>,
    album: json::JsonView,
    uri: Seq<char>,
    name: Seq<char>,
)
    ensures
        v.list_field("artists"@) == Some(artists) && artists.len() > 0 && artists[0].text_field(
            "uri"@,
        ) == Some(uri) && artists[0].text_field("name"@) == Some(name) ==> artist_entry(Some(v))
            == seq![("→  Go to Artist ("@ + name + ")"@, ActionView::Open { uri, name })],
        v.field("album"@) == Some(album) && album.text_field("uri"@) == Some(uri)
            && album.text_field("name"@) == Some(name) ==> album_entry(Some(v)) == seq![
            ("→  Go to Album"@, ActionView::Open { uri, name }),
        ],
        artist_entry(None).len() == 0,
        album_entry(None).len() == 0,
{
}

/// The menu of an artist, an album or a playlist takes it into the library or
/// out of it, plays it and opens it under its own name; nothing else has a menu.
pub proof fn law_the_menu_of_a_context(row: Row, saved: bool, doc: Option<json::JsonView>)
    ensures
        ({
            let kind = kind_of(row.uri);
            let menu = menu_entries(row, saved, doc);
            let play = ("▶︎  Play"@, ActionView::Play { uri: row.uri, name: row.name });
            let open = ActionView::Open { uri: row.uri, name: row.name };
            &&& kind == "artist"@ ==> {
                &&& menu.len() == 4
                &&& menu[0].1 == (ActionView::ToggleFollowArtist {
                    id: id_of(row.uri),
                    following: saved,
                })
                &&& saved ==> menu[0].0 == "Unfollow"@
                &&& !saved ==> menu[0].0 == "Follow"@
                &&& menu[1] == play
                &&& menu[2] == ("→  Open"@, open)
            }
            &&& kind == "album"@ ==> {
                &&& menu.len() == 4 + artist_entry(doc).len()
                &&& menu[0].1 == (ActionView::ToggleSaveAlbum { id: id_of(row.uri), saved })
                &&& saved ==> menu[0].0 == "Remove from Library"@
                &&& !saved ==> menu[0].0 == "Save Album"@
                &&& menu[1] == play
                &&& menu[2] == ("→  Open Album"@, open)
                &&& forall|i: int|
                    0 <= i < artist_entry(doc).len() ==> #[trigger] menu[3 + i] == artist_entry(
                        doc,
                    )[i]
            }
            &&& kind == "playlist"@ ==> {
                &&& menu.len() == 4
                &&& menu[0] == (
                    "＋  Add to Your Library"@,
                    ActionView::FollowPlaylist { id: id_of(row.uri) },
                )
                &&& menu[1] == play
                &&& menu[2] == ("→  Open"@, open)
            }
            &&& kind != "track"@ && kind != "artist"@ && kind != "album"@ && kind != "playlist"@
                ==> menu.len() == 0
        }),
{
    lemma_kinds_differ();
}

/// A write names what it is about: the library entry of the track, the album, the
/// artist or the playlist, the track to be queued, or the playlist and the track
/// to be added to it. What only plays, opens or copies writes nothing.
pub proof fn law_a_write_names_what_it_is_about(
    api: Seq<char>,
    id: Seq<char>,
    uri: Seq<char>,
    text: Seq<char>,
    remove: bool,
)
    ensures
        ({
            let method = if remove {
                Method::Delete
            } else {
                Method::Put
            };
            let entry = |scheme: Seq<char>|
                api + "/me/library?uris="@ + util::percent_encoded(
                    vstd::utf8::encode_utf8(scheme + id),
                );
            &&& write_of(api, ActionView::ToggleLike { id, saved: remove }) == Some(
                (method, entry("spotify:track:"@)),
            )
            &&& write_of(api, ActionView::ToggleFollowArtist { id, following: remove }) == Some(
                (method, entry("spotify:artist:"@)),
            )
            &&& write_of(api, ActionView::ToggleSaveAlbum { id, saved: remove }) == Some(
                (method, entry("spotify:album:"@)),
            )
            &&& write_of(api, ActionView::FollowPlaylist { id }) == Some(
                (Method::Put, entry("spotify:playlist:"@)),
            )
            &&& write_of(api, ActionView::Queue { uri, display: text }) == Some(
                (
                    Method::Post,
                    api + "/me/player/queue?uri="@ + util::percent_encoded(
                        vstd::utf8::encode_utf8(uri),
                    ),
                ),
            )
            &&& write_of(api, ActionView::AddToPlaylist { playlist_id: id, track_uri: uri })
                == Some(
                (
                    Method::Post,
                    api + "/playlists/"@ + id + "/items?uris="@ + util::percent_encoded(
                        vstd::utf8::encode_utf8(uri),
                    ),
                ),
            )
            &&& write_of(api, ActionView::Play { uri, name: text }) is None
            &&& write_of(api, ActionView::Open { uri, name: text }) is None
            &&& write_of(api, ActionView::CopyLink { uri }) is None
            &&& write_of(api, ActionView::AddToPlaylistMenu { track_uri: uri }) is None
        }),
{
}

/// Every write is answered: a success by what was done, a failure by what failed
/// and why.
pub proof fn law_every_write_is_answered(api: Seq<char>, kind: ActionView, why: Seq<char>)
    ensures
        write_of(api, kind) is Some ==> {
            &&& text::contains_text(failed_message(kind, why), why)
            &&& failed_message(kind, why).len() > why.len()
            &&& done_message(kind).len() > 0
        },
        write_of(api, kind) is None ==> done_message(kind).len() == 0 && failed_message(
            kind,
            why,
        ).len() == 0,
        kind matches ActionView::ToggleLike { id, saved } ==> {
            &&& failed_message(kind, why) == "like failed: "@ + why
            &&& saved ==> done_message(kind) == "removed from Liked"@
            &&& !saved ==> done_message(kind) == "added to Liked \u{2665} (press r to refresh)"@
        },
        kind is Queue ==> {
            &&& failed_message(kind, why) == "queue failed: "@ + why + " (start playback first)"@
            &&& done_message(kind) == "added to queue"@
        },
        kind is AddToPlaylist ==> {
            &&& failed_message(kind, why) == "add failed: "@ + why
            &&& done_message(kind) == "added to playlist"@
        },
        kind matches ActionView::ToggleFollowArtist { id, following } ==> {
            &&& failed_message(kind, why) == "follow failed: "@ + why
            &&& following ==> done_message(kind) == "unfollowed"@
            &&& !following ==> done_message(kind) == "following"@
        },
        kind matches ActionView::ToggleSaveAlbum { id, saved } ==> {
            &&& failed_message(kind, why) == "album action failed: "@ + why
            &&& saved ==> done_message(kind) == "removed album"@
            &&& !saved ==> done_message(kind) == "saved album"@
        },
        kind is FollowPlaylist ==> {
            &&& failed_message(kind, why) == "add failed: "@ + why
            &&& done_message(kind) == "added to library"@
        },
{
    reveal_strlit("like failed: ");
    reveal_strlit("queue failed: ");
    reveal_strlit(" (start playback first)");
    reveal_strlit("add failed: ");
    reveal_strlit("follow failed: ");
    reveal_strlit("album action failed: ");
    reveal_strlit("removed from Liked");
    reveal_strlit("added to Liked \u{2665} (press r to refresh)");
    reveal_strlit("added to queue");
    reveal_strlit("added to playlist");
    reveal_strlit("unfollowed");
    reveal_strlit("following");
    reveal_strlit("removed album");
    reveal_strlit("saved album");
    reveal_strlit("added to library");
    let none = Seq::<char>::empty();
    text::law_what_is_put_in_is_found("like failed: "@, why, none);
    text::law_what_is_put_in_is_found("queue failed: "@, why, " (start playback first)"@);
    text::law_what_is_put_in_is_found("add failed: "@, why, none);
    text::law_what_is_put_in_is_found("follow failed: "@, why, none);
    text::law_what_is_put_in_is_found("album action failed: "@, why, none);
    assert("like failed: "@ + why + none =~= "like failed: "@ + why);
    assert("add failed: "@ + why + none =~= "add failed: "@ + why);
    assert("follow failed: "@ + why + none =~= "follow failed: "@ + why);
    assert("album action failed: "@ + why + none =~= "album action failed: "@ + why);
}

/// A wait of so many seconds is waited out as it was asked for, up to five; where
/// nothing that can be read is asked for, it is one second.
pub proof fn law_a_wait_is_as_long_as_asked(n: nat, other: Seq<char>)
    requires
        n <= u64::MAX,
        text::unsigned_value(other, u64::MAX as nat) is None,
    ensures
        n <= 5 ==> wait_secs(Some(text::decimal(n))) == n,
        n > 5 ==> wait_secs(Some(text::decimal(n))) == 5,
        wait_secs(Some(other)) == 1,
        wait_secs(None) == 1,
{
    text::law_a_written_number_is_read(n, u64::MAX as nat, seq!['x'], 0);
}

} // verus!
