//! From the API's documents to library rows.

use crate::json;
use crate::json::Json;
use crate::library;
use crate::library::LibItem;
use crate::library::Row;
use crate::text;
use vstd::prelude::*;

verus! {

// ------------------------------------------------------------------- look-ups

/// The first item of the list that stands under `key`.
pub open spec fn first_under(v: json::JsonView, key: Seq<char>) -> Option<json::JsonView> {
    match v.list_field(key) {
        Some(items) => if items.len() > 0 {
            Some(items[0])
        } else {
            None
        },
        None => None,
    }
}

/// The text under `key` in the first item of the list under `list`.
pub open spec fn first_text(v: json::JsonView, list: Seq<char>, key: Seq<char>) -> Option<Seq<char>> {
    match first_under(v, list) {
        Some(item) => item.text_field(key),
        None => None,
    }
}

/// The text under `key` in the object under `outer`.
pub open spec fn inner_text(v: json::JsonView, outer: Seq<char>, key: Seq<char>) -> Option<
    Seq<char>,
> {
    match v.field(outer) {
        Some(o) => o.text_field(key),
        None => None,
    }
}

/// The number under `key` in the object under `outer`.
pub open spec fn inner_number(v: json::JsonView, outer: Seq<char>, key: Seq<char>) -> Option<u64> {
    match v.field(outer) {
        Some(o) => o.number_field(key),
        None => None,
    }
}

/// A text, or an empty one where it is absent.
pub open spec fn or_empty(s: Option<Seq<char>>) -> Seq<char> {
    match s {
        Some(s) => s,
        None => Seq::empty(),
    }
}

/// The first item of the list that stands under `key`.
pub fn first_item<'a>(v: &'a Json, key: &str) -> (out: Option<&'a Json>)
    ensures
        match out {
            Some(item) => first_under(v@, key@) == Some(item@),
            None => first_under(v@, key@) is None,
        },
{
    match v.list_field(key) {
        Some(items) => if items.len() > 0 {
            proof {
                json::lemma_item(items@, 0);
            }
            Some(&items[0])
        } else {
            None
        },
        None => None,
    }
}

/// The text under `key` in the first item of the list under `list`.
pub fn text_in_first<'a>(v: &'a Json, list: &str, key: &str) -> (out: Option<&'a String>)
    ensures
        match out {
            Some(s) => first_text(v@, list@, key@) == Some(s@),
            None => first_text(v@, list@, key@) is None,
        },
{
    match first_item(v, list) {
        Some(item) => item.text_field(key),
        None => None,
    }
}

/// The text under `key` in the object under `outer`.
pub fn text_in<'a>(v: &'a Json, outer: &str, key: &str) -> (out: Option<&'a String>)
    ensures
        match out {
            Some(s) => inner_text(v@, outer@, key@) == Some(s@),
            None => inner_text(v@, outer@, key@) is None,
        },
{
    match v.get(outer) {
        Some(o) => o.text_field(key),
        None => None,
    }
}

/// The number under `key` in the object under `outer`.
pub fn number_in(v: &Json, outer: &str, key: &str) -> (out: Option<u64>)
    ensures
        out == inner_number(v@, outer@, key@),
{
    match v.get(outer) {
        Some(o) => o.number_field(key),
        None => None,
    }
}

/// A text, or an empty one where it is absent.
pub fn text_or_empty(s: Option<&String>) -> (out: String)
    ensures
        out@ == (match s {
            Some(s) => s@,
            None => Seq::empty(),
        }),
{
    match s {
        Some(s) => s.clone(),
        None => {
            let out = String::new();
            assert(out@ =~= Seq::<char>::empty());
            out
        },
    }
}

// ------------------------------------------------------------------ playlists

/// Track count from a playlist object. The field was renamed `tracks` ->
/// `items`; the new name is read first, so both shapes work.
pub open spec fn total_of(p: json::JsonView) -> Option<u64> {
    match inner_number(p, "items"@, "total"@) {
        Some(n) => Some(n),
        None => inner_number(p, "tracks"@, "total"@),
    }
}

/// Track count from a playlist object.
pub fn playlist_total(p: &Json) -> (total: Option<u64>)
    ensures
        total == total_of(p@),
{
    match number_in(p, "items", "total") {
        Some(n) => Some(n),
        None => number_in(p, "tracks", "total"),
    }
}

/// Playlist row subtitle: `"142 · owner"`, or just the owner when the API omits
/// the count.
pub open spec fn subtitle_of(owner: Seq<char>, total: Option<u64>) -> Seq<char> {
    match total {
        Some(n) => if owner.len() == 0 {
            text::decimal(n as nat)
        } else {
            text::decimal(n as nat) + " · "@ + owner
        },
        None => owner,
    }
}

/// Playlist row subtitle. Count first, deliberately: the row renderer truncates
/// the subtitle tail-first in a narrow pane.
pub fn playlist_subtitle(owner: &str, total: Option<u64>) -> (subtitle: String)
    ensures
        subtitle@ == subtitle_of(owner@, total),
{
    match total {
        Some(n) => {
            let count = text::decimal_text(n);
            if owner.unicode_len() == 0 {
                count
            } else {
                text::join3(count.as_str(), " · ", owner)
            }
        },
        None => owner.to_owned(),
    }
}

// ------------------------------------------------------------------------ rows

/// What a document in a list stands for.
#[derive(Clone, Copy, PartialEq, Eq, Structural, Debug)]
pub enum RowKind {
    /// A track.
    Track,
    /// A play of a track, or a saved track: the track stands under `track`.
    PlayedTrack,
    /// An entry of a playlist: the track stands under `item`, or `track`.
    PlaylistEntry,
    /// An artist.
    Artist,
    /// An album, named by its artist.
    Album,
    /// A saved album: it stands under `album`.
    SavedAlbum,
    /// A playlist.
    Playlist,
}

/// A track's row, where the document names one.
pub open spec fn track_of(t: json::JsonView) -> Option<Row> {
    match (t.text_field("name"@), t.text_field("uri"@)) {
        (Some(name), Some(uri)) => Some(
            library::track_row(name, or_empty(first_text(t, "artists"@, "name"@)), uri),
        ),
        _ => None,
    }
}

/// A row to be opened, where the document names one.
pub open spec fn context_of(v: json::JsonView, subtitle: Seq<char>) -> Option<Row> {
    match (v.text_field("name"@), v.text_field("uri"@)) {
        (Some(name), Some(uri)) => Some(library::ctx_row(name, subtitle, uri)),
        _ => None,
    }
}

/// The document under `key`; nothing to be read where there is none.
pub open spec fn under(v: json::JsonView, key: Seq<char>) -> json::JsonView {
    match v.field(key) {
        Some(inner) => inner,
        None => json::JsonView::Null,
    }
}

/// The row that a document stands for, if any.
pub open spec fn row_of(kind: RowKind, v: json::JsonView) -> Option<Row> {
    match kind {
        RowKind::Track => track_of(v),
        RowKind::PlayedTrack => track_of(under(v, "track"@)),
        RowKind::PlaylistEntry => track_of(
            if under(v, "item"@) is Object {
                under(v, "item"@)
            } else {
                under(v, "track"@)
            },
        ),
        RowKind::Artist => context_of(v, Seq::empty()),
        RowKind::Album => context_of(v, or_empty(first_text(v, "artists"@, "name"@))),
        RowKind::SavedAlbum => {
            let album = under(v, "album"@);
            context_of(album, "album · "@ + or_empty(first_text(album, "artists"@, "name"@)))
        },
        RowKind::Playlist => context_of(
            v,
            subtitle_of(or_empty(inner_text(v, "owner"@, "display_name"@)), total_of(v)),
        ),
    }
}

/// The model of a row that may be absent.
pub open spec fn row_view(item: Option<LibItem>) -> Option<Row> {
    match item {
        Some(item) => Some(item@),
        None => None,
    }
}

fn track_item(t: &Json) -> (item: Option<LibItem>)
    ensures
        row_view(item) == track_of(t@),
{
    match (t.text_field("name"), t.text_field("uri")) {
        (Some(name), Some(uri)) => {
            let artist = text_or_empty(text_in_first(t, "artists", "name"));
            Some(LibItem::track(name.clone(), artist, uri.clone()))
        },
        _ => None,
    }
}

fn context_item(v: &Json, subtitle: String) -> (item: Option<LibItem>)
    ensures
        row_view(item) == context_of(v@, subtitle@),
{
    match (v.text_field("name"), v.text_field("uri")) {
        (Some(name), Some(uri)) => Some(LibItem::ctx(name.clone(), subtitle, uri.clone())),
        _ => None,
    }
}

/// One entry of a playlist. An entry with no playable track is skipped: `null`
/// for items removed from the catalogue, and region-locked or malformed rows.
pub fn parse_playlist_track(it: &Json) -> (item: Option<LibItem>)
    ensures
        row_view(item) == row_of(RowKind::PlaylistEntry, it@),
{
    let newer = match it.get("item") {
        Some(t) => match t {
            Json::Object(_) => Some(t),
            _ => None,
        },
        None => None,
    };
    match newer {
        Some(t) => track_item(t),
        None => match it.get("track") {
            Some(t) => track_item(t),
            None => None,
        },
    }
}

/// The row that a document stands for, if any.
pub fn parse_row(kind: RowKind, v: &Json) -> (item: Option<LibItem>)
    ensures
        row_view(item) == row_of(kind, v@),
{
    match kind {
        RowKind::Track => track_item(v),
        RowKind::PlayedTrack => match v.get("track") {
            Some(t) => track_item(t),
            None => None,
        },
        RowKind::PlaylistEntry => parse_playlist_track(v),
        RowKind::Artist => {
            let nothing = String::new();
            assert(nothing@ =~= Seq::<char>::empty());
            context_item(v, nothing)
        },
        RowKind::Album => {
            let artist = text_or_empty(text_in_first(v, "artists", "name"));
            context_item(v, artist)
        },
        RowKind::SavedAlbum => match v.get("album") {
            Some(album) => {
                let artist = text_or_empty(text_in_first(album, "artists", "name"));
                context_item(album, text::join2("album · ", artist.as_str()))
            },
            None => None,
        },
        RowKind::Playlist => {
            let owner = text_or_empty(text_in(v, "owner", "display_name"));
            let total = playlist_total(v);
            context_item(v, playlist_subtitle(owner.as_str(), total))
        },
    }
}

/// The rows that a list of documents stands for; one that names no row is
/// skipped.
pub open spec fn rows_of(kind: RowKind, items: Seq<json::JsonView>) -> Seq<Row>
    decreases items.len(),
{
    if items.len() == 0 {
        Seq::empty()
    } else {
        match row_of(kind, items.last()) {
            Some(row) => rows_of(kind, items.drop_last()).push(row),
            None => rows_of(kind, items.drop_last()),
        }
    }
}

/// The documents under `items`; none where there is no list.
pub open spec fn items_of(v: json::JsonView) -> Seq<json::JsonView> {
    match v.list_field("items"@) {
        Some(items) => items,
        None => Seq::empty(),
    }
}

/// Append the rows of the documents under `items` to a list.
pub fn append_rows(kind: RowKind, v: &Json, out: &mut Vec<LibItem>)
    ensures
        library::rows(final(out)@) == library::rows(old(out)@) + rows_of(kind, items_of(v@)),
{
    let items = match v.list_field("items") {
        Some(items) => items,
        None => {
            assert(library::rows(out@) =~= library::rows(out@) + rows_of(kind, items_of(v@)));
            return;
        },
    };
    let ghost all = json::list_view(items@);
    let ghost before = library::rows(out@);
    let mut i: usize = 0;
    assert(all.take(0) =~= Seq::<json::JsonView>::empty());
    assert(before =~= before + rows_of(kind, all.take(0)));
    while i < items.len()
        invariant
            i <= items@.len(),
            all.len() == items@.len(),
            forall|j: int| 0 <= j < items@.len() ==> #[trigger] all[j] == items@[j]@,
            library::rows(out@) == before + rows_of(kind, all.take(i as int)),
        decreases items@.len() - i,
    {
        let ghost had = out@;
        assert(all.take(i + 1).drop_last() =~= all.take(i as int));
        assert(all.take(i + 1).last() == items@[i as int]@);
        if let Some(row) = parse_row(kind, &items[i]) {
            out.push(row);
            assert(library::rows(out@) =~= library::rows(had).push(row@));
            assert(library::rows(out@) =~= before + rows_of(kind, all.take(i + 1)));
        }
        i += 1;
    }
    assert(all.take(items@.len() as int) =~= all);
}

/// Documents that name no row are left out, and no row is invented: a list has
/// at most as many rows as documents, and the rows of two lists one after the
/// other are the rows of both together.
pub proof fn law_rows_follow_their_documents(
    kind: RowKind,
    a: Seq<json::JsonView>,
    b: Seq<json::JsonView>,
)
    ensures
        rows_of(kind, a).len() <= a.len(),
        rows_of(kind, a + b) == rows_of(kind, a) + rows_of(kind, b),
    decreases a.len() + b.len(),
{
    if a.len() > 0 {
        law_rows_follow_their_documents(kind, a.drop_last(), Seq::empty());
    }
    if b.len() == 0 {
        assert(a + b =~= a);
        assert(rows_of(kind, a) + rows_of(kind, b) =~= rows_of(kind, a));
    } else {
        law_rows_follow_their_documents(kind, a, b.drop_last());
        assert((a + b).drop_last() =~= a + b.drop_last());
        assert((a + b).last() == b.last());
        assert(rows_of(kind, a + b) =~= rows_of(kind, a) + rows_of(kind, b));
    }
}

/// Every document has its own place in the list: the rows of a list are those
/// before a document, the row of the document where it names one, and those
/// behind it. None is left out, moved, or shown twice.
pub proof fn law_no_document_is_left_out(
    kind: RowKind,
    before: Seq<json::JsonView>,
    doc: json::JsonView,
    after: Seq<json::JsonView>,
)
    ensures
        rows_of(kind, before + seq![doc] + after) == rows_of(kind, before) + (match row_of(
            kind,
            doc,
        ) {
            Some(row) => seq![row],
            None => Seq::empty(),
        }) + rows_of(kind, after),
        rows_of(kind, Seq::empty()).len() == 0,
{
    law_rows_follow_their_documents(kind, before + seq![doc], after);
    law_rows_follow_their_documents(kind, before, seq![doc]);
    let one = seq![doc];
    assert(one.drop_last() =~= Seq::empty());
    assert(rows_of(kind, one.drop_last()) =~= Seq::empty());
    assert(rows_of(kind, one) =~= (match row_of(kind, doc) {
        Some(row) => seq![row],
        None => Seq::empty(),
    }));
}

/// A document with a name and a URI is shown under that name and leads to that
/// URI: a song as a track, an artist, an album or a playlist as something to be
/// opened. It is no label and no play row.
pub proof fn law_a_row_is_named_by_its_document(
    v: json::JsonView,
    name: Seq<char>,
    uri: Seq<char>,
    kind: RowKind,
)
    requires
        v.text_field("name"@) == Some(name),
        v.text_field("uri"@) == Some(uri),
        kind is Track || kind is Artist || kind is Album || kind is Playlist,
    ensures
        row_of(kind, v) is Some,
        ({
            let row = row_of(kind, v)->0;
            &&& row.name == name
            &&& row.uri == uri
            &&& row.is_track == (kind is Track)
            &&& !row.is_header
            &&& !row.is_play
        }),
{
}

/// A document without a name or without a URI is no row.
pub proof fn law_a_nameless_document_is_no_row(v: json::JsonView, kind: RowKind)
    requires
        v.text_field("name"@) is None || v.text_field("uri"@) is None,
        kind is Track || kind is Artist || kind is Album || kind is Playlist,
    ensures
        row_of(kind, v) is None,
{
}

/// Below a song or an album stands its first artist, below an artist nothing.
pub proof fn law_the_first_artist_stands_below(
    v: json::JsonView,
    artists: Seq<json::JsonView>,
    artist: Seq<char>,
    row: Row,
)
    requires
        v.list_field("artists"@) == Some(artists),
        artists.len() > 0,
        artists[0].text_field("name"@) == Some(artist),
    ensures
        row_of(RowKind::Track, v) == Some(row) ==> row.subtitle == artist,
        row_of(RowKind::Album, v) == Some(row) ==> row.subtitle == artist,
        row_of(RowKind::Artist, v) == Some(row) ==> row.subtitle.len() == 0,
{
}

/// What is saved or was played is shown as the thing itself: the track under
/// `track`, the album under `album`. An entry of a playlist is the track under
/// `item`, or under `track` where there is no such object.
pub proof fn law_a_wrapped_document_is_the_thing_itself(outer: json::JsonView, v: json::JsonView)
    ensures
        outer.field("track"@) == Some(v) ==> row_of(RowKind::PlayedTrack, outer) == row_of(
            RowKind::Track,
            v,
        ),
        outer.field("item"@) == Some(v) && v is Object ==> row_of(RowKind::PlaylistEntry, outer)
            == row_of(RowKind::Track, v),
        (outer.field("item"@) is None || outer.field("item"@) == Some(json::JsonView::Null))
            && outer.field("track"@) == Some(v) ==> row_of(RowKind::PlaylistEntry, outer) == row_of(
            RowKind::Track,
            v,
        ),
        outer.field("album"@) == Some(v) ==> {
            &&& row_of(RowKind::SavedAlbum, outer) is Some <==> row_of(RowKind::Album, v) is Some
            &&& row_of(RowKind::Album, v) matches Some(row) ==> row_of(RowKind::SavedAlbum, outer)
                == Some(Row { subtitle: "album · "@ + row.subtitle, ..row })
        },
{
}

/// Below a playlist stand how many tracks it has, where that is known, and then
/// its owner. The newer name of the count comes before the older one.
pub proof fn law_a_playlist_says_its_count_and_its_owner(
    v: json::JsonView,
    owner: json::JsonView,
    who: Seq<char>,
    row: Row,
)
    requires
        row_of(RowKind::Playlist, v) == Some(row),
        v.field("owner"@) == Some(owner),
        owner.text_field("display_name"@) == Some(who),
        who.len() > 0,
    ensures
        ({
            let newer = match v.field("items"@) {
                Some(items) => items.number_field("total"@),
                None => None,
            };
            let older = match v.field("tracks"@) {
                Some(tracks) => tracks.number_field("total"@),
                None => None,
            };
            &&& newer matches Some(n) ==> row.subtitle == text::decimal(n as nat) + " · "@ + who
            &&& newer is None && older is Some ==> row.subtitle == text::decimal(older->0 as nat)
                + " · "@ + who
            &&& newer is None && older is None ==> row.subtitle == who
        }),
{
}

/// What is looked up in a document is found where it stands, and counts as an
/// empty text where it does not.
pub proof fn law_a_look_up_finds_what_is_there(
    v: json::JsonView,
    inner: json::JsonView,
    list: Seq<json::JsonView>,
    at: Seq<char>,
    key: Seq<char>,
)
    ensures
        v.list_field(at) == Some(list) && list.len() > 0 ==> first_under(v, at) == Some(list[0])
            && first_text(v, at, key) == list[0].text_field(key),
        v.list_field(at) == Some(list) && list.len() == 0 ==> first_under(v, at) is None
            && first_text(v, at, key) is None,
        v.list_field(at) is None ==> first_under(v, at) is None && first_text(v, at, key) is None,
        v.field(at) == Some(inner) ==> inner_text(v, at, key) == inner.text_field(key)
            && inner_number(v, at, key) == inner.number_field(key) && under(v, at) == inner,
        v.field(at) is None ==> inner_text(v, at, key) is None && inner_number(v, at, key) is None
            && under(v, at) is Null,
        or_empty(Some(key)) == key,
        or_empty(None).len() == 0,
        v.list_field("items"@) == Some(list) ==> items_of(v) == list,
        v.list_field("items"@) is None ==> items_of(v).len() == 0,
{
}

/// A playlist's subtitle is its count and its owner, as far as they are known.
pub proof fn law_a_subtitle_is_what_is_known(owner: Seq<char>, n: u64)
    ensures
        subtitle_of(owner, None) == owner,
        owner.len() == 0 ==> subtitle_of(owner, Some(n)) == text::decimal(n as nat),
        owner.len() > 0 ==> subtitle_of(owner, Some(n)) == text::decimal(n as nat) + " · "@ + owner,
{
}

/// How many tracks a playlist has is read under the newer name, or else under the
/// older one.
pub proof fn law_a_count_goes_by_either_name(p: json::JsonView, inner: json::JsonView, n: u64)
    requires
        inner.number_field("total"@) == Some(n),
    ensures
        p.field("items"@) == Some(inner) ==> total_of(p) == Some(n),
        p.field("items"@) is None && p.field("tracks"@) == Some(inner) ==> total_of(p) == Some(n),
        p.field("items"@) is None && p.field("tracks"@) is None ==> total_of(p) is None,
{
}

/// A song or an album without an artist shows none, and a row that may be absent
/// is modelled as it is.
pub proof fn law_without_an_artist_none_is_shown(
    v: json::JsonView,
    row: Row,
    item: Option<LibItem>,
)
    ensures
        v.list_field("artists"@) is None && row_of(RowKind::Track, v) == Some(row)
            ==> row.subtitle.len() == 0,
        v.list_field("artists"@) is None && row_of(RowKind::Album, v) == Some(row)
            ==> row.subtitle.len() == 0,
        item is None <==> row_view(item) is None,
        item matches Some(i) ==> row_view(item) == Some(i@),
{
}

} // verus!
