//! Search results, the live queue, and one track's metadata.

use crate::api::rows;
use crate::api::rows::RowKind;
use crate::app::event::track_uri;
use crate::app::event::TrackMeta;
use crate::json;
use crate::json::Json;
use crate::library;
use crate::library::LibItem;
use crate::library::Row;
use crate::text;
use crate::util;
use vstd::prelude::*;

verus! {

// --------------------------------------------------------------------- search

/// Where a search is sent.
pub fn search_url(api: &str, query: &str) -> (url: String)
    ensures
        url@ == api@ + "/search?q="@ + util::percent_encoded(vstd::utf8::encode_utf8(query@))
            + "&type=track,artist,album,playlist&limit=6"@,
{
    let encoded = util::urlencode(query);
    let head = text::join3(api, "/search?q=", encoded.as_str());
    text::join2(head.as_str(), "&type=track,artist,album,playlist&limit=6")
}

/// Rows under a label; nothing where there are none.
pub open spec fn group(title: Seq<char>, list: Seq<Row>) -> Seq<Row> {
    if list.len() == 0 {
        Seq::empty()
    } else {
        seq![library::header_row(title)] + list
    }
}

/// What a search found, in its groups: songs, artists, albums, playlists.
pub open spec fn found(doc: json::JsonView) -> Seq<Row> {
    group("Songs"@, rows::rows_of(RowKind::Track, rows::items_of(rows::under(doc, "tracks"@))))
        + group(
        "Artists"@,
        rows::rows_of(RowKind::Artist, rows::items_of(rows::under(doc, "artists"@))),
    ) + group(
        "Albums"@,
        rows::rows_of(RowKind::Album, rows::items_of(rows::under(doc, "albums"@))),
    ) + group(
        "Playlists"@,
        rows::rows_of(RowKind::Playlist, rows::items_of(rows::under(doc, "playlists"@))),
    )
}

/// Append one group of what a search found.
fn append_group(doc: &Json, key: &str, title: &str, kind: RowKind, out: &mut Vec<LibItem>)
    ensures
        library::rows(final(out)@) == library::rows(old(out)@) + group(
            title@,
            rows::rows_of(kind, rows::items_of(rows::under(doc@, key@))),
        ),
{
    let mut list: Vec<LibItem> = Vec::new();
    let nothing = Json::Null;
    let inner: &Json = match doc.get(key) {
        Some(inner) => inner,
        None => &nothing,
    };
    rows::append_rows(kind, inner, &mut list);
    let ghost want = rows::rows_of(kind, rows::items_of(rows::under(doc@, key@)));
    assert(library::rows(list@) =~= want);
    if list.len() == 0 {
        assert(want.len() == 0);
        assert(library::rows(out@) =~= library::rows(out@) + group(title@, want));
        return;
    }
    let ghost before = library::rows(out@);
    out.push(LibItem::header(title));
    assert(library::rows(out@) =~= before.push(library::header_row(title@)));
    out.append(&mut list);
    assert(library::rows(out@) =~= before + group(title@, want));
}

/// What a search found; nothing where no answer came.
pub fn search_rows(doc: Option<&Json>) -> (out: Vec<LibItem>)
    ensures
        library::rows(out@) == (match doc {
            Some(doc) => found(doc@),
            None => Seq::empty(),
        }),
{
    let mut out: Vec<LibItem> = Vec::new();
    assert(library::rows(out@) =~= Seq::<Row>::empty());
    if let Some(doc) = doc {
        append_group(doc, "tracks", "Songs", RowKind::Track, &mut out);
        append_group(doc, "artists", "Artists", RowKind::Artist, &mut out);
        append_group(doc, "albums", "Albums", RowKind::Album, &mut out);
        append_group(doc, "playlists", "Playlists", RowKind::Playlist, &mut out);
        assert(library::rows(out@) =~= found(doc@));
    }
    out
}

// ---------------------------------------------------------------------- queue

/// Where the queue is read.
pub fn queue_url(api: &str) -> (url: String)
    ensures
        url@ == api@ + "/me/player/queue"@,
{
    text::join2(api, "/me/player/queue")
}

/// A queued item: how it reads, and its URI.
pub open spec fn queued(it: json::JsonView) -> Option<(Seq<char>, Seq<char>)> {
    match (it.text_field("name"@), it.text_field("uri"@)) {
        (Some(name), Some(uri)) => Some(
            (name + " — "@ + rows::or_empty(rows::first_text(it, "artists"@, "name"@)), uri),
        ),
        _ => None,
    }
}

/// The queued items among documents.
pub open spec fn queue_of(items: Seq<json::JsonView>) -> Seq<(Seq<char>, Seq<char>)>
    decreases items.len(),
{
    if items.len() == 0 {
        Seq::empty()
    } else {
        match queued(items.last()) {
            Some(entry) => queue_of(items.drop_last()).push(entry),
            None => queue_of(items.drop_last()),
        }
    }
}

/// The models of queued items.
pub open spec fn pairs(list: Seq<(String, String)>) -> Seq<(Seq<char>, Seq<char>)> {
    list.map_values(|p: (String, String)| (p.0@, p.1@))
}

/// (display, uri) for each queued item.
pub fn queue_rows(doc: Option<&Json>) -> (out: Vec<(String, String)>)
    ensures
        pairs(out@) == (match doc {
            Some(doc) => match doc@.list_field("queue"@) {
                Some(items) => queue_of(items),
                None => Seq::empty(),
            },
            None => Seq::empty(),
        }),
{
    let mut out: Vec<(String, String)> = Vec::new();
    assert(pairs(out@) =~= Seq::<(Seq<char>, Seq<char>)>::empty());
    let doc = match doc {
        Some(doc) => doc,
        None => {
            return out;
        },
    };
    let items = match doc.list_field("queue") {
        Some(items) => items,
        None => {
            return out;
        },
    };
    let ghost all = json::list_view(items@);
    let mut i: usize = 0;
    assert(all.take(0) =~= Seq::<json::JsonView>::empty());
    while i < items.len()
        invariant
            i <= items@.len(),
            all.len() == items@.len(),
            forall|j: int| 0 <= j < items@.len() ==> #[trigger] all[j] == items@[j]@,
            pairs(out@) == queue_of(all.take(i as int)),
        decreases items@.len() - i,
    {
        let ghost had = out@;
        assert(all.take(i + 1).drop_last() =~= all.take(i as int));
        assert(all.take(i + 1).last() == items@[i as int]@);
        let it = &items[i];
        match (it.text_field("name"), it.text_field("uri")) {
            (Some(name), Some(uri)) => {
                let artist = rows::text_or_empty(rows::text_in_first(it, "artists", "name"));
                let shown = text::join3(name.as_str(), " — ", artist.as_str());
                out.push((shown, uri.clone()));
                assert(pairs(out@) =~= pairs(had).push((shown@, uri@)));
            },
            _ => {},
        }
        i += 1;
    }
    assert(all.take(items@.len() as int) =~= all);
    out
}

// ------------------------------------------------------------------- metadata

/// Where a track's metadata is read.
pub fn track_url(api: &str, id: &str) -> (url: String)
    ensures
        url@ == api@ + "/tracks/"@ + id@,
{
    text::join3(api, "/tracks/", id)
}

/// What the API says of a track, and where its cover stands.
pub struct TrackAnswer {
    pub meta: TrackMeta,
    pub cover_url: Option<String>,
}

/// Where the cover stands: the first of the album's images.
pub open spec fn cover_of(doc: json::JsonView) -> Option<Seq<char>> {
    match doc.field("album"@) {
        Some(album) => rows::first_text(album, "images"@, "url"@),
        None => None,
    }
}

/// What the API says of a track. Without an answer the track is nameless, but
/// still the one that was asked for.
pub fn track_answer(id: &str, doc: Option<&Json>) -> (out: TrackAnswer)
    ensures
        out.meta.uri@ == track_uri(id@),
        match doc {
            Some(doc) => {
                &&& out.meta.title@ == rows::or_empty(doc@.text_field("name"@))
                &&& out.meta.artist@ == rows::or_empty(
                    rows::first_text(doc@, "artists"@, "name"@),
                )
                &&& out.meta.album@ == rows::or_empty(rows::inner_text(doc@, "album"@, "name"@))
                &&& out.meta.duration_ms == (match doc@.number_field("duration_ms"@) {
                    Some(ms) => ms % 0x1_0000_0000,
                    None => 0,
                })
                &&& match out.cover_url {
                    Some(url) => cover_of(doc@) == Some(url@),
                    None => cover_of(doc@) is None,
                }
            },
            None => {
                &&& out.meta.title@.len() == 0
                &&& out.meta.artist@.len() == 0
                &&& out.meta.album@.len() == 0
                &&& out.meta.duration_ms == 0
                &&& out.cover_url is None
            },
        },
{
    let uri = text::join2("spotify:track:", id);
    match doc {
        Some(doc) => {
            let ms: u64 = doc.number_field("duration_ms").unwrap_or(0);
            let cover_url = match doc.get("album") {
                Some(album) => match rows::text_in_first(album, "images", "url") {
                    Some(url) => Some(url.clone()),
                    None => None,
                },
                None => None,
            };
            TrackAnswer {
                meta: TrackMeta {
                    uri,
                    title: rows::text_or_empty(doc.text_field("name")),
                    artist: rows::text_or_empty(rows::text_in_first(doc, "artists", "name")),
                    album: rows::text_or_empty(rows::text_in(doc, "album", "name")),
                    duration_ms: (ms % 0x1_0000_0000) as u32,
                },
                cover_url,
            }
        },
        None => TrackAnswer {
            meta: TrackMeta {
                uri,
                title: String::new(),
                artist: String::new(),
                album: String::new(),
                duration_ms: 0,
            },
            cover_url: None,
        },
    }
}

// ----------------------------------------------------------------------- laws

/// The four groups of a search: where the answer lists what was found, the label
/// above it, and what is listed there.
pub open spec fn shelf(i: int) -> (Seq<char>, Seq<char>, RowKind) {
    if i == 0 {
        ("tracks"@, "Songs"@, RowKind::Track)
    } else if i == 1 {
        ("artists"@, "Artists"@, RowKind::Artist)
    } else if i == 2 {
        ("albums"@, "Albums"@, RowKind::Album)
    } else {
        ("playlists"@, "Playlists"@, RowKind::Playlist)
    }
}

/// What an answer lists under `key`.
pub open spec fn listed(doc: json::JsonView, key: Seq<char>) -> Seq<json::JsonView> {
    match doc.field(key) {
        Some(inner) => match inner.field("items"@) {
            Some(json::JsonView::List(items)) => items,
            _ => Seq::empty(),
        },
        None => Seq::empty(),
    }
}

/// Whether `run` stands in `list` as it is, from `at` on.
pub open spec fn stands_at(run: Seq<Row>, list: Seq<Row>, at: int) -> bool {
    &&& 0 <= at
    &&& at + run.len() <= list.len()
    &&& list.subrange(at, at + run.len()) == run
}

/// How many rows a group takes: its own, and one for its label where it has any.
pub open spec fn rows_in_group(n: nat) -> nat {
    if n == 0 {
        0
    } else {
        n + 1
    }
}

/// The rows that were found for a group.
pub open spec fn found_for(doc: json::JsonView, i: int) -> Seq<Row> {
    rows::rows_of(shelf(i).2, listed(doc, shelf(i).0))
}

/// How many rows the groups before the `i`-th take.
pub open spec fn rows_above(doc: json::JsonView, i: int) -> nat
    decreases i,
{
    if i <= 0 {
        0
    } else {
        rows_above(doc, i - 1) + rows_in_group(found_for(doc, i - 1).len())
    }
}

/// Nothing that was found is left out, and nothing else is shown: songs, artists,
/// albums and playlists follow one another, each of them whole and in its order
/// right behind its own label, and together they are all there is.
pub proof fn law_nothing_found_is_left_out(doc: json::JsonView, i: int)
    requires
        0 <= i < 4,
    ensures
        found_for(doc, i).len() > 0 ==> stands_at(
            seq![library::header_row(shelf(i).1)] + found_for(doc, i),
            found(doc),
            rows_above(doc, i) as int,
        ),
        found(doc).len() == rows_above(doc, 4),
{
    reveal_with_fuel(rows_above, 5);
    let a = group("Songs"@, found_for(doc, 0));
    let b = group("Artists"@, found_for(doc, 1));
    let c = group("Albums"@, found_for(doc, 2));
    let d = group("Playlists"@, found_for(doc, 3));
    let all = found(doc);
    assert(all == a + b + c + d);
    let ab = (a.len() + b.len()) as int;
    assert(all.subrange(0, a.len() as int) =~= a);
    assert(all.subrange(a.len() as int, ab) =~= b);
    assert(all.subrange(ab, ab + c.len()) =~= c);
    assert(all.subrange(ab + c.len(), ab + c.len() + d.len()) =~= d);
    assert(stands_at(group(shelf(i).1, found_for(doc, i)), all, rows_above(doc, i) as int));
}

/// Every single row that was found is among those shown.
pub proof fn law_every_found_row_is_shown(doc: json::JsonView, i: int, k: int)
    requires
        0 <= i < 4,
        0 <= k < listed(doc, shelf(i).0).len(),
        rows::row_of(shelf(i).2, listed(doc, shelf(i).0)[k]) is Some,
    ensures
        found(doc).contains(rows::row_of(shelf(i).2, listed(doc, shelf(i).0)[k])->0),
{
    let (key, title, kind) = shelf(i);
    let items = listed(doc, key);
    let row = rows::row_of(kind, items[k])->0;
    assert(items =~= items.take(k) + seq![items[k]] + items.skip(k + 1));
    rows::law_no_document_is_left_out(kind, items.take(k), items[k], items.skip(k + 1));
    let list = rows::rows_of(kind, items);
    let at = rows::rows_of(kind, items.take(k)).len() as int;
    assert(list[at] == row);
    law_nothing_found_is_left_out(doc, i);
    let run = seq![library::header_row(title)] + list;
    let start = rows_above(doc, i) as int;
    assert(run[1 + at] == row);
    assert(found(doc).subrange(start, start + run.len())[1 + at] == found(doc)[start + 1 + at]);
}

/// A queued item is shown as its name and its first artist, and is played by its
/// URI; one without a name or a URI is left out, and the order of the queue is
/// kept.
pub proof fn law_the_queue_is_shown_in_order(
    before: Seq<json::JsonView>,
    it: json::JsonView,
    after: Seq<json::JsonView>,
)
    ensures
        queue_of(before + seq![it] + after) == queue_of(before) + (match (
            it.text_field("name"@),
            it.text_field("uri"@),
        ) {
            (Some(name), Some(uri)) => seq![
                (
                    name + " — "@ + (match it.list_field("artists"@) {
                        Some(artists) => if artists.len() > 0 && artists[0].text_field("name"@)
                            is Some {
                            artists[0].text_field("name"@)->0
                        } else {
                            Seq::empty()
                        },
                        None => Seq::empty(),
                    }),
                    uri,
                ),
            ],
            _ => Seq::empty(),
        }) + queue_of(after),
        queue_of(Seq::empty()).len() == 0,
{
    lemma_queue_join(before + seq![it], after);
    lemma_queue_join(before, seq![it]);
    let one = seq![it];
    assert(one.drop_last() =~= Seq::empty());
    assert(queue_of(one.drop_last()) =~= Seq::empty());
    assert(queue_of(one) =~= (match queued(it) {
        Some(entry) => seq![entry],
        None => Seq::empty(),
    }));
}

proof fn lemma_queue_join(a: Seq<json::JsonView>, b: Seq<json::JsonView>)
    ensures
        queue_of(a + b) == queue_of(a) + queue_of(b),
    decreases b.len(),
{
    if b.len() == 0 {
        assert(a + b =~= a);
        assert(queue_of(a) + queue_of(b) =~= queue_of(a));
    } else {
        lemma_queue_join(a, b.drop_last());
        assert((a + b).drop_last() =~= a + b.drop_last());
        assert((a + b).last() == b.last());
        assert(queue_of(a + b) =~= queue_of(a) + queue_of(b));
    }
}

/// The cover of a track is the first image of its album.
pub proof fn law_the_cover_is_the_first_image(
    doc: json::JsonView,
    album: json::JsonView,
    images: Seq<json::JsonView>,
)
    requires
        doc.field("album"@) == Some(album),
        album.list_field("images"@) == Some(images),
    ensures
        images.len() > 0 ==> cover_of(doc) == images[0].text_field("url"@),
        images.len() == 0 ==> cover_of(doc) is None,
{
}

/// Queued items are modelled one by one.
pub proof fn law_queued_items_are_modelled_one_by_one(list: Seq<(String, String)>, i: int)
    requires
        0 <= i < list.len(),
    ensures
        pairs(list).len() == list.len(),
        pairs(list)[i].0 == list[i].0@,
        pairs(list)[i].1 == list[i].1@,
{
}

} // verus!
