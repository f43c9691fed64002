//! Resolving one track through the host's session: its URI is read, then the
//! audio item, its key, and where its file is stored are asked for one after
//! another. This is the account's only cost; it never starts playback.

use crate::room::fetch::in_context;
use crate::room::resolver::Track;
use crate::room::resolver::VorbisFormat;
use librespot_core::SpotifyUri;
use vstd::prelude::*;

verus! {

// ------------------------------------------------------------------- the URI

/// The kinds of item that go by an id.
#[derive(Clone, Copy, PartialEq, Eq, Structural, Debug)]
pub enum Kind {
    Album,
    Artist,
    Episode,
    Playlist,
    Show,
    Track,
}

/// What a URI names.
#[derive(Clone, Copy, PartialEq, Eq, Structural, Debug)]
pub enum Item {
    /// An item of Spotify's, by its id.
    Known(Kind, u128),
    /// A file on somebody's disk.
    Local,
    /// Something of another kind.
    Unknown,
}

/// What `SpotifyUri::from_uri` reads in a text, or the words of its error.
pub uninterp spec fn item_named(uri: Seq<char>) -> Result<Item, Seq<char>>;

/// The value of a digit in base 62: the decimal digits, the small letters, the
/// capital letters.
pub open spec fn base62_digit(c: char) -> Option<nat> {
    if '0' <= c <= '9' {
        Some((c as u32 - '0' as u32) as nat)
    } else if 'a' <= c <= 'z' {
        Some((c as u32 - 'a' as u32 + 10) as nat)
    } else if 'A' <= c <= 'Z' {
        Some((c as u32 - 'A' as u32 + 36) as nat)
    } else {
        None
    }
}

/// The number that a text spells in base 62.
pub open spec fn base62_value(s: Seq<char>) -> Option<nat>
    decreases s.len(),
{
    if s.len() == 0 {
        Some(0)
    } else {
        match (base62_value(s.drop_last()), base62_digit(s.last())) {
            (Some(high), Some(low)) => Some(high * 62 + low),
            _ => None,
        }
    }
}

/// The id that a text spells: twenty-two digits in base 62, for a number of 128
/// bits.
pub open spec fn id_spelled(s: Seq<char>) -> Option<u128> {
    match base62_value(s) {
        Some(n) => if s.len() == 22 && n <= u128::MAX {
            Some(n as u128)
        } else {
            None
        },
        None => None,
    }
}

/// The URI of the track that goes by `name`.
pub open spec fn track_uri(name: Seq<char>) -> Seq<char> {
    "spotify:track:"@ + name
}

/// `librespot_core::SpotifyUri::from_uri`.
///
/// What it reads is a function of the text, and so are the words of its error.
/// The user of a playlist, the titles of a local file and the words of an
/// unknown kind are not kept. Of what it reads, this is claimed: a text that
/// does not begin with `spotify:` is refused, and the URI of a track names the
/// track whose id it spells.
#[verifier::external_body]
fn read_uri(uri: &str) -> (out: Result<Item, String>)
    ensures
        match out {
            Ok(item) => item_named(uri@) == Ok::<Item, Seq<char>>(item),
            Err(why) => item_named(uri@) == Err::<Item, Seq<char>>(why@),
        },
        !"spotify:"@.is_prefix_of(uri@) ==> out is Err,
        forall|name: Seq<char>|
            uri@ == #[trigger] track_uri(name) && id_spelled(name) is Some ==> out is Ok
                && out->Ok_0 == Item::Known(Kind::Track, id_spelled(name)->0),
{
    Ok(match SpotifyUri::from_uri(uri).map_err(|e| e.to_string())? {
        SpotifyUri::Album { id } => Item::Known(Kind::Album, id.id),
        SpotifyUri::Artist { id } => Item::Known(Kind::Artist, id.id),
        SpotifyUri::Episode { id } => Item::Known(Kind::Episode, id.id),
        SpotifyUri::Playlist { id, .. } => Item::Known(Kind::Playlist, id.id),
        SpotifyUri::Show { id } => Item::Known(Kind::Show, id.id),
        SpotifyUri::Track { id } => Item::Known(Kind::Track, id.id),
        SpotifyUri::Local { .. } => Item::Local,
        SpotifyUri::Unknown { .. } => Item::Unknown,
    })
}

/// What a resolve asks the session for: the audio item, and then the audio key
/// under the item's id.
#[derive(Clone, Copy, PartialEq, Eq, Structural, Debug)]
pub struct Wanted {
    pub kind: Kind,
    pub id: u128,
}

/// Whether `out` is what a resolve begins with, given what its URI names. Only
/// an item that goes by an id has a key to ask for.
pub open spec fn begins(named: Result<Item, Seq<char>>, out: Result<Wanted, String>) -> bool {
    match named {
        Ok(Item::Known(kind, id)) => out == Ok::<Wanted, String>(Wanted { kind, id }),
        Ok(_) => out is Err && out->Err_0@
            == "Client specified an invalid argument { not a valid Spotify ID }"@,
        Err(why) => out is Err && out->Err_0@ == why,
    }
}

/// The URI has been read, or has not: what is asked for first.
pub fn uri_read(named: Result<Item, String>) -> (out: Result<Wanted, String>)
    ensures
        begins(
            match named {
                Ok(item) => Ok(item),
                Err(why) => Err(why@),
            },
            out,
        ),
{
    match named {
        Ok(Item::Known(kind, id)) => Ok(Wanted { kind, id }),
        Ok(_) => Err("Client specified an invalid argument { not a valid Spotify ID }".to_owned()),
        Err(why) => Err(why),
    }
}

/// Begin to resolve `uri`: what is asked for first, or why it is refused before
/// anything is asked.
pub fn resolve_begins(uri: &str) -> (out: Result<Wanted, String>)
    ensures
        begins(item_named(uri@), out),
        !"spotify:"@.is_prefix_of(uri@) ==> out is Err,
        forall|name: Seq<char>|
            uri@ == #[trigger] track_uri(name) && id_spelled(name) is Some ==> out is Ok
                && out->Ok_0 == (Wanted { kind: Kind::Track, id: id_spelled(name)->0 }),
{
    uri_read(read_uri(uri))
}

// ------------------------------------------------------------- the audio item

/// Which Vorbis files an audio item has.
#[derive(Clone, Copy, PartialEq, Eq, Structural, Debug)]
pub struct Files {
    pub has_320: bool,
    pub has_160: bool,
    pub has_96: bool,
}

impl Files {
    /// The best of them.
    pub open spec fn best_of(self) -> Option<VorbisFormat> {
        if self.has_320 {
            Some(VorbisFormat::OggVorbis320)
        } else if self.has_160 {
            Some(VorbisFormat::OggVorbis160)
        } else if self.has_96 {
            Some(VorbisFormat::OggVorbis96)
        } else {
            None
        }
    }

    /// The best of them.
    pub fn best(self) -> (format: Option<VorbisFormat>)
        ensures
            format == self.best_of(),
    {
        if self.has_320 {
            Some(VorbisFormat::OggVorbis320)
        } else if self.has_160 {
            Some(VorbisFormat::OggVorbis160)
        } else if self.has_96 {
            Some(VorbisFormat::OggVorbis96)
        } else {
            None
        }
    }
}

/// The audio item has come, or has not: the file whose key is asked for next.
pub fn item_came(item: Result<Files, String>) -> (next: Result<VorbisFormat, String>)
    ensures
        match item {
            Ok(files) => match files.best_of() {
                Some(format) => next == Ok::<VorbisFormat, String>(format),
                None => next is Err && next->Err_0@ == "no vorbis file for track"@,
            },
            Err(cause) => next is Err && next->Err_0@ == "get audio item"@ + ": "@ + cause@,
        },
{
    match item {
        Ok(files) => match files.best() {
            Some(format) => Ok(format),
            None => Err("no vorbis file for track".to_owned()),
        },
        Err(cause) => Err(in_context("get audio item", cause.as_str())),
    }
}

// ------------------------------------------------------ the key and the storage

/// The key has come, or has not; with it, the storage of the file is asked for
/// next.
pub fn key_came(reply: Result<[u8; 16], String>) -> (key: Result<[u8; 16], String>)
    ensures
        match reply {
            Ok(k) => key == Ok::<[u8; 16], String>(k),
            Err(cause) => key is Err && key->Err_0@ == "request audio key"@ + ": "@ + cause@,
        },
{
    match reply {
        Ok(key) => Ok(key),
        Err(cause) => Err(in_context("request audio key", cause.as_str())),
    }
}

/// What is said of where a file is stored.
#[derive(Debug)]
pub enum Storage {
    /// The signed urls it can be had from.
    Urls(Vec<String>),
    /// It could not be resolved.
    Unresolved(String),
    /// It was resolved to nothing that can be used.
    Unusable(String),
}

/// Where the file is stored has come, or has not: the end of the resolve.
pub fn storage_came(format: VorbisFormat, key: [u8; 16], storage: Storage, now: u64) -> (track:
    Result<Track, String>)
    ensures
        match storage {
            Storage::Urls(urls) => track == Ok::<Track, String>(
                Track { key, format, urls, resolved_at: now },
            ),
            Storage::Unresolved(cause) => track is Err && track->Err_0@ == "resolve CDN storage"@
                + ": "@ + cause@,
            Storage::Unusable(cause) => track is Err && track->Err_0 == cause,
        },
{
    match storage {
        Storage::Urls(urls) => Ok(Track { key, format, urls, resolved_at: now }),
        Storage::Unresolved(cause) => Err(in_context("resolve CDN storage", cause.as_str())),
        Storage::Unusable(cause) => Err(cause),
    }
}

// ----------------------------------------------------------------------- laws

/// The file that is taken is one that there is, and none that there is is better.
pub proof fn law_the_best_file_is_taken(files: Files)
    ensures
        files.best_of() is None <==> !files.has_320 && !files.has_160 && !files.has_96,
        files.best_of() == Some(VorbisFormat::OggVorbis320) <==> files.has_320,
        files.best_of() == Some(VorbisFormat::OggVorbis160) <==> files.has_160 && !files.has_320,
        files.best_of() == Some(VorbisFormat::OggVorbis96) <==> files.has_96 && !files.has_160
            && !files.has_320,
{
}

/// A resolve begins by asking for the very item that its URI names; what goes by
/// no id, or names nothing, is refused with the reason.
pub proof fn law_a_resolve_asks_for_what_was_named(
    kind: Kind,
    id: u128,
    why: Seq<char>,
    out: Result<Wanted, String>,
)
    ensures
        begins(Ok(Item::Known(kind, id)), out) ==> {
            &&& out is Ok
            &&& out->Ok_0.kind == kind
            &&& out->Ok_0.id == id
        },
        begins(Ok(Item::Local), out) || begins(Ok(Item::Unknown), out) ==> {
            &&& out is Err
            &&& out->Err_0@ == "Client specified an invalid argument { not a valid Spotify ID }"@
        },
        begins(Err(why), out) ==> out is Err && out->Err_0@ == why,
{
}

/// The digits of base 62 are the decimal digits, then the small letters, then the
/// capital ones; a number is read digit by digit, and an id has twenty-two.
pub proof fn law_an_id_is_read_digit_by_digit(s: Seq<char>, c: char, k: u32)
    ensures
        k < 10 ==> base62_digit(('0' as u32 + k) as char) == Some(k as nat),
        k < 26 ==> base62_digit(('a' as u32 + k) as char) == Some((10 + k) as nat),
        k < 26 ==> base62_digit(('A' as u32 + k) as char) == Some((36 + k) as nat),
        base62_value(s) is Some && base62_digit(c) is Some ==> base62_value(s.push(c)) == Some(
            base62_value(s)->0 * 62 + base62_digit(c)->0,
        ),
        base62_value(Seq::empty()) == Some(0nat),
        s.len() != 22 ==> id_spelled(s) is None,
        s.len() == 22 && base62_value(s) is Some && base62_value(s)->0 <= u128::MAX ==> id_spelled(s)
            == Some(base62_value(s)->0 as u128),
        id_spelled(s) is Some ==> base62_value(s) == Some(id_spelled(s)->0 as nat),
        track_uri(s) == "spotify:track:"@ + s,
{
    assert(s.push(c).drop_last() =~= s);
}

} // verus!
