//! From a resolved track to playable Ogg bytes: the audio key, the CDN urls,
//! decryption, and the packet that Spotify puts in front of the stream.

use crate::hex;
use crate::json;
use crate::room::client;
use crate::room::client::ResolvedTrack;
use crate::room::host;
use crate::room::ogg;
use crate::room::resolver::Track;
use crate::text;
use librespot_audio::AudioDecrypt;
use librespot_core::audio_key::AudioKey;
use std::io::Cursor;
use std::io::Read;
use vstd::prelude::*;
use vstd::slice::slice_subrange;
use vstd::slice::slice_to_vec;

verus! {

/// Spotify prepends a ~0xa7-byte Ogg packet (normalisation data); the stream
/// proper starts at the next OggS page.
pub const OGG_HEADER_END: usize = 0xa7;

/// What `AudioDecrypt` makes of a whole file under a key.
pub uninterp spec fn audio_decrypted(key: Seq<u8>, data: Seq<u8>) -> Seq<u8>;

/// Whether `bytes` is the one text that the cipher turns into `data`.
pub open spec fn is_plain_text_of(bytes: Seq<u8>, key: Seq<u8>, data: Seq<u8>) -> bool {
    forall|plain: Seq<u8>| #[trigger] audio_decrypted(key, plain) == data ==> plain == bytes
}

/// `librespot_audio::AudioDecrypt` read to its end: AES-128 in counter mode
/// under `key` and Spotify's fixed initial vector, from the first byte on.
///
/// The bytes are a function of the key and the data, one for each byte of the
/// data. Counter mode combines the data with a key stream that does not depend
/// on it, so the same operation encrypts: what it turned into `data` is given
/// back. `AudioDecrypt` fails only where the reader under it does, and here that
/// is a cursor over bytes in memory, which has no failure to pass on.
#[verifier::external_body]
fn decrypt(key: [u8; 16], data: Vec<u8>) -> (out: Result<Vec<u8>, String>)
    ensures
        out is Ok,
        out matches Ok(bytes) ==> bytes@ == audio_decrypted(key@, data@) && bytes@.len()
            == data@.len() && is_plain_text_of(bytes@, key@, data@),
{
    let mut bytes = Vec::with_capacity(data.len());
    match AudioDecrypt::new(Some(AudioKey(key)), Cursor::new(data)).read_to_end(&mut bytes) {
        Ok(_) => Ok(bytes),
        Err(e) => Err(e.to_string()),
    }
}

/// The message for a key of the wrong shape.
pub open spec fn bad_key_message(hex: Seq<char>) -> Seq<char> {
    "expected 32 hex characters, got "@ + text::decimal(vstd::utf8::encode_utf8(hex).len())
}

/// Parse the host's 32-char hex audio key.
pub fn decode_key(hex: &str) -> (out: Result<[u8; 16], String>)
    ensures
        match out {
            Ok(key) => {
                &&& hex::spells_bytes(vstd::utf8::encode_utf8(hex@), 16)
                &&& key@ == hex::bytes_spelled(vstd::utf8::encode_utf8(hex@))
            },
            Err(message) => {
                &&& !hex::spells_bytes(vstd::utf8::encode_utf8(hex@), 16)
                &&& message@ == bad_key_message(hex@)
            },
        },
{
    let digits = hex.as_bytes();
    if digits.len() != 32 || !hex::all_hex_digits(digits) {
        let count = text::decimal_text(digits.len() as u64);
        return Err(text::join2("expected 32 hex characters, got ", count.as_str()));
    }
    let mut key = [0u8;16];
    let mut i: usize = 0;
    while i < 16
        invariant
            i <= 16,
            digits@.len() == 32,
            forall|j: int| 0 <= j < 32 ==> hex::is_hex_digit(#[trigger] digits@[j]),
            forall|j: int| 0 <= j < i ==> #[trigger] key@[j] == hex::bytes_spelled(digits@)[j],
        decreases 16 - i,
    {
        let high = hex::digit_value(digits[2 * i]);
        let low = hex::digit_value(digits[2 * i + 1]);
        key[i] = high * 16 + low;
        i += 1;
    }
    assert(key@ =~= hex::bytes_spelled(digits@));
    Ok(key)
}

// ---------------------------------------------------------- the leading packet

/// The first place from `at` on where an Ogg page is captured.
pub open spec fn captured_from(data: Seq<u8>, at: int) -> Option<int>
    decreases data.len() - at,
{
    if at < 0 || at + 4 > data.len() {
        None
    } else if ogg::capture_at(data, at) {
        Some(at)
    } else {
        captured_from(data, at + 1)
    }
}

/// Where the Ogg stream proper begins in a decrypted file: right behind
/// Spotify's own packet, or else at the first page there is.
pub open spec fn ogg_start(data: Seq<u8>) -> Option<int> {
    if OGG_HEADER_END + 4 <= data.len() && ogg::capture_at(data, OGG_HEADER_END as int) {
        Some(OGG_HEADER_END as int)
    } else {
        captured_from(data, 0)
    }
}

/// Whether the four bytes at `at` are the Ogg capture pattern.
fn captures(data: &[u8], at: usize) -> (yes: bool)
    requires
        at + 4 <= data@.len(),
    ensures
        yes == ogg::capture_at(data@, at as int),
{
    data[at] == 0x4f && data[at + 1] == 0x67 && data[at + 2] == 0x67 && data[at + 3] == 0x53
}

/// Strip what stands before the Ogg stream. An error means there is no stream:
/// most likely the key was wrong.
pub fn strip_leading_packet(decrypted: &[u8]) -> (out: Result<Vec<u8>, String>)
    ensures
        match out {
            Ok(stream) => {
                &&& ogg_start(decrypted@) is Some
                &&& stream@ == decrypted@.skip(ogg_start(decrypted@)->0)
            },
            Err(message) => {
                &&& ogg_start(decrypted@) is None
                &&& message@ == "decrypted audio contains no Ogg stream — wrong key?"@
            },
        },
{
    let size = decrypted.len();
    if size > OGG_HEADER_END && size - OGG_HEADER_END >= 4 && captures(decrypted, OGG_HEADER_END) {
        let rest = slice_subrange(decrypted, OGG_HEADER_END, size);
        assert(rest@ =~= decrypted@.skip(OGG_HEADER_END as int));
        return Ok(slice_to_vec(rest));
    }
    let mut at: usize = 0;
    while at < size && size - at >= 4
        invariant
            at <= size,
            size == decrypted@.len(),
            captured_from(decrypted@, at as int) == captured_from(decrypted@, 0),
            ogg_start(decrypted@) == captured_from(decrypted@, 0),
        decreases size - at,
    {
        if captures(decrypted, at) {
            let rest = slice_subrange(decrypted, at, size);
            assert(rest@ =~= decrypted@.skip(at as int));
            return Ok(slice_to_vec(rest));
        }
        at += 1;
    }
    Err("decrypted audio contains no Ogg stream — wrong key?".to_owned())
}

/// What stripping gives begins with an Ogg page.
pub proof fn law_a_stripped_stream_begins_with_a_page(decrypted: Seq<u8>)
    requires
        ogg_start(decrypted) is Some,
    ensures
        ogg::capture_at(decrypted.skip(ogg_start(decrypted)->0), 0),
{
    if !(OGG_HEADER_END + 4 <= decrypted.len() && ogg::capture_at(
        decrypted,
        OGG_HEADER_END as int,
    )) {
        lemma_captured(decrypted, 0);
    }
}

proof fn lemma_captured(data: Seq<u8>, at: int)
    requires
        captured_from(data, at) is Some,
    ensures
        at <= captured_from(data, at)->0 <= data.len() - 4,
        ogg::capture_at(data, captured_from(data, at)->0),
    decreases data.len() - at,
{
    if !ogg::capture_at(data, at) {
        lemma_captured(data, at + 1);
    }
}

proof fn lemma_captured_first(data: Seq<u8>, at: int)
    requires
        at >= 0,
    ensures
        captured_from(data, at) is None ==> forall|i: int|
            at <= i <= data.len() - 4 ==> !#[trigger] ogg::capture_at(data, i),
        captured_from(data, at) is Some ==> forall|i: int|
            at <= i < captured_from(data, at)->0 ==> !#[trigger] ogg::capture_at(data, i),
    decreases data.len() - at,
{
    if at + 4 <= data.len() && !ogg::capture_at(data, at) {
        lemma_captured_first(data, at + 1);
    }
}

/// A file holds no stream exactly when there is no page anywhere in it. A stream
/// that does not stand behind Spotify's packet begins at the first page.
pub proof fn law_a_stream_is_found_wherever_there_is_a_page(data: Seq<u8>)
    ensures
        ogg_start(data) is None <==> forall|i: int|
            0 <= i <= data.len() - 4 ==> !#[trigger] ogg::capture_at(data, i),
        ogg_start(data) is Some && ogg_start(data)->0 != OGG_HEADER_END ==> forall|i: int|
            0 <= i < ogg_start(data)->0 ==> !#[trigger] ogg::capture_at(data, i),
{
    lemma_captured_first(data, 0);
    if captured_from(data, 0) is Some {
        lemma_captured(data, 0);
    }
}

/// A stream that stands right behind Spotify's packet is given back byte for
/// byte.
pub proof fn law_a_stream_behind_its_packet_is_given_back(packet: Seq<u8>, stream: Seq<u8>)
    requires
        packet.len() == OGG_HEADER_END,
        ogg::capture_at(stream, 0),
    ensures
        ogg_start(packet + stream) == Some(OGG_HEADER_END as int),
        (packet + stream).skip(OGG_HEADER_END as int) == stream,
{
    assert((packet + stream).skip(OGG_HEADER_END as int) =~= stream);
}

/// A file as the CDN has it: Spotify's packet, then the Ogg stream, all of it
/// encrypted under `key`.
pub open spec fn packed(key: Seq<u8>, packet: Seq<u8>, stream: Seq<u8>) -> Seq<u8> {
    audio_decrypted(key, packet + stream)
}

/// A context in front of an error's own words.
pub fn in_context(context: &str, cause: &str) -> (message: String)
    ensures
        message@ == context@ + ": "@ + cause@,
{
    text::join3(context, ": ", cause)
}

/// Whether `out` is what a downloaded file is unpacked to: the Ogg stream in its
/// decrypted bytes, or an error exactly where they hold none. A file as the CDN
/// has it unpacks to the original stream, byte for byte.
pub open spec fn unpacks(key: Seq<u8>, encrypted: Seq<u8>, out: Result<Vec<u8>, String>) -> bool {
    let plain = audio_decrypted(key, encrypted);
    &&& match out {
        Ok(stream) => {
            &&& ogg_start(plain) is Some
            &&& stream@ == plain.skip(ogg_start(plain)->0)
        },
        Err(message) => {
            &&& ogg_start(plain) is None
            &&& message@ == "decrypted audio contains no Ogg stream — wrong key?"@
        },
    }
    &&& forall|packet: Seq<u8>, original: Seq<u8>|
        #[trigger] packed(key, packet, original) == encrypted && packet.len() == OGG_HEADER_END
            && ogg::capture_at(original, 0) ==> out is Ok && out->Ok_0@ == original
}

/// Decrypt a downloaded file and strip Spotify's proprietary leading packet.
pub fn unpack(key: [u8; 16], encrypted: Vec<u8>) -> (out: Result<Vec<u8>, String>)
    ensures
        unpacks(key@, encrypted@, out),
{
    match decrypt(key, encrypted) {
        Ok(plain) => {
            assert forall|packet: Seq<u8>, original: Seq<u8>|
                #[trigger] packed(key@, packet, original) == encrypted@ && packet.len()
                    == OGG_HEADER_END && ogg::capture_at(original, 0) implies ogg_start(plain@)
                == Some(OGG_HEADER_END as int) && plain@.skip(OGG_HEADER_END as int)
                == original by {
                law_a_stream_behind_its_packet_is_given_back(packet, original);
            }
            strip_leading_packet(plain.as_slice())
        },
        Err(cause) => Err(in_context("decrypt", cause.as_str())),
    }
}

// -------------------------------------------------------------------- the CDN

/// Whether a CDN reply with this status carries the file.
pub fn carries_the_file(status: u16) -> (yes: bool)
    ensures
        yes == (status == 200 || status == 206),
{
    status == 200 || status == 206
}

/// Why a reply with any other status counts as a failure.
pub fn status_failure(status: u16) -> (why: String)
    ensures
        why@ == "HTTP "@ + text::decimal(status as nat),
{
    let code = text::decimal_text(status as u64);
    text::join2("HTTP ", code.as_str())
}

/// What came of asking one of a track's urls for the file.
#[derive(Debug)]
pub enum CdnReply {
    /// It could not be asked, or its answer broke off: why.
    Broken(String),
    /// It answered with this status, and without the file.
    Status(u16),
    /// It sent the file.
    File(Vec<u8>),
}

impl CdnReply {
    /// Why there is no file.
    pub open spec fn failure(self) -> Option<Seq<char>> {
        match self {
            CdnReply::Broken(why) => Some(why@),
            CdnReply::Status(status) => Some("HTTP "@ + text::decimal(status as nat)),
            CdnReply::File(_) => None,
        }
    }
}

/// The download of a resolved track: its urls are tried in turn until one of
/// them sends the file.
pub struct TrackFetch {
    key: [u8; 16],
    urls: Vec<String>,
    tried: usize,
    last_err: Option<String>,
}

impl TrackFetch {
    /// The key that the file is encrypted under.
    pub closed spec fn key(self) -> Seq<u8> {
        self.key@
    }

    /// Where the file can be had.
    pub closed spec fn urls(self) -> Seq<Seq<char>> {
        json::texts(self.urls@)
    }

    /// How many of the urls have been tried, and have failed.
    pub closed spec fn tried(self) -> nat {
        self.tried as nat
    }

    /// Why the last one failed.
    pub closed spec fn last_error(self) -> Seq<char> {
        match self.last_err {
            Some(why) => why@,
            None => "no urls"@,
        }
    }

    /// The url to ask next.
    pub open spec fn wanted(self) -> Option<Seq<char>> {
        if self.tried() < self.urls().len() {
            Some(self.urls()[self.tried() as int])
        } else {
            None
        }
    }

    /// A track has been resolved, or has not been. Its key is read before
    /// anything is downloaded.
    pub fn begin(resolved: Result<ResolvedTrack, String>) -> (out: Result<TrackFetch, String>)
        ensures
            match resolved {
                Ok(track) => match out {
                    Ok(fetch) => {
                        let digits = vstd::utf8::encode_utf8(track.key_hex@);
                        &&& hex::spells_bytes(digits, 16)
                        &&& fetch.key() == hex::bytes_spelled(digits)
                        &&& fetch.urls() == json::texts(track.urls@)
                        &&& fetch.tried() == 0
                        &&& fetch.last_error() == "no urls"@
                    },
                    Err(message) => {
                        &&& !hex::spells_bytes(vstd::utf8::encode_utf8(track.key_hex@), 16)
                        &&& message@ == bad_key_message(track.key_hex@)
                    },
                },
                Err(cause) => out is Err && out->Err_0@ == "resolve"@ + ": "@ + cause@,
            },
    {
        match resolved {
            Ok(track) => match decode_key(track.key_hex.as_str()) {
                Ok(key) => Ok(TrackFetch { key, urls: track.urls, tried: 0, last_err: None }),
                Err(message) => Err(message),
            },
            Err(cause) => Err(in_context("resolve", cause.as_str())),
        }
    }

    /// The url to ask next.
    pub fn next(&self) -> (url: Option<String>)
        ensures
            text::optional(url) == self.wanted(),
    {
        if self.tried < self.urls.len() {
            Some(self.urls[self.tried].clone())
        } else {
            None
        }
    }

    /// The url that was to be asked has answered: the end of the download, if it
    /// sent the file.
    pub fn came(&mut self, reply: CdnReply) -> (out: Option<Result<Vec<u8>, String>>)
        requires
            old(self).wanted() is Some,
        ensures
            final(self).key() == old(self).key(),
            final(self).urls() == old(self).urls(),
            match reply.failure() {
                Some(why) => {
                    &&& out is None
                    &&& final(self).tried() == old(self).tried() + 1
                    &&& final(self).last_error() == why
                },
                None => {
                    &&& out is Some
                    &&& unpacks(old(self).key(), reply->File_0@, out->0)
                    &&& final(self).tried() == old(self).tried()
                    &&& final(self).last_error() == old(self).last_error()
                },
            },
    {
        let why = match reply {
            CdnReply::File(bytes) => {
                return Some(unpack(self.key, bytes));
            },
            CdnReply::Status(status) => status_failure(status),
            CdnReply::Broken(why) => why,
        };
        let n = self.urls.len();
        assert(self.tried < n);
        self.tried = self.tried + 1;
        self.last_err = Some(why);
        None
    }

    /// The message when none of the urls has sent the file.
    pub fn exhausted(&self) -> (message: String)
        ensures
            message@ == "all "@ + text::decimal(self.urls().len()) + " CDN urls failed ("@
                + self.last_error() + ")"@,
    {
        let count = text::decimal_text(self.urls.len() as u64);
        let head = text::join3("all ", count.as_str(), " CDN urls failed (");
        match &self.last_err {
            Some(why) => text::join3(head.as_str(), why.as_str(), ")"),
            None => text::join3(head.as_str(), "no urls", ")"),
        }
    }
}

// ----------------------------------------------------------------------- laws

/// What a guest plays is what the host resolved: a file that holds a stream
/// behind Spotify's packet, encrypted under the host's key, unpacks to that very
/// stream with the key that the guest reads in the host's answer.
pub proof fn law_a_guest_plays_what_the_host_resolved(
    uri: Seq<char>,
    track: Track,
    body: Seq<char>,
    key_hex: Seq<char>,
    packet: Seq<u8>,
    stream: Seq<u8>,
    out: Result<Vec<u8>, String>,
)
    requires
        json::reads_back(body, host::track_reply(uri, track).fields),
        match json::json_document(body) {
            Some(doc) => doc.text_field("key_hex"@) == Some(key_hex),
            None => false,
        },
        packet.len() == OGG_HEADER_END,
        ogg::capture_at(stream, 0),
        unpacks(
            hex::bytes_spelled(vstd::utf8::encode_utf8(key_hex)),
            packed(track.key@, packet, stream),
            out,
        ),
    ensures
        hex::spells_bytes(vstd::utf8::encode_utf8(key_hex), 16),
        out is Ok,
        out->Ok_0@ == stream,
{
    client::law_a_resolved_track_arrives_whole(uri, track, body);
}

/// A key of the wrong shape is answered with how many bytes were given, and every
/// reply without a file says why there is none.
pub proof fn law_what_went_wrong_is_said(hex: Seq<char>, status: u16, why: String, file: Vec<u8>)
    ensures
        bad_key_message(hex) == "expected 32 hex characters, got "@ + text::decimal(
            vstd::utf8::encode_utf8(hex).len(),
        ),
        CdnReply::Status(status).failure() == Some("HTTP "@ + text::decimal(status as nat)),
        CdnReply::Broken(why).failure() == Some(why@),
        CdnReply::File(file).failure() is None,
        OGG_HEADER_END == 0xa7,
{
}

/// A downloaded file unpacks to all of its stream, from the first page on to the
/// last byte; one that holds no page is refused, and that is all that is.
pub proof fn law_a_file_unpacks_to_its_whole_stream(
    key: Seq<u8>,
    encrypted: Seq<u8>,
    out: Result<Vec<u8>, String>,
)
    requires
        unpacks(key, encrypted, out),
    ensures
        ({
            let plain = audio_decrypted(key, encrypted);
            &&& out is Ok <==> exists|i: int|
                0 <= i <= plain.len() - 4 && #[trigger] ogg::capture_at(plain, i)
            &&& out matches Ok(stream) ==> {
                &&& ogg::capture_at(stream@, 0)
                &&& stream@.len() <= plain.len()
                &&& plain.skip(plain.len() - stream@.len()) == stream@
            }
            &&& out matches Err(message) ==> message@
                == "decrypted audio contains no Ogg stream — wrong key?"@
        }),
{
    let plain = audio_decrypted(key, encrypted);
    law_a_stream_is_found_wherever_there_is_a_page(plain);
    if ogg_start(plain) is Some {
        law_a_stripped_stream_begins_with_a_page(plain);
        if captured_from(plain, 0) is Some {
            lemma_captured(plain, 0);
        }
    }
}

/// The urls are asked one after another, from the first one on, until each has
/// been tried.
pub proof fn law_the_urls_are_tried_in_turn(fetch: TrackFetch)
    ensures
        fetch.wanted() is Some <==> fetch.tried() < fetch.urls().len(),
        fetch.wanted() is Some ==> fetch.wanted()->0 == fetch.urls()[fetch.tried() as int],
{
}

} // verus!
