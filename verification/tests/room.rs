//! The listening room: pages, streams, the cache, keys, tokens, resolves.

use std::sync::Arc;

use librespot_audio::AudioDecrypt;
use librespot_core::audio_key::AudioKey;
use librespot_core::SpotifyId;
use librespot_core::SpotifyUri;
use std::io::Cursor;
use std::io::Read;

use myx::external::position_ms;
use myx::external::SourceMeta;
use myx::hex::hex_text;
use myx::json::parse;
use myx::room::cache::TrackCache;
use myx::room::cache::CACHE_BUDGET_BYTES;
use myx::room::client::join_outcome;
use myx::room::client::resolve_outcome;
use myx::room::client::ResolvedTrack;
use myx::room::client::RoomClient;
use myx::room::fetch::carries_the_file;
use myx::room::fetch::decode_key;
use myx::room::fetch::unpack;
use myx::room::fetch::CdnReply;
use myx::room::fetch::TrackFetch;
use myx::room::fetch::OGG_HEADER_END;
use myx::room::host::Handled;
use myx::room::host::RoomHost;
use myx::room::host::ROOM_PORT;
use myx::room::ogg::audio_start_index;
use myx::room::ogg::ogg_pages;
use myx::room::ogg::substream_ranges;
use myx::room::resolve::item_came;
use myx::room::resolve::key_came;
use myx::room::resolve::resolve_begins;
use myx::room::resolve::storage_came;
use myx::room::resolve::uri_read;
use myx::room::resolve::Files;
use myx::room::resolve::Item;
use myx::room::resolve::Kind;
use myx::room::resolve::Storage;
use myx::room::resolve::Wanted;
use myx::room::resolver::timed_out;
use myx::room::resolver::Ask;
use myx::room::resolver::ResolveState;
use myx::room::resolver::Track;
use myx::room::resolver::VorbisFormat;
use myx::room::resolver::RESOLVE_TTL;
use myx::room::substream::SeekFrom;
use myx::room::substream::Substream;
use myx::room::token::choose_token;
use myx::room::token::load_or_create_token;
use myx::room::token::token_from;
use myx::room::token::valid_token;
use myx::room::token::Stored;

/// Materialise what a [`Substream`] streams, for byte-level assertions.
fn substream_at(data: &[u8], pos_ms: u32) -> Option<Vec<u8>> {
    let (header, tail) = substream_ranges(data, pos_ms)?;
    let mut out = Vec::with_capacity(header.len() + tail.len());
    out.extend_from_slice(&data[header]);
    out.extend_from_slice(&data[tail]);
    Some(out)
}

fn read_substream(data: &Arc<Vec<u8>>, pos_ms: u32) -> Option<Vec<u8>> {
    let (header, tail) = substream_ranges(data, pos_ms)?;
    let mut s = Substream::new(Arc::clone(data), header, tail);
    let mut out = Vec::new();
    s.read_to_end(&mut out);
    Some(out)
}

/// A structurally valid Ogg stream: `headers` header pages (each ending a
/// packet) then audio pages carrying the given granule positions.
fn ogg(headers: usize, audio: &[i64]) -> Vec<u8> {
    let mut out = Vec::new();
    for _ in 0..headers {
        page(&mut out, 0, 8);
    }
    for &g in audio {
        page(&mut out, g, 16);
    }
    out
}

fn page(out: &mut Vec<u8>, granule: i64, payload: u8) {
    out.extend_from_slice(b"OggS");
    out.push(0); // version
    out.push(0); // header type
    out.extend_from_slice(&granule.to_le_bytes());
    out.extend_from_slice(&[0u8; 4]); // serial
    out.extend_from_slice(&[0u8; 4]); // sequence
    out.extend_from_slice(&[0u8; 4]); // checksum
    out.push(1); // one segment
    out.push(payload); // lacing < 255 ends the packet here
    let fill = (granule / 2_205) as u8;
    out.extend(std::iter::repeat(fill).take(payload as usize));
}

/// Six seconds of a track: three header pages, then a page every half second.
/// No two pages hold the same bytes, so a reader that is off shows.
fn six_seconds() -> Vec<u8> {
    let audio: Vec<i64> = (1..=12).map(|i| i * 22_050).collect();
    ogg(3, &audio)
}

// ------------------------------------------------------------ key parsing

#[test]
fn decode_key_roundtrips() {
    assert_eq!(
        decode_key("000102030405060708090a0b0c0d0e0f").unwrap(),
        [0, 1, 2, 3, 4, 5, 6, 7, 8, 9, 10, 11, 12, 13, 14, 15]
    );
    assert_eq!(decode_key(&"ff".repeat(16)).unwrap(), [0xff; 16]);
}

#[test]
fn decode_key_rejects_bad_input() {
    assert!(decode_key("").is_err(), "empty");
    assert!(decode_key("00").is_err(), "too short");
    assert!(decode_key(&"0".repeat(33)).is_err(), "too long");
    assert!(decode_key(&"z".repeat(32)).is_err(), "non-hex");
}

/// A hostile host controls this string. It must error out, never panic.
#[test]
fn decode_key_rejects_multibyte_without_panicking() {
    let s = "€".repeat(8) + &"a".repeat(8); // 8*3 + 8 = 32 bytes, 16 chars
    assert_eq!(s.len(), 32, "must be 32 *bytes*");
    assert!(decode_key(&s).is_err());
}

#[test]
fn decode_key_names_the_length_it_got() {
    assert_eq!(
        decode_key("00").unwrap_err(),
        "expected 32 hex characters, got 2"
    );
    assert_eq!(
        decode_key(&"z".repeat(32)).unwrap_err(),
        "expected 32 hex characters, got 32"
    );
}

// ------------------------------------------------- decryption and unpacking

const FIXTURE_KEY: [u8; 16] = [
    0x0f, 0x1e, 0x2d, 0x3c, 0x4b, 0x5a, 0x69, 0x78, 0x87, 0x96, 0xa5, 0xb4, 0xc3, 0xd2, 0xe1, 0xf0,
];

fn encrypt(plain: Vec<u8>) -> Vec<u8> {
    let mut encrypted = Vec::new();
    AudioDecrypt::new(Some(AudioKey(FIXTURE_KEY)), Cursor::new(plain))
        .read_to_end(&mut encrypted)
        .expect("ctr encrypt");
    encrypted
}

/// Spotify's on-CDN layout: a proprietary leading packet, then the Ogg stream,
/// all AES-128-CTR encrypted. CTR is symmetric, so decrypting also encrypts.
fn spotify_style_payload() -> Vec<u8> {
    let mut plain = vec![0x5au8; OGG_HEADER_END];
    plain.extend_from_slice(&six_seconds());
    encrypt(plain)
}

#[test]
fn unpacking_gives_back_the_original_stream() {
    let bytes = unpack(FIXTURE_KEY, spotify_style_payload()).expect("unpack");
    assert_eq!(bytes, six_seconds());
}

#[test]
fn unpacking_finds_a_stream_behind_a_shorter_packet() {
    let mut plain = vec![0x5au8; 10];
    plain.extend_from_slice(&six_seconds());
    assert_eq!(unpack(FIXTURE_KEY, encrypt(plain)).unwrap(), six_seconds());
}

#[test]
fn unpacking_with_the_wrong_key_finds_no_stream() {
    let err = unpack([0; 16], spotify_style_payload()).unwrap_err();
    assert!(err.contains("no Ogg stream"), "got {err:?}");
    assert!(unpack(FIXTURE_KEY, Vec::new()).is_err());
}

/// The whole guest path, without the wire: join, resolve, decrypt, strip.
fn fetch(host: &mut RoomHost, client: &RoomClient, uri: &str) -> Result<Vec<u8>, String> {
    let track = Arc::new(Track {
        key: FIXTURE_KEY,
        format: VorbisFormat::OggVorbis320,
        urls: vec!["http://cdn".to_string()],
        resolved_at: 0,
    });
    let reply = match host.handle("POST", "/resolve", &client.resolve_body(uri)) {
        Handled::Resolve(asked) => host.resolved(&asked, &Ok(track)),
        Handled::Answer(reply) => reply,
    };
    resolve_outcome(reply.status, &reply.body())?;
    let resolved = parse(&reply.body())?;
    let key = decode_key(resolved.text_field("key_hex").expect("key_hex"))?;
    unpack(key, spotify_style_payload())
}

fn guest(token: &str) -> RoomClient {
    RoomClient {
        url: "127.0.0.1:8787".to_string(),
        token: token.to_string(),
    }
}

/// The result must be the original file, byte for byte.
#[test]
fn end_to_end_fetch_reproduces_the_original_audio() {
    let mut host = RoomHost::new(ROOM_PORT, "s3cret".to_string());
    let client = guest("s3cret");
    let Handled::Answer(reply) = host.handle("POST", "/join", &client.join_body()) else {
        panic!("a join is answered");
    };
    join_outcome(reply.status, &reply.body()).expect("join should succeed");

    let bytes = fetch(&mut host, &client, "spotify:track:fixture").expect("fetch should succeed");
    assert_eq!(
        bytes.len(),
        six_seconds().len(),
        "decrypted payload must be exactly the original Ogg"
    );
    assert_eq!(bytes, six_seconds(), "byte-for-byte round trip");
    assert!(fetch(&mut host, &guest("guess"), "spotify:track:fixture").is_err());
}

#[test]
fn seeking_past_a_real_track_reports_end_of_track() {
    let mut host = RoomHost::new(ROOM_PORT, "s3cret".to_string());
    let bytes = fetch(&mut host, &guest("s3cret"), "spotify:track:fixture").unwrap();

    assert!(substream_at(&bytes, 5_500).is_some(), "5.5 s is still inside");
    assert!(
        substream_at(&bytes, 9_000).is_none(),
        "9 s is past a 6 s track"
    );
}

fn resolved(key_hex: &str, urls: &[&str]) -> ResolvedTrack {
    ResolvedTrack {
        track: "spotify:track:fixture".to_string(),
        format: "OGG_VORBIS_320".to_string(),
        key_hex: key_hex.to_string(),
        urls: urls.iter().map(|u| u.to_string()).collect(),
    }
}

#[test]
fn every_cdn_url_is_tried_and_the_last_failure_is_named() {
    let track = resolved(&hex_text(&FIXTURE_KEY), &["https://cdn/0", "https://cdn/1"]);
    let mut fetch = TrackFetch::begin(Ok(track)).ok().unwrap();
    assert_eq!(fetch.next().unwrap(), "https://cdn/0");
    assert!(fetch.came(CdnReply::Status(403)).is_none());
    assert_eq!(fetch.exhausted(), "all 2 CDN urls failed (HTTP 403)");
    assert_eq!(fetch.next().unwrap(), "https://cdn/1");
    assert!(fetch.came(CdnReply::Broken("timed out".to_string())).is_none());
    assert!(fetch.next().is_none());
    assert_eq!(fetch.exhausted(), "all 2 CDN urls failed (timed out)");
    let none = TrackFetch::begin(Ok(resolved(&hex_text(&FIXTURE_KEY), &[]))).ok().unwrap();
    assert!(none.next().is_none());
    assert_eq!(none.exhausted(), "all 0 CDN urls failed (no urls)");
}

#[test]
fn the_first_url_that_sends_the_file_ends_the_download() {
    let track = resolved(&hex_text(&FIXTURE_KEY), &["https://cdn/0", "https://cdn/1"]);
    let mut fetch = TrackFetch::begin(Ok(track)).ok().unwrap();
    assert!(fetch.came(CdnReply::Status(410)).is_none());
    let done = fetch.came(CdnReply::File(spotify_style_payload())).unwrap();
    assert_eq!(done.unwrap(), six_seconds());
    assert!(carries_the_file(200) && carries_the_file(206) && !carries_the_file(404));
}

#[test]
fn nothing_is_downloaded_without_a_track_and_its_key() {
    let failed = TrackFetch::begin(Err("resolve failed (HTTP 400): {}".to_string()));
    assert_eq!(failed.err().unwrap(), "resolve: resolve failed (HTTP 400): {}");
    let bad = TrackFetch::begin(Ok(resolved("zz", &["https://cdn/0"])));
    assert_eq!(bad.err().unwrap(), "expected 32 hex characters, got 2");
}

// ------------------------------------------------ zero-copy substream reader

#[test]
fn substream_equals_the_materialised_bytes() {
    let data = Arc::new(six_seconds());
    for pos in [0, 1_000, 2_500, 4_000, 5_500] {
        assert_eq!(
            read_substream(&data, pos),
            substream_at(&data, pos),
            "mismatch at {pos} ms"
        );
    }
    assert!(read_substream(&data, 9_000).is_none(), "past the end");
}

#[test]
fn substream_reads_correctly_across_the_header_seam() {
    let data = Arc::new(six_seconds());
    let (header, tail) = substream_ranges(&data, 4_000).expect("4 s");
    let expected = substream_at(&data, 4_000).unwrap();

    // One byte at a time walks the header/tail seam the hard way.
    let mut s = Substream::new(Arc::clone(&data), header, tail);
    let mut got = Vec::new();
    let mut byte = [0u8; 1];
    while s.read(&mut byte) == 1 {
        got.push(byte[0]);
    }
    assert_eq!(got, expected, "single-byte reads must match");
}

#[test]
fn substream_seeks_like_a_file() {
    let data = Arc::new(six_seconds());
    let (header, tail) = substream_ranges(&data, 4_000).expect("4 s");
    let expected = substream_at(&data, 4_000).unwrap();
    let mut s = Substream::new(Arc::clone(&data), header, tail);

    assert_eq!(s.seek(SeekFrom::End(0)).unwrap(), expected.len() as u64);
    assert_eq!(s.seek(SeekFrom::Start(0)).unwrap(), 0);

    // A seek into the tail must land on the same byte the splice has there.
    let probe = expected.len() - 10;
    s.seek(SeekFrom::Start(probe as u64)).unwrap();
    let mut rest = Vec::new();
    s.read_to_end(&mut rest);
    assert_eq!(rest, &expected[probe..]);

    // Clamping, not panicking, past the end; and an error before the start.
    assert_eq!(
        s.seek(SeekFrom::Start(u64::MAX)).unwrap(),
        expected.len() as u64
    );
    assert_eq!(s.read(&mut [0u8; 8]), 0, "reads past end are EOF");
    assert!(s.seek(SeekFrom::Start(0)).is_ok());
    assert!(s.seek(SeekFrom::Current(-1)).is_err());
}

/// The point of the reader: playing a track must not double its memory.
#[test]
fn substream_does_not_copy_the_track() {
    let data = Arc::new(six_seconds());
    let (header, tail) = substream_ranges(&data, 0).expect("position 0");
    let before = Arc::strong_count(&data);
    let s = Substream::new(Arc::clone(&data), header, tail);
    assert_eq!(
        Arc::strong_count(&data),
        before + 1,
        "the reader must share the cached buffer, not clone it"
    );
    drop(s);
    assert_eq!(Arc::strong_count(&data), before);
}

// ------------------------------------------------------------ track cache

fn blob(n: usize) -> Arc<Vec<u8>> {
    Arc::new(vec![0u8; n])
}

#[test]
fn cache_returns_what_it_stored() {
    let mut c = TrackCache::default();
    c.insert("a".into(), blob(10));
    assert_eq!(c.get("a").unwrap().len(), 10);
    assert!(c.get("b").is_none());
}

#[test]
fn cache_reinsert_does_not_double_count_bytes() {
    let mut c = TrackCache::default();
    c.insert("a".into(), blob(10));
    c.insert("a".into(), blob(10));
    assert_eq!(c.bytes(), 10, "replacing an entry must not leak its bytes");
    assert_eq!(c.len(), 1, "and must not duplicate its order entry");
}

#[test]
fn cache_evicts_oldest_first_over_budget() {
    let mut c = TrackCache::default();
    let half = CACHE_BUDGET_BYTES / 2 + 1;
    c.insert("old".into(), blob(half));
    c.insert("new".into(), blob(half));
    assert!(c.get("old").is_none(), "oldest entry should be evicted");
    assert!(c.get("new").is_some(), "newest entry must survive");
    assert!(c.bytes() <= CACHE_BUDGET_BYTES as u128);
}

/// Eviction must never drop the entry just inserted, even if it alone blows the
/// budget — the player is about to play it, and a seek re-reads it.
#[test]
fn cache_keeps_the_newest_entry_even_when_oversized() {
    let mut c = TrackCache::default();
    c.insert("huge".into(), blob(CACHE_BUDGET_BYTES * 2));
    assert!(c.get("huge").is_some());
    assert_eq!(c.len(), 1);
}

#[test]
fn cache_evicts_only_what_it_must() {
    let mut c = TrackCache::default();
    let chunk = CACHE_BUDGET_BYTES / 4;
    for name in ["a", "b", "c", "d", "e"] {
        c.insert(name.into(), blob(chunk));
    }
    let kept = ["a", "b", "c", "d", "e"]
        .iter()
        .filter(|n| c.get(n).is_some())
        .count();
    assert!(kept >= 3, "expected most entries retained, kept {kept}");
    assert_eq!(kept, 4, "only the oldest has to go");
    assert!(c.get("a").is_none());
}

// --------------------------------------------------------------- ogg logic

#[test]
fn ogg_pages_tiles_the_buffer_exactly() {
    let data = ogg(3, &[44_100, 88_200, 132_300]);
    let pages = ogg_pages(&data);
    assert_eq!(pages.len(), 6);
    let mut cursor = 0;
    for (off, len) in pages {
        assert_eq!(off, cursor, "pages must be contiguous");
        cursor += len;
    }
    assert_eq!(cursor, data.len());
}

#[test]
fn ogg_pages_drops_a_truncated_tail() {
    let mut data = ogg(3, &[44_100]);
    data.truncate(data.len() - 4);
    assert_eq!(ogg_pages(&data).len(), 3);
}

#[test]
fn ogg_pages_rejects_garbage() {
    assert!(ogg_pages(b"not ogg at all").is_empty());
}

#[test]
fn audio_start_index_skips_the_three_vorbis_headers() {
    let data = ogg(3, &[44_100, 88_200]);
    assert_eq!(audio_start_index(&data, &ogg_pages(&data)), 3);
}

#[test]
fn substream_at_zero_is_the_whole_track() {
    let data = ogg(3, &[44_100, 88_200, 132_300]);
    assert_eq!(
        substream_at(&data, 0).unwrap(),
        data,
        "position 0 must be byte-identical to the source"
    );
}

#[test]
fn substream_at_keeps_headers_and_drops_earlier_audio() {
    // Granules at 1 s, 2 s, 3 s; seeking to 1.5 s keeps headers + the 2 s and 3 s pages.
    let data = ogg(3, &[44_100, 88_200, 132_300]);
    let out = substream_at(&data, 1_500).unwrap();
    let pages = ogg_pages(&out);
    assert_eq!(pages.len(), 5, "3 header pages + 2 audio pages");
    assert!(out.starts_with(b"OggS"));
    let (off, _) = pages[3];
    assert_eq!(
        i64::from_le_bytes(out[off + 6..off + 14].try_into().unwrap()),
        88_200,
        "must resume at the first page at or past the target"
    );
}

#[test]
fn substream_at_lands_exactly_on_a_granule() {
    let data = ogg(3, &[44_100, 88_200]);
    let out = substream_at(&data, 1_000).unwrap();
    assert_eq!(ogg_pages(&out).len(), 5, "the 1 s page itself is included");
}

/// Seeking past the outro must report "no audio here" rather than silently
/// falling back to the whole track.
#[test]
fn substream_at_past_the_end_is_none() {
    let data = ogg(3, &[44_100, 88_200, 132_300]);
    assert!(substream_at(&data, 60_000).is_none());
}

#[test]
fn substream_at_on_a_headers_only_stream_is_none() {
    let data = ogg(3, &[]);
    assert!(substream_at(&data, 0).is_none());
    assert!(substream_at(&data, 5_000).is_none());
}

/// Ogg marks a page whose packet does not complete with a granule of -1. At
/// position 0 the stream must be handed over verbatim.
#[test]
fn substream_at_zero_keeps_a_continued_first_page() {
    let data = ogg(3, &[-1, 44_100, 88_200]);
    let out = substream_at(&data, 0).unwrap();
    assert_eq!(out, data, "position 0 must not drop the -1 granule page");
    assert_eq!(ogg_pages(&out).len(), 6);
}

#[test]
fn substream_at_on_garbage_is_none() {
    assert!(substream_at(b"not ogg at all", 1_000).is_none());
}

/// `pos_ms * 44_100` overflows a u32 well before a real track ends.
#[test]
fn substream_at_does_not_overflow_on_absurd_positions() {
    let data = ogg(3, &[44_100, 88_200]);
    assert!(substream_at(&data, u32::MAX).is_none());
}

// ------------------------------------------------------------- resolving

fn track(urls: usize, now: u64) -> Arc<Track> {
    Arc::new(Track {
        key: [7u8; 16],
        format: VorbisFormat::OggVorbis320,
        urls: (0..urls).map(|i| format!("https://cdn/{i}")).collect(),
        resolved_at: now,
    })
}

/// A host whose upstream answers only when told to, and counts its calls.
struct Host {
    state: ResolveState,
    calls: Vec<String>,
    served: Vec<(u64, Result<Arc<Track>, String>)>,
}

impl Host {
    fn new() -> Self {
        Host {
            state: ResolveState::new(),
            calls: Vec::new(),
            served: Vec::new(),
        }
    }

    fn ask(&mut self, uri: &str, ticket: u64, now: u64) {
        match self.state.get(uri, ticket, now) {
            Ask::Hit(track) => self.served.push((ticket, Ok(track))),
            Ask::Joined => {}
            Ask::Dispatch => self.calls.push(uri.to_string()),
        }
    }

    fn finish(&mut self, uri: &str, result: Result<Arc<Track>, String>, now: u64) {
        for ticket in self.state.complete(uri, &result, now) {
            self.served.push((ticket, result.clone()));
        }
    }
}

/// The property the whole design rests on: a hundred guests pressing play on
/// the same song must cost exactly one audio-key request.
#[test]
fn concurrent_requests_for_one_track_cost_one_upstream_call() {
    let mut host = Host::new();
    for ticket in 0..100 {
        host.ask("spotify:track:same", ticket, 0);
    }
    host.finish("spotify:track:same", Ok(track(3, 0)), 0);

    assert_eq!(host.served.len(), 100);
    assert!(host.served.iter().all(|(_, r)| r.is_ok()), "every caller must be served");
    assert_eq!(host.calls.len(), 1, "anything more is a cache stampede");
    assert_eq!(host.state.upstream(), 1);
    assert_eq!(host.state.coalesced(), 99, "99 callers should have folded into the first");
}

/// Requests may be spread over time, with others in between.
#[test]
fn a_storm_spread_over_time_costs_one_upstream_call() {
    let mut host = Host::new();
    host.ask("same", 1, 0);
    host.ask("other", 2, 5);
    host.ask("same", 3, RESOLVE_TTL);
    host.ask("other", 4, RESOLVE_TTL + 1);
    host.ask("same", 5, 3 * RESOLVE_TTL);
    assert_eq!(host.calls, ["same", "other"]);
    host.finish("same", Ok(track(1, 0)), 3 * RESOLVE_TTL);
    let tickets: Vec<u64> = host.served.iter().map(|(ticket, _)| *ticket).collect();
    assert_eq!(tickets, [1, 3, 5]);
}

/// Once resolved, further requests must not touch the session at all.
#[test]
fn a_resolved_track_is_served_from_cache() {
    let mut host = Host::new();
    host.ask("spotify:track:a", 0, 0);
    host.finish("spotify:track:a", Ok(track(1, 0)), 0);
    for ticket in 1..=50 {
        host.ask("spotify:track:a", ticket, 1);
    }
    assert_eq!(host.served.len(), 51);
    assert_eq!(host.calls.len(), 1, "cache must absorb the repeats");
    assert_eq!(host.state.hits(), 50);
}

/// A mixed, realistic load: lots of people, a handful of popular tracks.
#[test]
fn a_realistic_room_makes_few_upstream_calls() {
    let mut host = Host::new();
    // 100 guests across 10 tracks.
    for i in 0..100 {
        host.ask(&format!("spotify:track:{}", i % 10), i, 0);
    }
    for i in 0..10 {
        host.finish(&format!("spotify:track:{i}"), Ok(track(3, 0)), 0);
    }
    assert_eq!(host.served.len(), 100, "all 100 served");
    assert!(host.served.iter().all(|(_, r)| r.is_ok()));
    assert_eq!(host.calls.len(), 10, "100 guests over 10 tracks must cost 10 calls");
}

/// A failure must reach every waiter, and must not poison other tracks or the
/// cache — the next attempt should try again.
#[test]
fn failures_fan_out_and_are_not_cached() {
    let mut host = Host::new();
    for ticket in 0..20 {
        host.ask("spotify:track:bad", ticket, 0);
    }
    for ticket in 20..40 {
        host.ask("spotify:track:good", ticket, 0);
    }
    host.finish("spotify:track:bad", Err("no vorbis file for track".to_string()), 0);
    host.finish("spotify:track:good", Ok(track(1, 0)), 0);

    let failed = host.served.iter().filter(|(_, r)| r.is_err()).count();
    let ok = host.served.iter().filter(|(_, r)| r.is_ok()).count();
    assert_eq!(failed, 20, "every waiter on the bad track gets the error");
    assert_eq!(ok, 20, "a bad track must not take the good one down with it");
    assert_eq!(host.calls.len(), 2, "one call per distinct track");

    // Not cached: asking again retries rather than replaying the failure.
    host.ask("spotify:track:bad", 40, 1);
    assert_eq!(host.calls.len(), 3, "the failure was retried");
    // ...while the good one is still cached.
    host.ask("spotify:track:good", 41, 1);
    assert_eq!(host.calls.len(), 3, "the success stayed cached");
}

/// A caller that arrives while a resolve is in flight must get the result, not
/// a second call — even if it arrives very late in the window.
#[test]
fn a_late_arrival_still_joins_the_in_flight_resolve() {
    let mut host = Host::new();
    host.ask("spotify:track:x", 1, 0);
    host.ask("spotify:track:x", 2, 44_000_000_000);
    host.finish("spotify:track:x", Ok(track(1, 0)), 44_500_000_000);
    assert_eq!(host.served.len(), 2);
    assert!(host.served.iter().all(|(_, r)| r.is_ok()));
    assert_eq!(host.calls.len(), 1);
}

/// The worker dying must surface as an error rather than hanging every guest.
#[test]
fn a_dead_worker_fails_fast() {
    let mut host = Host::new();
    host.ask("spotify:track:z", 1, 0);
    let err = host.state.abandon("spotify:track:z");
    assert!(err.contains("worker gone"), "got {err:?}");
    // Nobody waits any more, so the next request starts over.
    host.ask("spotify:track:z", 2, 0);
    assert_eq!(host.calls.len(), 2);
}

#[test]
fn a_stale_track_is_resolved_again() {
    let mut host = Host::new();
    host.ask("spotify:track:a", 0, 0);
    host.finish("spotify:track:a", Ok(track(1, 0)), 0);
    host.ask("spotify:track:a", 1, RESOLVE_TTL - 1);
    assert_eq!(host.calls.len(), 1);
    host.ask("spotify:track:a", 2, RESOLVE_TTL);
    assert_eq!(host.calls.len(), 2);
}

fn files(has_320: bool, has_160: bool, has_96: bool) -> Files {
    Files { has_320, has_160, has_96 }
}

#[test]
fn the_best_vorbis_file_is_picked() {
    assert_eq!(item_came(Ok(files(true, true, true))), Ok(VorbisFormat::OggVorbis320));
    assert_eq!(item_came(Ok(files(false, true, true))), Ok(VorbisFormat::OggVorbis160));
    assert_eq!(item_came(Ok(files(false, false, true))), Ok(VorbisFormat::OggVorbis96));
    assert_eq!(
        item_came(Ok(files(false, false, false))),
        Err("no vorbis file for track".to_string())
    );
    assert_eq!(VorbisFormat::OggVorbis320.name(), "OGG_VORBIS_320");
    assert_eq!(timed_out(), "resolve timed out after 45s");
}

#[test]
fn a_resolve_says_at_which_step_it_failed() {
    assert_eq!(item_came(Err("gone".into())), Err("get audio item: gone".to_string()));
    assert_eq!(key_came(Err("no".into())), Err("request audio key: no".to_string()));
    assert_eq!(key_came(Ok([7; 16])), Ok([7; 16]));
    let stored = |storage| storage_came(VorbisFormat::OggVorbis96, [7; 16], storage, 5);
    assert_eq!(
        stored(Storage::Unresolved("410".into())).unwrap_err(),
        "resolve CDN storage: 410"
    );
    assert_eq!(stored(Storage::Unusable("expired".into())).unwrap_err(), "expired");
    let track = stored(Storage::Urls(vec!["https://cdn/0".into()])).unwrap();
    assert_eq!((track.key, track.format, track.resolved_at), ([7; 16], VorbisFormat::OggVorbis96, 5));
    assert_eq!(track.urls, ["https://cdn/0"]);
}

// ----------------------------------------------------------------- token

/// A token that changes on every restart silently locks out every guest.
#[test]
fn a_token_is_stable_across_restarts() {
    let first = load_or_create_token(Stored::Unread);
    assert!(valid_token(&first.token), "generated token must be 32 hex chars");
    assert!(first.persist);
    let again = load_or_create_token(Stored::Text(first.token.clone()));
    assert_eq!(again.token, first.token, "a restart must reuse the stored token");
    assert!(!again.persist);
    let padded = choose_token(Stored::Text(format!("  {}\n", first.token)), String::new());
    assert_eq!(padded.token, first.token);
}

/// A corrupt or truncated file must not wedge hosting.
#[test]
fn a_malformed_token_file_is_replaced() {
    for junk in ["", "nonsense", "zzzz", &"a".repeat(64)] {
        let choice = load_or_create_token(Stored::Text(junk.to_string()));
        assert!(valid_token(&choice.token), "replaced {junk:?} with an invalid token");
        assert!(choice.persist, "the replacement must be written back");
        assert!(choice.malformed);
    }
}

/// With no state directory, hosting still works — just without persistence.
#[test]
fn no_state_dir_still_yields_a_token() {
    let choice = load_or_create_token(Stored::Nowhere);
    assert!(valid_token(&choice.token));
    assert!(!choice.persist);
}

#[test]
fn valid_token_accepts_only_32_hex_chars() {
    assert!(valid_token(&"a".repeat(32)));
    assert!(valid_token("0123456789abcdef0123456789ABCDEF"));
    assert!(!valid_token(&"a".repeat(31)));
    assert!(!valid_token(&"a".repeat(33)));
    assert!(!valid_token(&"g".repeat(32)));
    assert!(!valid_token(""));
}

#[test]
fn a_token_spells_its_bytes_and_two_differ() {
    assert_eq!(token_from(&FIXTURE_KEY), "0f1e2d3c4b5a69788796a5b4c3d2e1f0");
    assert_eq!(decode_key(&token_from(&FIXTURE_KEY)).unwrap(), FIXTURE_KEY);
    let a = load_or_create_token(Stored::Nowhere).token;
    let b = load_or_create_token(Stored::Nowhere).token;
    assert_ne!(a, b);
}

// ---------------------------------------------------- the external source

/// Position must be counted from where the helper says audio *actually*
/// begins. Using the requested position instead would drift by up to a page.
#[test]
fn position_counts_from_actual_start_not_requested() {
    let meta = SourceMeta {
        rate: 44_100,
        channels: 2,
        requested_start_ms: 90_000,
        actual_start_ms: 89_020,
        ..Default::default()
    };
    // One second of frames decoded.
    let frames = 44_100u64;
    let elapsed = frames * 1000 / meta.rate as u64;
    assert_eq!(meta.actual_start_ms + elapsed, 90_020);
    // Had we trusted the request, we would report 91_000 — a second out.
    assert_ne!(meta.requested_start_ms + elapsed, 90_020);
    assert_eq!(position_ms(&meta, frames), 90_020);
}

// ------------------------------------------------------- the URI of a resolve

/// An id, and the same in base 62.
const ID: u128 = 204841891221366092811751085145916697048;
const ID_TEXT: &str = "4GNcXTGWmnZ3ySrqvol3o4";

#[test]
fn a_track_uri_names_the_track_it_spells() {
    let wanted = Wanted { kind: Kind::Track, id: ID };
    assert_eq!(resolve_begins(&format!("spotify:track:{ID_TEXT}")), Ok(wanted));
    assert_eq!(
        resolve_begins("spotify:track:0000000000000000000010"),
        Ok(Wanted { kind: Kind::Track, id: 62 })
    );
    assert_eq!(
        resolve_begins("spotify:track:000000000000000000009Z"),
        Ok(Wanted { kind: Kind::Track, id: 9 * 62 + 61 })
    );
}

#[test]
fn every_kind_of_item_is_told_apart() {
    for (kind, name) in [
        (Kind::Album, "album"),
        (Kind::Artist, "artist"),
        (Kind::Episode, "episode"),
        (Kind::Playlist, "playlist"),
        (Kind::Show, "show"),
        (Kind::Track, "track"),
    ] {
        let uri = format!("spotify:{name}:{ID_TEXT}");
        assert_eq!(resolve_begins(&uri), Ok(Wanted { kind, id: ID }), "{uri}");
    }
    let named = format!("spotify:user:somebody:playlist:{ID_TEXT}");
    assert_eq!(resolve_begins(&named), Ok(Wanted { kind: Kind::Playlist, id: ID }));
}

/// What names no item with an id is refused before the session is asked.
#[test]
fn a_bad_uri_is_refused() {
    for uri in [
        "",
        "spotify",
        "spotify:track",
        "spotify:track:short",
        "spotify:track:!GNcXTGWmnZ3ySrqvol3o4",
        "spotify:track:ZZZZZZZZZZZZZZZZZZZZZZ",
        "https://open.spotify.com/track/4GNcXTGWmnZ3ySrqvol3o4",
        "spotify:local:a:b:c",
    ] {
        let why = SpotifyUri::from_uri(uri).unwrap_err().to_string();
        assert_eq!(resolve_begins(uri), Err(why), "{uri}");
    }
    for uri in ["spotify:local:artist:album:title:120", "spotify:genre:rock"] {
        let named = SpotifyUri::from_uri(uri).unwrap();
        let why = SpotifyId::try_from(&named).unwrap_err().to_string();
        assert_eq!(resolve_begins(uri), Err(why), "{uri}");
    }
}

#[test]
fn only_an_item_with_an_id_has_a_key_to_ask_for() {
    assert_eq!(
        uri_read(Ok(Item::Known(Kind::Episode, 7))),
        Ok(Wanted { kind: Kind::Episode, id: 7 })
    );
    let refused = "Client specified an invalid argument { not a valid Spotify ID }";
    assert_eq!(uri_read(Ok(Item::Local)), Err(refused.to_string()));
    assert_eq!(uri_read(Ok(Item::Unknown)), Err(refused.to_string()));
    assert_eq!(uri_read(Err("why".to_string())), Err("why".to_string()));
}
