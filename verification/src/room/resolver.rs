//! Memoized, single-flight track resolution for the host.
//!
//! A hundred guests pressing play on the same song cost one audio-key request:
//! callers register interest first, and only the first one for a given URI
//! dispatches. Naive caching would not give that: a hundred simultaneous misses
//! all miss.

use crate::assoc::Assoc;
use crate::shared::share;
use std::sync::Arc;
use vstd::prelude::*;

verus! {

/// storage-resolve URLs are valid 24h; re-resolve after 12h to be safe. In
/// nanoseconds.
pub const RESOLVE_TTL: u64 = 43_200_000_000_000;

/// How long a resolve may take before the guest gives up, in seconds.
pub const RESOLVE_TIMEOUT_SECS: u64 = 45;

/// Audio-key requests allowed in flight upstream at once.
///
/// Every one of them multiplexes over the host's single session, and a burst of
/// key requests is both slow and conspicuous. Deliberately small: coalescing,
/// not parallelism, is what makes this scale.
pub const UPSTREAM_CONCURRENCY: usize = 8;

/// The Vorbis encodings that a track may come in.
#[derive(Clone, Copy, PartialEq, Eq, Structural, Debug)]
pub enum VorbisFormat {
    OggVorbis320,
    OggVorbis160,
    OggVorbis96,
}

impl VorbisFormat {
    /// The name of the format.
    pub open spec fn name_view(self) -> Seq<char> {
        match self {
            VorbisFormat::OggVorbis320 => "OGG_VORBIS_320"@,
            VorbisFormat::OggVorbis160 => "OGG_VORBIS_160"@,
            VorbisFormat::OggVorbis96 => "OGG_VORBIS_96"@,
        }
    }

    /// The name of the format.
    pub fn name(&self) -> (name: String)
        ensures
            name@ == self.name_view(),
    {
        match self {
            VorbisFormat::OggVorbis320 => "OGG_VORBIS_320".to_owned(),
            VorbisFormat::OggVorbis160 => "OGG_VORBIS_160".to_owned(),
            VorbisFormat::OggVorbis96 => "OGG_VORBIS_96".to_owned(),
        }
    }
}

/// A resolved track, cached 12h so repeated plays never re-hit the session.
#[derive(Debug)]
pub struct Track {
    pub key: [u8; 16],
    pub format: VorbisFormat,
    pub urls: Vec<String>,
    /// When it was resolved, in nanoseconds on the host's clock.
    pub resolved_at: u64,
}

/// Whether a track resolved at `resolved_at` may still be served.
pub open spec fn still_fresh(resolved_at: u64, now: u64) -> bool {
    now - resolved_at < RESOLVE_TTL
}

/// What is resolved, what is being resolved, and for whom.
pub ghost struct Flights {
    /// Resolved tracks.
    pub tracks: Map<Seq<char>, Arc<Track>>,
    /// URIs being resolved right now, and the tickets of those who wait.
    pub waiting: Map<Seq<char>, Seq<u64>>,
    pub hits: u64,
    pub coalesced: u64,
    pub upstream: u64,
}

/// How a request is met.
pub ghost enum Met {
    /// From the cache.
    Hit(Arc<Track>),
    /// By a resolve that is already running.
    Joined,
    /// By a resolve that must be started now.
    Dispatched,
}

impl Flights {
    /// The cached track that may be served for `uri`.
    pub open spec fn fresh(self, uri: Seq<char>, now: u64) -> Option<Arc<Track>> {
        if self.tracks.contains_key(uri) && still_fresh(self.tracks[uri].resolved_at, now) {
            Some(self.tracks[uri])
        } else {
            None
        }
    }

    /// How a request for `uri` is met.
    pub open spec fn met(self, uri: Seq<char>, now: u64) -> Met {
        match self.fresh(uri, now) {
            Some(track) => Met::Hit(track),
            None => if self.waiting.contains_key(uri) {
                Met::Joined
            } else {
                Met::Dispatched
            },
        }
    }

    /// The state after a request for `uri`.
    pub open spec fn asked(self, uri: Seq<char>, ticket: u64, now: u64) -> Flights {
        match self.met(uri, now) {
            Met::Hit(_) => Flights { hits: self.hits.wrapping_add(1), ..self },
            Met::Joined => Flights {
                waiting: self.waiting.insert(uri, self.waiting[uri].push(ticket)),
                coalesced: self.coalesced.wrapping_add(1),
                ..self
            },
            Met::Dispatched => Flights {
                waiting: self.waiting.insert(uri, seq![ticket]),
                upstream: self.upstream.wrapping_add(1),
                ..self
            },
        }
    }

    /// Those who wait for `uri`.
    pub open spec fn waiters(self, uri: Seq<char>) -> Seq<u64> {
        if self.waiting.contains_key(uri) {
            self.waiting[uri]
        } else {
            Seq::empty()
        }
    }

    /// The tracks that may still be served.
    pub open spec fn fresh_tracks(self, now: u64) -> Map<Seq<char>, Arc<Track>> {
        Map::new(
            |uri: Seq<char>| self.fresh(uri, now) is Some,
            |uri: Seq<char>| self.tracks[uri],
        )
    }

    /// The state after the resolve of `uri` has come to its end.
    pub open spec fn completed(
        self,
        uri: Seq<char>,
        result: Option<Arc<Track>>,
        now: u64,
    ) -> Flights {
        Flights {
            tracks: match result {
                Some(track) => self.fresh_tracks(now).insert(uri, track),
                None => self.tracks,
            },
            waiting: self.waiting.remove(uri),
            ..self
        }
    }
}

/// How a request is met.
pub enum Ask {
    /// From the cache.
    Hit(Arc<Track>),
    /// By a resolve that is already running: wait for it.
    Joined,
    /// By a resolve that the caller must start, and then wait for.
    Dispatch,
}

impl Ask {
    /// The model of this answer.
    pub open spec fn view(self) -> Met {
        match self {
            Ask::Hit(track) => Met::Hit(track),
            Ask::Joined => Met::Joined,
            Ask::Dispatch => Met::Dispatched,
        }
    }
}

/// Shared between the request handlers and the resolve worker.
pub struct ResolveState {
    tracks: Assoc<Arc<Track>>,
    inflight: Assoc<Vec<u64>>,
    hits: u64,
    coalesced: u64,
    upstream: u64,
}

impl View for ResolveState {
    type V = Flights;

    closed spec fn view(&self) -> Flights {
        Flights {
            tracks: self.tracks@,
            waiting: self.inflight@.map_values(|tickets: Vec<u64>| tickets@),
            hits: self.hits,
            coalesced: self.coalesced,
            upstream: self.upstream,
        }
    }
}

/// Whether a track resolved at `resolved_at` may still be served.
fn is_fresh(resolved_at: u64, now: u64) -> (yes: bool)
    ensures
        yes == still_fresh(resolved_at, now),
{
    now.saturating_sub(resolved_at) < RESOLVE_TTL
}

impl ResolveState {
    /// Nothing resolved, nothing in flight, all counters at zero.
    pub fn new() -> (state: ResolveState)
        ensures
            state@ == (Flights {
                tracks: Map::empty(),
                waiting: Map::empty(),
                hits: 0,
                coalesced: 0,
                upstream: 0,
            }),
    {
        let state = ResolveState {
            tracks: Assoc::new(),
            inflight: Assoc::new(),
            hits: 0,
            coalesced: 0,
            upstream: 0,
        };
        assert(state@.waiting =~= Map::<Seq<char>, Seq<u64>>::empty());
        state
    }

    /// Requests served straight from the cache.
    pub fn hits(&self) -> (n: u64)
        ensures
            n == self@.hits,
    {
        self.hits
    }

    /// Requests folded into an already-running resolve.
    pub fn coalesced(&self) -> (n: u64)
        ensures
            n == self@.coalesced,
    {
        self.coalesced
    }

    /// Resolves actually started.
    pub fn upstream(&self) -> (n: u64)
        ensures
            n == self@.upstream,
    {
        self.upstream
    }

    /// The cached track that may be served for `uri`.
    pub fn fresh(&self, uri: &str, now: u64) -> (out: Option<Arc<Track>>)
        ensures
            out == self@.fresh(uri@, now),
    {
        match self.tracks.get(uri) {
            Some(track) => if is_fresh(track.resolved_at, now) {
                Some(share(track))
            } else {
                None
            },
            None => None,
        }
    }

    /// Ask for `uri`, sharing the work with anyone already waiting on it. The
    /// ticket is how the caller is told apart from others that wait.
    pub fn get(&mut self, uri: &str, ticket: u64, now: u64) -> (how: Ask)
        ensures
            how.view() == old(self)@.met(uri@, now),
            final(self)@ == old(self)@.asked(uri@, ticket, now),
    {
        let ghost before = self@;
        if let Some(track) = self.fresh(uri, now) {
            self.hits = self.hits.wrapping_add(1);
            return Ask::Hit(track);
        }
        match self.inflight.remove(uri) {
            Some(waiters) => {
                let mut waiters = waiters;
                assert(before.waiting.contains_key(uri@));
                waiters.push(ticket);
                self.inflight.insert(uri.to_owned(), waiters);
                self.coalesced = self.coalesced.wrapping_add(1);
                assert(self@.waiting =~= before.waiting.insert(
                    uri@,
                    before.waiting[uri@].push(ticket),
                ));
                Ask::Joined
            },
            None => {
                let mut waiters: Vec<u64> = Vec::new();
                waiters.push(ticket);
                assert(waiters@ =~= seq![ticket]);
                self.inflight.insert(uri.to_owned(), waiters);
                self.upstream = self.upstream.wrapping_add(1);
                assert(self@.waiting =~= before.waiting.insert(uri@, seq![ticket]));
                Ask::Dispatch
            },
        }
    }

    /// Forget the tracks that may no longer be served.
    fn drop_stale(&mut self, now: u64)
        ensures
            final(self)@ == (Flights { tracks: old(self)@.fresh_tracks(now), ..old(self)@ }),
    {
        let ghost before = self@;
        let mut kept: Assoc<Arc<Track>> = Assoc::new();
        let ghost all = self.tracks@;
        let mut rest: Assoc<Arc<Track>> = Assoc::new();
        std::mem::swap(&mut rest, &mut self.tracks);
        let mut more = true;
        while more
            invariant
                forall|uri: Seq<char>|
                    #![trigger rest@.contains_key(uri)]
                    rest@.contains_key(uri) ==> all.contains_key(uri) && rest@[uri] == all[uri],
                forall|uri: Seq<char>|
                    #![trigger kept@.contains_key(uri)]
                    kept@.contains_key(uri) <==> all.contains_key(uri) && !rest@.contains_key(uri)
                        && still_fresh(all[uri].resolved_at, now),
                forall|uri: Seq<char>| kept@.contains_key(uri) ==> kept@[uri] == all[uri],
                !more ==> rest@ == Map::<Seq<char>, Arc<Track>>::empty(),
            decreases rest.count(), if more {
                1int
            } else {
                0int
            },
        {
            let ghost had = rest@;
            let popped = rest.pop();
            assert forall|uri: Seq<char>| #[trigger] rest@.contains_key(uri) implies all.contains_key(
                uri,
            ) && rest@[uri] == all[uri] by {
                assert(had.contains_key(uri));
            }
            match popped {
                Some((uri, track)) => {
                    assert(had.contains_key(uri@));
                    if is_fresh(track.resolved_at, now) {
                        kept.insert(uri, track);
                    }
                },
                None => {
                    more = false;
                },
            }
        }
        self.tracks = kept;
        assert(self@.tracks =~= before.fresh_tracks(now));
    }

    /// Publish a finished resolve to the cache, and hand back the tickets of
    /// everyone who waited on it. A failure is not cached.
    pub fn complete(
        &mut self,
        uri: &str,
        result: &Result<Arc<Track>, String>,
        now: u64,
    ) -> (waiters: Vec<u64>)
        ensures
            waiters@ == old(self)@.waiters(uri@),
            final(self)@ == old(self)@.completed(
                uri@,
                match *result {
                    Ok(track) => Some(track),
                    Err(_) => None,
                },
                now,
            ),
    {
        let ghost before = self@;
        if let Ok(track) = result {
            self.drop_stale(now);
            self.tracks.insert(uri.to_owned(), share(track));
        }
        let out = self.inflight.remove(uri);
        assert(self@.waiting =~= before.waiting.remove(uri@));
        match out {
            Some(waiters) => waiters,
            None => Vec::new(),
        }
    }

    /// The worker could not be reached: nobody waits for `uri` any more.
    pub fn abandon(&mut self, uri: &str) -> (message: String)
        ensures
            message@ == "resolve worker gone"@,
            final(self)@ == (Flights { waiting: old(self)@.waiting.remove(uri@), ..old(self)@ }),
    {
        let ghost before = self@;
        let _ = self.inflight.remove(uri);
        assert(self@.waiting =~= before.waiting.remove(uri@));
        "resolve worker gone".to_owned()
    }
}

/// What a caller is told whose resolve took too long.
pub fn timed_out() -> (message: String)
    ensures
        message@ == "resolve timed out after "@ + crate::text::decimal(
            RESOLVE_TIMEOUT_SECS as nat,
        ) + "s"@,
{
    let secs = crate::text::decimal_text(RESOLVE_TIMEOUT_SECS);
    crate::text::join3("resolve timed out after ", secs.as_str(), "s")
}

// ----------------------------------------------------------------------- laws

/// A request for a track.
pub ghost struct Request {
    pub uri: Seq<char>,
    pub ticket: u64,
    /// When it is made.
    pub at: u64,
}

/// The state after a run of requests, with no resolve finishing in between.
pub open spec fn stormed(s: Flights, requests: Seq<Request>) -> Flights
    decreases requests.len(),
{
    if requests.len() == 0 {
        s
    } else {
        let r = requests.last();
        stormed(s, requests.drop_last()).asked(r.uri, r.ticket, r.at)
    }
}

/// How the `i`-th of a run of requests is met.
pub open spec fn met_in_turn(s: Flights, requests: Seq<Request>, i: int) -> Met {
    stormed(s, requests.take(i)).met(requests[i].uri, requests[i].at)
}

/// The tickets of those who ask for `uri`, in turn.
pub open spec fn tickets_for(requests: Seq<Request>, uri: Seq<char>) -> Seq<u64>
    decreases requests.len(),
{
    if requests.len() == 0 {
        Seq::empty()
    } else if requests.last().uri == uri {
        tickets_for(requests.drop_last(), uri).push(requests.last().ticket)
    } else {
        tickets_for(requests.drop_last(), uri)
    }
}

/// Whether nobody asks for `uri` before the `i`-th request.
pub open spec fn is_first(requests: Seq<Request>, uri: Seq<char>, i: int) -> bool {
    forall|j: int| 0 <= j < i ==> (#[trigger] requests[j]).uri != uri
}

proof fn lemma_tickets(requests: Seq<Request>, uri: Seq<char>)
    ensures
        tickets_for(requests, uri).len() == 0 <==> is_first(
            requests,
            uri,
            requests.len() as int,
        ),
        (forall|j: int| 0 <= j < requests.len() ==> (#[trigger] requests[j]).uri == uri)
            ==> tickets_for(requests, uri).len() == requests.len(),
    decreases requests.len(),
{
    if requests.len() > 0 {
        let front = requests.drop_last();
        lemma_tickets(front, uri);
        assert(forall|j: int| 0 <= j < front.len() ==> front[j] == #[trigger] requests[j]);
        assert(requests[requests.len() - 1] == requests.last());
        if is_first(requests, uri, requests.len() as int) {
            assert(is_first(front, uri, front.len() as int));
        }
        if is_first(front, uri, front.len() as int) && requests.last().uri != uri {
            assert forall|j: int| 0 <= j < requests.len() implies (#[trigger] requests[j]).uri
                != uri by {
                if j < front.len() {
                    assert(front[j].uri != uri);
                }
            }
        }
    }
}

proof fn lemma_storm(s: Flights, uri: Seq<char>, requests: Seq<Request>, from: u64)
    requires
        s.met(uri, from) is Dispatched,
        forall|i: int| 0 <= i < requests.len() ==> from <= (#[trigger] requests[i]).at,
    ensures
        ({
            let after = stormed(s, requests);
            let tickets = tickets_for(requests, uri);
            &&& after.tracks == s.tracks
            &&& after.waiting.contains_key(uri) <==> tickets.len() > 0
            &&& tickets.len() > 0 ==> after.waiting[uri] == tickets
        }),
    decreases requests.len(),
{
    if requests.len() > 0 {
        let front = requests.drop_last();
        assert(forall|j: int| 0 <= j < front.len() ==> front[j] == #[trigger] requests[j]);
        assert(requests[requests.len() - 1] == requests.last());
        lemma_storm(s, uri, front, from);
        assert(stormed(s, front).fresh(uri, requests.last().at) is None);
        if tickets_for(front, uri).len() == 0 {
            assert(tickets_for(requests, uri).len() > 0 ==> tickets_for(requests, uri) =~= seq![
                requests.last().ticket,
            ]);
        }
    }
}

/// However many guests ask for a track that is neither cached nor in flight, and
/// however long they go on, exactly one resolve is started for it before it comes
/// to its end: by the first of them. All the others fold into it, and the one
/// result is handed to every one of them. Requests for other tracks in between
/// change nothing about that.
pub proof fn law_a_storm_costs_one_upstream_call(
    s: Flights,
    uri: Seq<char>,
    requests: Seq<Request>,
    from: u64,
)
    requires
        s.met(uri, from) is Dispatched,
        forall|i: int| 0 <= i < requests.len() ==> from <= (#[trigger] requests[i]).at,
    ensures
        forall|i: int|
            0 <= i < requests.len() && (#[trigger] requests[i]).uri == uri ==> met_in_turn(
                s,
                requests,
                i,
            ) == (if is_first(requests, uri, i) {
                Met::Dispatched
            } else {
                Met::Joined
            }),
        stormed(s, requests).waiters(uri) == tickets_for(requests, uri),
{
    lemma_storm(s, uri, requests, from);
    assert forall|i: int| 0 <= i < requests.len() && (#[trigger] requests[i]).uri == uri implies
        met_in_turn(s, requests, i) == (if is_first(requests, uri, i) {
        Met::Dispatched
    } else {
        Met::Joined
    }) by {
        let before = requests.take(i);
        assert(forall|j: int| 0 <= j < i ==> before[j] == #[trigger] requests[j]);
        lemma_storm(s, uri, before, from);
        lemma_tickets(before, uri);
        if is_first(requests, uri, i) {
            assert(is_first(before, uri, i));
        } else {
            assert(!is_first(before, uri, i)) by {
                let j = choose|j: int| 0 <= j < i && (#[trigger] requests[j]).uri == uri;
                assert(before[j].uri == uri);
            }
        }
        assert(stormed(s, before).fresh(uri, requests[i].at) is None);
    }
    assert(stormed(s, requests).waiters(uri) =~= tickets_for(requests, uri));
}

/// The counters tell of a storm on one track: one resolve was started, all other
/// requests were folded into it, and none was served from the cache.
pub proof fn law_a_storm_is_counted(
    s: Flights,
    uri: Seq<char>,
    requests: Seq<Request>,
    from: u64,
)
    requires
        s.met(uri, from) is Dispatched,
        forall|i: int| 0 <= i < requests.len() ==> from <= (#[trigger] requests[i]).at,
        forall|i: int| 0 <= i < requests.len() ==> (#[trigger] requests[i]).uri == uri,
        requests.len() > 0,
        s.coalesced + requests.len() - 1 <= u64::MAX,
        s.upstream < u64::MAX,
    ensures
        stormed(s, requests).upstream == s.upstream + 1,
        stormed(s, requests).coalesced == s.coalesced + requests.len() - 1,
        stormed(s, requests).hits == s.hits,
    decreases requests.len(),
{
    let front = requests.drop_last();
    assert(forall|j: int| 0 <= j < front.len() ==> front[j] == #[trigger] requests[j]);
    assert(requests[requests.len() - 1] == requests.last());
    lemma_storm(s, uri, front, from);
    lemma_tickets(front, uri);
    assert(stormed(s, front).fresh(uri, requests.last().at) is None);
    if front.len() > 0 {
        law_a_storm_is_counted(s, uri, front, from);
    } else {
        assert(stormed(s, front) == s);
    }
}

/// A request while a resolve for the same track is in flight never starts a
/// second one, however late it comes.
pub proof fn law_a_late_arrival_joins(s: Flights, uri: Seq<char>, first: u64, at: u64, late: u64)
    requires
        s.met(uri, at) is Dispatched,
        at <= late,
    ensures
        s.asked(uri, first, at).met(uri, late) is Joined,
{
}

/// Once resolved, a track is served from the cache for as long as it is fresh.
pub proof fn law_a_resolved_track_is_served_from_cache(
    s: Flights,
    uri: Seq<char>,
    track: Arc<Track>,
    done: u64,
    later: u64,
)
    requires
        still_fresh(track.resolved_at, later),
    ensures
        s.completed(uri, Some(track), done).met(uri, later) == Met::Hit(track),
{
}

/// A failed resolve is not cached: the next request starts another one.
pub proof fn law_a_failure_is_retried(s: Flights, uri: Seq<char>, done: u64, later: u64)
    requires
        s.fresh(uri, done) is None,
        done <= later,
    ensures
        s.completed(uri, None, done).met(uri, later) is Dispatched,
{
}

/// The end of one resolve changes nothing for other tracks: what is fresh stays
/// fresh, and those who wait go on waiting.
pub proof fn law_a_resolve_leaves_other_tracks_alone(
    s: Flights,
    uri: Seq<char>,
    result: Option<Arc<Track>>,
    other: Seq<char>,
    done: u64,
    later: u64,
)
    requires
        other != uri,
        done <= later,
    ensures
        s.completed(uri, result, done).fresh(other, later) == s.fresh(other, later),
        s.completed(uri, result, done).waiters(other) == s.waiters(other),
{
}

/// A resolved track may be served for twelve hours, and no longer.
pub proof fn law_a_track_is_fresh_for_half_a_day(
    s: Flights,
    uri: Seq<char>,
    track: Arc<Track>,
    now: u64,
)
    requires
        s.tracks.contains_key(uri),
        s.tracks[uri] == track,
    ensures
        now - track.resolved_at < 12 * 60 * 60 * 1_000_000_000 ==> s.fresh(uri, now) == Some(track)
            && still_fresh(track.resolved_at, now),
        now - track.resolved_at >= 12 * 60 * 60 * 1_000_000_000 ==> s.fresh(uri, now) is None
            && !still_fresh(track.resolved_at, now),
{
}

/// A track that has not been resolved is not in the cache.
pub proof fn law_an_unknown_track_is_not_cached(s: Flights, uri: Seq<char>, now: u64)
    requires
        !s.tracks.contains_key(uri),
    ensures
        s.fresh(uri, now) is None,
        s.met(uri, now) is Joined <==> s.waiting.contains_key(uri),
        s.met(uri, now) is Dispatched <==> !s.waiting.contains_key(uri),
{
}

/// A request is counted as what it was met by and as nothing else, and whoever
/// is not served at once waits last in line for the track that was asked for.
pub proof fn law_a_request_is_counted_once(s: Flights, uri: Seq<char>, ticket: u64, now: u64)
    requires
        s.hits < u64::MAX,
        s.coalesced < u64::MAX,
        s.upstream < u64::MAX,
    ensures
        ({
            let after = s.asked(uri, ticket, now);
            &&& after.tracks == s.tracks
            &&& s.met(uri, now) is Hit ==> {
                &&& after.hits == s.hits + 1
                &&& after.coalesced == s.coalesced && after.upstream == s.upstream
                &&& after.waiting == s.waiting
            }
            &&& s.met(uri, now) is Joined ==> {
                &&& after.coalesced == s.coalesced + 1
                &&& after.hits == s.hits && after.upstream == s.upstream
                &&& after.waiters(uri) == s.waiters(uri).push(ticket)
            }
            &&& s.met(uri, now) is Dispatched ==> {
                &&& after.upstream == s.upstream + 1
                &&& after.hits == s.hits && after.coalesced == s.coalesced
                &&& after.waiters(uri) == seq![ticket]
            }
            &&& forall|other: Seq<char>|
                other != uri ==> #[trigger] after.waiters(other) == s.waiters(other)
        }),
{
}

/// When a resolve has come to its end nobody waits for it any more and no counter
/// moves; a track that was resolved is kept, one that was not leaves the cache as
/// it was, and what is stale by then is forgotten.
pub proof fn law_a_finished_resolve_is_kept(
    s: Flights,
    uri: Seq<char>,
    track: Arc<Track>,
    other: Seq<char>,
    now: u64,
)
    ensures
        ({
            let after = s.completed(uri, Some(track), now);
            &&& after.tracks.contains_key(uri) && after.tracks[uri] == track
            &&& after.waiters(uri).len() == 0
            &&& after.hits == s.hits && after.coalesced == s.coalesced
            &&& after.upstream == s.upstream
            &&& other != uri && s.fresh(other, now) is None ==> !after.tracks.contains_key(other)
            &&& other != uri && s.fresh(other, now) is Some ==> after.tracks.contains_key(other)
                && after.tracks[other] == s.tracks[other]
        }),
        ({
            let after = s.completed(uri, None, now);
            &&& after.tracks == s.tracks
            &&& after.waiters(uri).len() == 0
            &&& after.hits == s.hits && after.coalesced == s.coalesced
            &&& after.upstream == s.upstream
        }),
{
}

/// Every format goes by its own name, and an answer is modelled as what it is.
pub proof fn law_formats_go_by_their_names(ask: Ask)
    ensures
        VorbisFormat::OggVorbis320.name_view() == "OGG_VORBIS_320"@,
        VorbisFormat::OggVorbis160.name_view() == "OGG_VORBIS_160"@,
        VorbisFormat::OggVorbis96.name_view() == "OGG_VORBIS_96"@,
        ask matches Ask::Hit(track) ==> ask.view() == Met::Hit(track),
        ask is Joined ==> ask.view() is Joined,
        ask is Dispatch ==> ask.view() is Dispatched,
        RESOLVE_TIMEOUT_SECS == 45,
        UPSTREAM_CONCURRENCY == 8,
{
}

} // verus!
