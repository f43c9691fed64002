//! The guest's in-memory cache of decrypted tracks.

use crate::shared::share;
use crate::text::same_text;
use std::sync::Arc;
use vstd::prelude::*;

verus! {

/// How much decrypted audio to hold in memory (~13 tracks at 320 kbps).
pub const CACHE_BUDGET_BYTES: usize = 128 * 1024 * 1024;

/// A cached track: its URI and its bytes.
pub type Cached = (Seq<char>, Seq<u8>);

/// The size of all the tracks together.
pub open spec fn total(tracks: Seq<Cached>) -> nat
    decreases tracks.len(),
{
    if tracks.len() == 0 {
        0
    } else {
        tracks[0].1.len() + total(tracks.skip(1))
    }
}

/// The tracks other than `uri`, in the same order.
pub open spec fn without(tracks: Seq<Cached>, uri: Seq<char>) -> Seq<Cached> {
    tracks.filter(|t: Cached| t.0 != uri)
}

/// What is left once the oldest tracks have made room: tracks leave from the
/// front, one by one, while the rest is over the budget and more than one.
pub open spec fn within_budget(tracks: Seq<Cached>) -> Seq<Cached>
    decreases tracks.len(),
{
    if total(tracks) > CACHE_BUDGET_BYTES && tracks.len() > 1 {
        within_budget(tracks.skip(1))
    } else {
        tracks
    }
}

/// The bytes held for `uri`.
pub open spec fn lookup(tracks: Seq<Cached>, uri: Seq<char>) -> Option<Seq<u8>>
    decreases tracks.len(),
{
    if tracks.len() == 0 {
        None
    } else if tracks[0].0 == uri {
        Some(tracks[0].1)
    } else {
        lookup(tracks.skip(1), uri)
    }
}

/// No URI stands twice.
pub open spec fn distinct(tracks: Seq<Cached>) -> bool {
    forall|i: int, j: int| 0 <= i < j < tracks.len() ==> #[trigger] tracks[i].0 != #[trigger] tracks[j].0
}

/// Decrypted Ogg bytes per track URI, shared by repeat plays and seeks.
///
/// Bounded by *bytes*, not track count: a four-minute 320 kbps track decrypts
/// to roughly 10 MB. Eviction is oldest-first, and only ever drops what it must.
pub struct TrackCache {
    tracks: Vec<(String, Arc<Vec<u8>>)>,
    bytes: u128,
}

/// The model of one entry.
spec fn seen(t: (String, Arc<Vec<u8>>)) -> Cached {
    (t.0@, t.1@)
}

/// The model of a run of entries.
spec fn views(tracks: Seq<(String, Arc<Vec<u8>>)>) -> Seq<Cached> {
    tracks.map_values(|t: (String, Arc<Vec<u8>>)| seen(t))
}

impl View for TrackCache {
    type V = Seq<Cached>;

    /// The cached tracks, oldest first.
    closed spec fn view(&self) -> Seq<Cached> {
        views(self.tracks@)
    }
}

proof fn lemma_total_push(tracks: Seq<Cached>, t: Cached)
    ensures
        total(tracks.push(t)) == total(tracks) + t.1.len(),
    decreases tracks.len(),
{
    if tracks.len() > 0 {
        lemma_total_push(tracks.skip(1), t);
        assert(tracks.push(t).skip(1) =~= tracks.skip(1).push(t));
        assert(tracks.push(t)[0] == tracks[0]);
    } else {
        assert(tracks.push(t).skip(1) =~= tracks);
        assert(tracks.push(t)[0] == t);
    }
}

proof fn lemma_total_remove(tracks: Seq<Cached>, k: int)
    requires
        0 <= k < tracks.len(),
    ensures
        total(tracks) == total(tracks.remove(k)) + tracks[k].1.len(),
    decreases tracks.len(),
{
    if k > 0 {
        lemma_total_remove(tracks.skip(1), k - 1);
        assert(tracks.remove(k).skip(1) =~= tracks.skip(1).remove(k - 1));
    } else {
        assert(tracks.remove(0) =~= tracks.skip(1));
    }
}

/// Where a URI is cached, the cache holds the bytes that stand there.
proof fn lemma_lookup_at(tracks: Seq<Cached>, uri: Seq<char>, k: int)
    requires
        0 <= k < tracks.len(),
        tracks[k].0 == uri,
        forall|j: int| 0 <= j < k ==> (#[trigger] tracks[j]).0 != uri,
    ensures
        lookup(tracks, uri) == Some(tracks[k].1),
    decreases tracks.len(),
{
    if k > 0 {
        let rest = tracks.skip(1);
        assert forall|j: int| 0 <= j < k - 1 implies (#[trigger] rest[j]).0 != uri by {
            assert(rest[j] == tracks[j + 1]);
        }
        lemma_lookup_at(rest, uri, k - 1);
    }
}

proof fn lemma_lookup_none(tracks: Seq<Cached>, uri: Seq<char>)
    requires
        forall|j: int| 0 <= j < tracks.len() ==> (#[trigger] tracks[j]).0 != uri,
    ensures
        lookup(tracks, uri) is None,
    decreases tracks.len(),
{
    if tracks.len() > 0 {
        let rest = tracks.skip(1);
        assert forall|j: int| 0 <= j < rest.len() implies (#[trigger] rest[j]).0 != uri by {
            assert(rest[j] == tracks[j + 1]);
        }
        lemma_lookup_none(rest, uri);
    }
}

/// With no `uri` in the run, leaving it out changes nothing.
proof fn lemma_without_absent(tracks: Seq<Cached>, uri: Seq<char>)
    requires
        forall|j: int| 0 <= j < tracks.len() ==> (#[trigger] tracks[j]).0 != uri,
    ensures
        without(tracks, uri) == tracks,
    decreases tracks.len(),
{
    reveal(Seq::filter);
    if tracks.len() > 0 {
        let front = tracks.drop_last();
        assert forall|j: int| 0 <= j < front.len() implies (#[trigger] front[j]).0 != uri by {
            assert(front[j] == tracks[j]);
        }
        lemma_without_absent(front, uri);
        assert(tracks.last() == tracks[tracks.len() - 1]);
        assert(front.push(tracks.last()) =~= tracks);
    }
}

/// With one `uri` in the run, leaving it out removes that entry.
proof fn lemma_without_one(tracks: Seq<Cached>, uri: Seq<char>, k: int)
    requires
        0 <= k < tracks.len(),
        tracks[k].0 == uri,
        forall|j: int| 0 <= j < tracks.len() && j != k ==> (#[trigger] tracks[j]).0 != uri,
    ensures
        without(tracks, uri) == tracks.remove(k),
    decreases tracks.len(),
{
    reveal(Seq::filter);
    let front = tracks.drop_last();
    if k < front.len() {
        assert forall|j: int| 0 <= j < front.len() && j != k implies (#[trigger] front[j]).0
            != uri by {
            assert(front[j] == tracks[j]);
        }
        lemma_without_one(front, uri, k);
        assert(tracks.last() == tracks[tracks.len() - 1]);
        assert(front.remove(k).push(tracks.last()) =~= tracks.remove(k));
    } else {
        assert forall|j: int| 0 <= j < front.len() implies (#[trigger] front[j]).0 != uri by {
            assert(front[j] == tracks[j]);
        }
        lemma_without_absent(front, uri);
        assert(front =~= tracks.remove(k));
    }
}

impl Default for TrackCache {
    /// An empty cache.
    fn default() -> (cache: TrackCache)
        ensures
            cache@.len() == 0,
    {
        TrackCache { tracks: Vec::new(), bytes: 0 }
    }
}

impl TrackCache {
    /// The byte count is the sum, no URI stands twice, and more than one track
    /// is held only within the budget.
    #[verifier::type_invariant]
    spec fn wf(self) -> bool {
        &&& self.bytes == total(self@)
        &&& distinct(self@)
        &&& self.bytes <= CACHE_BUDGET_BYTES || self@.len() == 1
        &&& self.bytes <= usize::MAX
    }

    /// How many tracks are held.
    pub fn len(&self) -> (n: usize)
        ensures
            n == self@.len(),
    {
        self.tracks.len()
    }

    /// How many bytes are held.
    pub fn bytes(&self) -> (n: u128)
        ensures
            n == total(self@),
            n <= CACHE_BUDGET_BYTES || self@.len() == 1,
    {
        proof {
            use_type_invariant(self);
        }
        self.bytes
    }

    /// Where `uri` stands; the number of tracks when it does not.
    fn place(&self, uri: &str) -> (at: usize)
        ensures
            at <= self@.len(),
            at < self@.len() ==> self@[at as int].0 == uri@,
            forall|j: int| 0 <= j < at ==> (#[trigger] self@[j]).0 != uri@,
    {
        let mut i: usize = 0;
        while i < self.tracks.len()
            invariant
                i <= self.tracks@.len(),
                forall|j: int| 0 <= j < i ==> (#[trigger] self@[j]).0 != uri@,
            decreases self.tracks@.len() - i,
        {
            assert(self@[i as int] == seen(self.tracks@[i as int]));
            if same_text(self.tracks[i].0.as_str(), uri) {
                return i;
            }
            i += 1;
        }
        i
    }

    /// The bytes held for `uri`, shared rather than copied.
    pub fn get(&self, uri: &str) -> (out: Option<Arc<Vec<u8>>>)
        ensures
            match out {
                Some(data) => lookup(self@, uri@) == Some(data@),
                None => lookup(self@, uri@) is None,
            },
    {
        let at = self.place(uri);
        if at < self.tracks.len() {
            proof {
                lemma_lookup_at(self@, uri@, at as int);
            }
            Some(share(&self.tracks[at].1))
        } else {
            proof {
                lemma_lookup_none(self@, uri@);
            }
            None
        }
    }

    /// Hold `data` for `uri` as the newest track, then make room.
    pub fn insert(&mut self, uri: String, data: Arc<Vec<u8>>)
        ensures
            final(self)@ == within_budget(without(old(self)@, uri@).push((uri@, data@))),
            distinct(final(self)@),
    {
        proof {
            use_type_invariant(&*self);
        }
        let at = self.place(uri.as_str());
        let ghost before = self@;
        let mut taken = TrackCache::default();
        std::mem::swap(self, &mut taken);
        let mut tracks = taken.tracks;
        let mut bytes: u128 = taken.bytes;
        if at < tracks.len() {
            proof {
                lemma_total_remove(before, at as int);
                lemma_without_one(before, uri@, at as int);
            }
            let (_, stale) = tracks.remove(at);
            assert(views(tracks@) =~= before.remove(at as int));
            bytes -= stale.len() as u128;
        } else {
            proof {
                lemma_without_absent(before, uri@);
            }
        }
        let ghost kept = views(tracks@);
        assert(kept == without(before, uri@));
        assert(forall|j: int| 0 <= j < kept.len() ==> (#[trigger] kept[j]).0 != uri@);
        proof {
            lemma_total_push(kept, (uri@, data@));
        }
        let ghost full = kept.push((uri@, data@));
        let size = data.len();
        bytes += size as u128;
        tracks.push((uri, data));
        assert(views(tracks@) =~= full);
        while bytes > CACHE_BUDGET_BYTES as u128 && tracks.len() > 1
            invariant
                bytes == total(views(tracks@)),
                distinct(views(tracks@)),
                tracks@.len() >= 1,
                views(tracks@).last().1.len() == size,
                within_budget(views(tracks@)) == within_budget(full),
            decreases tracks@.len(),
        {
            let ghost now = views(tracks@);
            let (_, dropped) = tracks.remove(0);
            assert(views(tracks@) =~= now.skip(1));
            bytes -= dropped.len() as u128;
        }
        assert(bytes <= CACHE_BUDGET_BYTES || bytes == size) by {
            if tracks@.len() == 1 {
                assert(total(views(tracks@).skip(1)) == 0);
                assert(views(tracks@)[0] == views(tracks@).last());
            }
        }
        *self = TrackCache { tracks, bytes };
    }
}

// ----------------------------------------------------------------------- laws

proof fn lemma_within_budget(tracks: Seq<Cached>) -> (k: int)
    requires
        tracks.len() > 0,
    ensures
        0 <= k < tracks.len(),
        within_budget(tracks) == tracks.skip(k),
        forall|j: int| 0 <= j < k ==> total(#[trigger] tracks.skip(j)) > CACHE_BUDGET_BYTES,
        total(tracks.skip(k)) <= CACHE_BUDGET_BYTES || k == tracks.len() - 1,
    decreases tracks.len(),
{
    assert(tracks.skip(0) =~= tracks);
    if total(tracks) > CACHE_BUDGET_BYTES && tracks.len() > 1 {
        let rest = tracks.skip(1);
        let k = lemma_within_budget(rest);
        assert(rest.skip(k) =~= tracks.skip(k + 1));
        assert forall|j: int| 0 <= j < k + 1 implies total(#[trigger] tracks.skip(j))
            > CACHE_BUDGET_BYTES by {
            if j > 0 {
                assert(rest.skip(j - 1) =~= tracks.skip(j));
            }
        }
        k + 1
    } else {
        0
    }
}

/// Making room drops a run of the oldest tracks and no more than it must: one
/// track fewer dropped would still be over the budget. What is left fits the
/// budget, or is the newest track alone.
pub proof fn law_eviction_is_oldest_first_and_minimal(tracks: Seq<Cached>)
    requires
        tracks.len() > 0,
    ensures
        exists|k: int|
            {
                &&& 0 <= k < tracks.len()
                &&& within_budget(tracks) == #[trigger] tracks.skip(k)
                &&& k > 0 ==> total(tracks.skip(k - 1)) > CACHE_BUDGET_BYTES
                &&& total(tracks.skip(k)) <= CACHE_BUDGET_BYTES || k == tracks.len() - 1
            },
{
    let k = lemma_within_budget(tracks);
    assert(within_budget(tracks) == tracks.skip(k));
}

proof fn lemma_lookup_last(tracks: Seq<Cached>, uri: Seq<char>, data: Seq<u8>, k: int)
    requires
        0 <= k <= tracks.len(),
        forall|j: int| 0 <= j < tracks.len() ==> (#[trigger] tracks[j]).0 != uri,
    ensures
        lookup(tracks.push((uri, data)).skip(k), uri) == Some(data),
{
    let run = tracks.push((uri, data)).skip(k);
    assert forall|j: int| 0 <= j < run.len() - 1 implies (#[trigger] run[j]).0 != uri by {
        assert(run[j] == tracks[j + k]);
    }
    lemma_lookup_at(run, uri, run.len() - 1);
}

proof fn lemma_without_holds_none(tracks: Seq<Cached>, uri: Seq<char>)
    ensures
        forall|j: int| 0 <= j < without(tracks, uri).len() ==> (#[trigger] without(tracks, uri)[j]).0 != uri,
    decreases tracks.len(),
{
    reveal(Seq::filter);
    if tracks.len() > 0 {
        lemma_without_holds_none(tracks.drop_last(), uri);
    }
}

/// A track just inserted is found again, whatever its size.
pub proof fn law_an_inserted_track_is_found(before: Seq<Cached>, uri: Seq<char>, data: Seq<u8>)
    ensures
        lookup(within_budget(without(before, uri).push((uri, data))), uri) == Some(data),
{
    let kept = without(before, uri);
    lemma_without_holds_none(before, uri);
    let k = lemma_within_budget(kept.push((uri, data)));
    lemma_lookup_last(kept, uri, data, k);
}

/// Inserting one track never changes what is held for another: it is held
/// unchanged, or it has been evicted.
pub proof fn law_an_insert_leaves_other_tracks_alone(
    before: Seq<Cached>,
    uri: Seq<char>,
    data: Seq<u8>,
    other: Seq<char>,
)
    requires
        distinct(before),
        other != uri,
    ensures
        ({
            let after = within_budget(without(before, uri).push((uri, data)));
            lookup(after, other) is None || lookup(after, other) == lookup(before, other)
        }),
{
    let kept = without(before, uri);
    let full = kept.push((uri, data));
    let k = lemma_within_budget(full);
    let after = full.skip(k);
    if lookup(after, other) is Some {
        let i = lemma_lookup_finds(after, other);
        assert(after[i] == full[i + k]);
        assert(full[i + k] == kept[i + k]);
        lemma_without_from(before, uri, i + k);
        let p = choose|p: int| 0 <= p < before.len() && before[p] == kept[i + k];
        assert forall|j: int| 0 <= j < p implies (#[trigger] before[j]).0 != other by {
            assert(before[j].0 != before[p].0);
        }
        lemma_lookup_at(before, other, p);
    }
}

proof fn lemma_lookup_finds(tracks: Seq<Cached>, uri: Seq<char>) -> (k: int)
    requires
        lookup(tracks, uri) is Some,
    ensures
        0 <= k < tracks.len(),
        tracks[k].0 == uri,
        lookup(tracks, uri) == Some(tracks[k].1),
    decreases tracks.len(),
{
    if tracks[0].0 == uri {
        0
    } else {
        let k = lemma_lookup_finds(tracks.skip(1), uri);
        assert(tracks.skip(1)[k] == tracks[k + 1]);
        k + 1
    }
}

proof fn lemma_without_from(tracks: Seq<Cached>, uri: Seq<char>, i: int)
    requires
        0 <= i < without(tracks, uri).len(),
    ensures
        exists|p: int| 0 <= p < tracks.len() && #[trigger] tracks[p] == without(tracks, uri)[i],
    decreases tracks.len(),
{
    reveal(Seq::filter);
    if tracks.len() > 0 {
        let front = tracks.drop_last();
        if i < without(front, uri).len() {
            lemma_without_from(front, uri, i);
            let p = choose|p: int| 0 <= p < front.len() && #[trigger] front[p] == without(front, uri)[i];
            assert(tracks[p] == front[p]);
        } else {
            assert(tracks[tracks.len() - 1] == without(tracks, uri)[i]);
        }
    }
}

/// As long as everything fits into a hundred and twenty-eight megabytes, nothing
/// leaves: every other track is held as before.
pub proof fn law_what_fits_is_kept(
    before: Seq<Cached>,
    uri: Seq<char>,
    data: Seq<u8>,
    other: Seq<char>,
)
    requires
        other != uri,
        total(without(before, uri).push((uri, data))) <= 134_217_728,
    ensures
        lookup(within_budget(without(before, uri).push((uri, data))), other) == lookup(
            before,
            other,
        ),
{
    let kept = without(before, uri);
    lemma_lookup_push(kept, (uri, data), other);
    lemma_lookup_without(before, uri, other);
}

proof fn lemma_lookup_push(tracks: Seq<Cached>, t: Cached, other: Seq<char>)
    ensures
        lookup(tracks.push(t), other) == (match lookup(tracks, other) {
            Some(data) => Some(data),
            None => if t.0 == other {
                Some(t.1)
            } else {
                None
            },
        }),
    decreases tracks.len(),
{
    let all = tracks.push(t);
    if tracks.len() > 0 {
        assert(all[0] == tracks[0]);
        assert(all.skip(1) =~= tracks.skip(1).push(t));
        lemma_lookup_push(tracks.skip(1), t, other);
    } else {
        assert(all[0] == t);
        assert(all.skip(1) =~= Seq::empty());
        reveal_with_fuel(lookup, 2);
    }
}

proof fn lemma_lookup_without(tracks: Seq<Cached>, uri: Seq<char>, other: Seq<char>)
    requires
        other != uri,
    ensures
        lookup(without(tracks, uri), other) == lookup(tracks, other),
    decreases tracks.len(),
{
    reveal(Seq::filter);
    if tracks.len() > 0 {
        let front = tracks.drop_last();
        lemma_lookup_without(front, uri, other);
        assert(tracks =~= front.push(tracks.last()));
        lemma_lookup_push(front, tracks.last(), other);
        lemma_lookup_push(without(front, uri), tracks.last(), other);
    }
}

/// The bytes of a cache are those of its tracks, and the bytes that are held for
/// a track are the first that stand under its URI.
pub proof fn law_a_cache_counts_its_bytes(tracks: Seq<Cached>, uri: Seq<char>, data: Seq<u8>)
    ensures
        total(tracks.push((uri, data))) == total(tracks) + data.len(),
        total(Seq::empty()) == 0,
        lookup(tracks, uri) is None ==> lookup(tracks.push((uri, data)), uri) == Some(data),
        lookup(tracks, uri) is Some ==> lookup(tracks.push((uri, data)), uri) == lookup(
            tracks,
            uri,
        ),
        lookup(Seq::empty(), uri) is None,
{
    lemma_total_push(tracks, (uri, data));
    lemma_lookup_push(tracks, (uri, data), uri);
}

} // verus!
