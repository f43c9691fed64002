//! Ogg pages, and the playable stream that starts at a given position.

use std::ops::Range;
use vstd::prelude::*;

verus! {

/// Samples per second of every track.
pub const SAMPLE_RATE: u64 = 44_100;

/// How many bytes the fixed part of a page header takes.
pub const PAGE_HEADER: usize = 27;

// ---------------------------------------------------------------------- pages

/// Whether the capture pattern `OggS` stands at `at`.
pub open spec fn capture_at(data: Seq<u8>, at: int) -> bool {
    &&& 0 <= at
    &&& at + 4 <= data.len()
    &&& data[at] == 0x4f
    &&& data[at + 1] == 0x67
    &&& data[at + 2] == 0x67
    &&& data[at + 3] == 0x53
}

/// The sum of the bytes of `data` in `from..to`.
pub open spec fn byte_sum(data: Seq<u8>, from: int, to: int) -> int
    decreases to - from,
{
    if from >= to {
        0
    } else {
        byte_sum(data, from, to - 1) + data[to - 1]
    }
}

/// The length of the whole page that begins at `at`: its header, the lacing
/// values that the header counts, and the payload they add up to.
pub open spec fn page_len(data: Seq<u8>, at: int) -> Option<int> {
    if at + PAGE_HEADER <= data.len() && capture_at(data, at) {
        let laces = data[at + 26] as int;
        if at + PAGE_HEADER + laces <= data.len() {
            let len = PAGE_HEADER + laces + byte_sum(
                data,
                at + PAGE_HEADER,
                at + PAGE_HEADER + laces,
            );
            if at + len <= data.len() {
                Some(len)
            } else {
                None
            }
        } else {
            None
        }
    } else {
        None
    }
}

/// The pages from `at` on, as (offset, length), up to the first place where no
/// whole page begins.
pub open spec fn pages_from(data: Seq<u8>, at: int) -> Seq<(int, int)>
    decreases data.len() - at,
{
    match page_len(data, at) {
        Some(len) => if 0 <= at && 0 < len {
            seq![(at, len)] + pages_from(data, at + len)
        } else {
            Seq::empty()
        },
        None => Seq::empty(),
    }
}

/// The pages of `data`.
pub open spec fn pages_of(data: Seq<u8>) -> Seq<(int, int)> {
    pages_from(data, 0)
}

/// A page list as mathematical integers.
pub open spec fn as_ints(pages: Seq<(usize, usize)>) -> Seq<(int, int)> {
    pages.map_values(|p: (usize, usize)| (p.0 as int, p.1 as int))
}

proof fn lemma_byte_sum_bounds(data: Seq<u8>, from: int, to: int)
    requires
        from <= to,
    ensures
        0 <= byte_sum(data, from, to) <= 255 * (to - from),
    decreases to - from,
{
    if from < to {
        lemma_byte_sum_bounds(data, from, to - 1);
    }
}

proof fn lemma_page_len_positive(data: Seq<u8>, at: int)
    ensures
        page_len(data, at) matches Some(len) ==> len >= PAGE_HEADER && 0 <= at && at + len
            <= data.len(),
{
    if at + PAGE_HEADER <= data.len() && capture_at(data, at) {
        let laces = data[at + 26] as int;
        lemma_byte_sum_bounds(data, at + PAGE_HEADER, at + PAGE_HEADER + laces);
    }
}

/// Ogg page boundaries as (offset, length).
pub fn ogg_pages(data: &[u8]) -> (pages: Vec<(usize, usize)>)
    ensures
        as_ints(pages@) == pages_of(data@),
{
    let mut pages: Vec<(usize, usize)> = Vec::new();
    let mut pos: usize = 0;
    let n = data.len();
    assert(as_ints(pages@) + pages_from(data@, 0) =~= pages_of(data@));
    while n - pos >= PAGE_HEADER && data[pos] == 0x4f && data[pos + 1] == 0x67 && data[pos + 2]
        == 0x67 && data[pos + 3] == 0x53
        invariant
            n == data@.len(),
            pos <= n,
            as_ints(pages@) + pages_from(data@, pos as int) == pages_of(data@),
        ensures
            page_len(data@, pos as int) is None,
            as_ints(pages@) + pages_from(data@, pos as int) == pages_of(data@),
        decreases n - pos,
    {
        let laces = data[pos + 26] as usize;
        if laces > n - pos - PAGE_HEADER {
            break;
        }
        let first = pos + PAGE_HEADER;
        let mut sum: usize = 0;
        let mut i: usize = 0;
        while i < laces
            invariant
                n == data@.len(),
                i <= laces <= 255,
                first + laces <= n,
                sum == byte_sum(data@, first as int, first + i),
                sum <= 255 * i,
            decreases laces - i,
        {
            sum += data[first + i] as usize;
            i += 1;
        }
        if sum > n - first - laces {
            break;
        }
        let len = PAGE_HEADER + laces + sum;
        let ghost before = as_ints(pages@);
        let ghost rest = pages_from(data@, pos as int);
        pages.push((pos, len));
        assert(page_len(data@, pos as int) == Some(len as int));
        assert(rest == seq![(pos as int, len as int)] + pages_from(data@, pos + len));
        assert(as_ints(pages@) =~= before.push((pos as int, len as int)));
        assert(as_ints(pages@) + pages_from(data@, pos + len) =~= before + rest);
        pos += len;
    }
    assert(pages_from(data@, pos as int) =~= Seq::empty());
    assert(as_ints(pages@) + pages_from(data@, pos as int) =~= as_ints(pages@));
    pages
}

// ----------------------------------------------------------- where audio begins

/// How many of the lacing values in `from..to` end a packet.
pub open spec fn packet_ends(data: Seq<u8>, from: int, to: int) -> int
    decreases to - from,
{
    if from >= to {
        0
    } else {
        packet_ends(data, from, to - 1) + if data[to - 1] < 255 {
            1int
        } else {
            0int
        }
    }
}

/// How many packets end on the first `k` pages.
pub open spec fn packets_by(data: Seq<u8>, pages: Seq<(int, int)>, k: int) -> int
    decreases k,
{
    if k <= 0 {
        0
    } else {
        let off = pages[k - 1].0;
        packets_by(data, pages, k - 1) + packet_ends(
            data,
            off + PAGE_HEADER,
            off + PAGE_HEADER + data[off + 26],
        )
    }
}

/// The first page, from page `k` on, after which three packets have ended; the
/// number of pages when there is none.
pub open spec fn audio_start_from(data: Seq<u8>, pages: Seq<(int, int)>, k: int) -> int
    decreases pages.len() - k,
{
    if k >= pages.len() {
        pages.len() as int
    } else if packets_by(data, pages, k + 1) >= 3 {
        k + 1
    } else {
        audio_start_from(data, pages, k + 1)
    }
}

/// The index of the first audio page: the page after the three Vorbis header
/// packets.
pub open spec fn audio_start(data: Seq<u8>, pages: Seq<(int, int)>) -> int {
    audio_start_from(data, pages, 0)
}

/// Whether every entry points at a page header whose lacing table is in `data`.
pub open spec fn headers_inside(data: Seq<u8>, pages: Seq<(int, int)>) -> bool {
    forall|i: int|
        #![trigger pages[i]]
        0 <= i < pages.len() ==> 0 <= pages[i].0 && pages[i].0 + PAGE_HEADER + data[pages[i].0 + 26]
            <= data.len()
}

/// The pages of a stream have their headers in it.
pub proof fn lemma_pages_inside(data: Seq<u8>, at: int)
    ensures
        headers_inside(data, pages_from(data, at)),
    decreases data.len() - at,
{
    lemma_page_len_positive(data, at);
    if let Some(len) = page_len(data, at) {
        if 0 <= at && 0 < len {
            let laces = data[at + 26] as int;
            lemma_byte_sum_bounds(data, at + PAGE_HEADER, at + PAGE_HEADER + laces);
            lemma_pages_inside(data, at + len);
            let rest = pages_from(data, at + len);
            let all = pages_from(data, at);
            assert forall|i: int| #![trigger all[i]] 0 <= i < all.len() implies 0 <= all[i].0
                && all[i].0 + PAGE_HEADER + data[all[i].0 + 26] <= data.len() by {
                if i > 0 {
                    assert(all[i] == rest[i - 1]);
                }
            }
        }
    }
}

/// Index of the first audio page: the page after the three Vorbis header
/// packets (id, comment, setup), each of which ends on a lacing below 255. No
/// page behind those is looked at.
pub fn audio_start_index(data: &[u8], pages: &[(usize, usize)]) -> (index: usize)
    requires
        headers_inside(
            data@,
            as_ints(pages@).take(audio_start(data@, as_ints(pages@))),
        ),
    ensures
        index == audio_start(data@, as_ints(pages@)),
{
    let ghost ps = as_ints(pages@);
    let n = pages.len();
    let size = data.len();
    let mut ended: usize = 0;
    let mut k: usize = 0;
    while k < n
        invariant
            n == pages@.len(),
            size == data@.len(),
            ps == as_ints(pages@),
            headers_inside(data@, ps.take(audio_start(data@, ps))),
            k <= n,
            ended < 3,
            ended == packets_by(data@, ps, k as int),
            audio_start(data@, ps) == audio_start_from(data@, ps, k as int),
        decreases n - k,
    {
        let off = pages[k].0;
        proof {
            lemma_audio_start_bounds(data@, ps, k as int);
            assert(ps.take(audio_start(data@, ps))[k as int] == ps[k as int]);
        }
        assert(ps[k as int].0 == off);
        let laces = data[off + 26] as usize;
        let first = off + PAGE_HEADER;
        let mut i: usize = 0;
        let ghost base = ended as int;
        while i < laces
            invariant
                i <= laces <= 255,
                first + laces <= size == data@.len(),
                0 <= base < 3,
                ended == base + packet_ends(data@, first as int, first + i),
                ended <= 3 + i,
            decreases laces - i,
        {
            if data[first + i] < 255 {
                ended += 1;
            }
            i += 1;
        }
        assert(ended == packets_by(data@, ps, k + 1));
        if ended >= 3 {
            return k + 1;
        }
        k += 1;
    }
    n
}

// --------------------------------------------------------------------- seeking

/// Eight bytes, least significant first.
pub open spec fn le_u64(data: Seq<u8>, at: int) -> int {
    data[at] + data[at + 1] * 0x100 + data[at + 2] * 0x1_0000 + data[at + 3] * 0x100_0000 + data[at
        + 4] * 0x1_0000_0000 + data[at + 5] * 0x100_0000_0000 + data[at + 6] * 0x1_0000_0000_0000
        + data[at + 7] * 0x100_0000_0000_0000
}

/// The granule position of the page at `off`: a signed count of samples, where
/// -1 marks a page on which no packet ends.
pub open spec fn granule(data: Seq<u8>, off: int) -> int {
    let bits = le_u64(data, off + 6);
    if bits < 0x8000_0000_0000_0000 {
        bits
    } else {
        bits - 0x1_0000_0000_0000_0000
    }
}

/// The sample that plays at `pos_ms`.
pub open spec fn target_sample(pos_ms: u32) -> int {
    pos_ms * 44_100 / 1000
}

/// The first page, from page `k` on, that reaches `sample`.
pub open spec fn page_reaching(
    data: Seq<u8>,
    pages: Seq<(int, int)>,
    k: int,
    sample: int,
) -> Option<int>
    decreases pages.len() - k,
{
    if k >= pages.len() {
        None
    } else if granule(data, pages[k].0) >= sample {
        Some(k)
    } else {
        page_reaching(data, pages, k + 1, sample)
    }
}

/// The page that playback from `pos_ms` begins on. The very top of the track is
/// taken verbatim, whatever its granule says.
pub open spec fn first_page_at(data: Seq<u8>, pos_ms: u32) -> Option<int> {
    let pages = pages_of(data);
    let start = audio_start(data, pages);
    if start >= pages.len() {
        None
    } else if pos_ms == 0 {
        Some(start)
    } else {
        page_reaching(data, pages, start, target_sample(pos_ms))
    }
}

/// The end of the last whole page.
pub open spec fn stream_end(data: Seq<u8>) -> int {
    let pages = pages_of(data);
    if pages.len() == 0 {
        0
    } else {
        pages.last().0 + pages.last().1
    }
}

/// The header run and the tail run of the stream that starts at `pos_ms`.
pub open spec fn stream_ranges(data: Seq<u8>, pos_ms: u32) -> Option<((int, int), (int, int))> {
    match first_page_at(data, pos_ms) {
        Some(k) => {
            let pages = pages_of(data);
            Some(((0, pages[audio_start(data, pages)].0), (pages[k].0, stream_end(data))))
        },
        None => None,
    }
}

/// The bytes of the stream that starts at `pos_ms`: the codec headers, then
/// every page from that position on.
pub open spec fn stream_at(data: Seq<u8>, pos_ms: u32) -> Option<Seq<u8>> {
    match stream_ranges(data, pos_ms) {
        Some((header, tail)) => Some(
            data.subrange(header.0, header.1) + data.subrange(tail.0, tail.1),
        ),
        None => None,
    }
}

/// Consecutive pages: each begins where the one before it ends.
pub open spec fn tiles(pages: Seq<(int, int)>, from: int, to: int) -> bool {
    &&& pages.len() == 0 ==> from == to
    &&& pages.len() > 0 ==> pages[0].0 == from && pages.last().0 + pages.last().1 == to
    &&& forall|i: int|
        #![trigger pages[i]]
        0 <= i < pages.len() ==> pages[i].1 >= PAGE_HEADER && from <= pages[i].0 && pages[i].0
            + pages[i].1 <= to
    &&& forall|i: int, j: int|
        #![trigger pages[i], pages[j]]
        0 <= i < j < pages.len() && j == i + 1 ==> pages[j].0 == pages[i].0 + pages[i].1
}

proof fn lemma_pages_from_tile(data: Seq<u8>, at: int)
    requires
        0 <= at <= data.len(),
    ensures
        ({
            let pages = pages_from(data, at);
            let end = if pages.len() == 0 {
                at
            } else {
                pages.last().0 + pages.last().1
            };
            tiles(pages, at, end) && at <= end <= data.len()
        }),
    decreases data.len() - at,
{
    lemma_page_len_positive(data, at);
    if let Some(len) = page_len(data, at) {
        let rest = pages_from(data, at + len);
        let all = pages_from(data, at);
        lemma_pages_from_tile(data, at + len);
        assert(all =~= seq![(at, len)] + rest);
        assert(all.len() == rest.len() + 1);
        assert forall|i: int| 0 < i < all.len() implies all[i] == rest[i - 1] by {}
        if rest.len() > 0 {
            assert(all.last() == rest.last());
        }
        let end = all.last().0 + all.last().1;
        assert forall|i: int| #![trigger all[i]] 0 <= i < all.len() implies all[i].1 >= PAGE_HEADER
            && at <= all[i].0 && all[i].0 + all[i].1 <= end by {
            if i > 0 {
                assert(all[i] == rest[i - 1]);
            }
        }
        assert forall|i: int, j: int|
            #![trigger all[i], all[j]]
            0 <= i < j < all.len() && j == i + 1 implies all[j].0 == all[i].0 + all[i].1 by {
            assert(all[j] == rest[j - 1]);
            if i > 0 {
                assert(all[i] == rest[i - 1]);
            }
        }
    }
}

/// The pages of a stream lie end to end from its first byte: no gap, no overlap.
pub proof fn law_pages_tile_the_stream(data: Seq<u8>)
    ensures
        tiles(pages_of(data), 0, stream_end(data)),
        stream_end(data) <= data.len(),
{
    lemma_pages_from_tile(data, 0);
}

proof fn lemma_audio_start_bounds(data: Seq<u8>, pages: Seq<(int, int)>, k: int)
    requires
        0 <= k <= pages.len(),
    ensures
        k <= audio_start_from(data, pages, k) <= pages.len(),
        audio_start_from(data, pages, k) < pages.len() ==> k < audio_start_from(data, pages, k),
    decreases pages.len() - k,
{
    if k < pages.len() && packets_by(data, pages, k + 1) < 3 {
        lemma_audio_start_bounds(data, pages, k + 1);
    }
}

proof fn lemma_page_reaching(data: Seq<u8>, pages: Seq<(int, int)>, k: int, sample: int)
    requires
        0 <= k <= pages.len(),
    ensures
        page_reaching(data, pages, k, sample) matches Some(r) ==> k <= r < pages.len() && granule(
            data,
            pages[r].0,
        ) >= sample && (forall|i: int|
            #![trigger pages[i]]
            k <= i < r ==> granule(data, pages[i].0) < sample),
        page_reaching(data, pages, k, sample) is None ==> forall|i: int|
            #![trigger pages[i]]
            k <= i < pages.len() ==> granule(data, pages[i].0) < sample,
    decreases pages.len() - k,
{
    if k < pages.len() && granule(data, pages[k].0) < sample {
        lemma_page_reaching(data, pages, k + 1, sample);
    }
}

/// Both runs of a stream lie in the buffer, and the tail does not begin before
/// the headers end.
pub proof fn law_stream_ranges_are_inside(data: Seq<u8>, pos_ms: u32)
    ensures
        stream_ranges(data, pos_ms) matches Some((header, tail)) ==> {
            &&& header.0 == 0
            &&& 0 < header.1 <= tail.0 < tail.1
            &&& tail.1 == stream_end(data) <= data.len()
        },
{
    let pages = pages_of(data);
    law_pages_tile_the_stream(data);
    let start = audio_start(data, pages);
    lemma_audio_start_bounds(data, pages, 0);
    if start < pages.len() {
        lemma_page_reaching(data, pages, start, target_sample(pos_ms));
        if let Some(k) = first_page_at(data, pos_ms) {
            lemma_tiles_monotone(pages, 0, stream_end(data), start, k);
            lemma_tiles_monotone(pages, 0, stream_end(data), 0, start);
            assert(pages[k].1 >= PAGE_HEADER);
            assert(pages[0].1 >= PAGE_HEADER);
        }
    }
}

proof fn lemma_tiles_monotone(pages: Seq<(int, int)>, from: int, to: int, i: int, j: int)
    requires
        tiles(pages, from, to),
        0 <= i <= j < pages.len(),
    ensures
        pages[i].0 <= pages[j].0,
        i < j ==> pages[i].0 + pages[i].1 <= pages[j].0,
    decreases j - i,
{
    if i < j {
        lemma_tiles_monotone(pages, from, to, i, j - 1);
        assert(pages[j].0 == pages[j - 1].0 + pages[j - 1].1);
        assert(pages[j - 1].1 >= PAGE_HEADER);
    }
}

/// The granule position of the page at `off`, when it is not negative.
fn granule_at(data: &[u8], off: usize) -> (g: Option<u64>)
    requires
        off + PAGE_HEADER <= data@.len(),
    ensures
        g matches Some(x) ==> x == granule(data@, off as int),
        g is None <==> granule(data@, off as int) < 0,
{
    let size = data.len();
    assert(off + PAGE_HEADER <= size);
    let bits: u64 = data[off + 6] as u64 + data[off + 7] as u64 * 0x100 + data[off + 8] as u64
        * 0x1_0000 + data[off + 9] as u64 * 0x100_0000 + data[off + 10] as u64 * 0x1_0000_0000
        + data[off + 11] as u64 * 0x100_0000_0000 + data[off + 12] as u64 * 0x1_0000_0000_0000
        + data[off + 13] as u64 * 0x100_0000_0000_0000;
    assert(bits == le_u64(data@, off + 6));
    if bits < 0x8000_0000_0000_0000 {
        Some(bits)
    } else {
        None
    }
}

/// The two byte ranges that make a playable Ogg stream starting at `pos_ms`:
/// the codec header pages, then every audio page from that position on. Both
/// runs are contiguous, so no copying is needed to splice them.
///
/// `None` when `pos_ms` lands past the last audio page, so the caller can treat
/// the seek as end-of-track.
pub fn substream_ranges(data: &[u8], pos_ms: u32) -> (out: Option<(Range<usize>, Range<usize>)>)
    ensures
        out is Some <==> stream_ranges(data@, pos_ms) is Some,
        out matches Some((header, tail)) ==> {
            &&& stream_ranges(data@, pos_ms) == Some(
                ((header.start as int, header.end as int), (tail.start as int, tail.end as int)),
            )
            &&& header.start == 0
            &&& header.end <= tail.start < tail.end <= data@.len()
        },
{
    let pages = ogg_pages(data);
    let ghost ps = pages_of(data@);
    proof {
        lemma_pages_inside(data@, 0);
        law_pages_tile_the_stream(data@);
        lemma_audio_start_bounds(data@, ps, 0);
        law_stream_ranges_are_inside(data@, pos_ms);
    }
    assert(as_ints(pages@).len() == pages@.len());
    let n = pages.len();
    assert(headers_inside(data@, ps.take(audio_start(data@, ps)))) by {
        let looked_at = ps.take(audio_start(data@, ps));
        assert forall|i: int| #![trigger looked_at[i]] 0 <= i < looked_at.len() implies 0
            <= looked_at[i].0 && looked_at[i].0 + PAGE_HEADER + data@[looked_at[i].0 + 26]
            <= data@.len() by {
            assert(looked_at[i] == ps[i]);
        }
    }
    let start = audio_start_index(data, pages.as_slice());
    if start >= n {
        return None;
    }
    let target: u64 = pos_ms as u64 * SAMPLE_RATE / 1000;
    let mut k: usize = start;
    if pos_ms != 0 {
        let mut found = false;
        while k < n && !found
            invariant
                n == pages@.len(),
                ps == as_ints(pages@),
                headers_inside(data@, ps),
                start <= k <= n,
                target == target_sample(pos_ms),
                page_reaching(data@, ps, start as int, target as int) == page_reaching(
                    data@,
                    ps,
                    k as int,
                    target as int,
                ),
                found ==> k < n && granule(data@, ps[k as int].0) >= target,
            decreases n - k, if found { 0int } else { 1int },
        {
            let off = pages[k].0;
            assert(ps[k as int].0 == off);
            match granule_at(data, off) {
                Some(g) => {
                    if g >= target {
                        found = true;
                    } else {
                        k += 1;
                    }
                },
                None => {
                    k += 1;
                },
            }
        }
        if !found {
            return None;
        }
    }
    assert(first_page_at(data@, pos_ms) == Some(k as int));
    assert(ps[start as int].0 == pages@[start as int].0);
    assert(ps[k as int].0 == pages@[k as int].0);
    assert(ps.last().0 == pages@[n - 1].0 && ps.last().1 == pages@[n - 1].1);
    let last = pages[n - 1];
    let size = data.len();
    assert(last.0 + last.1 <= size);
    assert(last.0 + last.1 == stream_end(data@));
    Some(
        (
            Range { start: 0, end: pages[start].0 },
            Range { start: pages[k].0, end: last.0 + last.1 },
        ),
    )
}

// ------------------------------------------------------- what a stream contains

/// At the top of the track the stream is every whole page, verbatim.
pub proof fn law_stream_at_zero_is_the_whole_track(data: Seq<u8>)
    ensures
        stream_at(data, 0) matches Some(bytes) ==> bytes == data.take(stream_end(data)),
        stream_at(data, 0) is Some <==> audio_start(data, pages_of(data)) < pages_of(data).len(),
{
    law_stream_ranges_are_inside(data, 0);
    if let Some((header, tail)) = stream_ranges(data, 0) {
        assert(data.subrange(header.0, header.1) + data.subrange(tail.0, tail.1) =~= data.take(
            stream_end(data),
        ));
    }
}

/// Playback begins on the first audio page that reaches the asked position; a
/// position that no audio page reaches has no stream.
pub proof fn law_a_seek_lands_on_the_first_page_that_reaches_it(data: Seq<u8>, pos_ms: u32)
    requires
        pos_ms != 0,
    ensures
        ({
            let pages = pages_of(data);
            let start = audio_start(data, pages);
            match first_page_at(data, pos_ms) {
                Some(k) => {
                    &&& start <= k < pages.len()
                    &&& granule(data, pages[k].0) >= target_sample(pos_ms)
                    &&& forall|i: int|
                        #![trigger pages[i]]
                        start <= i < k ==> granule(data, pages[i].0) < target_sample(pos_ms)
                },
                None => forall|i: int|
                    #![trigger pages[i]]
                    start <= i < pages.len() ==> granule(data, pages[i].0) < target_sample(pos_ms),
            }
        }),
{
    let pages = pages_of(data);
    lemma_audio_start_bounds(data, pages, 0);
    lemma_page_reaching(data, pages, audio_start(data, pages), target_sample(pos_ms));
}

proof fn lemma_page_reaching_monotone(
    data: Seq<u8>,
    pages: Seq<(int, int)>,
    k: int,
    early: int,
    late: int,
)
    requires
        0 <= k <= pages.len(),
        early <= late,
    ensures
        page_reaching(data, pages, k, late) matches Some(r) ==> page_reaching(data, pages, k, early)
            is Some && page_reaching(data, pages, k, early)->0 <= r,
    decreases pages.len() - k,
{
    lemma_page_reaching(data, pages, k, late);
    if k < pages.len() && granule(data, pages[k].0) < early {
        lemma_page_reaching_monotone(data, pages, k + 1, early, late);
    }
}

/// Seeking further never plays more: where a later position has a stream, an
/// earlier one has it too, beginning no later.
pub proof fn law_seeking_further_begins_no_earlier(data: Seq<u8>, early: u32, late: u32)
    requires
        early <= late,
    ensures
        stream_ranges(data, late) matches Some((_, late_tail)) ==> {
            &&& stream_ranges(data, early) matches Some((_, early_tail))
            &&& early_tail.0 <= late_tail.0
            &&& early_tail.1 == late_tail.1
        },
{
    let pages = pages_of(data);
    let start = audio_start(data, pages);
    law_pages_tile_the_stream(data);
    lemma_audio_start_bounds(data, pages, 0);
    if start < pages.len() {
        lemma_page_reaching(data, pages, start, target_sample(late));
        lemma_page_reaching(data, pages, start, target_sample(early));
        assert(target_sample(early) <= target_sample(late)) by (nonlinear_arith)
            requires
                early <= late,
                target_sample(early) == early * 44_100 / 1000,
                target_sample(late) == late * 44_100 / 1000,
        ;
        lemma_page_reaching_monotone(
            data,
            pages,
            start,
            target_sample(early),
            target_sample(late),
        );
        if let Some(l) = first_page_at(data, late) {
            let e = first_page_at(data, early)->0;
            lemma_tiles_monotone(pages, 0, stream_end(data), e, l);
        }
    }
}

/// The pages of `pages`, each moved by `shift` bytes.
pub open spec fn moved(pages: Seq<(int, int)>, shift: int) -> Seq<(int, int)> {
    pages.map_values(|p: (int, int)| (p.0 + shift, p.1))
}

proof fn lemma_byte_sum_moved(data: Seq<u8>, other: Seq<u8>, from: int, to: int, shift: int)
    requires
        forall|b: int| #![trigger data[b]] from <= b < to ==> other[b + shift] == data[b],
    ensures
        byte_sum(other, from + shift, to + shift) == byte_sum(data, from, to),
    decreases to - from,
{
    if from < to {
        lemma_byte_sum_moved(data, other, from, to - 1, shift);
        assert(other[to - 1 + shift] == data[to - 1]);
    }
}

proof fn lemma_page_moved(data: Seq<u8>, other: Seq<u8>, at: int, shift: int)
    requires
        page_len(data, at) is Some,
        0 <= at + shift,
        at + shift + page_len(data, at)->0 <= other.len(),
        forall|b: int|
            #![trigger data[b]]
            at <= b < at + page_len(data, at)->0 ==> other[b + shift] == data[b],
    ensures
        page_len(other, at + shift) == page_len(data, at),
{
    let len = page_len(data, at)->0;
    let laces = data[at + 26] as int;
    lemma_byte_sum_bounds(data, at + PAGE_HEADER, at + PAGE_HEADER + laces);
    assert(other[at + shift] == data[at]);
    assert(other[at + 1 + shift] == data[at + 1]);
    assert(other[at + 2 + shift] == data[at + 2]);
    assert(other[at + 3 + shift] == data[at + 3]);
    assert(other[at + 26 + shift] == data[at + 26]);
    lemma_byte_sum_moved(
        data,
        other,
        at + PAGE_HEADER,
        at + PAGE_HEADER + laces,
        shift,
    );
}

proof fn lemma_pages_are_pages(data: Seq<u8>, at: int, i: int)
    requires
        0 <= at <= data.len(),
        0 <= i < pages_from(data, at).len(),
    ensures
        page_len(data, pages_from(data, at)[i].0) == Some(pages_from(data, at)[i].1),
    decreases data.len() - at,
{
    lemma_page_len_positive(data, at);
    if i > 0 {
        let len = page_len(data, at)->0;
        lemma_pages_are_pages(data, at + len, i - 1);
        assert(pages_from(data, at)[i] == pages_from(data, at + len)[i - 1]);
    }
}

/// Where page `i` begins; the end of the stream for the page after the last.
spec fn boundary(data: Seq<u8>, i: int) -> int {
    if i < pages_of(data).len() {
        pages_of(data)[i].0
    } else {
        stream_end(data)
    }
}

proof fn lemma_run_moved(data: Seq<u8>, other: Seq<u8>, i: int, j: int, shift: int)
    requires
        0 <= i <= j <= pages_of(data).len(),
        0 <= boundary(data, i) + shift,
        boundary(data, j) + shift <= other.len(),
        forall|b: int|
            #![trigger data[b]]
            boundary(data, i) <= b < boundary(data, j) ==> other[b + shift] == data[b],
    ensures
        pages_from(other, boundary(data, i) + shift) == moved(
            pages_of(data).subrange(i, j),
            shift,
        ) + pages_from(other, boundary(data, j) + shift),
    decreases j - i,
{
    let pages = pages_of(data);
    law_pages_tile_the_stream(data);
    if i < j {
        let at = pages[i].0;
        let len = pages[i].1;
        lemma_pages_are_pages(data, 0, i);
        assert(boundary(data, i + 1) == at + len) by {
            if i + 1 < pages.len() {
                assert(pages[i + 1].0 == pages[i].0 + pages[i].1);
            }
        }
        assert(at + len <= boundary(data, j)) by {
            if j < pages.len() {
                lemma_tiles_monotone(pages, 0, stream_end(data), i, j);
            }
        }
        assert(pages[i].1 >= PAGE_HEADER);
        lemma_page_moved(data, other, at, shift);
        lemma_run_moved(data, other, i + 1, j, shift);
        assert(pages_from(other, at + shift) =~= moved(pages.subrange(i, j), shift) + pages_from(
            other,
            boundary(data, j) + shift,
        )) by {
            assert(pages_from(other, at + shift) == seq![(at + shift, len)] + pages_from(
                other,
                at + shift + len,
            ));
            assert(moved(pages.subrange(i, j), shift) =~= seq![(at + shift, len)] + moved(
                pages.subrange(i + 1, j),
                shift,
            ));
        }
    } else {
        assert(moved(pages.subrange(i, j), shift) =~= Seq::empty());
    }
}

/// The spliced stream is itself a well-formed run of pages: the header pages
/// where they were, then the pages from the landing page on, moved up to meet
/// them, and nothing after.
pub proof fn law_a_stream_is_headers_then_audio(data: Seq<u8>, pos_ms: u32)
    ensures
        stream_at(data, pos_ms) matches Some(bytes) ==> {
            let pages = pages_of(data);
            let start = audio_start(data, pages);
            let first = first_page_at(data, pos_ms)->0;
            &&& pages_of(bytes) == pages.take(start) + moved(
                pages.skip(first),
                pages[start].0 - pages[first].0,
            )
            &&& stream_end(bytes) == bytes.len()
        },
{
    law_stream_ranges_are_inside(data, pos_ms);
    law_pages_tile_the_stream(data);
    if let Some(bytes) = stream_at(data, pos_ms) {
        let pages = pages_of(data);
        let n = pages.len() as int;
        let start = audio_start(data, pages);
        let first = first_page_at(data, pos_ms)->0;
        lemma_audio_start_bounds(data, pages, 0);
        lemma_page_reaching(data, pages, start, target_sample(pos_ms));
        let shift = pages[start].0 - pages[first].0;
        lemma_tiles_monotone(pages, 0, stream_end(data), start, first);
        assert(boundary(data, 0) == 0);
        assert forall|b: int| #![trigger data[b]] 0 <= b < pages[start].0 implies bytes[b + 0]
            == data[b] by {}
        lemma_run_moved(data, bytes, 0, start, 0);
        assert forall|b: int|
            #![trigger data[b]]
            pages[first].0 <= b < stream_end(data) implies bytes[b + shift] == data[b] by {}
        lemma_run_moved(data, bytes, first, n, shift);
        let end = bytes.len() as int;
        assert(stream_end(data) + shift == end);
        assert(page_len(bytes, end) is None);
        assert(pages_from(bytes, end) =~= Seq::empty());
        assert(pages.subrange(0, start) =~= pages.take(start));
        assert(pages.subrange(first, n) =~= pages.skip(first));
        assert(moved(pages.take(start), 0) =~= pages.take(start));
        assert(pages_of(bytes) =~= pages.take(start) + moved(pages.skip(first), shift));
        assert(pages_of(bytes).last() == (pages[n - 1].0 + shift, pages[n - 1].1));
    }
}

/// A second holds forty-four thousand one hundred samples, and a later position
/// never plays an earlier sample.
pub proof fn law_a_position_counts_its_samples(secs: u32, early: u32, late: u32)
    requires
        secs * 1000 <= u32::MAX,
        early <= late,
    ensures
        target_sample((secs * 1000) as u32) == secs * 44_100,
        target_sample(early) <= target_sample(late),
{
}

/// The lacing values of a run add up part by part, and those that end a packet,
/// being below the largest, are counted part by part.
pub proof fn law_lacing_values_add_up(data: Seq<u8>, from: int, mid: int, to: int)
    requires
        from <= mid <= to,
    ensures
        byte_sum(data, from, to) == byte_sum(data, from, mid) + byte_sum(data, mid, to),
        packet_ends(data, from, to) == packet_ends(data, from, mid) + packet_ends(data, mid, to),
        byte_sum(data, from, from + 1) == data[from],
        data[from] == 255 ==> packet_ends(data, from, from + 1) == 0,
        data[from] < 255 ==> packet_ends(data, from, from + 1) == 1,
    decreases to - mid,
{
    reveal_with_fuel(byte_sum, 2);
    reveal_with_fuel(packet_ends, 2);
    if mid < to {
        law_lacing_values_add_up(data, from, mid, to - 1);
    }
}

/// A page as it is written: the capture pattern, the rest of the fixed header,
/// how many lacing values there are, these values, and the payload.
pub open spec fn page_bytes(head: Seq<u8>, laces: Seq<u8>, payload: Seq<u8>) -> Seq<u8> {
    seq![0x4fu8, 0x67u8, 0x67u8, 0x53u8] + head + seq![laces.len() as u8] + laces + payload
}

/// A page that is written is read: it is found whole at the front, and what
/// stands behind it is read as if it stood alone.
pub proof fn law_a_written_page_is_read(
    head: Seq<u8>,
    laces: Seq<u8>,
    payload: Seq<u8>,
    rest: Seq<u8>,
)
    requires
        head.len() == 22,
        laces.len() <= 255,
        payload.len() == byte_sum(laces, 0, laces.len() as int),
    ensures
        ({
            let page = page_bytes(head, laces, payload);
            pages_of(page + rest) == seq![(0int, page.len() as int)] + moved(
                pages_of(rest),
                page.len() as int,
            )
        }),
{
    let page = page_bytes(head, laces, payload);
    let data = page + rest;
    let n = laces.len() as int;
    assert(data[0] == 0x4f && data[1] == 0x67 && data[2] == 0x67 && data[3] == 0x53);
    assert(data[26] == laces.len() as u8);
    assert forall|b: int| #![trigger laces[b]] 0 <= b < n implies data[b + 27] == laces[b] by {}
    lemma_byte_sum_moved(laces, data, 0, n, 27);
    assert(page_len(data, 0) == Some(page.len() as int));
    lemma_pages_behind(page, rest, 0);
}

proof fn lemma_pages_behind(front: Seq<u8>, rest: Seq<u8>, at: int)
    requires
        0 <= at <= rest.len(),
    ensures
        pages_from(front + rest, front.len() + at) == moved(
            pages_from(rest, at),
            front.len() as int,
        ),
    decreases rest.len() - at,
{
    let data = front + rest;
    let n = front.len() as int;
    assert forall|b: int| #![trigger rest[b]] 0 <= b < rest.len() implies data[b + n] == rest[b] by {}
    assert(page_len(data, n + at) == page_len(rest, at)) by {
        if at + PAGE_HEADER <= rest.len() {
            assert(data[n + at] == rest[at]);
            assert(data[n + at + 1] == rest[at + 1]);
            assert(data[n + at + 2] == rest[at + 2]);
            assert(data[n + at + 3] == rest[at + 3]);
            assert(data[n + at + 26] == rest[at + 26]);
            let laces = rest[at + 26] as int;
            if at + PAGE_HEADER + laces <= rest.len() {
                lemma_byte_sum_moved(
                    rest,
                    data,
                    at + PAGE_HEADER,
                    at + PAGE_HEADER + laces,
                    n,
                );
            }
        }
    }
    lemma_page_len_positive(rest, at);
    match page_len(rest, at) {
        Some(len) => {
            lemma_pages_behind(front, rest, at + len);
            assert(pages_from(data, n + at) =~= moved(pages_from(rest, at), n));
        },
        None => {
            assert(pages_from(data, n + at) =~= moved(pages_from(rest, at), n));
        },
    }
}

/// Audio begins on the page behind the one on which the third packet ends, and
/// on none before it; where fewer packets end, there is no audio.
pub proof fn law_audio_begins_behind_three_packets(data: Seq<u8>, pages: Seq<(int, int)>, k: int)
    requires
        0 <= k < pages.len(),
    ensures
        ({
            let start = audio_start(data, pages);
            &&& 0 < start <= pages.len()
            &&& k < start ==> packets_by(data, pages, k) < 3
            &&& start < pages.len() ==> packets_by(data, pages, start) >= 3
        }),
        packets_by(data, pages, 0) == 0,
        packets_by(data, pages, k + 1) == packets_by(data, pages, k) + packet_ends(
            data,
            pages[k].0 + 27,
            pages[k].0 + 27 + data[pages[k].0 + 26],
        ),
{
    lemma_audio_start_first(data, pages, 0, k);
}

proof fn lemma_audio_start_first(data: Seq<u8>, pages: Seq<(int, int)>, from: int, k: int)
    requires
        0 <= from < pages.len(),
        packets_by(data, pages, from) < 3,
    ensures
        from < audio_start_from(data, pages, from) <= pages.len(),
        from <= k < audio_start_from(data, pages, from) ==> packets_by(data, pages, k) < 3,
        audio_start_from(data, pages, from) < pages.len() ==> packets_by(
            data,
            pages,
            audio_start_from(data, pages, from),
        ) >= 3,
    decreases pages.len() - from,
{
    reveal_with_fuel(audio_start_from, 2);
    if packets_by(data, pages, from + 1) < 3 && from + 1 < pages.len() {
        lemma_audio_start_first(data, pages, from + 1, k);
    }
}

/// A granule position is read from its eight bytes, the least significant first,
/// as a signed number.
pub proof fn law_a_granule_is_read_byte_by_byte(data: Seq<u8>, off: int)
    ensures
        ({
            let g = granule(data, off);
            let bits = if g < 0 {
                g + 0x1_0000_0000_0000_0000
            } else {
                g
            };
            &&& bits % 0x100 == data[off + 6]
            &&& bits / 0x100 % 0x100 == data[off + 7]
            &&& bits / 0x1_0000 % 0x100 == data[off + 8]
            &&& bits / 0x100_0000 % 0x100 == data[off + 9]
            &&& bits / 0x1_0000_0000 % 0x100 == data[off + 10]
            &&& bits / 0x100_0000_0000 % 0x100 == data[off + 11]
            &&& bits / 0x1_0000_0000_0000 % 0x100 == data[off + 12]
            &&& bits / 0x100_0000_0000_0000 == data[off + 13]
            &&& g < 0 <==> data[off + 13] >= 128
        }),
{
    let b = le_u64(data, off + 6);
    let d0 = data[off + 6] as int;
    let d1 = data[off + 7] as int;
    let d2 = data[off + 8] as int;
    let d3 = data[off + 9] as int;
    let d4 = data[off + 10] as int;
    let d5 = data[off + 11] as int;
    let d6 = data[off + 12] as int;
    let d7 = data[off + 13] as int;
    let r6 = d6 + 0x100 * d7;
    let r5 = d5 + 0x100 * r6;
    let r4 = d4 + 0x100 * r5;
    let r3 = d3 + 0x100 * r4;
    let r2 = d2 + 0x100 * r3;
    let r1 = d1 + 0x100 * r2;
    assert(b == d0 + 0x100 * r1);
    assert(b / 0x100 == r1);
    assert(b / 0x1_0000 == r2);
    assert(b / 0x100_0000 == r3);
    assert(b / 0x1_0000_0000 == r4);
    assert(b / 0x100_0000_0000 == r5);
    assert(b / 0x1_0000_0000_0000 == r6);
    assert(b / 0x100_0000_0000_0000 == d7);
}

/// A list of pages is modelled page by page.
pub proof fn law_pages_are_modelled_one_by_one(pages: Seq<(usize, usize)>, i: int)
    requires
        0 <= i < pages.len(),
    ensures
        as_ints(pages).len() == pages.len(),
        as_ints(pages)[i].0 == pages[i].0,
        as_ints(pages)[i].1 == pages[i].1,
{
}

} // verus!
