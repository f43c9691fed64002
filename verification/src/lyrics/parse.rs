//! LRC parsing — pure, no I/O.

use crate::order;
use crate::text;
use vstd::prelude::*;
use vstd::slice::slice_subrange;

verus! {

// --------------------------------------------------------------------- stamps

/// How many bytes `c` takes in UTF-8.
pub open spec fn width(c: char) -> int {
    if c as u32 <= 0x7f {
        1
    } else if c as u32 <= 0x7ff {
        2
    } else if c as u32 <= 0xffff {
        3
    } else {
        4
    }
}

/// The fraction of a stamp, filled up with zeros to three characters.
pub open spec fn padded(fraction: Seq<char>) -> Seq<char> {
    if fraction.len() == 0 {
        seq!['0', '0', '0']
    } else if fraction.len() == 1 {
        fraction + seq!['0', '0']
    } else if fraction.len() == 2 {
        fraction + seq!['0']
    } else {
        fraction
    }
}

/// Whether a character of the padded fraction ends at its third byte.
pub open spec fn cuts_cleanly(fraction: Seq<char>) -> bool {
    let p = padded(fraction);
    width(p[0]) == 3 || width(p[0]) + width(p[1]) == 3 || width(p[0]) + width(p[1]) + width(p[2])
        == 3
}

/// The milliseconds that a fraction stands for: its first three digits, and
/// zero when they are not digits.
pub open spec fn fraction_ms(fraction: Seq<char>) -> nat {
    match text::unsigned_value(padded(fraction).take(3), u32::MAX as nat) {
        Some(n) => n,
        None => 0,
    }
}

/// The minutes, the seconds and the fraction of an `mm:ss.xx` (or `mm:ss`) tag.
pub open spec fn stamp_parts(tag: Seq<char>) -> Option<(nat, nat, Seq<char>)> {
    match text::cut(tag, ':') {
        None => None,
        Some((minutes, rest)) => {
            let (seconds, fraction) = match text::cut(rest, '.') {
                Some((seconds, fraction)) => (seconds, fraction),
                None => (rest, seq!['0']),
            };
            match (
                text::unsigned_value(minutes, u32::MAX as nat),
                text::unsigned_value(seconds, u32::MAX as nat),
            ) {
                (Some(mm), Some(ss)) => Some((mm, ss, fraction)),
                _ => None,
            }
        },
    }
}

/// The milliseconds that a tag stands for, where it is a stamp.
pub open spec fn stamp_ms(tag: Seq<char>) -> Option<nat> {
    match stamp_parts(tag) {
        Some((mm, ss, fraction)) => Some((mm * 60 + ss) * 1000 + fraction_ms(fraction)),
        None => None,
    }
}

/// Whether a tag, where it is a stamp, is one that 32 bits of milliseconds can
/// hold, with a fraction that can be cut after three bytes.
pub open spec fn stamp_defined(tag: Seq<char>) -> bool {
    match stamp_parts(tag) {
        Some((mm, ss, fraction)) => cuts_cleanly(fraction) && (mm * 60 + ss) * 1000 + fraction_ms(
            fraction,
        ) <= u32::MAX,
        None => true,
    }
}

/// How many bytes `c` takes in UTF-8.
fn char_width(c: char) -> (n: u8)
    ensures
        n == width(c),
{
    if c as u32 <= 0x7f {
        1
    } else if c as u32 <= 0x7ff {
        2
    } else if c as u32 <= 0xffff {
        3
    } else {
        4
    }
}

/// The milliseconds of a fraction, and whether it can be cut after three bytes.
fn read_fraction(fraction: &[char]) -> (out: (u64, bool))
    ensures
        out.0 == fraction_ms(fraction@),
        out.0 < 1000,
        out.1 == cuts_cleanly(fraction@),
{
    let mut p = text::copy_chars(fraction);
    while p.len() < 3
        invariant
            padded(p@) == padded(fraction@),
        decreases 3 - p@.len(),
    {
        let ghost before = p@;
        p.push('0');
        assert(padded(p@) =~= padded(before));
    }
    assert(padded(p@) == p@);
    let clean = char_width(p[0]) == 3 || char_width(p[0]) + char_width(p[1]) == 3 || char_width(
        p[0],
    ) + char_width(p[1]) + char_width(p[2]) == 3;
    let digits = slice_subrange(p.as_slice(), 0, 3);
    assert(digits@ =~= padded(fraction@).take(3));
    let ms: u64 = text::parse_unsigned(digits, u32::MAX as u64).unwrap_or(0);
    proof {
        lemma_three_digits(digits@);
    }
    (ms, clean)
}

/// Three characters never read as more than three digits.
proof fn lemma_three_digits(s: Seq<char>)
    requires
        s.len() == 3,
    ensures
        text::unsigned_value(s, u32::MAX as nat) matches Some(n) ==> n < 1000,
{
    let d = text::without_plus(s);
    if d.len() > 0 && text::all_digits(d) {
        reveal_with_fuel(text::digits_value, 5);
        if d.len() == 2 {
            assert(text::is_digit(d[0]) && text::is_digit(d[1]));
            assert(d.drop_last().last() == d[0]);
            assert(d.drop_last().drop_last().len() == 0);
        } else {
            assert(text::is_digit(d[0]) && text::is_digit(d[1]) && text::is_digit(d[2]));
            assert(d.drop_last().last() == d[1]);
            assert(d.drop_last().drop_last().last() == d[0]);
            assert(d.drop_last().drop_last().drop_last().len() == 0);
        }
    }
}

/// The milliseconds of a tag, where it is a stamp, and whether it is defined.
fn read_stamp(tag: &[char]) -> (out: (Option<u64>, bool))
    ensures
        out.0 is Some <==> stamp_ms(tag@) is Some,
        out.0 matches Some(ms) ==> stamp_ms(tag@) == Some(ms as nat),
        out.1 == stamp_defined(tag@),
{
    let n = tag.len();
    let colon = text::find_char(tag, ':');
    if colon == n {
        return (None, true);
    }
    let minutes = slice_subrange(tag, 0, colon);
    assert(minutes@ =~= tag@.take(colon as int));
    let rest = slice_subrange(tag, colon + 1, n);
    assert(rest@ =~= tag@.skip(colon + 1));
    let zero: [char; 1] = ['0'];
    assert(zero@ =~= seq!['0']);
    let dot = text::find_char(rest, '.');
    let seconds = slice_subrange(rest, 0, dot);
    assert(seconds@ =~= rest@.take(dot as int));
    assert(dot == rest@.len() ==> seconds@ =~= rest@);
    let fraction: &[char] = if dot < rest.len() {
        slice_subrange(rest, dot + 1, rest.len())
    } else {
        zero.as_slice()
    };
    assert(dot < rest@.len() ==> fraction@ =~= rest@.skip(dot + 1));
    let mm: u64 = match text::parse_unsigned(minutes, u32::MAX as u64) {
        Some(mm) => mm,
        None => {
            return (None, true);
        },
    };
    let ss: u64 = match text::parse_unsigned(seconds, u32::MAX as u64) {
        Some(ss) => ss,
        None => {
            return (None, true);
        },
    };
    let (cs, clean) = read_fraction(fraction);
    let ms = (mm * 60 + ss) * 1000 + cs;
    (Some(ms), clean && ms <= u32::MAX as u64)
}

/// Whether [`parse_lrc_stamp`] can take a tag: it cannot where the fraction has
/// a multi-byte character across its third byte, or the time is past 32 bits.
pub fn stamp_is_defined(tag: &str) -> (yes: bool)
    ensures
        yes == stamp_defined(tag@),
{
    let chars = text::chars_of(tag);
    read_stamp(chars.as_slice()).1
}

/// Parse a single `mm:ss.xx` (or `mm:ss`) LRC timestamp tag into milliseconds.
pub fn parse_lrc_stamp(tag: &str) -> (out: Option<u32>)
    requires
        stamp_defined(tag@),
    ensures
        out is Some <==> stamp_ms(tag@) is Some,
        out matches Some(ms) ==> stamp_ms(tag@) == Some(ms as nat),
{
    let chars = text::chars_of(tag);
    match read_stamp(chars.as_slice()).0 {
        Some(ms) => Some(ms as u32),
        None => None,
    }
}

// ---------------------------------------------------------------------- lines

/// `s` without the carriage return it may end with.
pub open spec fn without_cr(s: Seq<char>) -> Seq<char> {
    if s.len() > 0 && s.last() == '\r' {
        s.drop_last()
    } else {
        s
    }
}

/// The lines of `s`: they end with a line feed, a carriage return before it
/// belongs to the ending, and the last line needs none.
pub open spec fn lines(s: Seq<char>) -> Seq<Seq<char>>
    decreases s.len(),
{
    let at = text::first_index(s, '\n');
    if s.len() == 0 {
        Seq::empty()
    } else if 0 <= at < s.len() {
        seq![without_cr(s.take(at))] + lines(s.skip(at + 1))
    } else {
        seq![s]
    }
}

/// What is read off the front of a line: the stamps, whether each of them is
/// defined, and what is left of the line. Tags are read for as long as there are
/// any; a line whose first tag is no stamp has none.
pub open spec fn walked(rest: Seq<char>, stamps: Seq<nat>, ok: bool) -> (Seq<nat>, bool, Seq<char>)
    decreases rest.len(),
{
    let end = text::first_index(rest, ']');
    if rest.len() > 0 && rest[0] == '[' && 1 <= end < rest.len() {
        let tag = rest.subrange(1, end);
        let now = match stamp_ms(tag) {
            Some(ms) => stamps.push(ms),
            None => stamps,
        };
        let sound = ok && stamp_defined(tag);
        let left = text::trimmed_start(rest.skip(end + 1));
        proof {
            text::lemma_trimmed_start(rest.skip(end + 1));
        }
        if now.len() == 0 {
            (now, sound, left)
        } else {
            walked(left, now, sound)
        }
    } else {
        (stamps, ok, rest)
    }
}

/// What is read off the front of a line.
pub open spec fn read_line(line: Seq<char>) -> (Seq<nat>, bool, Seq<char>) {
    walked(line, Seq::empty(), true)
}

/// The entries of one line: its text under each of its stamps.
pub open spec fn line_entries(line: Seq<char>) -> Seq<(nat, Seq<char>)> {
    read_line(line).0.map_values(|ms: nat| (ms, text::trimmed(read_line(line).2)))
}

/// The entries of all lines, in the order of the file.
pub open spec fn entries(all: Seq<Seq<char>>) -> Seq<(nat, Seq<char>)>
    decreases all.len(),
{
    if all.len() == 0 {
        Seq::empty()
    } else {
        entries(all.drop_last()) + line_entries(all.last())
    }
}

/// Whether every stamp that is read is defined.
pub open spec fn lrc_defined(lrc: Seq<char>) -> bool {
    forall|i: int| 0 <= i < lines(lrc).len() ==> read_line(#[trigger] lines(lrc)[i]).1
}

/// Earlier entries stand before later ones.
pub open spec fn by_time() -> spec_fn((nat, Seq<char>), (nat, Seq<char>)) -> bool {
    |a: (nat, Seq<char>), b: (nat, Seq<char>)| a.0 <= b.0
}

/// The synced lyrics in a file: its entries by time, and those at the same time
/// in the order of the file.
pub open spec fn lyrics(lrc: Seq<char>) -> Seq<(nat, Seq<char>)> {
    order::stable_sorted(entries(lines(lrc)), by_time())
}

/// The model of a parsed entry.
pub open spec fn entry_view(e: (u32, String)) -> (nat, Seq<char>) {
    (e.0 as nat, e.1@)
}

/// The models of parsed entries.
pub open spec fn entries_view(list: Seq<(u32, String)>) -> Seq<(nat, Seq<char>)> {
    list.map_values(|e: (u32, String)| entry_view(e))
}

/// The lines of a text.
pub(crate) fn split_lines(s: &[char]) -> (out: Vec<Vec<char>>)
    ensures
        out@.len() == lines(s@).len(),
        forall|i: int| 0 <= i < out@.len() ==> (#[trigger] out@[i])@ == lines(s@)[i],
{
    let mut out: Vec<Vec<char>> = Vec::new();
    let mut from: usize = 0;
    let n = s.len();
    let ghost all = lines(s@);
    assert(s@.skip(0) =~= s@);
    while from < n
        invariant
            from <= n,
            n == s@.len(),
            all == lines(s@),
            all.len() == out@.len() + lines(s@.skip(from as int)).len(),
            forall|i: int| 0 <= i < out@.len() ==> (#[trigger] out@[i])@ == all[i],
            forall|i: int|
                0 <= i < lines(s@.skip(from as int)).len() ==> #[trigger] lines(
                    s@.skip(from as int),
                )[i] == all[out@.len() + i],
        decreases n - from,
    {
        let rest = slice_subrange(s, from, n);
        assert(rest@ =~= s@.skip(from as int));
        let at = text::find_char(rest, '\n');
        let ghost here = lines(rest@);
        let ghost before = out@.len();
        assert(here[0] == all[before as int]);
        if at == rest.len() {
            out.push(text::copy_chars(rest));
            assert(here =~= seq![rest@]);
            assert(s@.skip(n as int) =~= Seq::<char>::empty());
            from = n;
        } else {
            let mut end = at;
            let line = slice_subrange(rest, 0, at);
            assert(line@ =~= rest@.take(at as int));
            if at > 0 && rest[at - 1] == '\r' {
                end = at - 1;
            }
            let bare = slice_subrange(rest, 0, end);
            assert(bare@ =~= without_cr(line@));
            out.push(text::copy_chars(bare));
            assert(rest@.skip(at + 1) =~= s@.skip(from + at + 1));
            assert forall|i: int| 0 <= i < lines(s@.skip(from + at + 1)).len() implies
                #[trigger] lines(s@.skip(from + at + 1))[i] == all[out@.len() + i] by {
                assert(here[i + 1] == lines(s@.skip(from + at + 1))[i]);
                assert(here[i + 1] == all[before + (i + 1)]);
            }
            from = from + at + 1;
        }
    }
    assert(s@.skip(n as int) =~= Seq::<char>::empty());
    out
}

/// Numbers as naturals.
spec fn nats(s: Seq<u64>) -> Seq<nat> {
    s.map_values(|n: u64| n as nat)
}

/// What is read off the front of a line.
fn walk_line(line: &[char]) -> (out: (Vec<u64>, bool, Vec<char>))
    ensures
        nats(out.0@) == read_line(line@).0,
        out.1 == read_line(line@).1,
        out.2@ == read_line(line@).2,
{
    let mut rest = line;
    let mut stamps: Vec<u64> = Vec::new();
    let mut ok = true;
    assert(nats(stamps@) =~= Seq::<nat>::empty());
    let mut more = true;
    while more && rest.len() > 0 && rest[0] == '['
        invariant
            more ==> walked(rest@, nats(stamps@), ok) == read_line(line@),
            !more ==> (nats(stamps@), ok, rest@) == read_line(line@),
        decreases rest@.len(), if more {
            1int
        } else {
            0int
        },
    {
        let end = text::find_char(rest, ']');
        if end == rest.len() {
            more = false;
        } else {
            assert(end >= 1);
            let tag = slice_subrange(rest, 1, end);
            let (ms, sound) = read_stamp(tag);
            let ghost before = stamps@;
            if let Some(ms) = ms {
                stamps.push(ms);
                assert(nats(stamps@) =~= nats(before).push(ms as nat));
            }
            ok = ok && sound;
            let after = slice_subrange(rest, end + 1, rest.len());
            assert(after@ =~= rest@.skip(end + 1));
            rest = text::trim_start(after);
            if stamps.len() == 0 {
                more = false;
            }
        }
    }
    (stamps, ok, text::copy_chars(rest))
}

/// Whether [`parse_lrc`] can take a file: it can where each of the stamps it
/// reads is defined.
pub fn lrc_is_defined(lrc: &str) -> (yes: bool)
    ensures
        yes == lrc_defined(lrc@),
{
    let chars = text::chars_of(lrc);
    let all = split_lines(chars.as_slice());
    let mut i: usize = 0;
    while i < all.len()
        invariant
            i <= all@.len(),
            all@.len() == lines(lrc@).len(),
            forall|j: int| 0 <= j < all@.len() ==> (#[trigger] all@[j])@ == lines(lrc@)[j],
            forall|j: int| 0 <= j < i ==> read_line(#[trigger] lines(lrc@)[j]).1,
        decreases all@.len() - i,
    {
        let (_, ok, _) = walk_line(all[i].as_slice());
        if !ok {
            assert(!read_line(lines(lrc@)[i as int]).1);
            return false;
        }
        i += 1;
    }
    true
}

/// Every defined stamp fits.
proof fn lemma_stamps_fit(rest: Seq<char>, stamps: Seq<nat>, ok: bool)
    requires
        walked(rest, stamps, ok).1,
        ok ==> forall|i: int| 0 <= i < stamps.len() ==> #[trigger] stamps[i] <= u32::MAX,
    ensures
        ok,
        forall|i: int|
            0 <= i < walked(rest, stamps, ok).0.len() ==> #[trigger] walked(rest, stamps, ok).0[i]
                <= u32::MAX,
    decreases rest.len(),
{
    let end = text::first_index(rest, ']');
    if rest.len() > 0 && rest[0] == '[' && 1 <= end < rest.len() {
        let tag = rest.subrange(1, end);
        let now = match stamp_ms(tag) {
            Some(ms) => stamps.push(ms),
            None => stamps,
        };
        let sound = ok && stamp_defined(tag);
        let left = text::trimmed_start(rest.skip(end + 1));
        text::lemma_trimmed_start(rest.skip(end + 1));
        if now.len() > 0 {
            lemma_stamps_fit(left, now, sound);
            assert(walked(rest, stamps, ok) == walked(left, now, sound));
        } else {
            assert(walked(rest, stamps, ok).0 == now);
        }
    }
}

/// Whether `a` may stand before `b`.
fn not_later(a: &(u32, String), b: &(u32, String)) -> (yes: bool)
    ensures
        yes == (a.0 <= b.0),
{
    a.0 <= b.0
}

/// Parse LRC `[mm:ss.xx] text` lines into sorted (ms, text) pairs.
pub fn parse_lrc(lrc: &str) -> (out: Vec<(u32, String)>)
    requires
        lrc_defined(lrc@),
    ensures
        entries_view(out@) == lyrics(lrc@),
{
    let chars = text::chars_of(lrc);
    let all = split_lines(chars.as_slice());
    let mut out: Vec<(u32, String)> = Vec::new();
    let mut i: usize = 0;
    assert(entries_view(out@) =~= Seq::<(nat, Seq<char>)>::empty());
    assert(lines(lrc@).take(0) =~= Seq::<Seq<char>>::empty());
    while i < all.len()
        invariant
            i <= all@.len(),
            all@.len() == lines(lrc@).len(),
            lrc_defined(lrc@),
            forall|j: int| 0 <= j < all@.len() ==> (#[trigger] all@[j])@ == lines(lrc@)[j],
            entries_view(out@) == order::stable_sorted(
                entries(lines(lrc@).take(i as int)),
                by_time(),
            ),
        decreases all@.len() - i,
    {
        let ghost line = lines(lrc@)[i as int];
        let ghost so_far = entries(lines(lrc@).take(i as int));
        let (stamps, _, rest) = walk_line(all[i].as_slice());
        let body = text::string_of(text::trim(rest.as_slice()));
        proof {
            lemma_stamps_fit(line, Seq::empty(), true);
        }
        let mut k: usize = 0;
        assert(so_far + line_entries(line).take(0) =~= so_far);
        while k < stamps.len()
            invariant
                k <= stamps@.len(),
                nats(stamps@) == read_line(line).0,
                body@ == text::trimmed(read_line(line).2),
                forall|j: int|
                    0 <= j < read_line(line).0.len() ==> #[trigger] read_line(line).0[j]
                        <= u32::MAX,
                entries_view(out@) == order::stable_sorted(
                    so_far + line_entries(line).take(k as int),
                    by_time(),
                ),
            decreases stamps@.len() - k,
        {
            assert(read_line(line).0[k as int] == stamps@[k as int]);
            let entry = (stamps[k] as u32, body.clone());
            let ghost f = |e: (u32, String)| entry_view(e);
            let ghost le = |a: (u32, String), b: (u32, String)| a.0 <= b.0;
            let ghost before = out@;
            order::insert_sorted(
                &mut out,
                entry,
                not_later,
                Ghost(le),
            );
            proof {
                order::lemma_placed_map(before, entry, f, le, by_time());
                let grown = so_far + line_entries(line).take(k + 1);
                assert(grown.drop_last() =~= so_far + line_entries(line).take(k as int));
                assert(grown.last() == line_entries(line)[k as int]);
                assert(f(entry) == line_entries(line)[k as int]);
            }
            k += 1;
        }
        proof {
            assert(line_entries(line).take(stamps@.len() as int) =~= line_entries(line));
            assert(lines(lrc@).take(i + 1).drop_last() =~= lines(lrc@).take(i as int));
            assert(lines(lrc@).take(i + 1).last() == line);
        }
        i += 1;
    }
    assert(lines(lrc@).take(all@.len() as int) =~= lines(lrc@));
    out
}

// ----------------------------------------------------------------------- laws

/// Lyrics come out in the order of their times.
pub proof fn law_lyrics_are_in_order(lrc: Seq<char>)
    ensures
        order::in_order(lyrics(lrc), by_time()),
{
    order::law_sorting_puts_in_order(entries(lines(lrc)), by_time());
}

/// No line is lost or invented by sorting, and lines at the same time keep the
/// order of the file.
pub proof fn law_lyrics_keep_every_line(lrc: Seq<char>, at: (nat, Seq<char>))
    ensures
        lyrics(lrc).to_multiset() == entries(lines(lrc)).to_multiset(),
        order::peers(lyrics(lrc), at, by_time()) == order::peers(
            entries(lines(lrc)),
            at,
            by_time(),
        ),
{
    order::law_sorting_keeps_every_element(entries(lines(lrc)), by_time());
    order::law_sorting_is_stable(entries(lines(lrc)), at, by_time());
}

proof fn lemma_entries_join(s: Seq<Seq<char>>, t: Seq<Seq<char>>)
    ensures
        entries(s + t) == entries(s) + entries(t),
    decreases t.len(),
{
    if t.len() == 0 {
        assert(s + t =~= s);
        assert(entries(s) + entries(t) =~= entries(s));
    } else {
        lemma_entries_join(s, t.drop_last());
        assert((s + t).drop_last() =~= s + t.drop_last());
        assert((s + t).last() == t.last());
        assert(entries(s + t) =~= entries(s) + entries(t));
    }
}

proof fn lemma_one_line(line: Seq<char>)
    ensures
        entries(seq![line]) == line_entries(line),
{
    let one = seq![line];
    assert(one.drop_last() =~= Seq::empty());
    assert(entries(one.drop_last()) =~= Seq::empty());
    assert(entries(one) =~= line_entries(line));
}

/// A carriage return at the end of a text is trimmed off its front only where
/// nothing stands before it.
proof fn lemma_trimmed_start_cr(s: Seq<char>)
    ensures
        text::trimmed_start(s.push('\r')) == (if text::trimmed_start(s).len() == 0 {
            Seq::empty()
        } else {
            text::trimmed_start(s).push('\r')
        }),
    decreases s.len(),
{
    let more = s.push('\r');
    if s.len() == 0 {
        reveal_with_fuel(text::trimmed_start, 2);
        assert(more.skip(1) =~= Seq::empty());
    } else if text::is_space(s[0]) {
        lemma_trimmed_start_cr(s.skip(1));
        assert(more.skip(1) =~= s.skip(1).push('\r'));
    }
}

/// A carriage return at the end of a text is trimmed off.
proof fn lemma_trimmed_cr(s: Seq<char>)
    ensures
        text::trimmed(s.push('\r')) == text::trimmed(s),
{
    let front = text::trimmed_start(s);
    lemma_trimmed_start_cr(s);
    if front.len() > 0 {
        assert(front.push('\r').drop_last() =~= front);
    } else {
        assert(front =~= Seq::empty());
    }
}

/// A carriage return at the end of a line changes neither its stamps nor its
/// trimmed text.
proof fn lemma_walked_cr(rest: Seq<char>, stamps: Seq<nat>, ok: bool)
    ensures
        walked(rest.push('\r'), stamps, ok).0 == walked(rest, stamps, ok).0,
        walked(rest.push('\r'), stamps, ok).1 == walked(rest, stamps, ok).1,
        text::trimmed(walked(rest.push('\r'), stamps, ok).2) == text::trimmed(
            walked(rest, stamps, ok).2,
        ),
    decreases rest.len(),
{
    let more = rest.push('\r');
    let end = text::first_index(rest, ']');
    text::lemma_first_index_bounds(rest, ']');
    if end < rest.len() {
        text::lemma_first_index(more, ']', end);
    } else {
        text::lemma_first_index(more, ']', more.len() as int);
    }
    if rest.len() > 0 && rest[0] == '[' && 1 <= end < rest.len() {
        assert(more[0] == rest[0]);
        let tag = rest.subrange(1, end);
        assert(more.subrange(1, end) =~= tag);
        let now = match stamp_ms(tag) {
            Some(ms) => stamps.push(ms),
            None => stamps,
        };
        let sound = ok && stamp_defined(tag);
        let behind = rest.skip(end + 1);
        let left = text::trimmed_start(behind);
        assert(more.skip(end + 1) =~= behind.push('\r'));
        text::lemma_trimmed_start(behind);
        lemma_trimmed_start_cr(behind);
        if left.len() == 0 {
            assert(left =~= Seq::empty());
        } else if now.len() == 0 {
            lemma_trimmed_cr(left);
        } else {
            lemma_walked_cr(left, now, sound);
        }
    } else {
        lemma_trimmed_cr(rest);
    }
}

/// A line reads the same without the carriage return it may end with.
proof fn lemma_line_without_cr(line: Seq<char>)
    ensures
        line_entries(without_cr(line)) == line_entries(line),
        read_line(without_cr(line)).1 == read_line(line).1,
{
    if line.len() > 0 && line.last() == '\r' {
        assert(line.drop_last().push('\r') =~= line);
        lemma_walked_cr(line.drop_last(), Seq::empty(), true);
        assert(line_entries(without_cr(line)) =~= line_entries(line));
    }
}

/// Whether every stamp on some lines is defined.
spec fn lines_defined(all: Seq<Seq<char>>) -> bool {
    forall|i: int| 0 <= i < all.len() ==> read_line(#[trigger] all[i]).1
}

proof fn lemma_lines_defined_join(line: Seq<char>, rest: Seq<Seq<char>>)
    ensures
        lines_defined(seq![line] + rest) == (read_line(line).1 && lines_defined(rest)),
{
    let all = seq![line] + rest;
    assert(all[0] == line);
    if lines_defined(all) {
        assert forall|i: int| 0 <= i < rest.len() implies read_line(#[trigger] rest[i]).1 by {
            assert(all[i + 1] == rest[i]);
        }
    }
    if read_line(line).1 && lines_defined(rest) {
        assert forall|i: int| 0 <= i < all.len() implies read_line(#[trigger] all[i]).1 by {
            if i > 0 {
                assert(all[i] == rest[i - 1]);
            }
        }
    }
}

/// The last line of a file may be ended by a line feed.
proof fn lemma_last_line(a: Seq<char>, b: Seq<char>)
    requires
        text::first_index(a, '\n') == a.len(),
    ensures
        entries(lines(a + seq!['\n'] + b)) == entries(lines(a)) + entries(lines(b)),
        lines_defined(lines(a + seq!['\n'] + b)) == (lines_defined(lines(a)) && lines_defined(
            lines(b),
        )),
{
    let both = a + seq!['\n'] + b;
    let line = without_cr(a);
    text::lemma_first_index_bounds(a, '\n');
    text::lemma_first_index(both, '\n', a.len() as int);
    assert(both.take(a.len() as int) =~= a);
    assert(both.skip(a.len() as int + 1) =~= b);
    assert(lines(both) == seq![line] + lines(b));
    lemma_entries_join(seq![line], lines(b));
    lemma_lines_defined_join(line, lines(b));
    lemma_line_without_cr(a);
    lemma_one_line(line);
    if a.len() == 0 {
        assert(line_entries(a) =~= Seq::empty());
        assert(lines(a) =~= Seq::empty());
    } else {
        assert(lines(a) == seq![a]);
        lemma_one_line(a);
        lemma_lines_defined_join(a, Seq::empty());
        assert(seq![a] + Seq::<Seq<char>>::empty() =~= seq![a]);
    }
}

proof fn lemma_joined_files(a: Seq<char>, b: Seq<char>)
    ensures
        entries(lines(a + seq!['\n'] + b)) == entries(lines(a)) + entries(lines(b)),
        lines_defined(lines(a + seq!['\n'] + b)) == (lines_defined(lines(a)) && lines_defined(
            lines(b),
        )),
    decreases a.len(),
{
    let both = a + seq!['\n'] + b;
    let at = text::first_index(a, '\n');
    text::lemma_first_index_bounds(a, '\n');
    if at < a.len() {
        text::lemma_first_index(both, '\n', at);
        let line = without_cr(a.take(at));
        let rest = a.skip(at + 1);
        assert(both.take(at) =~= a.take(at));
        assert(both.skip(at + 1) =~= rest + seq!['\n'] + b);
        lemma_joined_files(rest, b);
        lemma_entries_join(seq![line], lines(rest));
        lemma_entries_join(seq![line], lines(rest + seq!['\n'] + b));
        lemma_lines_defined_join(line, lines(rest));
        lemma_lines_defined_join(line, lines(rest + seq!['\n'] + b));
        assert(entries(lines(both)) =~= entries(lines(a)) + entries(lines(b)));
    } else {
        lemma_last_line(a, b);
    }
}

/// The lyrics of two files joined by a line feed are the lyrics of both, merged
/// by time: no line depends on another, none is lost, and at the same time those
/// of the first file come first.
pub proof fn law_joined_files_are_merged(a: Seq<char>, b: Seq<char>, at: (nat, Seq<char>))
    requires
        lrc_defined(a),
        lrc_defined(b),
    ensures
        lrc_defined(a + seq!['\n'] + b),
        lyrics(a + seq!['\n'] + b) == order::stable_sorted(lyrics(a) + lyrics(b), by_time()),
        order::peers(lyrics(a + seq!['\n'] + b), at, by_time()) == order::peers(
            lyrics(a),
            at,
            by_time(),
        ) + order::peers(lyrics(b), at, by_time()),
{
    lemma_joined_files(a, b);
    assert(lines_defined(lines(a)) && lines_defined(lines(b)));
    assert(lines_defined(lines(a + seq!['\n'] + b)));
    order::law_sorting_by_parts(entries(lines(a)), entries(lines(b)), by_time());
    order::law_sorting_is_stable(lyrics(a) + lyrics(b), at, by_time());
    order::lemma_peers_join(lyrics(a), lyrics(b), at, by_time());
}

proof fn lemma_no_plus(s: Seq<char>)
    requires
        s.len() > 0,
        text::all_digits(s),
    ensures
        text::without_plus(s) == s,
        text::lacks(s, ':'),
        text::lacks(s, '.'),
        text::lacks(s, ']'),
{
    assert(text::is_digit(s[0]));
    assert forall|i: int| 0 <= i < s.len() implies #[trigger] s[i] != ':' && s[i] != '.' && s[i]
        != ']' by {
        assert(text::is_digit(s[i]));
    }
}

/// A fraction counts in tenths, hundredths or thousandths of a second by how
/// many digits it has; those behind the third are left out.
pub proof fn law_a_fraction_counts_by_its_digits(fraction: Seq<char>)
    requires
        fraction.len() > 0,
        text::all_digits(fraction),
    ensures
        fraction.len() == 1 ==> fraction_ms(fraction) == 100 * text::digits_value(fraction),
        fraction.len() == 2 ==> fraction_ms(fraction) == 10 * text::digits_value(fraction),
        fraction.len() >= 3 ==> fraction_ms(fraction) == text::digits_value(fraction.take(3)),
        cuts_cleanly(fraction),
{
    let p = padded(fraction);
    assert(p.len() >= 3);
    assert forall|i: int| 0 <= i < p.len() implies text::is_digit(#[trigger] p[i]) by {
        if i < fraction.len() {
            assert(p[i] == fraction[i]);
            assert(text::is_digit(fraction[i]));
        }
    }
    let three = p.take(3);
    assert forall|i: int| 0 <= i < 3 implies text::is_digit(#[trigger] three[i]) by {
        assert(three[i] == p[i]);
    }
    lemma_no_plus(three);
    lemma_three_places(three);
    if fraction.len() == 1 {
        assert(three =~= fraction.push('0').push('0'));
        text::law_digits_count_by_place(fraction, '0');
        text::law_digits_count_by_place(fraction.push('0'), '0');
    } else if fraction.len() == 2 {
        assert(three =~= fraction.push('0'));
        text::law_digits_count_by_place(fraction, '0');
    }
    assert(text::is_digit(p[0]) && text::is_digit(p[1]) && text::is_digit(p[2]));
}

proof fn lemma_three_places(s: Seq<char>)
    requires
        s.len() == 3,
        text::all_digits(s),
    ensures
        text::digits_value(s) < 1000,
{
    assert(text::is_digit(s[0]) && text::is_digit(s[1]) && text::is_digit(s[2]));
    let none = Seq::<char>::empty();
    text::law_digits_count_by_place(none, s[0]);
    text::law_digits_count_by_place(none.push(s[0]), s[1]);
    text::law_digits_count_by_place(none.push(s[0]).push(s[1]), s[2]);
    assert(s =~= none.push(s[0]).push(s[1]).push(s[2]));
}

/// A stamp stands for its minutes, its seconds and its fraction, in
/// milliseconds; one without a fraction, for its minutes and its seconds.
pub proof fn law_a_stamp_is_its_time(minutes: Seq<char>, seconds: Seq<char>, fraction: Seq<char>)
    requires
        minutes.len() > 0 && text::all_digits(minutes),
        seconds.len() > 0 && text::all_digits(seconds),
        fraction.len() > 0 && text::all_digits(fraction),
        text::digits_value(minutes) <= u32::MAX,
        text::digits_value(seconds) <= u32::MAX,
    ensures
        ({
            let whole = 60_000 * text::digits_value(minutes) + 1000 * text::digits_value(seconds);
            let bare = minutes + seq![':'] + seconds;
            let tag = bare + seq!['.'] + fraction;
            &&& stamp_ms(bare) == Some(whole)
            &&& stamp_ms(tag) == Some(whole + fraction_ms(fraction))
            &&& whole <= u32::MAX ==> stamp_defined(bare)
            &&& whole + fraction_ms(fraction) <= u32::MAX ==> stamp_defined(tag)
            &&& text::lacks(bare, ']')
            &&& text::lacks(tag, ']')
        }),
{
    lemma_no_plus(minutes);
    lemma_no_plus(seconds);
    lemma_no_plus(fraction);
    let bare = minutes + seq![':'] + seconds;
    let rest = seconds + seq!['.'] + fraction;
    let tag = bare + seq!['.'] + fraction;
    assert(tag =~= minutes + seq![':'] + rest);
    text::law_the_first_piece(minutes, ':', seconds);
    text::law_the_first_piece(minutes, ':', rest);
    text::law_the_first_piece(seconds, '.', fraction);
    law_a_fraction_counts_by_its_digits(fraction);
    let zero = seq!['0'];
    law_a_fraction_counts_by_its_digits(zero);
    text::law_decimal_reads_back(0);
    assert(text::digits_value(zero) == 0);
    assert forall|i: int| 0 <= i < tag.len() implies #[trigger] tag[i] != ']' by {
        if i < minutes.len() {
            assert(tag[i] == minutes[i]);
        } else if minutes.len() < i < bare.len() {
            assert(tag[i] == seconds[i - minutes.len() - 1]);
        } else if i > bare.len() {
            assert(tag[i] == fraction[i - bare.len() - 1]);
        }
    }
    assert forall|i: int| 0 <= i < bare.len() implies #[trigger] bare[i] != ']' by {
        assert(tag[i] == bare[i]);
    }
}

/// A tag whose minutes or seconds are not numbers is no stamp, nor is one
/// without a colon.
pub proof fn law_a_label_is_no_stamp(name: Seq<char>, value: Seq<char>, i: int)
    requires
        text::lacks(name, ':'),
        0 <= i < name.len(),
        !text::is_digit(name[i]),
        i > 0 || name[0] != '+',
    ensures
        stamp_ms(name) is None,
        stamp_ms(name + seq![':'] + value) is None,
        stamp_defined(name),
        stamp_defined(name + seq![':'] + value),
{
    text::law_the_first_piece(name, ':', value);
    text::law_a_written_number_is_read(0, u32::MAX as nat, name, i);
}

/// Stamps as they stand in front of a line.
pub open spec fn tags_text(tags: Seq<Seq<char>>) -> Seq<char>
    decreases tags.len(),
{
    if tags.len() == 0 {
        Seq::empty()
    } else {
        seq!['['] + tags[0] + seq![']'] + tags_text(tags.skip(1))
    }
}

/// The times of stamps.
pub open spec fn times(tags: Seq<Seq<char>>) -> Seq<nat> {
    tags.map_values(|tag: Seq<char>| stamp_ms(tag)->0)
}

/// Whether each of `tags` is a stamp that can stand in brackets.
pub open spec fn are_stamps(tags: Seq<Seq<char>>) -> bool {
    forall|i: int|
        0 <= i < tags.len() ==> text::lacks(#[trigger] tags[i], ']') && stamp_ms(tags[i]) is Some
            && stamp_defined(tags[i])
}

proof fn lemma_walk_tags(
    tags: Seq<Seq<char>>,
    pad: Seq<char>,
    words: Seq<char>,
    tail: Seq<char>,
    stamps: Seq<nat>,
    ok: bool,
)
    requires
        are_stamps(tags),
        tags.len() > 0,
        text::blank(pad),
        text::blank(tail),
        text::bare(words),
        words.len() > 0 ==> words[0] != '[',
    ensures
        ({
            let out = walked(tags_text(tags) + (pad + words + tail), stamps, ok);
            &&& out.0 == stamps + times(tags)
            &&& out.1 == ok
            &&& text::trimmed(out.2) == words
        }),
    decreases tags.len(),
{
    let body = pad + words + tail;
    let rest = tags_text(tags) + body;
    let tag = tags[0];
    let others = tags.skip(1);
    let behind = tags_text(others) + body;
    assert(rest =~= seq!['['] + tag + seq![']'] + behind);
    let end = tag.len() as int + 1;
    assert forall|j: int| 0 <= j < end implies rest[j] != ']' by {
        if j > 0 {
            assert(rest[j] == tag[j - 1]);
        }
    }
    text::lemma_first_index(rest, ']', end);
    assert(rest.subrange(1, end) =~= tag);
    assert(rest.skip(end + 1) =~= behind);
    let now = stamps.push(stamp_ms(tag)->0);
    let left = text::trimmed_start(behind);
    assert(walked(rest, stamps, ok) == walked(left, now, ok));
    if others.len() > 0 {
        assert(behind[0] == '[');
        assert(left == behind);
        assert forall|i: int| 0 <= i < others.len() implies text::lacks(
            #[trigger] others[i],
            ']',
        ) && stamp_ms(others[i]) is Some && stamp_defined(others[i]) by {
            assert(others[i] == tags[i + 1]);
        }
        lemma_walk_tags(others, pad, words, tail, now, ok);
        assert(now + times(others) =~= stamps + times(tags));
    } else {
        assert(behind =~= body);
        text::law_trimming_keeps_the_words(pad, words, tail);
        assert(now =~= stamps + times(tags));
        if words.len() > 0 {
            assert(left[0] == words[0]);
            assert(walked(left, now, ok) == (now, ok, left));
            let none = Seq::<char>::empty();
            assert(none + words + tail =~= words + tail);
            text::law_trimming_keeps_the_words(none, words, tail);
        } else {
            assert(walked(left, now, ok) == (now, ok, left));
            assert(left =~= Seq::empty());
            assert(words =~= Seq::empty());
            reveal_with_fuel(text::trimmed_start, 2);
            reveal_with_fuel(text::trimmed_end, 2);
        }
    }
}

/// A line is read whole: its words, all of them and as they are, under each of
/// the stamps in front of them. Only the white space around the words is left
/// out.
pub proof fn law_a_line_is_read_whole(
    tags: Seq<Seq<char>>,
    pad: Seq<char>,
    words: Seq<char>,
    tail: Seq<char>,
)
    requires
        are_stamps(tags),
        tags.len() > 0,
        text::blank(pad),
        text::blank(tail),
        text::bare(words),
        words.len() > 0 ==> words[0] != '[',
    ensures
        ({
            let line = tags_text(tags) + pad + words + tail;
            let list = line_entries(line);
            &&& list.len() == tags.len()
            &&& forall|i: int|
                0 <= i < tags.len() ==> #[trigger] list[i] == (stamp_ms(tags[i])->0, words)
            &&& read_line(line).1
        }),
{
    let line = tags_text(tags) + pad + words + tail;
    assert(line =~= tags_text(tags) + (pad + words + tail));
    lemma_walk_tags(tags, pad, words, tail, Seq::empty(), true);
    assert(Seq::<nat>::empty() + times(tags) =~= times(tags));
}

/// A line that does not begin with a stamp has no entries.
pub proof fn law_a_line_without_stamps_is_left_out(line: Seq<char>)
    requires
        line.len() > 0 && line[0] == '[' ==> ({
            let end = text::first_index(line, ']');
            end < line.len() ==> stamp_ms(line.subrange(1, end)) is None
        }),
    ensures
        line_entries(line).len() == 0,
{
    text::lemma_first_index_bounds(line, ']');
    reveal_with_fuel(walked, 2);
}

/// A timed line: minutes, seconds, hundredths, and its words.
pub ghost struct Timed {
    pub minutes: nat,
    pub seconds: nat,
    pub hundredths: nat,
    pub words: Seq<char>,
}

impl Timed {
    /// Its time in milliseconds.
    pub open spec fn ms(self) -> nat {
        self.minutes * 60_000 + self.seconds * 1000 + self.hundredths * 10
    }

    /// Whether it can be written as a line of a file.
    pub open spec fn is_line(self) -> bool {
        &&& self.hundredths < 100
        &&& self.ms() <= u32::MAX
        &&& text::bare(self.words)
        &&& text::lacks(self.words, '\n')
        &&& self.words.len() > 0 ==> self.words[0] != '['
    }

    /// The stamp.
    pub open spec fn stamp(self) -> Seq<char> {
        text::decimal(self.minutes) + seq![':'] + text::decimal(self.seconds) + seq!['.'] + seq![
            text::digit_char(self.hundredths / 10),
            text::digit_char(self.hundredths % 10),
        ]
    }

    /// The line.
    pub open spec fn line(self) -> Seq<char> {
        seq!['['] + self.stamp() + seq![']'] + self.words
    }
}

/// A file of timed lines.
pub open spec fn file_of(list: Seq<Timed>) -> Seq<char>
    decreases list.len(),
{
    if list.len() == 0 {
        Seq::empty()
    } else {
        file_of(list.drop_last()) + seq!['\n'] + list.last().line()
    }
}

proof fn lemma_one_timed_line(t: Timed)
    requires
        t.is_line(),
    ensures
        lrc_defined(t.line()),
        lyrics(t.line()) == seq![(t.ms(), t.words)],
{
    let mm = text::decimal(t.minutes);
    let ss = text::decimal(t.seconds);
    let cs = seq![text::digit_char(t.hundredths / 10), text::digit_char(t.hundredths % 10)];
    text::law_decimal_reads_back(t.minutes);
    text::law_decimal_reads_back(t.seconds);
    assert(text::is_digit(cs[0]) && text::is_digit(cs[1]));
    let none = Seq::<char>::empty();
    text::law_digits_count_by_place(none, cs[0]);
    text::law_digits_count_by_place(none.push(cs[0]), cs[1]);
    assert(cs =~= none.push(cs[0]).push(cs[1]));
    law_a_stamp_is_its_time(mm, ss, cs);
    law_a_fraction_counts_by_its_digits(cs);
    let tags = seq![t.stamp()];
    assert(tags.skip(1) =~= Seq::empty());
    reveal_with_fuel(tags_text, 2);
    assert(tags_text(tags) + none + t.words + none =~= t.line());
    law_a_line_is_read_whole(tags, none, t.words, none);
    let line = t.line();
    assert(text::lacks(t.stamp(), '\n')) by {
        let stamp = t.stamp();
        assert forall|i: int| 0 <= i < stamp.len() implies #[trigger] stamp[i] != '\n' by {
            let m = mm.len() as int;
            let s = ss.len() as int;
            if i < m {
                assert(stamp[i] == mm[i]);
                assert(text::is_digit(mm[i]));
            } else if m < i < m + 1 + s {
                assert(stamp[i] == ss[i - m - 1]);
                assert(text::is_digit(ss[i - m - 1]));
            } else if i > m + 1 + s {
                assert(stamp[i] == cs[i - m - s - 2]);
            }
        }
    }
    let n = t.stamp().len() as int;
    assert forall|i: int| 0 <= i < line.len() implies line[i] != '\n' by {
        if 0 < i <= n {
            assert(line[i] == t.stamp()[i - 1]);
        } else if i > n + 1 {
            assert(line[i] == t.words[i - n - 2]);
        }
    }
    text::lemma_first_index(line, '\n', line.len() as int);
    assert(lines(line) == seq![line]);
    lemma_one_line(line);
    let list = line_entries(line);
    assert(list =~= seq![(t.ms(), t.words)]);
    order::law_sorting_keeps_what_is_in_order(list, by_time());
    assert(lrc_defined(line)) by {
        assert forall|i: int| 0 <= i < lines(line).len() implies read_line(
            #[trigger] lines(line)[i],
        ).1 by {
            assert(lines(line)[i] == line);
        }
    }
}

/// What is written is read back: a file of timed lines, in the order of their
/// times, is read as those times with those words, every line of it and nothing
/// else.
pub proof fn law_written_lyrics_are_read_back(list: Seq<Timed>)
    requires
        forall|i: int| 0 <= i < list.len() ==> (#[trigger] list[i]).is_line(),
        forall|i: int, j: int|
            0 <= i < j < list.len() ==> (#[trigger] list[i]).ms() <= (#[trigger] list[j]).ms(),
    ensures
        lrc_defined(file_of(list)),
        lyrics(file_of(list)) == list.map_values(|t: Timed| (t.ms(), t.words)),
    decreases list.len(),
{
    let want = list.map_values(|t: Timed| (t.ms(), t.words));
    if list.len() == 0 {
        assert(lines(file_of(list)) =~= Seq::empty());
        assert(want =~= Seq::empty());
    } else {
        let front = list.drop_last();
        let last = list[list.len() - 1];
        assert forall|i: int| 0 <= i < front.len() implies (#[trigger] front[i]).is_line() by {
            assert(front[i] == list[i]);
        }
        assert forall|i: int, j: int| 0 <= i < j < front.len() implies (#[trigger] front[i]).ms()
            <= (#[trigger] front[j]).ms() by {
            assert(list[i].ms() <= list[j].ms());
        }
        law_written_lyrics_are_read_back(front);
        lemma_one_timed_line(last);
        law_joined_files_are_merged(file_of(front), last.line(), (0, Seq::empty()));
        let both = lyrics(file_of(front)) + lyrics(last.line());
        assert(both =~= want);
        assert forall|i: int, j: int| 0 <= i < j < want.len() implies by_time()(
            #[trigger] want[i],
            #[trigger] want[j],
        ) by {
            assert(list[i].ms() <= list[j].ms());
        }
        order::law_sorting_keeps_what_is_in_order(want, by_time());
    }
}

/// A line ends with a line feed, with or without a carriage return before it, and
/// neither belongs to the line.
pub proof fn law_a_line_may_end_either_way(first: Seq<char>, rest: Seq<char>)
    requires
        text::lacks(first, '\n'),
        first.len() > 0 ==> first.last() != '\r',
    ensures
        lines(first + seq!['\n'] + rest) == seq![first] + lines(rest),
        lines(first + seq!['\r', '\n'] + rest) == seq![first] + lines(rest),
        first.len() > 0 ==> lines(first) == seq![first],
        lines(Seq::empty()).len() == 0,
{
    let n = first.len() as int;
    let plain = first + seq!['\n'] + rest;
    let both = first + seq!['\r', '\n'] + rest;
    text::lemma_first_index(first, '\n', n);
    assert forall|j: int| 0 <= j < n implies plain[j] != '\n' by {
        assert(plain[j] == first[j]);
    }
    text::lemma_first_index(plain, '\n', n);
    assert(plain.take(n) =~= first);
    assert(plain.skip(n + 1) =~= rest);
    assert forall|j: int| 0 <= j < n + 1 implies both[j] != '\n' by {
        if j < n {
            assert(both[j] == first[j]);
        }
    }
    text::lemma_first_index(both, '\n', n + 1);
    assert(both.take(n + 1) =~= first.push('\r'));
    assert(first.push('\r').drop_last() =~= first);
    assert(both.skip(n + 2) =~= rest);
}

/// A fraction of ASCII characters can always be cut, and one that is not made of
/// digits where it counts adds nothing.
pub proof fn law_a_plain_fraction_can_be_cut(fraction: Seq<char>, i: int)
    requires
        forall|k: int| 0 <= k < fraction.len() ==> (#[trigger] fraction[k]) as u32 <= 0x7f,
    ensures
        cuts_cleanly(fraction),
        0 <= i < fraction.len() && i < 3 && !text::is_digit(fraction[i]) && (i > 0 || fraction[0]
            != '+') ==> fraction_ms(fraction) == 0,
{
    let p = padded(fraction);
    assert(p.len() >= 3);
    assert(p[0] as u32 <= 0x7f) by {
        if fraction.len() > 0 {
            assert(p[0] == fraction[0]);
        }
    }
    assert(p[1] as u32 <= 0x7f) by {
        if fraction.len() > 1 {
            assert(p[1] == fraction[1]);
        }
    }
    assert(p[2] as u32 <= 0x7f) by {
        if fraction.len() > 2 {
            assert(p[2] == fraction[2]);
        }
    }
    assert(width(p[0]) == 1 && width(p[1]) == 1 && width(p[2]) == 1);
    if 0 <= i < fraction.len() && i < 3 && !text::is_digit(fraction[i]) && (i > 0 || fraction[0]
        != '+') {
        let three = p.take(3);
        assert(three[i] == fraction[i]);
        text::law_a_written_number_is_read(0, u32::MAX as nat, three, i);
    }
}

/// The times of those of `tags` that are stamps.
pub open spec fn stamps_among(tags: Seq<Seq<char>>) -> Seq<nat>
    decreases tags.len(),
{
    if tags.len() == 0 {
        Seq::empty()
    } else {
        match stamp_ms(tags[0]) {
            Some(ms) => seq![ms] + stamps_among(tags.skip(1)),
            None => stamps_among(tags.skip(1)),
        }
    }
}

/// A tag between the stamps of a line that is no stamp itself is passed over: the
/// words stand under every stamp before it and behind it.
pub proof fn law_a_label_between_stamps_is_passed_over(
    tags: Seq<Seq<char>>,
    pad: Seq<char>,
    words: Seq<char>,
    tail: Seq<char>,
)
    requires
        tags.len() > 0,
        stamp_ms(tags[0]) is Some,
        forall|i: int|
            0 <= i < tags.len() ==> text::lacks(#[trigger] tags[i], ']') && stamp_defined(tags[i]),
        text::blank(pad),
        text::blank(tail),
        text::bare(words),
        words.len() > 0 ==> words[0] != '[',
    ensures
        ({
            let line = tags_text(tags) + pad + words + tail;
            &&& line_entries(line) == stamps_among(tags).map_values(|ms: nat| (ms, words))
            &&& read_line(line).1
        }),
{
    let line = tags_text(tags) + pad + words + tail;
    assert(line =~= tags_text(tags) + (pad + words + tail));
    lemma_walk_any(tags, pad, words, tail, Seq::empty(), true);
    assert(Seq::<nat>::empty() + stamps_among(tags) =~= stamps_among(tags));
    assert(line_entries(line) =~= stamps_among(tags).map_values(|ms: nat| (ms, words)));
}

proof fn lemma_walk_any(
    tags: Seq<Seq<char>>,
    pad: Seq<char>,
    words: Seq<char>,
    tail: Seq<char>,
    stamps: Seq<nat>,
    ok: bool,
)
    requires
        tags.len() > 0,
        stamps.len() > 0 || stamp_ms(tags[0]) is Some,
        forall|i: int|
            0 <= i < tags.len() ==> text::lacks(#[trigger] tags[i], ']') && stamp_defined(tags[i]),
        text::blank(pad),
        text::blank(tail),
        text::bare(words),
        words.len() > 0 ==> words[0] != '[',
    ensures
        ({
            let out = walked(tags_text(tags) + (pad + words + tail), stamps, ok);
            &&& out.0 == stamps + stamps_among(tags)
            &&& out.1 == ok
            &&& text::trimmed(out.2) == words
        }),
    decreases tags.len(),
{
    let body = pad + words + tail;
    let rest = tags_text(tags) + body;
    let tag = tags[0];
    let others = tags.skip(1);
    let behind = tags_text(others) + body;
    assert(rest =~= seq!['['] + tag + seq![']'] + behind);
    let end = tag.len() as int + 1;
    assert forall|j: int| 0 <= j < end implies rest[j] != ']' by {
        if j > 0 {
            assert(rest[j] == tag[j - 1]);
        }
    }
    text::lemma_first_index(rest, ']', end);
    assert(rest.subrange(1, end) =~= tag);
    assert(rest.skip(end + 1) =~= behind);
    let now = match stamp_ms(tag) {
        Some(ms) => stamps.push(ms),
        None => stamps,
    };
    let left = text::trimmed_start(behind);
    assert(walked(rest, stamps, ok) == walked(left, now, ok));
    if others.len() > 0 {
        assert(behind[0] == '[');
        assert(left == behind);
        assert forall|i: int| 0 <= i < others.len() implies text::lacks(
            #[trigger] others[i],
            ']',
        ) && stamp_defined(others[i]) by {
            assert(others[i] == tags[i + 1]);
        }
        lemma_walk_any(others, pad, words, tail, now, ok);
        assert(now + stamps_among(others) =~= stamps + stamps_among(tags));
    } else {
        assert(behind =~= body);
        text::law_trimming_keeps_the_words(pad, words, tail);
        reveal_with_fuel(stamps_among, 2);
        assert(now =~= stamps + stamps_among(tags));
        assert(walked(left, now, ok) == (now, ok, left));
        if words.len() > 0 {
            let none = Seq::<char>::empty();
            assert(none + words + tail =~= words + tail);
            text::law_trimming_keeps_the_words(none, words, tail);
        } else {
            assert(left =~= Seq::empty());
            assert(words =~= Seq::empty());
            reveal_with_fuel(text::trimmed_start, 2);
            reveal_with_fuel(text::trimmed_end, 2);
        }
    }
}

/// What is modelled of parsed entries is what they hold.
pub proof fn law_entries_are_modelled_one_by_one(list: Seq<(u32, String)>, i: int)
    requires
        0 <= i < list.len(),
    ensures
        entries_view(list).len() == list.len(),
        entries_view(list)[i].0 == list[i].0,
        entries_view(list)[i].1 == list[i].1@,
{
}

/// A character is as wide as its encoding.
pub proof fn law_a_character_is_as_wide_as_its_encoding(c: char)
    ensures
        width(c) == vstd::utf8::encode_scalar(c as u32).len(),
{
}

/// A fraction can be cut exactly where one, two or three of its characters, once
/// it is filled up with zeros, take three bytes.
pub proof fn law_a_fraction_is_cut_between_characters(fraction: Seq<char>)
    ensures
        cuts_cleanly(fraction) <==> exists|k: int|
            1 <= k <= 3 && vstd::utf8::encode_utf8(#[trigger] padded(fraction).take(k)).len() == 3,
        padded(fraction).len() >= 3,
        padded(fraction).take(fraction.len() as int) == fraction,
        forall|i: int| fraction.len() <= i < padded(fraction).len() ==> padded(fraction)[i] == '0',
        fraction.len() >= 3 ==> padded(fraction) == fraction,
        fraction.len() < 3 ==> padded(fraction).len() == 3,
{
    let p = padded(fraction);
    assert(p.take(fraction.len() as int) =~= fraction);
    lemma_bytes_of(p, 1);
    lemma_bytes_of(p, 2);
    lemma_bytes_of(p, 3);
    let bytes = |k: int| vstd::utf8::encode_utf8(p.take(k)).len();
    assert(bytes(1) == width(p[0]));
    assert(bytes(2) == width(p[0]) + width(p[1]));
    assert(bytes(3) == width(p[0]) + width(p[1]) + width(p[2]));
    if cuts_cleanly(fraction) {
        let k = if bytes(1) == 3 {
            1int
        } else if bytes(2) == 3 {
            2
        } else {
            3
        };
        assert(vstd::utf8::encode_utf8(p.take(k)).len() == 3);
    }
    if exists|k: int|
        1 <= k <= 3 && vstd::utf8::encode_utf8(#[trigger] padded(fraction).take(k)).len() == 3 {
        let k = choose|k: int|
            1 <= k <= 3 && vstd::utf8::encode_utf8(#[trigger] padded(fraction).take(k)).len() == 3;
        assert(k == 1 || k == 2 || k == 3);
    }
}

proof fn lemma_bytes_of(p: Seq<char>, k: int)
    requires
        1 <= k <= 3,
        p.len() >= 3,
    ensures
        vstd::utf8::encode_utf8(p.take(k)).len() == width(p[0]) + (if k >= 2 {
            width(p[1])
        } else {
            0
        }) + (if k >= 3 {
            width(p[2])
        } else {
            0
        }),
{
    reveal_with_fuel(vstd::utf8::encode_utf8, 5);
    let s = p.take(k);
    law_a_character_is_as_wide_as_its_encoding(p[0]);
    law_a_character_is_as_wide_as_its_encoding(p[1]);
    law_a_character_is_as_wide_as_its_encoding(p[2]);
    assert(s[0] == p[0]);
    if k >= 2 {
        assert(s.drop_first()[0] == p[1]);
    }
    if k >= 3 {
        assert(s.drop_first().drop_first()[0] == p[2]);
    }
}

} // verus!
