//! Small pure helpers shared by the views and the workers.

use crate::text;
use vstd::prelude::*;
use vstd::slice::slice_subrange;

verus! {

/// `s` in at most `max` characters: where it is longer, the tail gives way to
/// an ellipsis, if there is room for one.
pub open spec fn truncated(s: Seq<char>, max: int) -> Seq<char> {
    if s.len() <= max {
        s
    } else if max <= 0 {
        Seq::empty()
    } else {
        s.take(max - 1) + seq!['…']
    }
}

/// Truncate to `max` characters, replacing the tail with an ellipsis.
pub fn truncate(s: &str, max: usize) -> (out: String)
    ensures
        out@ == truncated(s@, max as int),
{
    let chars = text::chars_of(s);
    if chars.len() <= max {
        return s.to_owned();
    }
    if max == 0 {
        return String::new();
    }
    let head = slice_subrange(chars.as_slice(), 0, max - 1);
    let mut out = text::string_of(head);
    out.push('…');
    assert(out@ =~= s@.take(max - 1) + seq!['…']);
    out
}

/// A text that has been truncated is never longer than it may be. One that fits
/// is kept as it is; one that does not fills its room, and ends with an
/// ellipsis where there is any.
pub proof fn law_truncated_text_fits(s: Seq<char>, max: int)
    requires
        max >= 0,
    ensures
        truncated(s, max).len() <= max,
        s.len() <= max ==> truncated(s, max) == s,
        s.len() > max ==> truncated(s, max).len() == max,
        s.len() > max > 0 ==> truncated(s, max).last() == '…',
{
}

/// `n` in decimal, with at least two digits.
pub open spec fn two_digits(n: nat) -> Seq<char> {
    if n < 10 {
        seq!['0'] + text::decimal(n)
    } else {
        text::decimal(n)
    }
}

/// Milliseconds as `m:ss`.
pub open spec fn clock(ms: nat) -> Seq<char> {
    text::decimal(ms / 1000 / 60) + seq![':'] + two_digits(ms / 1000 % 60)
}

/// Format milliseconds as `m:ss`.
pub fn fmt_ms(ms: u32) -> (out: String)
    ensures
        out@ == clock(ms as nat),
{
    let s = ms / 1000;
    let mut out = text::decimal_text((s / 60) as u64);
    out.push(':');
    if s % 60 < 10 {
        out.push('0');
    }
    let rest = text::decimal_text((s % 60) as u64);
    out.append(rest.as_str());
    assert(out@ =~= clock(ms as nat));
    out
}

/// Convert a 0..=100 percentage to librespot's 0..=65535 volume range.
///
/// A percentage past 100 keeps only the low sixteen bits of the product.
pub fn vol_u16(pct: u8) -> (volume: u16)
    ensures
        volume == (pct * 65535 / 100) % 65536,
        pct <= 100 ==> volume == pct * 65535 / 100,
{
    let wide: u32 = pct as u32 * 65535 / 100;
    (wide % 65536) as u16
}

/// Full scale is reached at a hundred percent and only there, and a larger
/// percentage is never quieter.
pub proof fn law_volume_is_monotone(quiet: u8, loud: u8)
    requires
        quiet <= loud <= 100,
    ensures
        quiet * 65535 / 100 <= loud * 65535 / 100,
        (loud * 65535 / 100 == 65535) == (loud == 100),
        (quiet * 65535 / 100 == 0) == (quiet == 0),
{
}

/// A region of the terminal, in cells.
#[derive(Clone, Copy, PartialEq, Eq, Structural, Debug)]
pub struct Rect {
    pub x: u16,
    pub y: u16,
    pub width: u16,
    pub height: u16,
}

/// Vertically center a `height`-row rect inside `area`.
pub fn center_v(area: Rect, height: u16) -> (out: Rect)
    requires
        area.height > height ==> area.y + (area.height - height) / 2 <= u16::MAX,
    ensures
        out.x == area.x,
        out.width == area.width,
        out.height == (if height <= area.height {
            height
        } else {
            area.height
        }),
        out.y == area.y + (if height <= area.height {
            (area.height - height) / 2
        } else {
            0
        }),
{
    let y = area.y + area.height.saturating_sub(height) / 2;
    let rows: u16 = if height <= area.height {
        height
    } else {
        area.height
    };
    Rect { x: area.x, y, width: area.width, height: rows }
}

/// The `i`-th of the parts of a URI; empty where there are not so many.
pub open spec fn uri_part(uri: Seq<char>, i: int) -> Seq<char> {
    if i < text::pieces(uri, ':').len() {
        text::pieces(uri, ':')[i]
    } else {
        Seq::empty()
    }
}

/// Convert a `spotify:kind:id` URI to an open.spotify.com link.
pub fn uri_to_url(uri: &str) -> (url: String)
    ensures
        url@ == "https://open.spotify.com/"@ + uri_part(uri@, 1) + "/"@ + uri_part(uri@, 2),
{
    let chars = text::chars_of(uri);
    let parts = text::split_on(chars.as_slice(), ':');
    let kind = part(&parts, 1);
    let id = part(&parts, 2);
    assert(kind@ == uri_part(uri@, 1));
    assert(id@ == uri_part(uri@, 2));
    let head = text::join3("https://open.spotify.com/", kind.as_str(), "/");
    text::join2(head.as_str(), id.as_str())
}

fn part(parts: &Vec<Vec<char>>, i: usize) -> (out: String)
    ensures
        i < parts@.len() ==> out@ == parts@[i as int]@,
        i >= parts@.len() ==> out@ == Seq::<char>::empty(),
{
    if i < parts.len() {
        text::string_of(parts[i].as_slice())
    } else {
        String::new()
    }
}

/// The id in a `spotify:track:<id>` URI.
pub open spec fn track_id(uri: Seq<char>) -> Option<Seq<char>> {
    let parts = text::pieces(uri, ':');
    if parts.len() >= 3 && parts[0] == "spotify"@ && parts[1] == "track"@ {
        Some(parts[2])
    } else {
        None
    }
}

/// Pull the id out of a `spotify:track:<id>` URI.
pub fn track_id_from_uri(uri: &str) -> (id: Option<String>)
    ensures
        match id {
            Some(id) => track_id(uri@) == Some(id@),
            None => track_id(uri@) is None,
        },
{
    let chars = text::chars_of(uri);
    let parts = text::split_on(chars.as_slice(), ':');
    if parts.len() < 3 {
        return None;
    }
    let scheme = part(&parts, 0);
    let kind = part(&parts, 1);
    if text::same_text(scheme.as_str(), "spotify") && text::same_text(kind.as_str(), "track") {
        Some(part(&parts, 2))
    } else {
        None
    }
}

// ------------------------------------------------------------ percent encoding

/// Whether a byte stands for itself in a query component.
pub open spec fn unreserved(b: u8) -> bool {
    ||| 0x41 <= b <= 0x5a
    ||| 0x61 <= b <= 0x7a
    ||| 0x30 <= b <= 0x39
    ||| b == 0x2d
    ||| b == 0x5f
    ||| b == 0x2e
    ||| b == 0x7e
}

/// The upper-case hexadecimal digit for `d`.
pub open spec fn upper_hex(d: nat) -> char {
    if d < 10 {
        ('0' as u32 + d) as char
    } else {
        ('A' as u32 + (d - 10)) as char
    }
}

/// A byte in a query component: itself, or a percent sign and two digits.
pub open spec fn escaped(b: u8) -> Seq<char> {
    if unreserved(b) {
        seq![b as char]
    } else {
        seq!['%', upper_hex(b as nat / 16), upper_hex(b as nat % 16)]
    }
}

/// Bytes in a query component.
pub open spec fn percent_encoded(bytes: Seq<u8>) -> Seq<char>
    decreases bytes.len(),
{
    if bytes.len() == 0 {
        Seq::empty()
    } else {
        percent_encoded(bytes.drop_last()) + escaped(bytes.last())
    }
}

/// The upper-case hexadecimal digit for `d`.
fn upper_digit(d: u8) -> (c: char)
    requires
        d < 16,
    ensures
        c == upper_hex(d as nat),
{
    match d {
        0 => '0',
        1 => '1',
        2 => '2',
        3 => '3',
        4 => '4',
        5 => '5',
        6 => '6',
        7 => '7',
        8 => '8',
        9 => '9',
        10 => 'A',
        11 => 'B',
        12 => 'C',
        13 => 'D',
        14 => 'E',
        _ => 'F',
    }
}

/// Percent-encode a string for use in a query component.
pub fn urlencode(s: &str) -> (out: String)
    ensures
        out@ == percent_encoded(vstd::utf8::encode_utf8(s@)),
{
    let bytes = s.as_bytes();
    let mut out = String::new();
    let n = bytes.len();
    let mut i: usize = 0;
    assert(bytes@.take(0) =~= Seq::<u8>::empty());
    while i < n
        invariant
            i <= n,
            n == bytes@.len(),
            out@ == percent_encoded(bytes@.take(i as int)),
        decreases n - i,
    {
        let b = bytes[i];
        let ghost before = out@;
        assert(bytes@.take(i + 1).drop_last() =~= bytes@.take(i as int));
        if (0x41 <= b && b <= 0x5a) || (0x61 <= b && b <= 0x7a) || (0x30 <= b && b <= 0x39) || b
            == 0x2d || b == 0x5f || b == 0x2e || b == 0x7e {
            out.push(b as char);
        } else {
            out.push('%');
            out.push(upper_digit(b / 16));
            out.push(upper_digit(b % 16));
        }
        assert(out@ =~= before + escaped(b));
        i += 1;
    }
    assert(bytes@.take(n as int) =~= bytes@);
    out
}

/// Encoding byte by byte: what a run of bytes becomes does not depend on what
/// stands around it.
pub proof fn law_encoding_is_bytewise(a: Seq<u8>, b: Seq<u8>)
    ensures
        percent_encoded(a + b) == percent_encoded(a) + percent_encoded(b),
    decreases b.len(),
{
    if b.len() == 0 {
        assert(a + b =~= a);
        assert(percent_encoded(a) + percent_encoded(b) =~= percent_encoded(a));
    } else {
        law_encoding_is_bytewise(a, b.drop_last());
        assert((a + b).drop_last() =~= a + b.drop_last());
        assert((a + b).last() == b.last());
        assert(percent_encoded(a) + percent_encoded(b.drop_last()) + escaped(b.last())
            =~= percent_encoded(a) + percent_encoded(b));
    }
}

// ----------------------------------------------------------------------- laws

/// A text that is cut short begins as it did: only the tail gives way.
pub proof fn law_truncation_keeps_the_beginning(s: Seq<char>, max: int)
    requires
        0 < max < s.len(),
    ensures
        truncated(s, max) == s.take(max - 1).push('…'),
{
    assert(truncated(s, max) =~= s.take(max - 1).push('…'));
}

/// A clock shows whole minutes and, in two digits behind a colon, the seconds
/// left over: together they are the whole seconds that were to be shown.
pub proof fn law_a_clock_reads_back(ms: nat)
    ensures
        ({
            let shown = text::pieces(clock(ms), ':');
            &&& shown.len() == 2
            &&& shown[1].len() == 2
            &&& text::all_digits(shown[0]) && text::all_digits(shown[1])
            &&& text::digits_value(shown[1]) < 60
            &&& text::digits_value(shown[0]) * 60 + text::digits_value(shown[1]) == ms / 1000
        }),
{
    let m = ms / 1000 / 60;
    let s = ms / 1000 % 60;
    text::law_decimal_reads_back(m);
    text::law_decimal_reads_back(s);
    let head = text::decimal(m);
    let tail = two_digits(s);
    assert(text::lacks(head, ':')) by {
        assert forall|i: int| 0 <= i < head.len() implies #[trigger] head[i] != ':' by {
            assert(text::is_digit(head[i]));
        }
    }
    reveal_with_fuel(text::decimal, 3);
    let d = text::decimal(s);
    if s < 10 {
        assert(d.len() == 1);
        assert(tail =~= seq!['0', d[0]]);
        assert(tail.drop_last() =~= seq!['0']);
        assert(seq!['0'].drop_last() =~= Seq::empty());
        assert(d.drop_last() =~= Seq::empty());
        reveal_with_fuel(text::digits_value, 3);
        assert(text::digits_value(seq!['0']) == 0);
        assert(text::digits_value(tail) == text::digits_value(d));
        assert(text::is_digit(d[0]));
    } else {
        assert(s / 10 < 10);
        assert(d.len() == 2);
    }
    assert(text::all_digits(tail)) by {
        assert forall|i: int| 0 <= i < tail.len() implies text::is_digit(#[trigger] tail[i]) by {
            if s >= 10 {
                assert(tail[i] == d[i]);
            }
        }
    }
    assert(text::lacks(tail, ':')) by {
        assert forall|i: int| 0 <= i < tail.len() implies #[trigger] tail[i] != ':' by {
            assert(text::is_digit(tail[i]));
        }
    }
    text::law_the_first_piece(head, ':', tail);
    text::law_the_first_piece(tail, ':', Seq::empty());
    assert(text::pieces(clock(ms), ':') =~= seq![head, tail]);
}

/// A URI of three parts is taken apart into them, and is a track's exactly where
/// its scheme and its kind say so. What has no such parts has no kind and no id.
pub proof fn law_a_uri_names_a_kind_and_an_id(scheme: Seq<char>, kind: Seq<char>, id: Seq<char>)
    requires
        text::lacks(scheme, ':'),
        text::lacks(kind, ':'),
        text::lacks(id, ':'),
    ensures
        ({
            let uri = scheme + seq![':'] + (kind + seq![':'] + id);
            &&& uri_part(uri, 0) == scheme
            &&& uri_part(uri, 1) == kind
            &&& uri_part(uri, 2) == id
            &&& uri_part(uri, 3).len() == 0
            &&& scheme == "spotify"@ && kind == "track"@ ==> track_id(uri) == Some(id)
            &&& scheme != "spotify"@ || kind != "track"@ ==> track_id(uri) is None
        }),
        uri_part(scheme, 1).len() == 0,
        track_id(scheme) is None,
        track_id(scheme + seq![':'] + kind) is None,
{
    text::law_the_first_piece(scheme, ':', kind + seq![':'] + id);
    text::law_the_first_piece(scheme, ':', kind);
    text::law_the_first_piece(kind, ':', id);
    text::law_the_first_piece(id, ':', Seq::empty());
    let uri = scheme + seq![':'] + (kind + seq![':'] + id);
    assert(text::pieces(uri, ':') =~= seq![scheme, kind, id]);
    assert(text::pieces(scheme + seq![':'] + kind, ':') =~= seq![scheme, kind]);
}

/// The value of a hexadecimal digit.
pub open spec fn hex_value(c: char) -> int {
    if '0' <= c <= '9' {
        c as int - '0' as int
    } else if 'A' <= c <= 'F' {
        c as int - 'A' as int + 10
    } else {
        -1
    }
}

/// The bytes that a query component stands for.
pub open spec fn percent_decoded(s: Seq<char>) -> Seq<u8>
    decreases s.len(),
{
    if s.len() == 0 {
        Seq::empty()
    } else if s[0] == '%' && s.len() >= 3 {
        seq![(16 * hex_value(s[1]) + hex_value(s[2])) as u8] + percent_decoded(s.skip(3))
    } else {
        seq![s[0] as u8] + percent_decoded(s.skip(1))
    }
}

/// An encoded text decodes to the bytes it was made of.
pub proof fn law_encoding_decodes_back(bytes: Seq<u8>)
    ensures
        percent_decoded(percent_encoded(bytes)) == bytes,
    decreases bytes.len(),
{
    if bytes.len() > 0 {
        let b = bytes[0];
        let rest = bytes.skip(1);
        let one = seq![b];
        assert(bytes =~= one + rest);
        law_encoding_is_bytewise(one, rest);
        assert(one.drop_last() =~= Seq::empty());
        assert(percent_encoded(one.drop_last()) =~= Seq::empty());
        assert(percent_encoded(one) =~= escaped(b));
        let tail = percent_encoded(rest);
        let s = percent_encoded(bytes);
        assert(s =~= escaped(b) + tail);
        law_encoding_decodes_back(rest);
        if unreserved(b) {
            assert(s.skip(1) =~= tail);
            assert(s[0] == b as char);
            assert(s[0] != '%');
            assert(s[0] as u8 == b);
        } else {
            assert(s.skip(3) =~= tail);
            assert(s[0] == '%');
            lemma_hex_value(b as nat / 16);
            lemma_hex_value(b as nat % 16);
            assert(16 * hex_value(s[1]) + hex_value(s[2]) == b);
        }
        assert(percent_decoded(s) =~= bytes);
    }
}

proof fn lemma_hex_value(d: nat)
    requires
        d < 16,
    ensures
        hex_value(upper_hex(d)) == d,
{
}

/// An encoded text holds letters, digits, the four marks that need no escape,
/// and percent signs, so nothing in it can end the component; and a byte that is
/// one of these stands for itself.
pub proof fn law_an_encoded_text_is_safe(bytes: Seq<u8>, i: int, b: u8)
    ensures
        0 <= i < percent_encoded(bytes).len() ==> {
            let c = percent_encoded(bytes)[i];
            ||| 'A' <= c <= 'Z'
            ||| 'a' <= c <= 'z'
            ||| '0' <= c <= '9'
            ||| c == '-' || c == '_' || c == '.' || c == '~' || c == '%'
        },
        ('A' as u8 <= b <= 'Z' as u8 || 'a' as u8 <= b <= 'z' as u8 || '0' as u8 <= b <= '9' as u8
            || b == '-' as u8 || b == '_' as u8 || b == '.' as u8 || b == '~' as u8) ==> escaped(b)
            == seq![b as char],
    decreases bytes.len(),
{
    if bytes.len() > 0 {
        let front = percent_encoded(bytes.drop_last());
        law_an_encoded_text_is_safe(bytes.drop_last(), i, b);
        let last = bytes.last();
        if i >= front.len() && i < percent_encoded(bytes).len() {
            assert(percent_encoded(bytes)[i] == escaped(last)[i - front.len()]);
        }
    }
}

} // verus!
