//! Bytes written as hexadecimal text.

use vstd::prelude::*;

verus! {

/// The lower-case hexadecimal digit for `d`.
pub open spec fn hex_char(d: nat) -> char {
    if d < 10 {
        ('0' as u32 + d) as char
    } else {
        ('a' as u32 + (d - 10)) as char
    }
}

/// `bytes` written with two lower-case digits each.
pub open spec fn hex_of(bytes: Seq<u8>) -> Seq<char> {
    Seq::new(
        2 * bytes.len(),
        |i: int|
            if i % 2 == 0 {
                hex_char(bytes[i / 2] as nat / 16)
            } else {
                hex_char(bytes[i / 2] as nat % 16)
            },
    )
}

/// Whether `b` is an ASCII hexadecimal digit, of either case.
pub open spec fn is_hex_digit(b: u8) -> bool {
    0x30 <= b <= 0x39 || 0x41 <= b <= 0x46 || 0x61 <= b <= 0x66
}

/// The value of a hexadecimal digit.
pub open spec fn hex_value(b: u8) -> nat {
    if b <= 0x39 {
        (b - 0x30) as nat
    } else if b <= 0x46 {
        (b - 0x41 + 10) as nat
    } else {
        (b - 0x61 + 10) as nat
    }
}

/// Whether `bytes` is `2 * n` hexadecimal digits.
pub open spec fn spells_bytes(bytes: Seq<u8>, n: nat) -> bool {
    &&& bytes.len() == 2 * n
    &&& forall|i: int| 0 <= i < bytes.len() ==> is_hex_digit(#[trigger] bytes[i])
}

/// The bytes that pairs of hexadecimal digits spell.
pub open spec fn bytes_spelled(digits: Seq<u8>) -> Seq<u8> {
    Seq::new(
        digits.len() / 2,
        |i: int| (hex_value(digits[2 * i]) * 16 + hex_value(digits[2 * i + 1])) as u8,
    )
}

/// The lower-case hexadecimal digit for `d`.
fn hex_digit(d: u8) -> (c: char)
    requires
        d < 16,
    ensures
        c == hex_char(d as nat),
{
    match d {
        0 => '0',
        1 => '1',
        2 => '2',
        3 => '3',
        4 => '4',
        5 => '5',
        6 => '6',
        7 => '7',
        8 => '8',
        9 => '9',
        10 => 'a',
        11 => 'b',
        12 => 'c',
        13 => 'd',
        14 => 'e',
        _ => 'f',
    }
}

/// `bytes` written with two lower-case digits each.
pub fn hex_text(bytes: &[u8]) -> (out: String)
    ensures
        out@ == hex_of(bytes@),
{
    let mut out = String::new();
    let n = bytes.len();
    let mut i: usize = 0;
    while i < n
        invariant
            i <= n,
            n == bytes@.len(),
            out@ == hex_of(bytes@).take(2 * i),
        decreases n - i,
    {
        let ghost before = out@;
        out.push(hex_digit(bytes[i] / 16));
        out.push(hex_digit(bytes[i] % 16));
        assert(hex_of(bytes@)[2 * i] == hex_char(bytes@[i as int] as nat / 16));
        assert(hex_of(bytes@)[2 * i + 1] == hex_char(bytes@[i as int] as nat % 16));
        assert(out@ =~= hex_of(bytes@).take(2 * (i + 1)));
        i += 1;
    }
    out
}

/// Whether every one of `bytes` is a hexadecimal digit.
pub fn all_hex_digits(bytes: &[u8]) -> (yes: bool)
    ensures
        yes == forall|i: int| 0 <= i < bytes@.len() ==> is_hex_digit(#[trigger] bytes@[i]),
{
    let n = bytes.len();
    let mut i: usize = 0;
    while i < n
        invariant
            i <= n,
            n == bytes@.len(),
            forall|j: int| 0 <= j < i ==> is_hex_digit(#[trigger] bytes@[j]),
        decreases n - i,
    {
        let b = bytes[i];
        if !((0x30 <= b && b <= 0x39) || (0x41 <= b && b <= 0x46) || (0x61 <= b && b <= 0x66)) {
            return false;
        }
        i += 1;
    }
    true
}

/// The value of a hexadecimal digit.
pub fn digit_value(b: u8) -> (v: u8)
    requires
        is_hex_digit(b),
    ensures
        v == hex_value(b),
        v < 16,
{
    if b <= 0x39 {
        b - 0x30
    } else if b <= 0x46 {
        b - 0x41 + 10
    } else {
        b - 0x61 + 10
    }
}

/// A character that is written with a hexadecimal digit first is that digit.
proof fn lemma_digit(c: char)
    requires
        is_hex_digit(vstd::utf8::encode_scalar(c as u32)[0]),
    ensures
        '0' <= c <= 'f',
{
    let n = c as u32;
    let one = (n & 0x7f) as u8;
    let two = 0xc0u8 | ((n >> 6) & 0x1f) as u8;
    let three = 0xe0u8 | ((n >> 12) & 0x0f) as u8;
    let four = 0xf0u8 | ((n >> 18) & 0x7) as u8;
    assert(two >= 0x80 && three >= 0x80 && four >= 0x80) by (bit_vector)
        requires
            two == 0xc0u8 | ((n >> 6) & 0x1f) as u8,
            three == 0xe0u8 | ((n >> 12) & 0x0f) as u8,
            four == 0xf0u8 | ((n >> 18) & 0x7) as u8,
    ;
    assert(n <= 0x7f ==> one == n) by (bit_vector)
        requires
            one == (n & 0x7f) as u8,
    ;
}

/// A text whose bytes are all hexadecimal digits is made of such digits.
pub proof fn lemma_digits(text: Seq<char>)
    requires
        forall|i: int|
            0 <= i < vstd::utf8::encode_utf8(text).len() ==> is_hex_digit(
                #[trigger] vstd::utf8::encode_utf8(text)[i],
            ),
    ensures
        forall|i: int| 0 <= i < text.len() ==> '0' <= #[trigger] text[i] <= 'f',
    decreases text.len(),
{
    if text.len() > 0 {
        let first = vstd::utf8::encode_scalar(text[0] as u32);
        let rest = vstd::utf8::encode_utf8(text.drop_first());
        let all = vstd::utf8::encode_utf8(text);
        assert(all == first + rest);
        assert(all[0] == first[0]);
        lemma_digit(text[0]);
        assert forall|i: int| 0 <= i < rest.len() implies is_hex_digit(#[trigger] rest[i]) by {
            assert(all[first.len() + i] == rest[i]);
        }
        lemma_digits(text.drop_first());
        assert forall|i: int| 0 <= i < text.len() implies '0' <= #[trigger] text[i] <= 'f' by {
            if i > 0 {
                assert(text.drop_first()[i - 1] == text[i]);
            }
        }
    }
}

/// Bytes written as hexadecimal are read back unchanged, and the text is valid.
pub proof fn law_hex_reads_back(bytes: Seq<u8>)
    ensures
        spells_bytes(vstd::utf8::encode_utf8(hex_of(bytes)), bytes.len()),
        bytes_spelled(vstd::utf8::encode_utf8(hex_of(bytes))) == bytes,
{
    let text = hex_of(bytes);
    assert forall|i: int| 0 <= i < text.len() implies #[trigger] text[i] as u32 <= 0x7f && is_hex_digit(
        text[i] as u8,
    ) by {
        assert(0 <= i / 2 < bytes.len());
    }
    assert(vstd::utf8::is_ascii_chars(text));
    vstd::utf8::is_ascii_chars_encode_utf8(text);
    let wire = vstd::utf8::encode_utf8(text);
    assert forall|i: int| 0 <= i < bytes.len() implies #[trigger] bytes_spelled(wire)[i]
        == bytes[i] by {
        assert(text[2 * i] == hex_char(bytes[i] as nat / 16));
        assert(text[2 * i + 1] == hex_char(bytes[i] as nat % 16));
        assert(wire[2 * i] == text[2 * i] as u8);
        assert(wire[2 * i + 1] == text[2 * i + 1] as u8);
    }
    assert(bytes_spelled(wire) =~= bytes);
}

/// Every byte is written as two digits, the high one first, in lower case; the
/// digits read in either case, each as what it stands for.
pub proof fn law_a_byte_is_two_digits(bytes: Seq<u8>, i: int, d: u8)
    ensures
        hex_of(bytes).len() == 2 * bytes.len(),
        0 <= i < bytes.len() ==> {
            let high = hex_of(bytes)[2 * i];
            let low = hex_of(bytes)[2 * i + 1];
            &&& '0' <= high <= '9' || 'a' <= high <= 'f'
            &&& '0' <= low <= '9' || 'a' <= low <= 'f'
            &&& hex_value(high as u8) == bytes[i] / 16
            &&& hex_value(low as u8) == bytes[i] % 16
        },
        '0' as u8 <= d <= '9' as u8 ==> is_hex_digit(d) && hex_value(d) == d - '0' as u8,
        'a' as u8 <= d <= 'f' as u8 ==> is_hex_digit(d) && hex_value(d) == 10 + d - 'a' as u8,
        'A' as u8 <= d <= 'F' as u8 ==> is_hex_digit(d) && hex_value(d) == 10 + d - 'A' as u8,
        is_hex_digit(d) ==> '0' as u8 <= d <= '9' as u8 || 'a' as u8 <= d <= 'f' as u8 || 'A' as u8
            <= d <= 'F' as u8,
{
}

} // verus!
