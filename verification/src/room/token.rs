//! The room token: who may join, and how it survives a restart.

use crate::hex;
use crate::text;
use rand::RngCore;
use vstd::prelude::*;

verus! {

/// `rand::rng().fill_bytes`: sixteen bytes from the thread's generator.
///
/// Nothing is claimed of their values: they are drawn at random.
#[verifier::external_body]
fn random_bytes() -> (bytes: [u8; 16]) {
    let mut bytes = [0u8; 16];
    rand::rng().fill_bytes(&mut bytes);
    bytes
}

/// Whether `s` has the shape of a room token: 32 hexadecimal digits.
pub open spec fn is_token(s: Seq<char>) -> bool {
    hex::spells_bytes(vstd::utf8::encode_utf8(s), 16)
}

/// The token that sixteen bytes spell.
pub fn token_from(bytes: &[u8; 16]) -> (token: String)
    ensures
        token@ == hex::hex_of(bytes@),
        is_token(token@),
{
    proof {
        hex::law_hex_reads_back(bytes@);
    }
    hex::hex_text(bytes.as_slice())
}

/// A new token, drawn at random.
pub fn random_token() -> (token: String)
    ensures
        is_token(token@),
        exists|bytes: Seq<u8>| bytes.len() == 16 && token@ == #[trigger] hex::hex_of(bytes),
{
    let bytes = random_bytes();
    token_from(&bytes)
}

/// Whether `s` has the shape of a room token.
pub fn valid_token(s: &str) -> (ok: bool)
    ensures
        ok == is_token(s@),
{
    let bytes = s.as_bytes();
    bytes.len() == 32 && hex::all_hex_digits(bytes)
}

/// What the host's state directory held when the room was opened.
#[derive(Debug)]
pub enum Stored {
    /// There is no state directory.
    Nowhere,
    /// There is a place for the token, but no file could be read there.
    Unread,
    /// The text of the token file.
    Text(String),
}

/// The token to host with, and what to do about the file.
#[derive(Debug)]
pub struct TokenChoice {
    pub token: String,
    /// Write the token to its file.
    pub persist: bool,
    /// The file held something that is not a token; say so in the log.
    pub malformed: bool,
}

/// The token a file holds, if it holds one: whitespace around it is ignored.
pub open spec fn stored_token(stored: Stored) -> Option<Seq<char>> {
    match stored {
        Stored::Text(s) => if is_token(text::trimmed(s@)) {
            Some(text::trimmed(s@))
        } else {
            None
        },
        _ => None,
    }
}

/// Whether `choice` is the one to make: a stored token is kept, and a fresh one
/// is persisted wherever there is a place for it.
pub open spec fn chooses(stored: Stored, fresh: Seq<char>, choice: TokenChoice) -> bool {
    match stored_token(stored) {
        Some(kept) => choice.token@ == kept && !choice.persist && !choice.malformed,
        None => {
            &&& choice.token@ == fresh
            &&& choice.persist == !(stored is Nowhere)
            &&& choice.malformed == (stored is Text)
        },
    }
}

/// The room's token, stable across restarts: a stored one is kept, and a
/// fresh one is persisted wherever there is a place for it.
pub fn choose_token(stored: Stored, fresh: String) -> (choice: TokenChoice)
    ensures
        chooses(stored, fresh@, choice),
{
    match stored {
        Stored::Nowhere => TokenChoice { token: fresh, persist: false, malformed: false },
        Stored::Unread => TokenChoice { token: fresh, persist: true, malformed: false },
        Stored::Text(s) => {
            let chars = text::chars_of(s.as_str());
            let existing = text::string_of(text::trim(chars.as_slice()));
            if valid_token(existing.as_str()) {
                TokenChoice { token: existing, persist: false, malformed: false }
            } else {
                TokenChoice { token: fresh, persist: true, malformed: true }
            }
        },
    }
}

/// The token to host with: the stored one, or a fresh one.
pub fn load_or_create_token(stored: Stored) -> (choice: TokenChoice)
    ensures
        is_token(choice.token@),
        match stored_token(stored) {
            Some(kept) => choice.token@ == kept && !choice.persist && !choice.malformed,
            None => {
                &&& choice.persist == !(stored is Nowhere)
                &&& choice.malformed == (stored is Text)
            },
        },
{
    let fresh = random_token();
    choose_token(stored, fresh)
}

// ----------------------------------------------------------------------- laws

/// The token is stable across restarts: whatever the file held at first, the
/// next start finds there the token that the first one chose, and keeps it. As
/// long as there is a place for the file, that is so however often the room is
/// opened, whatever token is drawn in the meantime.
pub proof fn law_a_token_survives_a_restart(
    stored: Stored,
    fresh: Seq<char>,
    first: TokenChoice,
    file: String,
    drawn: Seq<char>,
    next: TokenChoice,
)
    requires
        stored !is Nowhere,
        is_token(fresh),
        chooses(stored, fresh, first),
        if first.persist {
            file@ == first.token@
        } else {
            stored == Stored::Text(file)
        },
        chooses(Stored::Text(file), drawn, next),
    ensures
        is_token(first.token@),
        text::trimmed(first.token@) == first.token@,
        next.token@ == first.token@,
        !next.persist,
        !next.malformed,
{
    let token = first.token@;
    assert(is_token(token));
    hex::lemma_digits(token);
    if token.len() > 0 {
        assert('0' <= token[0] <= 'f');
        assert('0' <= token[token.len() - 1] <= 'f');
    }
}

/// A file that holds a token, with or without white space around it, keeps it;
/// one that holds anything else is replaced by a fresh token and reported, and
/// where there is no file yet, one is written. Without a place nothing is.
pub proof fn law_a_token_is_kept_or_replaced(
    file: String,
    lead: Seq<char>,
    token: Seq<char>,
    tail: Seq<char>,
    fresh: Seq<char>,
    choice: TokenChoice,
)
    requires
        text::blank(lead),
        text::blank(tail),
        text::bare(token),
        file@ == lead + token + tail,
    ensures
        chooses(Stored::Text(file), fresh, choice) ==> {
            &&& is_token(token) ==> choice.token@ == token && !choice.persist && !choice.malformed
            &&& !is_token(token) ==> choice.token@ == fresh && choice.persist && choice.malformed
        },
        chooses(Stored::Unread, fresh, choice) ==> choice.token@ == fresh && choice.persist
            && !choice.malformed,
        chooses(Stored::Nowhere, fresh, choice) ==> choice.token@ == fresh && !choice.persist
            && !choice.malformed,
{
    text::law_trimming_keeps_the_words(lead, token, tail);
}

/// Thirty-two hexadecimal digits are a token, and a token is no longer or shorter
/// in bytes.
pub proof fn law_a_token_has_thirty_two_digits(s: Seq<char>)
    ensures
        s.len() == 32 && (forall|i: int|
            0 <= i < s.len() ==> ('0' <= #[trigger] s[i] <= '9' || 'a' <= s[i] <= 'f' || 'A' <= s[i]
                <= 'F')) ==> is_token(s),
        is_token(s) ==> vstd::utf8::encode_utf8(s).len() == 32,
{
    if s.len() == 32 && (forall|i: int|
        0 <= i < s.len() ==> ('0' <= #[trigger] s[i] <= '9' || 'a' <= s[i] <= 'f' || 'A' <= s[i]
            <= 'F')) {
        assert(vstd::utf8::is_ascii_chars(s));
        vstd::utf8::is_ascii_chars_encode_utf8(s);
        let bytes = vstd::utf8::encode_utf8(s);
        assert forall|i: int| 0 <= i < bytes.len() implies hex::is_hex_digit(
            #[trigger] bytes[i],
        ) by {
            assert(bytes[i] == s[i] as u8);
        }
    }
}

} // verus!
