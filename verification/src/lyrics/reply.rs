//! The lyrics in an answer of the lyrics service.

use crate::json::Json;
use crate::lyrics::parse;
use crate::text;
use vstd::prelude::*;

verus! {

/// Lyrics, line by line.
#[derive(Debug)]
pub struct Lyrics {
    pub lines: Vec<(u32, String)>,
    /// Whether the lines carry their times.
    pub synced: bool,
}

/// The lines of a text that carries no times: all of them at the start.
pub open spec fn untimed(text: Seq<char>) -> Seq<(nat, Seq<char>)> {
    parse::lines(text).map_values(|line: Seq<char>| (0nat, line))
}

/// The lines of a text that carries no times.
fn untimed_lines(lyrics: &str) -> (out: Vec<(u32, String)>)
    ensures
        parse::entries_view(out@) == untimed(lyrics@),
{
    let chars = text::chars_of(lyrics);
    let all = parse::split_lines(chars.as_slice());
    let mut out: Vec<(u32, String)> = Vec::new();
    let mut i: usize = 0;
    while i < all.len()
        invariant
            i <= all@.len(),
            all@.len() == parse::lines(lyrics@).len(),
            forall|j: int| 0 <= j < all@.len() ==> (#[trigger] all@[j])@ == parse::lines(lyrics@)[j],
            parse::entries_view(out@) =~= untimed(lyrics@).take(i as int),
        decreases all@.len() - i,
    {
        let ghost before = out@;
        out.push((0, text::string_of(all[i].as_slice())));
        assert(parse::entries_view(out@) =~= parse::entries_view(before).push(
            untimed(lyrics@)[i as int],
        ));
        i += 1;
    }
    assert(untimed(lyrics@).take(all@.len() as int) =~= untimed(lyrics@));
    out
}

/// The lyrics in an answer: the synced ones where there are such, or else the
/// plain ones. `None` where a time stamp is out of range.
pub fn lyrics_in(doc: &Json) -> (out: Option<Lyrics>)
    ensures
        match doc@.text_field("syncedLyrics"@) {
            Some(lrc) => {
                &&& out is Some <==> parse::lrc_defined(lrc)
                &&& out matches Some(found) ==> found.synced && parse::entries_view(found.lines@)
                    == parse::lyrics(lrc)
            },
            None => {
                let plain = doc@.text_field("plainLyrics"@);
                &&& out is Some
                &&& !out->0.synced
                &&& parse::entries_view(out->0.lines@) == (match plain {
                    Some(text) => untimed(text),
                    None => Seq::empty(),
                })
            },
        },
{
    if let Some(lrc) = doc.text_field("syncedLyrics") {
        if !parse::lrc_is_defined(lrc.as_str()) {
            return None;
        }
        return Some(Lyrics { lines: parse::parse_lrc(lrc.as_str()), synced: true });
    }
    let lines = match doc.text_field("plainLyrics") {
        Some(plain) => untimed_lines(plain.as_str()),
        None => Vec::new(),
    };
    assert(doc@.text_field("plainLyrics"@) is None ==> parse::entries_view(lines@)
        =~= Seq::empty());
    Some(Lyrics { lines, synced: false })
}

// ----------------------------------------------------------------------- laws

/// Lyrics without times keep their lines, each whole and in its place, and all
/// of them stand at the start.
pub proof fn law_plain_lyrics_keep_their_lines(first: Seq<char>, rest: Seq<char>)
    requires
        text::lacks(first, '\n'),
        first.len() > 0 ==> first.last() != '\r',
    ensures
        untimed(first + seq!['\n'] + rest) == seq![(0nat, first)] + untimed(rest),
        first.len() > 0 ==> untimed(first) == seq![(0nat, first)],
        untimed(Seq::empty()).len() == 0,
{
    let both = first + seq!['\n'] + rest;
    let n = first.len() as int;
    text::lemma_first_index(first, '\n', n);
    assert forall|j: int| 0 <= j < n implies both[j] != '\n' by {
        assert(both[j] == first[j]);
    }
    text::lemma_first_index(both, '\n', n);
    assert(both.take(n) =~= first);
    assert(both.skip(n + 1) =~= rest);
    assert(parse::lines(both) == seq![first] + parse::lines(rest));
    assert(untimed(both) =~= seq![(0nat, first)] + untimed(rest));
    if n > 0 {
        assert(parse::lines(first) == seq![first]);
        assert(untimed(first) =~= seq![(0nat, first)]);
    }
}

} // verus!
