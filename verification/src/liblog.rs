//! The `log` bridge: how a record reads in the log file, and how loud it is.

use crate::text;
use vstd::prelude::*;

verus! {

/// Forwards the engine's own `log` output into the log file. Its Connect
/// diagnostics are the only account of why the device went inactive, and
/// without a logger installed they go nowhere.
#[derive(Clone, Copy, Debug)]
pub struct LibrespotLog;

impl LibrespotLog {
    /// Every record is wanted.
    pub fn enabled(&self) -> (yes: bool)
        ensures
            yes,
    {
        true
    }

    /// How a record reads: its level, its target, and what it says.
    pub fn line(&self, level: &str, target: &str, args: &str) -> (line: String)
        ensures
            line@ == level@ + " "@ + target@ + ": "@ + args@,
    {
        let head = text::join3(level, " ", target);
        text::join3(head.as_str(), ": ", args)
    }
}

/// How loud the engine is.
#[derive(Clone, Copy, PartialEq, Eq, Structural, Debug)]
pub enum Loudness {
    Trace,
    Debug,
    Info,
    Warn,
}

/// An ASCII letter in lower case; any other character as it is.
pub open spec fn lower_ascii(c: char) -> char {
    if 'A' <= c <= 'Z' {
        (c as u32 + 32) as char
    } else {
        c
    }
}

/// A text with its ASCII letters in lower case.
pub open spec fn ascii_lowercased(s: Seq<char>) -> Seq<char> {
    s.map_values(|c: char| lower_ascii(c))
}

/// A text with its ASCII letters in lower case.
pub fn ascii_lowercase(s: &str) -> (out: String)
    ensures
        out@ == ascii_lowercased(s@),
{
    let chars = text::chars_of(s);
    let mut out = String::new();
    let mut i: usize = 0;
    while i < chars.len()
        invariant
            i <= chars@.len(),
            chars@ == s@,
            out@ == ascii_lowercased(s@).take(i as int),
        decreases chars@.len() - i,
    {
        let c = chars[i];
        if 'A' <= c && c <= 'Z' {
            let low = (c as u8 + 32) as char;
            out.push(low);
        } else {
            out.push(c);
        }
        i += 1;
    }
    out
}

/// Any value of `MYX_LOG` turns logging on; the value only picks how loud the
/// engine is. `debug`/`trace` open it up, `warn` quiets it back down.
pub fn loudness(level: &str) -> (loud: Loudness)
    ensures
        loud == (if ascii_lowercased(level@) == "trace"@ {
            Loudness::Trace
        } else if ascii_lowercased(level@) == "debug"@ {
            Loudness::Debug
        } else if ascii_lowercased(level@) == "warn"@ {
            Loudness::Warn
        } else {
            Loudness::Info
        }),
{
    let low = ascii_lowercase(level);
    if text::same_text(low.as_str(), "trace") {
        Loudness::Trace
    } else if text::same_text(low.as_str(), "debug") {
        Loudness::Debug
    } else if text::same_text(low.as_str(), "warn") {
        Loudness::Warn
    } else {
        Loudness::Info
    }
}

/// Each of the twenty-six capital letters becomes its small letter, and nothing
/// else changes.
pub proof fn law_only_capitals_become_small(s: Seq<char>, i: int, k: u32, c: char)
    requires
        k < 26,
    ensures
        lower_ascii(('A' as u32 + k) as char) == ('a' as u32 + k) as char,
        c < 'A' || c > 'Z' ==> lower_ascii(c) == c,
        ascii_lowercased(s).len() == s.len(),
        0 <= i < s.len() ==> ascii_lowercased(s)[i] == lower_ascii(s[i]),
{
}

} // verus!
