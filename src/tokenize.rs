//! Splitting a command line into its verb and the text that follows it.
use vstd::prelude::*;
use vstd::slice::{slice_subrange, slice_to_vec};
use crate::bytes::{is_ws, is_ws_byte};

verus! {

/// The first index at or after `i` that does not hold whitespace (or the end).
pub open spec fn skip_ws_from(s: Seq<u8>, i: int) -> int
    decreases s.len() - i,
{
    if 0 <= i < s.len() && is_ws_byte(s[i]) {
        skip_ws_from(s, i + 1)
    } else {
        i
    }
}

/// The first index at or after `i` that holds whitespace (or the end).
pub open spec fn skip_word_from(s: Seq<u8>, i: int) -> int
    decreases s.len() - i,
{
    if 0 <= i < s.len() && !is_ws_byte(s[i]) {
        skip_word_from(s, i + 1)
    } else {
        i
    }
}

/// Where the verb starts: after any leading whitespace.
pub open spec fn verb_start(line: Seq<u8>) -> int {
    skip_ws_from(line, 0)
}

/// Where the verb ends: at the first whitespace after its start.
pub open spec fn verb_end(line: Seq<u8>) -> int {
    skip_word_from(line, verb_start(line))
}

/// A line split at its first separator: `None` when the line holds no verb;
/// otherwise the verb and, when a separator byte follows the verb, all of the
/// text after that one byte, verbatim (possibly empty).
pub open spec fn line_tokens(line: Seq<u8>) -> Option<(Seq<u8>, Option<Seq<u8>>)> {
    let s = verb_start(line);
    let e = verb_end(line);
    if s >= line.len() {
        None
    } else if e >= line.len() {
        Some((line.subrange(s, e), None))
    } else {
        Some((line.subrange(s, e), Some(line.subrange(e + 1, line.len() as int))))
    }
}

/// The bytes of an optional byte vector.
pub open spec fn opt_bytes(o: Option<Vec<u8>>) -> Option<Seq<u8>> {
    match o {
        Some(v) => Some(v@),
        None => None,
    }
}

/// Splits a line into its verb and the text after the first separator.
pub fn split_line(line: &[u8]) -> (r: Option<(Vec<u8>, Option<Vec<u8>>)>)
    ensures
        r is None <==> line_tokens(line@) is None,
        r matches Some((v, rest)) ==> line_tokens(line@) == Some((v@, opt_bytes(rest))),
{
    let n = line.len();
    let mut s: usize = 0;
    while s < n && is_ws(line[s])
        invariant
            n == line@.len(),
            s <= n,
            skip_ws_from(line@, s as int) == verb_start(line@),
        decreases n - s,
    {
        s += 1;
    }
    if s >= n {
        return None;
    }
    let mut e: usize = s;
    while e < n && !is_ws(line[e])
        invariant
            n == line@.len(),
            s <= e <= n,
            skip_word_from(line@, e as int) == verb_end(line@),
        decreases n - e,
    {
        e += 1;
    }
    let verb = slice_to_vec(slice_subrange(line, s, e));
    if e >= n {
        Some((verb, None))
    } else {
        let rest = slice_to_vec(slice_subrange(line, e + 1, n));
        Some((verb, Some(rest)))
    }
}

} // verus!
