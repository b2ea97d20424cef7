//! Small text helpers shared by the parsers.
use vstd::prelude::*;
use vstd::string::*;

use crate::chess::Color;
use crate::request::{ascii_words, split_words};

verus! {

/// Whether two texts are the same.
pub fn text_eq(a: &str, b: &str) -> (r: bool)
    ensures
        r == (a@ == b@),
{
    let n = a.unicode_len();
    if n != b.unicode_len() {
        return false;
    }
    let mut i: usize = 0;
    while i < n
        invariant
            n == a@.len(),
            n == b@.len(),
            i <= n,
            a@.subrange(0, i as int) == b@.subrange(0, i as int),
        decreases n - i,
    {
        if a.get_char(i) != b.get_char(i) {
            assert(a@[i as int] != b@[i as int]);
            return false;
        }
        assert(a@.subrange(0, i + 1) =~= a@.subrange(0, i as int).push(a@[i as int]));
        assert(b@.subrange(0, i + 1) =~= b@.subrange(0, i as int).push(b@[i as int]));
        i = i + 1;
    }
    assert(a@ =~= a@.subrange(0, n as int));
    assert(b@ =~= b@.subrange(0, n as int));
    true
}

/// Whether `line` begins with `prefix`.
pub open spec fn starts_with(line: Seq<char>, prefix: Seq<char>) -> bool {
    line.len() >= prefix.len() && line.subrange(0, prefix.len() as int) == prefix
}

/// Whether `line` begins with `prefix`.
pub fn text_starts_with(line: &str, prefix: &str) -> (r: bool)
    ensures
        r == starts_with(line@, prefix@),
{
    let n = line.unicode_len();
    let k = prefix.unicode_len();
    if n < k {
        return false;
    }
    text_eq(line.substring_char(0, k), prefix)
}

/// The move in an engine's `bestmove <move> ...` line: the second word of a
/// line that starts with `bestmove`.
pub fn best_move_of(line: &str) -> (r: Option<String>)
    ensures
        !starts_with(line@, "bestmove"@) ==> r.is_none(),
        starts_with(line@, "bestmove"@) ==> r.is_some() == (ascii_words(line@).len() >= 2),
        r matches Some(w) ==> w@ == ascii_words(line@)[1],
{
    if !text_starts_with(line, "bestmove") {
        return None;
    }
    let words = split_words(line);
    if words.len() < 2 {
        return None;
    }
    Some(words[1].clone())
}

pub open spec fn side_named(s: Seq<char>) -> Option<Color> {
    if s == "white"@ {
        Some(Color::White)
    } else if s == "black"@ {
        Some(Color::Black)
    } else {
        None
    }
}

/// The side named `white` or `black`.
pub fn side_from_name(s: &str) -> (r: Option<Color>)
    ensures
        r == side_named(s@),
{
    proof {
        reveal_strlit("white");
        reveal_strlit("black");
    }
    if text_eq(s, "white") {
        Some(Color::White)
    } else if text_eq(s, "black") {
        Some(Color::Black)
    } else {
        None
    }
}

} // verus!
