//! Requests for the board's microcontroller, parsed from the text commands
//! of the hardware link: `WRITE <op> <arguments>`.
use vstd::prelude::*;
use vstd::string::*;
use itertools::Itertools;

use crate::commands::{decimal, decimal_text};
use crate::text::text_eq;

verus! {

/// The bytes sent to the microcontroller: an opcode and its arguments.
pub type Instruction = Vec<u8>;

/// Opcode: report the occupancy of all squares.
pub const SENSOR: u8 = 1;

/// Opcode: run the gantry through waypoints.
pub const MAGNET: u8 = 2;

/// Opcode: set the square colours.
pub const LED: u8 = 3;

/// Opcode: acknowledge.
pub const ACK: u8 = 4;

/// Opcode: stop.
pub const QUIT: u8 = 5;

/// A request for the microcontroller.
#[derive(Clone, Debug, PartialEq, Eq)]
pub enum Request {
    Write(Instruction),
}

/// Why a command line is not a request.
#[derive(Clone, Debug, PartialEq, Eq)]
pub enum RequestConversionError {
    /// The command or the operation name is unknown.
    UndefinedOpSequence(String),
    /// The command or the operation name is missing.
    EmptyOpSequence(String),
    /// The arguments of the operation do not parse.
    MalformedOpSequence(String),
}

/// The opcode named by an operation word.
pub open spec fn opcode_of(word: Seq<char>) -> Option<u8> {
    if word == "SENSOR"@ {
        Some(SENSOR)
    } else if word == "MAGNET"@ {
        Some(MAGNET)
    } else if word == "LED"@ {
        Some(LED)
    } else if word == "ACK"@ {
        Some(ACK)
    } else if word == "QUIT"@ {
        Some(QUIT)
    } else {
        None
    }
}

pub open spec fn is_digit(c: char) -> bool {
    '0' <= c && c <= '9'
}

/// The value of a run of decimal digits.
pub open spec fn digits_value(s: Seq<char>) -> nat
    decreases s.len(),
{
    if s.len() == 0 {
        0
    } else {
        digits_value(s.drop_last()) * 10 + (s.last() as nat - '0' as nat) as nat
    }
}

/// The text without a leading `+`.
pub open spec fn unsigned_body(s: Seq<char>) -> Seq<char> {
    if s.len() > 0 && s[0] == '+' {
        s.drop_first()
    } else {
        s
    }
}

/// One or more characters, all decimal digits.
pub open spec fn all_digits(b: Seq<char>) -> bool {
    b.len() > 0 && forall|i: int| 0 <= i < b.len() ==> is_digit(#[trigger] b[i])
}

/// An unsigned 32-bit number in decimal: an optional `+`, then one or more
/// digits, with a value that fits.
pub open spec fn u32_text_value(s: Seq<char>) -> Option<u32> {
    let body = unsigned_body(s);
    if all_digits(body) && digits_value(body) <= u32::MAX {
        Some(digits_value(body) as u32)
    } else {
        None
    }
}

/// A run of digits is worth at least as much as any of its prefixes.
proof fn lemma_digits_prefix(t: Seq<char>, j: int)
    requires
        0 <= j <= t.len(),
    ensures
        digits_value(t.subrange(0, j)) <= digits_value(t),
    decreases t.len(),
{
    if j < t.len() {
        assert(t.drop_last().subrange(0, j) =~= t.subrange(0, j));
        lemma_digits_prefix(t.drop_last(), j);
    } else {
        assert(t.subrange(0, j) =~= t);
    }
}

/// Reads an unsigned 32-bit number in decimal: an optional `+` and one or
/// more digits whose value fits.
pub(crate) fn parse_u32(s: &str) -> (r: Option<u32>)
    ensures
        r == u32_text_value(s@),
{
    let n = s.unicode_len();
    let k: usize = if n > 0 && s.get_char(0) == '+' { 1 } else { 0 };
    let ghost body = unsigned_body(s@);
    assert(body =~= s@.subrange(k as int, n as int));
    if k == n {
        return None;
    }
    let mut v: u32 = 0;
    let mut i: usize = k;
    assert(s@.subrange(k as int, k as int) =~= Seq::<char>::empty());
    while i < n
        invariant
            n == s@.len(),
            k <= i <= n,
            k < n,
            body == s@.subrange(k as int, n as int),
            body == unsigned_body(s@),
            v as nat == digits_value(s@.subrange(k as int, i as int)),
            forall|j: int| k <= j < i ==> is_digit(#[trigger] s@[j]),
        decreases n - i,
    {
        let c = s.get_char(i);
        let ghost prefix = s@.subrange(k as int, i + 1);
        assert(prefix.drop_last() =~= s@.subrange(k as int, i as int));
        assert(body[i - k] == c);
        if !('0' <= c && c <= '9') {
            assert(!is_digit(body[i - k]));
            assert(!all_digits(body));
            assert(u32_text_value(s@).is_none());
            return None;
        }
        let d: u32 = (c as u32) - ('0' as u32);
        if v > (u32::MAX - d) / 10 {
            proof {
                assert(digits_value(prefix) > u32::MAX);
                if all_digits(body) {
                    assert(body.subrange(0, i + 1 - k) =~= prefix);
                    lemma_digits_prefix(body, i + 1 - k);
                    assert(digits_value(body) > u32::MAX);
                }
                assert(u32_text_value(s@).is_none());
            }
            return None;
        }
        v = v * 10 + d;
        i = i + 1;
    }
    assert(s@.subrange(k as int, n as int) == body);
    Some(v)
}

pub open spec fn bool_text_value(s: Seq<char>) -> Option<bool> {
    if s == "true"@ {
        Some(true)
    } else if s == "false"@ {
        Some(false)
    } else {
        None
    }
}

/// Reads `true` or `false`.
fn parse_bool(s: &str) -> (r: Option<bool>)
    ensures
        r == bool_text_value(s@),
{
    proof {
        reveal_strlit("true");
        reveal_strlit("false");
    }
    if text_eq(s, "true") {
        Some(true)
    } else if text_eq(s, "false") {
        Some(false)
    } else {
        None
    }
}

/// A space, tab, line feed, form feed or carriage return.
pub open spec fn is_ascii_space(c: char) -> bool {
    c == ' ' || c == '\t' || c == '\n' || c == '\x0C' || c == '\r'
}

/// The words of `s` when the word `cur` is already under way: the maximal
/// runs of characters that are not ASCII whitespace, in order.
pub open spec fn words_from(s: Seq<char>, cur: Seq<char>) -> Seq<Seq<char>>
    decreases s.len(),
{
    let done = if cur.len() > 0 { seq![cur] } else { Seq::empty() };
    if s.len() == 0 {
        done
    } else if is_ascii_space(s[0]) {
        done + words_from(s.drop_first(), Seq::empty())
    } else {
        words_from(s.drop_first(), cur.push(s[0]))
    }
}

/// The words of a text, split at ASCII whitespace.
pub open spec fn ascii_words(s: Seq<char>) -> Seq<Seq<char>> {
    words_from(s, Seq::empty())
}

/// The words of a text: the runs of characters between ASCII whitespace,
/// in order, without empty words.
pub(crate) fn split_words(s: &str) -> (r: Vec<String>)
    ensures
        r@.map_values(|w: String| w@) == ascii_words(s@),
{
    let n = s.unicode_len();
    let mut out: Vec<String> = Vec::new();
    let mut start: usize = 0;
    let mut i: usize = 0;
    assert(s@.skip(0) =~= s@);
    assert(s@.subrange(0, 0) =~= Seq::<char>::empty());
    while i < n
        invariant
            n == s@.len(),
            start <= i <= n,
            ascii_words(s@) == texts(out@) + words_from(s@.skip(i as int), s@.subrange(start as int, i as int)),
        decreases n - i,
    {
        let c = s.get_char(i);
        let ghost cur = s@.subrange(start as int, i as int);
        let ghost rest = s@.skip(i as int);
        assert(rest[0] == c);
        assert(rest.drop_first() =~= s@.skip(i + 1));
        if c == ' ' || c == '\t' || c == '\n' || c == '\x0C' || c == '\r' {
            if start < i {
                let ghost before = out@;
                out.push(s.substring_char(start, i).to_owned());
                assert(texts(out@) =~= texts(before) + seq![cur]);
            } else {
                assert(cur =~= Seq::<char>::empty());
            }
            start = i + 1;
            assert(s@.subrange(start as int, i + 1) =~= Seq::<char>::empty());
        } else {
            assert(s@.subrange(start as int, i + 1) =~= cur.push(c));
        }
        i = i + 1;
    }
    let ghost cur = s@.subrange(start as int, n as int);
    assert(s@.skip(n as int) =~= Seq::<char>::empty());
    if start < n {
        let ghost before = out@;
        out.push(s.substring_char(start, n).to_owned());
        assert(texts(out@) =~= texts(before) + seq![cur]);
    } else {
        assert(cur =~= Seq::<char>::empty());
        assert(texts(out@) =~= texts(out@) + Seq::<Seq<char>>::empty());
    }
    out
}

/// The words of a command line, split at ASCII whitespace.
pub fn command_words(line: &str) -> (r: Vec<String>)
    ensures
        texts(r@) == ascii_words(line@),
{
    split_words(line)
}

/// Relies on itertools' `Itertools::tuples`: the words in consecutive
/// groups of three, a shorter rest dropped.
#[verifier::external_body]
fn word_triples(words: &Vec<String>) -> (r: Vec<(String, String, String)>)
    ensures
        r@.len() == words@.len() / 3,
        forall|k: int|
            0 <= k < r@.len() ==> (#[trigger] r@[k]).0@ == words@[3 * k]@ && r@[k].1@ == words@[3 * k + 1]@
                && r@[k].2@ == words@[3 * k + 2]@,
{
    words.iter().cloned().tuples().collect()
}

/// The four bytes of a 32-bit word, least significant first.
pub open spec fn le_bytes(w: u32) -> Seq<u8> {
    seq![(w & 0xff) as u8, ((w >> 8) & 0xff) as u8, ((w >> 16) & 0xff) as u8, ((w >> 24) & 0xff) as u8]
}

/// The three low bytes of a 32-bit word, most significant first.
pub open spec fn rgb_bytes(w: u32) -> Seq<u8> {
    seq![((w >> 16) & 0xff) as u8, ((w >> 8) & 0xff) as u8, (w & 0xff) as u8]
}

/// The bytes of one `<x> <y> <on>` waypoint, given the single-precision bit
/// patterns of the words `x` and `y`.
pub open spec fn waypoint_bytes(x: Option<u32>, y: Option<u32>, on: Seq<char>) -> Option<Seq<u8>> {
    match (x, y, bool_text_value(on)) {
        (Some(a), Some(b), Some(m)) => Some(le_bytes(a) + le_bytes(b) + seq![if m { 1u8 } else { 0u8 }]),
        _ => None,
    }
}

/// The waypoint arguments: whole groups of three words, as far as they
/// parse, and whether all of them did. Words past the last whole group are
/// ignored.
pub open spec fn magnet_args(words: Seq<Seq<char>>, bits: Seq<Option<u32>>) -> (Seq<u8>, bool)
    decreases words.len(),
{
    if words.len() < 3 || bits.len() < 3 {
        (Seq::empty(), true)
    } else {
        match waypoint_bytes(bits[0], bits[1], words[2]) {
            None => (Seq::empty(), false),
            Some(t) => {
                let rest = magnet_args(words.skip(3), bits.skip(3));
                (t + rest.0, rest.1)
            },
        }
    }
}

/// The colour arguments: three bytes for each word that is a number; other
/// words are ignored.
pub open spec fn led_args(words: Seq<Seq<char>>) -> Seq<u8>
    decreases words.len(),
{
    if words.len() == 0 {
        Seq::empty()
    } else {
        let head = match u32_text_value(words[0]) {
            Some(n) => rgb_bytes(n),
            None => Seq::empty(),
        };
        head + led_args(words.skip(1))
    }
}

/// The texts of a list of words.
pub open spec fn texts(words: Seq<String>) -> Seq<Seq<char>> {
    words.map_values(|w: String| w@)
}

/// What parsing the arguments does to an instruction holding one opcode:
/// the bytes appended, and whether the arguments parsed.
pub open spec fn arguments_effect(opcode: u8, words: Seq<Seq<char>>, bits: Seq<Option<u32>>) -> (Seq<u8>, bool) {
    if opcode == MAGNET {
        magnet_args(words, bits)
    } else if opcode == LED {
        (led_args(words), true)
    } else {
        (Seq::empty(), true)
    }
}

fn push_le_bytes(buf: &mut Vec<u8>, w: u32)
    ensures
        final(buf)@ == old(buf)@ + le_bytes(w),
{
    buf.push((w & 0xff) as u8);
    buf.push(((w >> 8) & 0xff) as u8);
    buf.push(((w >> 16) & 0xff) as u8);
    buf.push(((w >> 24) & 0xff) as u8);
    assert(buf@ =~= old(buf)@ + le_bytes(w));
}

impl Request {
    /// Appends the arguments of the operation in `instr_buf` (which must
    /// hold just the opcode) and returns how many bytes were added.
    /// Waypoints take the words in groups of three, `<x> <y> <on>`; for each
    /// word `float_bits` holds the single-precision bit pattern of its value
    /// as a decimal number, or `None` where it is not one. A waypoint that
    /// does not parse stops the parse with an error, after the waypoints
    /// before it were added. Colours take every word that is a 32-bit number
    /// and skip the others. Other operations take no arguments.
    pub fn _try_parse_arguments_into(
        instr_buf: &mut Instruction,
        words: &Vec<String>,
        float_bits: &Vec<Option<u32>>,
    ) -> (r: Result<usize, ()>)
        requires
            words@.len() == float_bits@.len(),
        ensures
            old(instr_buf)@.len() != 1 ==> r == Err::<usize, ()>(()) && final(instr_buf)@ == old(instr_buf)@,
            old(instr_buf)@.len() == 1 ==> ({
                let (added, ok) = arguments_effect(old(instr_buf)@[0], texts(words@), float_bits@);
                &&& final(instr_buf)@ == old(instr_buf)@ + added
                &&& r == if ok { Ok::<usize, ()>(added.len() as usize) } else { Err(()) }
            }),
    {
        if instr_buf.len() != 1 {
            return Err(());
        }
        let opcode = instr_buf[0];
        let ghost ws = texts(words@);
        let ghost bs = float_bits@;
        let ghost start = instr_buf@;
        let n = words.len();
        if opcode == MAGNET {
            let triples = word_triples(words);
            let mut t: usize = 0;
            let mut i: usize = 0;
            assert(instr_buf@.skip(1) =~= Seq::<u8>::empty());
            assert(ws.skip(0) =~= ws);
            assert(bs.skip(0) =~= bs);
            while t < triples.len()
                invariant
                    opcode == MAGNET,
                    i == 3 * t,
                    triples@.len() == n / 3,
                    forall|k: int| 0 <= k < triples@.len() ==> (#[trigger] triples@[k]).2@ == words@[3 * k + 2]@,
                    n == words@.len(),
                    n == float_bits@.len(),
                    ws == texts(words@),
                    bs == float_bits@,
                    i <= n,
                    instr_buf@.len() >= 1,
                    start == old(instr_buf)@,
                    start.len() == 1,
                    start[0] == opcode,
                    instr_buf@ == start + instr_buf@.skip(1),
                    magnet_args(ws, bs) == (instr_buf@.skip(1) + magnet_args(ws.skip(i as int), bs.skip(i as int)).0,
                        magnet_args(ws.skip(i as int), bs.skip(i as int)).1),
                decreases n - i,
            {
                let ghost pushed = instr_buf@.skip(1);
                assert(ws.skip(i as int).skip(3) =~= ws.skip(i + 3));
                assert(bs.skip(i as int).skip(3) =~= bs.skip(i + 3));
                assert(triples@[t as int].2@ == words@[3 * t + 2]@);
                let on = parse_bool(triples[t].2.as_str());
                match (float_bits[i], float_bits[i + 1], on) {
                    (Some(x), Some(y), Some(m)) => {
                        push_le_bytes(instr_buf, x);
                        push_le_bytes(instr_buf, y);
                        instr_buf.push(if m { 1u8 } else { 0u8 });
                        assert(ws.skip(i as int)[2] == words@[i + 2]@);
                        assert(bs.skip(i as int)[0] == float_bits@[i as int]);
                        assert(bs.skip(i as int)[1] == float_bits@[i + 1]);
                        assert(instr_buf@.skip(1) =~= pushed + le_bytes(x) + le_bytes(y) + seq![if m { 1u8 } else { 0u8 }]);
                        assert(instr_buf@ =~= start + instr_buf@.skip(1));
                    },
                    _ => {
                        assert(ws.skip(i as int)[2] == words@[i + 2]@);
                        assert(bs.skip(i as int)[0] == float_bits@[i as int]);
                        assert(bs.skip(i as int)[1] == float_bits@[i + 1]);
                        assert(magnet_args(ws.skip(i as int), bs.skip(i as int)) == (Seq::<u8>::empty(), false));
                        assert(instr_buf@.skip(1) =~= instr_buf@.skip(1) + Seq::<u8>::empty());
                        return Err(());
                    },
                }
                i = i + 3;
                t = t + 1;
            }
            assert(instr_buf@.skip(1) =~= instr_buf@.skip(1) + Seq::<u8>::empty());
            Ok(instr_buf.len() - 1)
        } else if opcode == LED {
            let mut i: usize = 0;
            assert(instr_buf@.skip(1) =~= Seq::<u8>::empty());
            assert(ws.skip(0) =~= ws);
            while i < n
                invariant
                    opcode == LED,
                    n == words@.len(),
                    ws == texts(words@),
                    i <= n,
                    instr_buf@.len() >= 1,
                    start == old(instr_buf)@,
                    start.len() == 1,
                    start[0] == opcode,
                    instr_buf@ == start + instr_buf@.skip(1),
                    led_args(ws) == instr_buf@.skip(1) + led_args(ws.skip(i as int)),
                decreases n - i,
            {
                let ghost pushed = instr_buf@.skip(1);
                assert(ws.skip(i as int).skip(1) =~= ws.skip(i + 1));
                match parse_u32(words[i].as_str()) {
                    Some(v) => {
                        instr_buf.push(((v >> 16) & 0xff) as u8);
                        instr_buf.push(((v >> 8) & 0xff) as u8);
                        instr_buf.push((v & 0xff) as u8);
                        assert(ws.skip(i as int)[0] == words@[i as int]@);
                        assert(instr_buf@.skip(1) =~= pushed + rgb_bytes(v));
                        assert(instr_buf@ =~= start + instr_buf@.skip(1));
                    },
                    None => {
                        assert(ws.skip(i as int)[0] == words@[i as int]@);
                        assert(pushed =~= pushed + Seq::<u8>::empty());
                    },
                }
                i = i + 1;
            }
            assert(ws.skip(n as int) =~= Seq::<Seq<char>>::empty());
            assert(instr_buf@.skip(1) =~= instr_buf@.skip(1) + Seq::<u8>::empty());
            Ok(instr_buf.len() - 1)
        } else {
            assert(instr_buf@ =~= start + Seq::<u8>::empty());
            Ok(0)
        }
    }

    /// The opcode named by an operation word.
    pub fn _try_parse_opcode(opword: &str) -> (r: Result<u8, ()>)
        ensures
            r == (match opcode_of(opword@) {
                Some(c) => Ok(c),
                None => Err(()),
            }),
    {
        proof {
            reveal_strlit("SENSOR");
            reveal_strlit("MAGNET");
            reveal_strlit("LED");
            reveal_strlit("ACK");
            reveal_strlit("QUIT");
        }
        if text_eq(opword, "SENSOR") {
            Ok(SENSOR)
        } else if text_eq(opword, "MAGNET") {
            Ok(MAGNET)
        } else if text_eq(opword, "LED") {
            Ok(LED)
        } else if text_eq(opword, "ACK") {
            Ok(ACK)
        } else if text_eq(opword, "QUIT") {
            Ok(QUIT)
        } else {
            Err(())
        }
    }
}

impl Request {
    /// The request that a split command line asks for: `WRITE`, an operation
    /// name, and its arguments (see `_try_parse_arguments_into`, which
    /// `float_bits` serves). A missing word is `EmptyOpSequence`, an unknown
    /// command or operation `UndefinedOpSequence`, arguments that do not
    /// parse `MalformedOpSequence`.
    pub fn try_from_words(words: &Vec<String>, float_bits: &Vec<Option<u32>>) -> (r: Result<
        Request,
        RequestConversionError,
    >)
        requires
            words@.len() == float_bits@.len(),
        ensures
            words@.len() == 0 ==> r matches Err(RequestConversionError::EmptyOpSequence(_)),
            words@.len() > 0 && words@[0]@ != "WRITE"@ ==> r matches Err(
                RequestConversionError::UndefinedOpSequence(_),
            ),
            words@.len() == 1 && words@[0]@ == "WRITE"@ ==> r matches Err(
                RequestConversionError::EmptyOpSequence(_),
            ),
            words@.len() > 1 && words@[0]@ == "WRITE"@ && opcode_of(words@[1]@).is_none() ==> r matches Err(
                RequestConversionError::UndefinedOpSequence(_),
            ),
            (words@.len() > 1 && words@[0]@ == "WRITE"@ && opcode_of(words@[1]@).is_some()) ==> ({
                let op = opcode_of(words@[1]@).unwrap();
                let (added, ok) = arguments_effect(op, texts(words@.skip(2)), float_bits@.skip(2));
                &&& ok ==> (r matches Ok(Request::Write(buf)) && buf@ == seq![op] + added)
                &&& !ok ==> (r matches Err(RequestConversionError::MalformedOpSequence(_)))
            }),
    {
        proof {
            reveal_strlit("WRITE");
        }
        if words.len() == 0 {
            return Err(RequestConversionError::EmptyOpSequence("empty command".to_owned()));
        }
        if !text_eq(words[0].as_str(), "WRITE") {
            let mut msg = "expected WRITE, got ".to_owned();
            msg.push_str(words[0].as_str());
            return Err(RequestConversionError::UndefinedOpSequence(msg));
        }
        if words.len() == 1 {
            return Err(RequestConversionError::EmptyOpSequence("no operation given".to_owned()));
        }
        let opcode = match Request::_try_parse_opcode(words[1].as_str()) {
            Ok(c) => c,
            Err(()) => {
                let mut msg = "unknown operation: ".to_owned();
                msg.push_str(words[1].as_str());
                return Err(RequestConversionError::UndefinedOpSequence(msg));
            },
        };
        let mut rest: Vec<String> = Vec::new();
        let mut rest_bits: Vec<Option<u32>> = Vec::new();
        let mut i: usize = 2;
        while i < words.len()
            invariant
                2 <= i <= words@.len(),
                words@.len() == float_bits@.len(),
                rest@.len() == i - 2,
                rest_bits@ == float_bits@.subrange(2, i as int),
                forall|k: int| 0 <= k < rest@.len() ==> #[trigger] rest@[k]@ == words@[k + 2]@,
            decreases words@.len() - i,
        {
            rest.push(words[i].clone());
            rest_bits.push(float_bits[i]);
            assert(rest_bits@ =~= float_bits@.subrange(2, i + 1));
            i = i + 1;
        }
        assert(texts(rest@) =~= texts(words@.skip(2)));
        assert(float_bits@.subrange(2, words@.len() as int) =~= float_bits@.skip(2));
        let mut instr_buf: Instruction = Vec::new();
        instr_buf.push(opcode);
        assert(instr_buf@ =~= seq![opcode]);
        match Request::_try_parse_arguments_into(&mut instr_buf, &rest, &rest_bits) {
            Ok(_) => Ok(Request::Write(instr_buf)),
            Err(()) => Err(RequestConversionError::MalformedOpSequence("malformed argument list".to_owned())),
        }
    }
}

/// The bytes of an instruction as a list: `[1, 2, 3]` without the brackets.
pub open spec fn byte_list_text(b: Seq<u8>) -> Seq<char>
    decreases b.len(),
{
    if b.len() == 0 {
        Seq::empty()
    } else if b.len() == 1 {
        decimal_text(b[0] as nat)
    } else {
        byte_list_text(b.drop_last()) + seq![',', ' '] + decimal_text(b.last() as nat)
    }
}

impl Request {
    /// The request as text: `WRITE [<byte>, <byte>, ...]`.
    pub fn to_string(&self) -> (r: String)
        ensures
            r@ == (match self {
                Request::Write(b) => "WRITE ["@ + byte_list_text(b@) + "]"@,
            }),
    {
        proof {
            reveal_strlit("WRITE [");
            reveal_strlit("]");
            reveal_strlit(", ");
        }
        match self {
            Request::Write(b) => {
                let mut out = "WRITE [".to_owned();
                let mut i: usize = 0;
                while i < b.len()
                    invariant
                        i <= b@.len(),
                        out@ == "WRITE ["@ + byte_list_text(b@.subrange(0, i as int)),
                    decreases b@.len() - i,
                {
                    let ghost before = out@;
                    proof {
                        reveal_strlit(", ");
                    }
                    if i > 0 {
                        out.push_str(", ");
                        assert(out@ =~= before + seq![',', ' ']);
                    }
                    let digits = decimal(b[i] as u64);
                    out.push_str(digits.as_str());
                    assert(digits@ == decimal_text(b@[i as int] as nat));
                    proof {
                        let next = b@.subrange(0, i + 1);
                        assert(next.drop_last() =~= b@.subrange(0, i as int));
                        assert(next.last() == b@[i as int]);
                        if i == 0 {
                            assert(b@.subrange(0, 0) =~= Seq::<u8>::empty());
                            assert(byte_list_text(next) == decimal_text(b@[0] as nat));
                        } else {
                            assert(byte_list_text(next) == byte_list_text(b@.subrange(0, i as int))
                                + seq![',', ' '] + decimal_text(b@[i as int] as nat));
                        }
                        assert(out@ =~= "WRITE ["@ + byte_list_text(next));
                    }
                    i = i + 1;
                }
                out.push_str("]");
                assert(b@.subrange(0, b@.len() as int) =~= b@);
                out
            },
        }
    }
}

} // verus!
