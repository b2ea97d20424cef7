//! Game setup for the remote opponent: the challenge to send and the
//! command-line switches.
use vstd::prelude::*;
use vstd::string::*;

use crate::request::{parse_u32, u32_text_value};
use crate::text::text_eq;

verus! {

/// The colour asked for in a challenge.
#[derive(Clone, Copy, Debug, PartialEq, Eq, Hash, Structural)]
pub enum ChallengeColour {
    White,
    Black,
    Random,
}

pub open spec fn colour_named(s: Seq<char>) -> Option<ChallengeColour> {
    if s == "white"@ {
        Some(ChallengeColour::White)
    } else if s == "black"@ {
        Some(ChallengeColour::Black)
    } else if s == "random"@ {
        Some(ChallengeColour::Random)
    } else {
        None
    }
}

impl ChallengeColour {
    /// The colour named `white`, `black` or `random`.
    pub fn from_name(s: &str) -> (r: Option<ChallengeColour>)
        ensures
            r == colour_named(s@),
    {
        proof {
            reveal_strlit("white");
            reveal_strlit("black");
            reveal_strlit("random");
        }
        if text_eq(s, "white") {
            Some(ChallengeColour::White)
        } else if text_eq(s, "black") {
            Some(ChallengeColour::Black)
        } else if text_eq(s, "random") {
            Some(ChallengeColour::Random)
        } else {
            None
        }
    }
}

impl std::str::FromStr for ChallengeColour {
    type Err = ();

    fn from_str(s: &str) -> Result<ChallengeColour, ()> {
        match ChallengeColour::from_name(s) {
            Some(c) => Ok(c),
            None => Err(()),
        }
    }
}

/// A challenge as the game server takes it.
#[derive(Clone, Debug, PartialEq, Eq)]
pub struct ChallengeSchema {
    pub rated: bool,
    /// Seconds on each clock at the start.
    pub clock_limit: u32,
    /// Seconds added after each move.
    pub clock_increment: u32,
    pub color: ChallengeColour,
    pub variant: String,
    pub fen: Option<String>,
    pub keep_alive_stream: bool,
}

/// Which kind of opponent a game is against.
pub trait GameType {
    const IS_VS_HUMAN: bool;
}

/// A game against a person on the server.
pub struct VsHuman;

/// A game against an engine.
pub struct VsComputer;

impl GameType for VsHuman {
    const IS_VS_HUMAN: bool = true;
}

impl GameType for VsComputer {
    const IS_VS_HUMAN: bool = false;
}

/// The command-line switches of the opponent program.
#[derive(Clone, Copy, Debug, PartialEq, Eq, Structural)]
pub struct Cli {
    pub debug: bool,
    pub lichess: bool,
    pub engine: bool,
}

/// Where the first `+` of a text stands, or its length if it has none.
pub open spec fn first_plus(s: Seq<char>) -> int
    decreases s.len(),
{
    if s.len() == 0 || s[0] == '+' {
        0
    } else {
        1 + first_plus(s.drop_first())
    }
}

/// Where the text after the last `+` starts, or 0 if there is no `+`.
pub open spec fn after_last_plus(s: Seq<char>) -> int
    decreases s.len(),
{
    if s.len() == 0 {
        0
    } else if s.last() == '+' {
        s.len() as int
    } else {
        after_last_plus(s.drop_last())
    }
}

/// The clock of a time control `minutes+increment`, in seconds: the minutes
/// are the text before the first `+`, the increment the text after the last
/// one.
pub open spec fn time_control_value(s: Seq<char>) -> Option<(u32, u32)> {
    match (
        u32_text_value(s.subrange(0, first_plus(s))),
        u32_text_value(s.subrange(after_last_plus(s), s.len() as int)),
    ) {
        (Some(m), Some(inc)) => if m * 60 <= u32::MAX {
            Some(((m * 60) as u32, inc))
        } else {
            None
        },
        _ => None,
    }
}

proof fn lemma_first_plus(s: Seq<char>, k: int)
    requires
        0 <= k <= s.len(),
        forall|j: int| 0 <= j < k ==> s[j] != '+',
        k == s.len() || s[k] == '+',
    ensures
        first_plus(s) == k,
    decreases s.len(),
{
    if s.len() > 0 && k > 0 {
        assert(s[0] != '+');
        lemma_first_plus(s.drop_first(), k - 1);
    }
}

proof fn lemma_after_last_plus(s: Seq<char>, k: int)
    requires
        0 <= k <= s.len(),
        forall|j: int| k <= j < s.len() ==> s[j] != '+',
        k == 0 || s[k - 1] == '+',
    ensures
        after_last_plus(s) == k,
    decreases s.len(),
{
    if s.len() > 0 && k < s.len() {
        assert(s.last() != '+');
        lemma_after_last_plus(s.drop_last(), k);
    }
}

/// Reads a time control `minutes+increment` as seconds on the clock and
/// seconds of increment.
pub fn parse_time_control(text: &str) -> (r: Option<(u32, u32)>)
    ensures
        r == time_control_value(text@),
{
    let n = text.unicode_len();
    let mut first: usize = 0;
    while first < n && text.get_char(first) != '+'
        invariant
            n == text@.len(),
            first <= n,
            forall|j: int| 0 <= j < first ==> text@[j] != '+',
        decreases n - first,
    {
        first = first + 1;
    }
    let mut after: usize = n;
    while after > 0 && text.get_char(after - 1) != '+'
        invariant
            n == text@.len(),
            after <= n,
            forall|j: int| after <= j < n ==> text@[j] != '+',
        decreases after,
    {
        after = after - 1;
    }
    proof {
        lemma_first_plus(text@, first as int);
        lemma_after_last_plus(text@, after as int);
    }
    let minutes = parse_u32(text.substring_char(0, first));
    let increment = parse_u32(text.substring_char(after, n));
    match (minutes, increment) {
        (Some(m), Some(inc)) => {
            if m <= u32::MAX / 60 {
                Some((m * 60, inc))
            } else {
                None
            }
        },
        _ => None,
    }
}

pub open spec fn yes_no(s: Seq<char>) -> Option<bool> {
    if s == "y"@ {
        Some(true)
    } else if s == "n"@ {
        Some(false)
    } else {
        None
    }
}

impl ChallengeSchema {
    /// The challenge made from the answers to the setup questions: against
    /// a person, the time control and whether the game is rated (`y` or
    /// `n`) come from the answers; against an engine the game is unrated at
    /// fifteen minutes plus ten seconds. `None` where an answer is not
    /// understood.
    pub fn from_answers(vs_human: bool, time_control: &str, rated: &str, colour: &str) -> (r: Option<ChallengeSchema>)
        ensures
            r.is_some() <==> (colour_named(colour@).is_some() && (vs_human ==> (time_control_value(
                time_control@,
            ).is_some() && yes_no(rated@).is_some()))),
            r matches Some(c) ==> ({
                &&& c.color == colour_named(colour@).unwrap()
                &&& c.rated == (vs_human && rated@ == "y"@)
                &&& vs_human ==> (c.clock_limit, c.clock_increment) == time_control_value(time_control@).unwrap()
                &&& !vs_human ==> c.clock_limit == 900 && c.clock_increment == 10
                &&& c.variant@ == "standard"@
                &&& c.fen.is_none()
                &&& c.keep_alive_stream
            }),
    {
        proof {
            reveal_strlit("y");
            reveal_strlit("n");
        }
        let color = match ChallengeColour::from_name(colour) {
            Some(c) => c,
            None => return None,
        };
        let (clock_limit, clock_increment, is_rated) = if vs_human {
            let clock = match parse_time_control(time_control) {
                Some(c) => c,
                None => return None,
            };
            let is_rated = if text_eq(rated, "y") {
                true
            } else if text_eq(rated, "n") {
                false
            } else {
                return None;
            };
            (clock.0, clock.1, is_rated)
        } else {
            (900u32, 10u32, false)
        };
        Some(
            ChallengeSchema {
                rated: is_rated,
                clock_limit,
                clock_increment,
                color,
                variant: "standard".to_owned(),
                fen: None,
                keep_alive_stream: true,
            },
        )
    }
}

} // verus!
