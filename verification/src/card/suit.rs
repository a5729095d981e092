//! The four suits of the normal cards; jokers have none.

use vstd::prelude::*;
use crate::error::CardError;
use crate::text::{ascii_lower, chars_of, eq_str, lower_range, string_of, trim, trim_bounds};

verus! {

/// One of the four suits, weakest first (diamonds, clubs, hearts, spades).
#[derive(Debug, Clone, Copy, PartialEq, Eq, Structural, PartialOrd, Ord, Hash)]
pub enum Suit {
    Diamonds,
    Clubs,
    Hearts,
    Spades,
}

impl Suit {
    /// Every suit, in the order in which a fresh deck lists them
    /// (spades, hearts, diamonds, clubs).
    pub const ALL: [Suit; 4] = [Suit::Spades, Suit::Hearts, Suit::Diamonds, Suit::Clubs];

    /// Numeric code of the suit: 1 for diamonds up to 4 for spades.
    pub open spec fn spec_value(&self) -> u8 {
        match self {
            Suit::Diamonds => 1,
            Suit::Clubs => 2,
            Suit::Hearts => 3,
            Suit::Spades => 4,
        }
    }

    /// Numeric code of the suit: 1 for diamonds up to 4 for spades.
    #[verifier::when_used_as_spec(spec_value)]
    pub fn value(&self) -> (v: u8)
        ensures
            v == self.spec_value(),
    {
        match self {
            Suit::Diamonds => 1,
            Suit::Clubs => 2,
            Suit::Hearts => 3,
            Suit::Spades => 4,
        }
    }

    /// The symbol that shows this suit.
    pub open spec fn display(self) -> Seq<char> {
        match self {
            Suit::Spades => "♠"@,
            Suit::Hearts => "♥"@,
            Suit::Clubs => "♣"@,
            Suit::Diamonds => "♦"@,
        }
    }

    /// The static symbol that shows this suit.
    pub fn as_str(&self) -> (s: &'static str)
        ensures
            s@ == self.display(),
    {
        match self {
            Suit::Spades => "♠",
            Suit::Hearts => "♥",
            Suit::Clubs => "♣",
            Suit::Diamonds => "♦",
        }
    }

    /// The suit symbol as text (`♠`, `♥`, `♣`, `♦`).
    pub fn to_string(&self) -> (s: String)
        ensures
            s@ == self.display(),
    {
        string_of(self.as_str())
    }
}

/// The suit named by a one-letter ASCII text (`s`, `h`, `c`, `d`, either case).
pub open spec fn suit_from_letter(c: char) -> Option<Suit> {
    if c == 's' || c == 'S' {
        Some(Suit::Spades)
    } else if c == 'h' || c == 'H' {
        Some(Suit::Hearts)
    } else if c == 'c' || c == 'C' {
        Some(Suit::Clubs)
    } else if c == 'd' || c == 'D' {
        Some(Suit::Diamonds)
    } else {
        None
    }
}

/// The suit named by a lower-cased word (English or Chinese).
pub open spec fn suit_from_word(w: Seq<char>) -> Option<Suit> {
    if w == "spade"@ || w == "spades"@ || w == "黑桃"@ {
        Some(Suit::Spades)
    } else if w == "heart"@ || w == "hearts"@ || w == "红桃"@ {
        Some(Suit::Hearts)
    } else if w == "club"@ || w == "clubs"@ || w == "梅花"@ {
        Some(Suit::Clubs)
    } else if w == "diamond"@ || w == "diamonds"@ || w == "方块"@ {
        Some(Suit::Diamonds)
    } else {
        None
    }
}

/// The suit named by an already trimmed text: a suit symbol, a single
/// ASCII letter, or a word compared without regard to ASCII case.
pub open spec fn suit_from_trimmed(raw: Seq<char>) -> Option<Suit> {
    if raw == "♠"@ {
        Some(Suit::Spades)
    } else if raw == "♥"@ {
        Some(Suit::Hearts)
    } else if raw == "♣"@ {
        Some(Suit::Clubs)
    } else if raw == "♦"@ {
        Some(Suit::Diamonds)
    } else if raw.len() == 1 && (raw[0] as u32) < 0x80 {
        suit_from_letter(raw[0])
    } else {
        suit_from_word(ascii_lower(raw))
    }
}

/// The suit that a piece of text names, after trimming.
pub open spec fn parse_suit(s: Seq<char>) -> Option<Suit> {
    suit_from_trimmed(trim(s))
}

fn suit_from_letter_exec(c: char) -> (r: Option<Suit>)
    ensures
        r == suit_from_letter(c),
{
    if c == 's' || c == 'S' {
        Some(Suit::Spades)
    } else if c == 'h' || c == 'H' {
        Some(Suit::Hearts)
    } else if c == 'c' || c == 'C' {
        Some(Suit::Clubs)
    } else if c == 'd' || c == 'D' {
        Some(Suit::Diamonds)
    } else {
        None
    }
}

fn suit_from_word_exec(w: &Vec<char>) -> (r: Option<Suit>)
    ensures
        r == suit_from_word(w@),
{
    if eq_str(w, "spade") || eq_str(w, "spades") || eq_str(w, "黑桃") {
        Some(Suit::Spades)
    } else if eq_str(w, "heart") || eq_str(w, "hearts") || eq_str(w, "红桃") {
        Some(Suit::Hearts)
    } else if eq_str(w, "club") || eq_str(w, "clubs") || eq_str(w, "梅花") {
        Some(Suit::Clubs)
    } else if eq_str(w, "diamond") || eq_str(w, "diamonds") || eq_str(w, "方块") {
        Some(Suit::Diamonds)
    } else {
        None
    }
}

/// The suit named by the characters `v[start..end]`, trimmed.
pub fn parse_suit_range(v: &Vec<char>, start: usize, end: usize) -> (r: Option<Suit>)
    requires
        start <= end <= v@.len(),
    ensures
        r == parse_suit(v@.subrange(start as int, end as int)),
{
    let mut w: Vec<char> = Vec::new();
    let mut i: usize = start;
    while i < end
        invariant
            start <= i <= end <= v@.len(),
            w@ == v@.subrange(start as int, i as int),
        decreases end - i,
    {
        w.push(v[i]);
        i = i + 1;
    }
    let (a, b) = trim_bounds(&w);
    let mut raw: Vec<char> = Vec::new();
    let mut j: usize = a;
    while j < b
        invariant
            a <= j <= b <= w@.len(),
            raw@ == w@.subrange(a as int, j as int),
        decreases b - j,
    {
        raw.push(w[j]);
        j = j + 1;
    }
    if eq_str(&raw, "♠") {
        Some(Suit::Spades)
    } else if eq_str(&raw, "♥") {
        Some(Suit::Hearts)
    } else if eq_str(&raw, "♣") {
        Some(Suit::Clubs)
    } else if eq_str(&raw, "♦") {
        Some(Suit::Diamonds)
    } else if raw.len() == 1 && (raw[0] as u32) < 0x80 {
        suit_from_letter_exec(raw[0])
    } else {
        let n = raw.len();
        let low = lower_range(&raw, 0, n);
        assert(raw@.subrange(0, n as int) =~= raw@);
        suit_from_word_exec(&low)
    }
}

impl Suit {
    /// Parses a suit from text, as `FromStr` does: the text is trimmed, then
    /// a symbol (`♠♥♣♦`), a single letter (`s h c d`, either case) or a word
    /// (`spade(s)`, `heart(s)`, `club(s)`, `diamond(s)` in any ASCII case, or
    /// `黑桃 红桃 梅花 方块`) is accepted. The error holds the trimmed text.
    pub fn from_str(s: &str) -> (r: Result<Suit, CardError>)
        ensures
            r matches Ok(k) ==> parse_suit(s@) == Some(k),
            r matches Err(e) ==> parse_suit(s@) is None && (e matches CardError::InvalidSuit(m)
                && m@ == trim(s@)),
    {
        let v = chars_of(s);
        let n = v.len();
        assert(v@.subrange(0, n as int) =~= v@);
        match parse_suit_range(&v, 0, n) {
            Some(k) => Ok(k),
            None => {
                let (a, b) = trim_bounds(&v);
                Err(CardError::InvalidSuit(String::from_str(s.substring_char(a, b))))
            },
        }
    }
}

impl std::str::FromStr for Suit {
    type Err = CardError;

    fn from_str(s: &str) -> (r: Result<Suit, CardError>)
        ensures
            r matches Ok(k) ==> parse_suit(s@) == Some(k),
            r matches Err(e) ==> parse_suit(s@) is None && (e matches CardError::InvalidSuit(m)
                && m@ == trim(s@)),
    {
        Suit::from_str(s)
    }
}

} // verus!
