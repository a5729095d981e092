use vstd::prelude::*;
use crate::text::{ascii_lower, chars_of, eq_str, join2, lower_range, string_of, trim, trim_bounds};

verus! {

/// The rank of a playing card, in increasing order of strength.
#[derive(Debug, Clone, Copy, PartialEq, Eq, Structural, PartialOrd, Ord, Hash)]
pub enum Rank {
    Three,
    Four,
    Five,
    Six,
    Seven,
    Eight,
    Nine,
    Ten,
    Jack,
    Queen,
    King,
    Ace,
    Two,
    JokerSmall,
    JokerBig,
}

impl Rank {
    /// Every rank, weakest first.
    pub const ALL: [Rank; 15] = [
        Rank::Three,
        Rank::Four,
        Rank::Five,
        Rank::Six,
        Rank::Seven,
        Rank::Eight,
        Rank::Nine,
        Rank::Ten,
        Rank::Jack,
        Rank::Queen,
        Rank::King,
        Rank::Ace,
        Rank::Two,
        Rank::JokerSmall,
        Rank::JokerBig,
    ];

    /// Numeric strength of the rank: 3 for Three up to 17 for the big joker.
    pub open spec fn spec_value(&self) -> u8 {
        match self {
            Rank::Three => 3,
            Rank::Four => 4,
            Rank::Five => 5,
            Rank::Six => 6,
            Rank::Seven => 7,
            Rank::Eight => 8,
            Rank::Nine => 9,
            Rank::Ten => 10,
            Rank::Jack => 11,
            Rank::Queen => 12,
            Rank::King => 13,
            Rank::Ace => 14,
            Rank::Two => 15,
            Rank::JokerSmall => 16,
            Rank::JokerBig => 17,
        }
    }

    #[verifier::when_used_as_spec(spec_value)]
    pub fn value(&self) -> (v: u8)
        ensures
            v == self.spec_value(),
    {
        match self {
            Rank::Three => 3,
            Rank::Four => 4,
            Rank::Five => 5,
            Rank::Six => 6,
            Rank::Seven => 7,
            Rank::Eight => 8,
            Rank::Nine => 9,
            Rank::Ten => 10,
            Rank::Jack => 11,
            Rank::Queen => 12,
            Rank::King => 13,
            Rank::Ace => 14,
            Rank::Two => 15,
            Rank::JokerSmall => 16,
            Rank::JokerBig => 17,
        }
    }
}

impl Rank {
    /// Whether this rank is one of the two jokers.
    pub open spec fn spec_is_joker(&self) -> bool {
        *self == Rank::JokerSmall || *self == Rank::JokerBig
    }

    /// Whether this rank is one of the two jokers.
    #[verifier::when_used_as_spec(spec_is_joker)]
    pub fn is_joker(&self) -> (b: bool)
        ensures
            b == self.spec_is_joker(),
    {
        match self {
            Rank::JokerSmall | Rank::JokerBig => true,
            _ => false,
        }
    }

    /// The text that names this rank when a card is shown.
    pub open spec fn display(self) -> Seq<char> {
        match self {
            Rank::Three => "3"@,
            Rank::Four => "4"@,
            Rank::Five => "5"@,
            Rank::Six => "6"@,
            Rank::Seven => "7"@,
            Rank::Eight => "8"@,
            Rank::Nine => "9"@,
            Rank::Ten => "10"@,
            Rank::Jack => "J"@,
            Rank::Queen => "Q"@,
            Rank::King => "K"@,
            Rank::Ace => "A"@,
            Rank::Two => "2"@,
            Rank::JokerSmall => "小王"@,
            Rank::JokerBig => "大王"@,
        }
    }

    /// The static text that names this rank.
    pub fn as_str(&self) -> (s: &'static str)
        ensures
            s@ == self.display(),
    {
        match self {
            Rank::Three => "3",
            Rank::Four => "4",
            Rank::Five => "5",
            Rank::Six => "6",
            Rank::Seven => "7",
            Rank::Eight => "8",
            Rank::Nine => "9",
            Rank::Ten => "10",
            Rank::Jack => "J",
            Rank::Queen => "Q",
            Rank::King => "K",
            Rank::Ace => "A",
            Rank::Two => "2",
            Rank::JokerSmall => "小王",
            Rank::JokerBig => "大王",
        }
    }

    /// The rank shown as text (`3`..`10`, `J`, `Q`, `K`, `A`, `2`, `小王`, `大王`).
    pub fn to_string(&self) -> (s: String)
        ensures
            s@ == self.display(),
    {
        string_of(self.as_str())
    }
}

/// The rank named by a lower-cased, trimmed word, if any.
pub open spec fn rank_from_word(w: Seq<char>) -> Option<Rank> {
    if w == "3"@ {
        Some(Rank::Three)
    } else if w == "4"@ {
        Some(Rank::Four)
    } else if w == "5"@ {
        Some(Rank::Five)
    } else if w == "6"@ {
        Some(Rank::Six)
    } else if w == "7"@ {
        Some(Rank::Seven)
    } else if w == "8"@ {
        Some(Rank::Eight)
    } else if w == "9"@ {
        Some(Rank::Nine)
    } else if w == "10"@ || w == "0"@ || w == "t"@ {
        Some(Rank::Ten)
    } else if w == "j"@ || w == "jack"@ {
        Some(Rank::Jack)
    } else if w == "q"@ || w == "queen"@ {
        Some(Rank::Queen)
    } else if w == "k"@ || w == "king"@ {
        Some(Rank::King)
    } else if w == "a"@ || w == "ace"@ {
        Some(Rank::Ace)
    } else if w == "2"@ {
        Some(Rank::Two)
    } else if w == "s"@ || w == "small"@ || w == "jokersmall"@ || w == "sj"@ || w == "小王"@ {
        Some(Rank::JokerSmall)
    } else if w == "b"@ || w == "big"@ || w == "jokerbig"@ || w == "bj"@ || w == "大王"@ {
        Some(Rank::JokerBig)
    } else {
        None
    }
}

/// The rank that a piece of text names: the text is trimmed and lower-cased
/// (ASCII only) before it is looked up.
pub open spec fn parse_rank(s: Seq<char>) -> Option<Rank> {
    rank_from_word(ascii_lower(trim(s)))
}

/// The rank named by the word `w`.
fn rank_from_word_exec(w: &Vec<char>) -> (r: Option<Rank>)
    ensures
        r == rank_from_word(w@),
{
    if eq_str(w, "3") {
        Some(Rank::Three)
    } else if eq_str(w, "4") {
        Some(Rank::Four)
    } else if eq_str(w, "5") {
        Some(Rank::Five)
    } else if eq_str(w, "6") {
        Some(Rank::Six)
    } else if eq_str(w, "7") {
        Some(Rank::Seven)
    } else if eq_str(w, "8") {
        Some(Rank::Eight)
    } else if eq_str(w, "9") {
        Some(Rank::Nine)
    } else if eq_str(w, "10") || eq_str(w, "0") || eq_str(w, "t") {
        Some(Rank::Ten)
    } else if eq_str(w, "j") || eq_str(w, "jack") {
        Some(Rank::Jack)
    } else if eq_str(w, "q") || eq_str(w, "queen") {
        Some(Rank::Queen)
    } else if eq_str(w, "k") || eq_str(w, "king") {
        Some(Rank::King)
    } else if eq_str(w, "a") || eq_str(w, "ace") {
        Some(Rank::Ace)
    } else if eq_str(w, "2") {
        Some(Rank::Two)
    } else if eq_str(w, "s") || eq_str(w, "small") || eq_str(w, "jokersmall") || eq_str(w, "sj")
        || eq_str(w, "小王") {
        Some(Rank::JokerSmall)
    } else if eq_str(w, "b") || eq_str(w, "big") || eq_str(w, "jokerbig") || eq_str(w, "bj")
        || eq_str(w, "大王") {
        Some(Rank::JokerBig)
    } else {
        None
    }
}

/// The rank named by the characters `v[start..end]`, trimmed and lower-cased.
pub fn parse_rank_range(v: &Vec<char>, start: usize, end: usize) -> (r: Option<Rank>)
    requires
        start <= end <= v@.len(),
    ensures
        r == parse_rank(v@.subrange(start as int, end as int)),
{
    let ghost part = v@.subrange(start as int, end as int);
    let mut w: Vec<char> = Vec::new();
    let mut i: usize = start;
    while i < end
        invariant
            start <= i <= end <= v@.len(),
            w@ == v@.subrange(start as int, i as int),
        decreases end - i,
    {
        w.push(v[i]);
        i = i + 1;
    }
    assert(w@ == part);
    let (a, b) = trim_bounds(&w);
    let low = lower_range(&w, a, b);
    rank_from_word_exec(&low)
}

impl Rank {
    /// Parses a rank from text, as `FromStr` does: the text is trimmed and
    /// lower-cased; digits `3`..`9`, `10`/`0`/`t`, `2`, letters or words for
    /// the court cards, and several spellings of the jokers are accepted.
    /// The error holds `Invalid rank: ` followed by the trimmed text.
    pub fn from_str(s: &str) -> (r: Result<Rank, String>)
        ensures
            r matches Ok(k) ==> parse_rank(s@) == Some(k),
            r matches Err(m) ==> parse_rank(s@) is None && m@ == "Invalid rank: "@ + trim(s@),
    {
        let v = chars_of(s);
        let (a, b) = trim_bounds(&v);
        let low = lower_range(&v, a, b);
        match rank_from_word_exec(&low) {
            Some(k) => Ok(k),
            None => {
                let t = s.substring_char(a, b);
                Err(join2("Invalid rank: ", t))
            },
        }
    }
}

impl std::str::FromStr for Rank {
    type Err = String;

    fn from_str(s: &str) -> (r: Result<Rank, String>)
        ensures
            r matches Ok(k) ==> parse_rank(s@) == Some(k),
            r matches Err(m) ==> parse_rank(s@) is None && m@ == "Invalid rank: "@ + trim(s@),
    {
        Rank::from_str(s)
    }
}

} // verus!
