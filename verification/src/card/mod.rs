//! Cards: ranks, suits, single cards, collections of cards and the parser
//! of typed card input.

pub mod cards;
pub mod laws;
pub mod parser;
pub mod rank;
pub mod suit;

use vstd::prelude::*;
pub use self::cards::Cards;
pub use self::rank::Rank;
pub use self::suit::Suit;
use self::rank::parse_rank;
use self::rank::parse_rank_range;
use self::suit::parse_suit;
use self::suit::parse_suit_range;
use crate::error::CardError;
use crate::text::{chars_of, join2, string_of, trim, trim_bounds};

verus! {

/// One playing card: a rank and, for the normal cards, a suit.
/// Jokers have no suit.
#[derive(Debug, Clone, Copy, PartialEq, Eq, Structural, PartialOrd, Ord, Hash)]
pub struct Card {
    /// The rank of the card.
    pub rank: Rank,
    /// The suit of the card, `None` for a joker.
    pub suit: Option<Suit>,
}

impl Card {
    /// A number that orders cards as the derived `Ord` does: by rank, then
    /// by suit, a missing suit first.
    pub open spec fn key(self) -> int {
        self.rank.spec_value() * 5 + match self.suit {
            None => 0int,
            Some(s) => s.spec_value() as int,
        }
    }

    /// A normal card of the given rank and suit. The rank must not be a joker.
    pub fn new(rank: Rank, suit: Suit) -> (c: Card)
        requires
            !rank.spec_is_joker(),
        ensures
            c.rank == rank,
            c.suit == Some(suit),
    {
        Card { rank, suit: Some(suit) }
    }

    /// A joker: the small one when `small` holds, the big one otherwise.
    pub fn joker(small: bool) -> (c: Card)
        ensures
            c.rank == (if small {
                Rank::JokerSmall
            } else {
                Rank::JokerBig
            }),
            c.suit is None,
    {
        Card {
            rank: if small {
                Rank::JokerSmall
            } else {
                Rank::JokerBig
            },
            suit: None,
        }
    }

    /// Whether the card is a joker, that is, has no suit.
    pub fn is_joker(&self) -> (b: bool)
        ensures
            b == self.suit is None,
    {
        self.suit.is_none()
    }

    /// Whether the card is a normal card, that is, has a suit.
    pub fn is_normal(&self) -> (b: bool)
        ensures
            b == self.suit is Some,
    {
        self.suit.is_some()
    }

    /// The suit of the card, `None` for a joker.
    pub fn get_suit(&self) -> (s: Option<Suit>)
        ensures
            s == self.suit,
    {
        self.suit
    }

    /// Whether the card has the given suit.
    pub fn has_suit(&self, suit: Suit) -> (b: bool)
        ensures
            b == (self.suit == Some(suit)),
    {
        match self.suit {
            Some(s) => s == suit,
            None => false,
        }
    }

    /// Whether the card has the given rank and suit.
    pub fn matches(&self, rank: Rank, suit: Option<Suit>) -> (b: bool)
        ensures
            b == (self.rank == rank && self.suit == suit),
    {
        self.rank == rank && self.suit == suit
    }

    /// How the card is shown: the suit symbol, then the rank; a joker shows its rank only.
    pub open spec fn display(self) -> Seq<char> {
        match self.suit {
            Some(s) => s.display() + self.rank.display(),
            None => self.rank.display(),
        }
    }

    /// The card shown as text, for example `♠3` or `大王`.
    pub fn to_string(&self) -> (s: String)
        ensures
            s@ == self.display(),
    {
        match self.suit {
            Some(su) => join2(su.as_str(), self.rank.as_str()),
            None => string_of(self.rank.as_str()),
        }
    }
}

/// Whether the rank/suit split of the trimmed text `t` tries the suit first:
/// the first character names a suit and the rest names a rank.
pub open spec fn suit_first(t: Seq<char>) -> bool {
    parse_suit(seq![t[0]]) is Some && parse_rank(t.drop_first()) is Some
}

/// Whether the rank/suit split works the other way: the first character
/// names a rank and the rest names a suit.
pub open spec fn rank_first(t: Seq<char>) -> bool {
    parse_rank(seq![t[0]]) is Some && parse_suit(t.drop_first()) is Some
}

/// Whether the whole trimmed text `t` names a joker.
pub open spec fn names_joker(t: Seq<char>) -> bool {
    parse_rank(t) is Some && parse_rank(t).unwrap().spec_is_joker()
}

/// The texts on which parsing a card would build a suited joker, which
/// `Card::new` refuses: a suit next to a joker name, such as `ss` or `hsj`.
pub open spec fn card_text_pairs_suit_with_joker(s: Seq<char>) -> bool {
    let t = trim(s);
    &&& t.len() > 0
    &&& !names_joker(t)
    &&& if suit_first(t) {
        parse_rank(t.drop_first()).unwrap().spec_is_joker()
    } else {
        rank_first(t) && parse_rank(seq![t[0]]).unwrap().spec_is_joker()
    }
}

/// The card that a text describes, if any: a joker name, or a suit and a
/// rank in either order (suit first is tried first).
pub open spec fn card_from_text(s: Seq<char>) -> Option<Card> {
    let t = trim(s);
    if t.len() == 0 {
        None
    } else if names_joker(t) {
        Some(Card { rank: parse_rank(t).unwrap(), suit: None })
    } else if suit_first(t) {
        Some(Card { rank: parse_rank(t.drop_first()).unwrap(), suit: parse_suit(seq![t[0]]) })
    } else if rank_first(t) {
        Some(Card { rank: parse_rank(seq![t[0]]).unwrap(), suit: parse_suit(t.drop_first()) })
    } else {
        None
    }
}

/// Reads a card from text as `card_from_text` describes it; a text that
/// would pair a suit with a joker names no card and gives the same error as
/// any other text that is no card.
fn read_card(s: &str) -> (r: Result<Card, CardError>)
    ensures
        r matches Ok(c) ==> card_from_text(s@) == Some(c) && !card_text_pairs_suit_with_joker(s@),
        r matches Err(e) ==> (card_from_text(s@) is None || card_text_pairs_suit_with_joker(s@)) && (
        if trim(s@).len() == 0 {
            e matches CardError::InvalidCardString(m) && m@ == trim(s@)
        } else {
            e matches CardError::Other(m) && m@ == "Unknown error: "@ + trim(s@)
        }),
{
    let v = chars_of(s);
    let (a, b) = trim_bounds(&v);
    let ghost t = trim(s@);
    if a == b {
        return Err(CardError::InvalidCardString(String::from_str(s.substring_char(a, b))));
    }
    assert(v@.subrange(a + 1, b as int) =~= t.drop_first());
    assert(v@.subrange(a as int, a + 1) =~= seq![t[0]]);
    if let Some(k) = parse_rank_range(&v, a, b) {
        if k.is_joker() {
            return Ok(Card::joker(k == Rank::JokerSmall));
        }
    }
    let su1 = parse_suit_range(&v, a, a + 1);
    let rk1 = parse_rank_range(&v, a + 1, b);
    if let (Some(su), Some(rk)) = (su1, rk1) {
        if rk.is_joker() {
            return Err(CardError::Other(join2("Unknown error: ", s.substring_char(a, b))));
        }
        return Ok(Card::new(rk, su));
    }
    let rk2 = parse_rank_range(&v, a, a + 1);
    let su2 = parse_suit_range(&v, a + 1, b);
    if let (Some(rk), Some(su)) = (rk2, su2) {
        if rk.is_joker() {
            return Err(CardError::Other(join2("Unknown error: ", s.substring_char(a, b))));
        }
        return Ok(Card::new(rk, su));
    }
    Err(CardError::Other(join2("Unknown error: ", s.substring_char(a, b))))
}

impl Card {
    /// Parses a card from text: after trimming, a joker name (`小王`, `大王`,
    /// `sj`, `bj`, ...), or a suit and a rank in either order (`♠3`, `3♠`,
    /// `S3`, `3s`). An empty text gives `InvalidCardString`, any other text
    /// that is no card gives `Other` with `Unknown error: ` and the trimmed
    /// text. A text that pairs a suit with a joker (`ss`, `hsj`) would make
    /// a suited joker, which `Card::new` refuses; it is left out.
    pub fn from_str(s: &str) -> (r: Result<Card, CardError>)
        requires
            !card_text_pairs_suit_with_joker(s@),
        ensures
            r matches Ok(c) ==> card_from_text(s@) == Some(c),
            r matches Err(e) ==> card_from_text(s@) is None && (if trim(s@).len() == 0 {
                e matches CardError::InvalidCardString(m) && m@ == trim(s@)
            } else {
                e matches CardError::Other(m) && m@ == "Unknown error: "@ + trim(s@)
            }),
    {
        read_card(s)
    }
}

impl std::str::FromStr for Card {
    type Err = CardError;

    /// Parses a card from text as `Card::from_str` does; a text that pairs a
    /// suit with a joker is no card and gives `Other` with `Unknown error: `
    /// and the trimmed text.
    fn from_str(s: &str) -> (r: Result<Card, CardError>)
        ensures
            r matches Ok(c) ==> card_from_text(s@) == Some(c) && !card_text_pairs_suit_with_joker(
                s@,
            ),
            r matches Err(e) ==> (card_from_text(s@) is None || card_text_pairs_suit_with_joker(
                s@,
            )) && (if trim(s@).len() == 0 {
                e matches CardError::InvalidCardString(m) && m@ == trim(s@)
            } else {
                e matches CardError::Other(m) && m@ == "Unknown error: "@ + trim(s@)
            }),
    {
        read_card(s)
    }
}

} // verus!
