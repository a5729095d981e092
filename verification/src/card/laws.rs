//! Properties of how cards are written and read: what is shown reads back
//! as the same rank, suit or card.

use vstd::prelude::*;
use super::{card_from_text, card_text_pairs_suit_with_joker, names_joker, suit_first};
use super::{Card, Rank, Suit};
use super::rank::{parse_rank, rank_from_word};
use super::suit::parse_suit;
use crate::text::{ascii_lower, is_ws, lower_char, trim, trim_end, trim_start};
use super::parser::{is_letter_token, occurs_at, suit_letter_at, tokenize, tokens_from, word_at};

verus! {

/// A text that neither starts nor ends with white space is its own trim.
proof fn lemma_trim_plain(s: Seq<char>)
    requires
        s.len() > 0,
        !is_ws(s[0]),
        !is_ws(s.last()),
    ensures
        trim(s) == s,
{
    assert(trim_start(s) == s);
    assert(trim_end(s) == s);
}

/// The shown rank, lower-cased, as `rank_from_word` looks it up.
proof fn lemma_rank_word(r: Rank)
    ensures
        rank_from_word(ascii_lower(r.display())) == Some(r),
        r.display().len() > 0,
        !is_ws(r.display()[0]),
        !is_ws(r.display().last()),
{
    reveal_strlit("3");
    reveal_strlit("4");
    reveal_strlit("5");
    reveal_strlit("6");
    reveal_strlit("7");
    reveal_strlit("8");
    reveal_strlit("9");
    reveal_strlit("10");
    reveal_strlit("0");
    reveal_strlit("t");
    reveal_strlit("j");
    reveal_strlit("jack");
    reveal_strlit("q");
    reveal_strlit("queen");
    reveal_strlit("k");
    reveal_strlit("king");
    reveal_strlit("a");
    reveal_strlit("ace");
    reveal_strlit("2");
    reveal_strlit("s");
    reveal_strlit("small");
    reveal_strlit("jokersmall");
    reveal_strlit("sj");
    reveal_strlit("小王");
    reveal_strlit("b");
    reveal_strlit("big");
    reveal_strlit("jokerbig");
    reveal_strlit("bj");
    reveal_strlit("大王");
    reveal_strlit("J");
    reveal_strlit("Q");
    reveal_strlit("K");
    reveal_strlit("A");
    let d = r.display();
    let w = ascii_lower(d);
    match r {
        Rank::Three => {
            assert(w =~= "3"@);
            assert(w[0] == "3"@[0]);
            assert(rank_from_word(w) == Some(r));
        },
        Rank::Four => {
            assert(w =~= "4"@);
            assert(w[0] == "4"@[0]);
            assert(rank_from_word(w) == Some(r));
        },
        Rank::Five => {
            assert(w =~= "5"@);
            assert(w[0] == "5"@[0]);
            assert(rank_from_word(w) == Some(r));
        },
        Rank::Six => {
            assert(w =~= "6"@);
            assert(w[0] == "6"@[0]);
            assert(rank_from_word(w) == Some(r));
        },
        Rank::Seven => {
            assert(w =~= "7"@);
            assert(w[0] == "7"@[0]);
            assert(rank_from_word(w) == Some(r));
        },
        Rank::Eight => {
            assert(w =~= "8"@);
            assert(w[0] == "8"@[0]);
            assert(rank_from_word(w) == Some(r));
        },
        Rank::Nine => {
            assert(w =~= "9"@);
            assert(w[0] == "9"@[0]);
            assert(rank_from_word(w) == Some(r));
        },
        Rank::Ten => {
            assert(w =~= "10"@);
            assert(w[0] == "10"@[0]);
            assert(rank_from_word(w) == Some(r));
        },
        Rank::Jack => {
            assert(w =~= "j"@);
            assert(w[0] == "j"@[0]);
            assert(rank_from_word(w) == Some(r));
        },
        Rank::Queen => {
            assert(w =~= "q"@);
            assert(w[0] == "q"@[0]);
            assert(rank_from_word(w) == Some(r));
        },
        Rank::King => {
            assert(w =~= "k"@);
            assert(w[0] == "k"@[0]);
            assert(rank_from_word(w) == Some(r));
        },
        Rank::Ace => {
            assert(w =~= "a"@);
            assert(w[0] == "a"@[0]);
            assert(rank_from_word(w) == Some(r));
        },
        Rank::Two => {
            assert(w =~= "2"@);
            assert(w[0] == "2"@[0]);
            assert(rank_from_word(w) == Some(r));
        },
        Rank::JokerSmall => {
            assert(w =~= "小王"@);
            assert(w[0] == "小王"@[0]);
            assert(rank_from_word(w) == Some(r));
        },
        Rank::JokerBig => {
            assert(w =~= "大王"@);
            assert(w[0] == "大王"@[0]);
            assert(rank_from_word(w) == Some(r));
        },
    }
}

/// Every rank reads back from the text it is shown as.
pub proof fn lemma_rank_text_round_trip(r: Rank)
    ensures
        parse_rank(r.display()) == Some(r),
{
    lemma_rank_word(r);
    lemma_trim_plain(r.display());
}

/// Every suit reads back from the symbol it is shown as.
pub proof fn lemma_suit_text_round_trip(s: Suit)
    ensures
        parse_suit(s.display()) == Some(s),
{
    reveal_strlit("♠");
    reveal_strlit("♥");
    reveal_strlit("♣");
    reveal_strlit("♦");
    let d = s.display();
    assert(d.len() == 1);
    lemma_trim_plain(d);
}

/// No rank is named by a text that starts with a suit symbol.
proof fn lemma_suit_led_text_is_no_rank(t: Seq<char>)
    requires
        t.len() > 0,
        t[0] == '♠' || t[0] == '♥' || t[0] == '♣' || t[0] == '♦',
    ensures
        rank_from_word(ascii_lower(t)) is None,
{
    reveal_strlit("3");
    reveal_strlit("4");
    reveal_strlit("5");
    reveal_strlit("6");
    reveal_strlit("7");
    reveal_strlit("8");
    reveal_strlit("9");
    reveal_strlit("10");
    reveal_strlit("0");
    reveal_strlit("t");
    reveal_strlit("j");
    reveal_strlit("jack");
    reveal_strlit("q");
    reveal_strlit("queen");
    reveal_strlit("k");
    reveal_strlit("king");
    reveal_strlit("a");
    reveal_strlit("ace");
    reveal_strlit("2");
    reveal_strlit("s");
    reveal_strlit("small");
    reveal_strlit("jokersmall");
    reveal_strlit("sj");
    reveal_strlit("小王");
    reveal_strlit("b");
    reveal_strlit("big");
    reveal_strlit("jokerbig");
    reveal_strlit("bj");
    reveal_strlit("大王");
    let w = ascii_lower(t);
    assert(w[0] == lower_char(t[0]));
    assert(w[0] == t[0]);
}

/// Every card that can occur in a deck (a joker without a suit, a normal
/// card with one) reads back from the text it is shown as; and that text is
/// one on which parsing a card does not fail.
pub proof fn lemma_card_text_round_trip(c: Card)
    requires
        c.rank.spec_is_joker() <==> c.suit is None,
    ensures
        card_from_text(c.display()) == Some(c),
        !card_text_pairs_suit_with_joker(c.display()),
{
    let d = c.display();
    lemma_rank_text_round_trip(c.rank);
    lemma_rank_word(c.rank);
    match c.suit {
        None => {
            lemma_trim_plain(d);
        },
        Some(s) => {
            reveal_strlit("♠");
            reveal_strlit("♥");
            reveal_strlit("♣");
            reveal_strlit("♦");
            lemma_suit_text_round_trip(s);
            let sd = s.display();
            let rd = c.rank.display();
            assert(sd.len() == 1);
            assert(d[0] == sd[0]);
            assert(d.last() == rd.last());
            lemma_trim_plain(d);
            lemma_suit_led_text_is_no_rank(d);
            assert(seq![d[0]] =~= sd);
            assert(d.drop_first() =~= rd);
            assert(!names_joker(d));
            assert(suit_first(d));
        },
    }
}

/// Every word that the tokenizer reads as a whole names a rank.
proof fn lemma_words_are_ranks(s: Seq<char>, i: int)
    requires
        word_at(s, i) is Some,
    ensures
        parse_rank(word_at(s, i).unwrap()) is Some,
        word_at(s, i).unwrap().len() >= 1,
{
    reveal_strlit("jokersmall");
    reveal_strlit("jokerbig");
    reveal_strlit("small");
    reveal_strlit("queen");
    reveal_strlit("jack");
    reveal_strlit("king");
    reveal_strlit("ace");
    reveal_strlit("big");
    reveal_strlit("小王");
    reveal_strlit("大王");
    reveal_strlit("3");
    reveal_strlit("4");
    reveal_strlit("5");
    reveal_strlit("6");
    reveal_strlit("7");
    reveal_strlit("8");
    reveal_strlit("9");
    reveal_strlit("10");
    reveal_strlit("0");
    reveal_strlit("t");
    reveal_strlit("j");
    reveal_strlit("q");
    reveal_strlit("k");
    reveal_strlit("a");
    reveal_strlit("2");
    reveal_strlit("s");
    reveal_strlit("sj");
    reveal_strlit("b");
    reveal_strlit("bj");
    let w = word_at(s, i).unwrap();
    lemma_trim_plain(w);
    assert(ascii_lower(w) =~= w);
}

/// A single character that the tokenizer keeps (a digit `2`..`9`, or a
/// letter `j q k a s b` in either case) names a rank.
proof fn lemma_letter_is_rank(c: char)
    requires
        ('2' <= lower_char(c) <= '9') || is_letter_token(lower_char(c)),
    ensures
        parse_rank(seq![c]) is Some,
{
    reveal_strlit("3");
    reveal_strlit("4");
    reveal_strlit("5");
    reveal_strlit("6");
    reveal_strlit("7");
    reveal_strlit("8");
    reveal_strlit("9");
    reveal_strlit("10");
    reveal_strlit("0");
    reveal_strlit("t");
    reveal_strlit("j");
    reveal_strlit("q");
    reveal_strlit("k");
    reveal_strlit("a");
    reveal_strlit("2");
    reveal_strlit("s");
    reveal_strlit("b");
    let t = seq![c];
    lemma_trim_plain(t);
    let w = ascii_lower(t);
    let d = lower_char(c);
    assert(w =~= seq![d]);
    if d == '2' {
        assert(w =~= "2"@);
        assert(w[0] == "2"@[0]);
    } else if d == '3' {
        assert(w =~= "3"@);
        assert(w[0] == "3"@[0]);
    } else if d == '4' {
        assert(w =~= "4"@);
        assert(w[0] == "4"@[0]);
    } else if d == '5' {
        assert(w =~= "5"@);
        assert(w[0] == "5"@[0]);
    } else if d == '6' {
        assert(w =~= "6"@);
        assert(w[0] == "6"@[0]);
    } else if d == '7' {
        assert(w =~= "7"@);
        assert(w[0] == "7"@[0]);
    } else if d == '8' {
        assert(w =~= "8"@);
        assert(w[0] == "8"@[0]);
    } else if d == '9' {
        assert(w =~= "9"@);
        assert(w[0] == "9"@[0]);
    } else if d == 'j' {
        assert(w =~= "j"@);
        assert(w[0] == "j"@[0]);
    } else if d == 'q' {
        assert(w =~= "q"@);
        assert(w[0] == "q"@[0]);
    } else if d == 'k' {
        assert(w =~= "k"@);
        assert(w[0] == "k"@[0]);
    } else if d == 'a' {
        assert(w =~= "a"@);
        assert(w[0] == "a"@[0]);
    } else if d == 's' {
        assert(w =~= "s"@);
        assert(w[0] == "s"@[0]);
    } else {
        assert(d == 'b');
        assert(w =~= "b"@);
        assert(w[0] == "b"@[0]);
    }
}

/// The texts the tokenizer can give: a whole word (`jokersmall`, `jokerbig`,
/// `small`, `queen`, `jack`, `king`, `ace`, `big`, `小王`, `大王`), `10`, or
/// one character that is a digit `2`..`9` or a letter `j q k a s b` in
/// either case.
pub open spec fn is_card_token(t: Seq<char>) -> bool {
    ||| t == "jokersmall"@
    ||| t == "jokerbig"@
    ||| t == "small"@
    ||| t == "queen"@
    ||| t == "jack"@
    ||| t == "king"@
    ||| t == "ace"@
    ||| t == "big"@
    ||| t == "小王"@
    ||| t == "大王"@
    ||| t == "10"@
    ||| (t.len() == 1 && (('2' <= t[0] <= '9') || is_letter_token(lower_char(t[0]))))
}

/// What the tokenizer gives from position `i` on: every token names a rank,
/// and there are no more tokens than characters left.
pub proof fn lemma_tokens_from_are_ranks(s: Seq<char>, i: int)
    requires
        0 <= i,
    ensures
        tokens_from(s, i).len() <= if i < s.len() {
            s.len() - i
        } else {
            0
        },
        forall|k: int|
            0 <= k < tokens_from(s, i).len() ==> parse_rank(#[trigger] tokens_from(s, i)[k]) is Some
                && is_card_token(tokens_from(s, i)[k]),
    decreases s.len() - i,
{
    if i < s.len() {
        let c = lower_char(s[i]);
        if word_at(s, i) is Some {
            let w = word_at(s, i).unwrap();
            lemma_words_are_ranks(s, i);
            lemma_tokens_from_are_ranks(s, i + w.len());
            assert(occurs_at(s, i, w));
            let rest = tokens_from(s, i + w.len());
            assert(tokens_from(s, i) == seq![w] + rest);
            assert forall|k: int| 0 <= k < tokens_from(s, i).len() implies parse_rank(
                #[trigger] tokens_from(s, i)[k],
            ) is Some && is_card_token(tokens_from(s, i)[k]) by {
                if k > 0 {
                    assert(tokens_from(s, i)[k] == rest[k - 1]);
                }
            }
        } else if suit_letter_at(s, i) {
            lemma_tokens_from_are_ranks(s, i + 1);
        } else if c == '1' && i + 1 < s.len() && s[i + 1] == '0' {
            lemma_tokens_from_are_ranks(s, i + 2);
            reveal_strlit("10");
            lemma_rank_word(Rank::Ten);
            lemma_trim_plain("10"@);
            let rest = tokens_from(s, i + 2);
            assert forall|k: int| 0 <= k < tokens_from(s, i).len() implies parse_rank(
                #[trigger] tokens_from(s, i)[k],
            ) is Some && is_card_token(tokens_from(s, i)[k]) by {
                if k > 0 {
                    assert(tokens_from(s, i)[k] == rest[k - 1]);
                }
            }
        } else if c == '0' {
            lemma_tokens_from_are_ranks(s, i + 1);
            reveal_strlit("10");
            lemma_rank_word(Rank::Ten);
            lemma_trim_plain("10"@);
            let rest = tokens_from(s, i + 1);
            assert forall|k: int| 0 <= k < tokens_from(s, i).len() implies parse_rank(
                #[trigger] tokens_from(s, i)[k],
            ) is Some && is_card_token(tokens_from(s, i)[k]) by {
                if k > 0 {
                    assert(tokens_from(s, i)[k] == rest[k - 1]);
                }
            }
        } else if '2' <= c <= '9' || is_letter_token(c) {
            lemma_tokens_from_are_ranks(s, i + 1);
            lemma_letter_is_rank(s[i]);
            let rest = tokens_from(s, i + 1);
            assert forall|k: int| 0 <= k < tokens_from(s, i).len() implies parse_rank(
                #[trigger] tokens_from(s, i)[k],
            ) is Some && is_card_token(tokens_from(s, i)[k]) by {
                if k > 0 {
                    assert(tokens_from(s, i)[k] == rest[k - 1]);
                }
            }
        } else {
            lemma_tokens_from_are_ranks(s, i + 1);
        }
    }
}

/// Every token of typed input names a rank and is one of the texts of
/// `is_card_token`, and there are no more tokens than characters.
pub proof fn lemma_tokens_are_ranks(s: Seq<char>)
    ensures
        tokenize(s).len() <= s.len(),
        forall|k: int|
            0 <= k < tokenize(s).len() ==> parse_rank(#[trigger] tokenize(s)[k]) is Some
                && is_card_token(tokenize(s)[k]),
{
    lemma_tokens_from_are_ranks(s, 0);
}

/// A word of the tokenizer does not start at a white-space character.
proof fn lemma_no_word_at_space(s: Seq<char>, i: int)
    requires
        0 <= i < s.len(),
        is_ws(s[i]),
    ensures
        word_at(s, i) is None,
{
    reveal_strlit("jokersmall");
    reveal_strlit("jokerbig");
    reveal_strlit("small");
    reveal_strlit("queen");
    reveal_strlit("jack");
    reveal_strlit("king");
    reveal_strlit("ace");
    reveal_strlit("big");
    reveal_strlit("小王");
    reveal_strlit("大王");
    if word_at(s, i) is Some {
        let w = word_at(s, i).unwrap();
        assert(s.subrange(i, i + w.len())[0] == w[0]);
        assert(!is_ws(w[0]));
    }
}

/// Blank input, only white space or nothing at all, gives no tokens.
pub proof fn lemma_blank_gives_no_tokens(s: Seq<char>, i: int)
    requires
        0 <= i,
        forall|k: int| 0 <= k < s.len() ==> is_ws(#[trigger] s[k]),
    ensures
        tokens_from(s, i) == Seq::<Seq<char>>::empty(),
    decreases s.len() - i,
{
    if i < s.len() {
        lemma_no_word_at_space(s, i);
        assert(is_ws(s[i]));
        lemma_blank_gives_no_tokens(s, i + 1);
    }
}

/// No word of the tokenizer starts at a digit.
proof fn lemma_no_word_at_digit(s: Seq<char>, i: int)
    requires
        0 <= i < s.len(),
        '0' <= s[i] <= '9',
    ensures
        word_at(s, i) is None,
{
    reveal_strlit("jokersmall");
    reveal_strlit("jokerbig");
    reveal_strlit("small");
    reveal_strlit("queen");
    reveal_strlit("jack");
    reveal_strlit("king");
    reveal_strlit("ace");
    reveal_strlit("big");
    reveal_strlit("小王");
    reveal_strlit("大王");
    if word_at(s, i) is Some {
        let w = word_at(s, i).unwrap();
        assert(s.subrange(i, i + w.len())[0] == w[0]);
    }
}

/// No word of the tokenizer starts at a letter that is not followed by
/// another ASCII letter.
proof fn lemma_no_word_at_lone_letter(s: Seq<char>, i: int)
    requires
        0 <= i < s.len(),
        i + 1 >= s.len() || !(('a' <= s[i + 1] <= 'z') || ('A' <= s[i + 1] <= 'Z')),
        'a' <= lower_char(s[i]) <= 'z',
    ensures
        word_at(s, i) is None,
{
    reveal_strlit("jokersmall");
    reveal_strlit("jokerbig");
    reveal_strlit("small");
    reveal_strlit("queen");
    reveal_strlit("jack");
    reveal_strlit("king");
    reveal_strlit("ace");
    reveal_strlit("big");
    reveal_strlit("小王");
    reveal_strlit("大王");
    if word_at(s, i) is Some {
        let w = word_at(s, i).unwrap();
        assert(s.subrange(i, i + w.len())[0] == w[0]);
        if w.len() >= 2 && i + 1 < s.len() {
            assert(s.subrange(i, i + w.len())[1] == w[1]);
        }
    }
}

/// Each digit `2`..`9` of typed input is a token of its own: reading from
/// it on gives that digit, then what is read from the next character on.
pub proof fn lemma_digit_is_its_own_token(s: Seq<char>, i: int)
    requires
        0 <= i < s.len(),
        '2' <= s[i] <= '9',
    ensures
        tokens_from(s, i) == seq![seq![s[i]]] + tokens_from(s, i + 1),
{
    lemma_no_word_at_digit(s, i);
    assert(lower_char(s[i]) == s[i]);
}

/// `10` is read as one token, and so is a lone `0` (read as `10`).
pub proof fn lemma_ten_is_one_token(s: Seq<char>, i: int)
    requires
        0 <= i < s.len(),
        s[i] == '0' || (s[i] == '1' && i + 1 < s.len() && s[i + 1] == '0'),
    ensures
        s[i] == '0' ==> tokens_from(s, i) == seq!["10"@] + tokens_from(s, i + 1),
        s[i] == '1' ==> tokens_from(s, i) == seq!["10"@] + tokens_from(s, i + 2),
{
    lemma_no_word_at_digit(s, i);
    assert(lower_char(s[i]) == s[i]);
}

/// A rank letter (`j q k a s b`, either case) that stands alone, with no
/// ASCII letter or digit after it, is a token of its own, kept as typed.
pub proof fn lemma_lone_letter_is_its_own_token(s: Seq<char>, i: int)
    requires
        0 <= i < s.len(),
        is_letter_token(lower_char(s[i])),
        i + 1 >= s.len() || !(('a' <= s[i + 1] <= 'z') || ('A' <= s[i + 1] <= 'Z') || ('0'
            <= s[i + 1] <= '9')),
    ensures
        tokens_from(s, i) == seq![seq![s[i]]] + tokens_from(s, i + 1),
{
    lemma_no_word_at_lone_letter(s, i);
}

/// Typed input made only of the digits `2`..`9` gives one token for each
/// digit, in order.
pub proof fn lemma_digits_tokenize(s: Seq<char>, i: int)
    requires
        0 <= i <= s.len(),
        forall|k: int| 0 <= k < s.len() ==> '2' <= #[trigger] s[k] <= '9',
    ensures
        tokens_from(s, i) == s.subrange(i, s.len() as int).map_values(|c: char| seq![c]),
    decreases s.len() - i,
{
    if i < s.len() {
        lemma_digit_is_its_own_token(s, i);
        lemma_digits_tokenize(s, i + 1);
        assert(s.subrange(i, s.len() as int).map_values(|c: char| seq![c]) =~= seq![seq![s[i]]]
            + s.subrange(i + 1, s.len() as int).map_values(|c: char| seq![c]));
    } else {
        assert(s.subrange(i, s.len() as int).map_values(|c: char| seq![c]) =~= Seq::<
            Seq<char>,
        >::empty());
    }
}

/// The spellings of each rank that typed input may use, in lower case:
/// the digits (`10`, `0` or `t` for the ten), the court cards by letter or
/// English word, and the jokers by letter, English word, `joker` word,
/// two-letter code or Chinese name.
pub open spec fn rank_names(r: Rank) -> Set<Seq<char>> {
    match r {
        Rank::Three => set!["3"@],
        Rank::Four => set!["4"@],
        Rank::Five => set!["5"@],
        Rank::Six => set!["6"@],
        Rank::Seven => set!["7"@],
        Rank::Eight => set!["8"@],
        Rank::Nine => set!["9"@],
        Rank::Ten => set!["10"@, "0"@, "t"@],
        Rank::Jack => set!["j"@, "jack"@],
        Rank::Queen => set!["q"@, "queen"@],
        Rank::King => set!["k"@, "king"@],
        Rank::Ace => set!["a"@, "ace"@],
        Rank::Two => set!["2"@],
        Rank::JokerSmall => set!["s"@, "small"@, "jokersmall"@, "sj"@, "小王"@],
        Rank::JokerBig => set!["b"@, "big"@, "jokerbig"@, "bj"@, "大王"@],
    }
}

/// Every spelling of a rank reads as that rank, and a text reads as a rank
/// exactly when, trimmed and lower-cased, it is one of that rank's
/// spellings: the big joker's names (`b`, `big`, `jokerbig`, `bj`, `大王`)
/// all read as the big joker, the small joker's as the small one.
pub proof fn lemma_rank_names(r: Rank, n: Seq<char>)
    ensures
        rank_names(r).contains(n) ==> parse_rank(n) == Some(r),
        parse_rank(n) == Some(r) <==> rank_names(r).contains(ascii_lower(trim(n))),
{
    reveal_strlit("3");
    reveal_strlit("4");
    reveal_strlit("5");
    reveal_strlit("6");
    reveal_strlit("7");
    reveal_strlit("8");
    reveal_strlit("9");
    reveal_strlit("10");
    reveal_strlit("0");
    reveal_strlit("t");
    reveal_strlit("j");
    reveal_strlit("jack");
    reveal_strlit("q");
    reveal_strlit("queen");
    reveal_strlit("k");
    reveal_strlit("king");
    reveal_strlit("a");
    reveal_strlit("ace");
    reveal_strlit("2");
    reveal_strlit("s");
    reveal_strlit("small");
    reveal_strlit("jokersmall");
    reveal_strlit("sj");
    reveal_strlit("小王");
    reveal_strlit("b");
    reveal_strlit("big");
    reveal_strlit("jokerbig");
    reveal_strlit("bj");
    reveal_strlit("大王");
    match r {
        Rank::Three => {
            if n == "3"@ {
                lemma_trim_plain(n);
                assert(ascii_lower(n) =~= n);
                assert(n[0] == "3"@[0]);
            }
        },
        Rank::Four => {
            if n == "4"@ {
                lemma_trim_plain(n);
                assert(ascii_lower(n) =~= n);
                assert(n[0] == "4"@[0]);
            }
        },
        Rank::Five => {
            if n == "5"@ {
                lemma_trim_plain(n);
                assert(ascii_lower(n) =~= n);
                assert(n[0] == "5"@[0]);
            }
        },
        Rank::Six => {
            if n == "6"@ {
                lemma_trim_plain(n);
                assert(ascii_lower(n) =~= n);
                assert(n[0] == "6"@[0]);
            }
        },
        Rank::Seven => {
            if n == "7"@ {
                lemma_trim_plain(n);
                assert(ascii_lower(n) =~= n);
                assert(n[0] == "7"@[0]);
            }
        },
        Rank::Eight => {
            if n == "8"@ {
                lemma_trim_plain(n);
                assert(ascii_lower(n) =~= n);
                assert(n[0] == "8"@[0]);
            }
        },
        Rank::Nine => {
            if n == "9"@ {
                lemma_trim_plain(n);
                assert(ascii_lower(n) =~= n);
                assert(n[0] == "9"@[0]);
            }
        },
        Rank::Ten => {
            if n == "10"@ {
                lemma_trim_plain(n);
                assert(ascii_lower(n) =~= n);
                assert(n[0] == "10"@[0]);
            }
            if n == "0"@ {
                lemma_trim_plain(n);
                assert(ascii_lower(n) =~= n);
                assert(n[0] == "0"@[0]);
            }
            if n == "t"@ {
                lemma_trim_plain(n);
                assert(ascii_lower(n) =~= n);
                assert(n[0] == "t"@[0]);
            }
        },
        Rank::Jack => {
            if n == "j"@ {
                lemma_trim_plain(n);
                assert(ascii_lower(n) =~= n);
                assert(n[0] == "j"@[0]);
            }
            if n == "jack"@ {
                lemma_trim_plain(n);
                assert(ascii_lower(n) =~= n);
                assert(n[0] == "jack"@[0]);
            }
        },
        Rank::Queen => {
            if n == "q"@ {
                lemma_trim_plain(n);
                assert(ascii_lower(n) =~= n);
                assert(n[0] == "q"@[0]);
            }
            if n == "queen"@ {
                lemma_trim_plain(n);
                assert(ascii_lower(n) =~= n);
                assert(n[0] == "queen"@[0]);
            }
        },
        Rank::King => {
            if n == "k"@ {
                lemma_trim_plain(n);
                assert(ascii_lower(n) =~= n);
                assert(n[0] == "k"@[0]);
            }
            if n == "king"@ {
                lemma_trim_plain(n);
                assert(ascii_lower(n) =~= n);
                assert(n[0] == "king"@[0]);
            }
        },
        Rank::Ace => {
            if n == "a"@ {
                lemma_trim_plain(n);
                assert(ascii_lower(n) =~= n);
                assert(n[0] == "a"@[0]);
            }
            if n == "ace"@ {
                lemma_trim_plain(n);
                assert(ascii_lower(n) =~= n);
                assert(n[0] == "ace"@[0]);
            }
        },
        Rank::Two => {
            if n == "2"@ {
                lemma_trim_plain(n);
                assert(ascii_lower(n) =~= n);
                assert(n[0] == "2"@[0]);
            }
        },
        Rank::JokerSmall => {
            if n == "s"@ {
                lemma_trim_plain(n);
                assert(ascii_lower(n) =~= n);
                assert(n[0] == "s"@[0]);
            }
            if n == "small"@ {
                lemma_trim_plain(n);
                assert(ascii_lower(n) =~= n);
                assert(n[0] == "small"@[0]);
            }
            if n == "jokersmall"@ {
                lemma_trim_plain(n);
                assert(ascii_lower(n) =~= n);
                assert(n[0] == "jokersmall"@[0]);
            }
            if n == "sj"@ {
                lemma_trim_plain(n);
                assert(ascii_lower(n) =~= n);
                assert(n[0] == "sj"@[0]);
            }
            if n == "小王"@ {
                lemma_trim_plain(n);
                assert(ascii_lower(n) =~= n);
                assert(n[0] == "小王"@[0]);
            }
        },
        Rank::JokerBig => {
            if n == "b"@ {
                lemma_trim_plain(n);
                assert(ascii_lower(n) =~= n);
                assert(n[0] == "b"@[0]);
            }
            if n == "big"@ {
                lemma_trim_plain(n);
                assert(ascii_lower(n) =~= n);
                assert(n[0] == "big"@[0]);
            }
            if n == "jokerbig"@ {
                lemma_trim_plain(n);
                assert(ascii_lower(n) =~= n);
                assert(n[0] == "jokerbig"@[0]);
            }
            if n == "bj"@ {
                lemma_trim_plain(n);
                assert(ascii_lower(n) =~= n);
                assert(n[0] == "bj"@[0]);
            }
            if n == "大王"@ {
                lemma_trim_plain(n);
                assert(ascii_lower(n) =~= n);
                assert(n[0] == "大王"@[0]);
            }
        },
    }
    let w = ascii_lower(trim(n));
    if rank_from_word(w) == Some(r) {
        assert(rank_names(r).contains(w));
    }
    if rank_names(r).contains(w) {
        lemma_rank_name_reads(r, w);
    }
}

/// A lower-case spelling of a rank is looked up as that rank.
proof fn lemma_rank_name_reads(r: Rank, w: Seq<char>)
    requires
        rank_names(r).contains(w),
    ensures
        rank_from_word(w) == Some(r),
{
    reveal_strlit("3");
    reveal_strlit("4");
    reveal_strlit("5");
    reveal_strlit("6");
    reveal_strlit("7");
    reveal_strlit("8");
    reveal_strlit("9");
    reveal_strlit("10");
    reveal_strlit("0");
    reveal_strlit("t");
    reveal_strlit("j");
    reveal_strlit("jack");
    reveal_strlit("q");
    reveal_strlit("queen");
    reveal_strlit("k");
    reveal_strlit("king");
    reveal_strlit("a");
    reveal_strlit("ace");
    reveal_strlit("2");
    reveal_strlit("s");
    reveal_strlit("small");
    reveal_strlit("jokersmall");
    reveal_strlit("sj");
    reveal_strlit("小王");
    reveal_strlit("b");
    reveal_strlit("big");
    reveal_strlit("jokerbig");
    reveal_strlit("bj");
    reveal_strlit("大王");
    match r {
        Rank::Three => {
            if w == "3"@ {
                assert(w[0] == "3"@[0]);
                assert(rank_from_word(w) == Some(Rank::Three));
            }
            assert(rank_from_word(w) == Some(Rank::Three));
        },
        Rank::Four => {
            if w == "4"@ {
                assert(w[0] == "4"@[0]);
                assert(rank_from_word(w) == Some(Rank::Four));
            }
            assert(rank_from_word(w) == Some(Rank::Four));
        },
        Rank::Five => {
            if w == "5"@ {
                assert(w[0] == "5"@[0]);
                assert(rank_from_word(w) == Some(Rank::Five));
            }
            assert(rank_from_word(w) == Some(Rank::Five));
        },
        Rank::Six => {
            if w == "6"@ {
                assert(w[0] == "6"@[0]);
                assert(rank_from_word(w) == Some(Rank::Six));
            }
            assert(rank_from_word(w) == Some(Rank::Six));
        },
        Rank::Seven => {
            if w == "7"@ {
                assert(w[0] == "7"@[0]);
                assert(rank_from_word(w) == Some(Rank::Seven));
            }
            assert(rank_from_word(w) == Some(Rank::Seven));
        },
        Rank::Eight => {
            if w == "8"@ {
                assert(w[0] == "8"@[0]);
                assert(rank_from_word(w) == Some(Rank::Eight));
            }
            assert(rank_from_word(w) == Some(Rank::Eight));
        },
        Rank::Nine => {
            if w == "9"@ {
                assert(w[0] == "9"@[0]);
                assert(rank_from_word(w) == Some(Rank::Nine));
            }
            assert(rank_from_word(w) == Some(Rank::Nine));
        },
        Rank::Ten => {
            if w == "10"@ {
                assert(w[0] == "10"@[0]);
                assert(rank_from_word(w) == Some(Rank::Ten));
            }
            if w == "0"@ {
                assert(w[0] == "0"@[0]);
                assert(rank_from_word(w) == Some(Rank::Ten));
            }
            if w == "t"@ {
                assert(w[0] == "t"@[0]);
                assert(rank_from_word(w) == Some(Rank::Ten));
            }
            assert(rank_from_word(w) == Some(Rank::Ten));
        },
        Rank::Jack => {
            if w == "j"@ {
                assert(w[0] == "j"@[0]);
                assert(rank_from_word(w) == Some(Rank::Jack));
            }
            if w == "jack"@ {
                assert(w[0] == "jack"@[0]);
                assert(rank_from_word(w) == Some(Rank::Jack));
            }
            assert(rank_from_word(w) == Some(Rank::Jack));
        },
        Rank::Queen => {
            if w == "q"@ {
                assert(w[0] == "q"@[0]);
                assert(rank_from_word(w) == Some(Rank::Queen));
            }
            if w == "queen"@ {
                assert(w[0] == "queen"@[0]);
                assert(rank_from_word(w) == Some(Rank::Queen));
            }
            assert(rank_from_word(w) == Some(Rank::Queen));
        },
        Rank::King => {
            if w == "k"@ {
                assert(w[0] == "k"@[0]);
                assert(rank_from_word(w) == Some(Rank::King));
            }
            if w == "king"@ {
                assert(w[0] == "king"@[0]);
                assert(rank_from_word(w) == Some(Rank::King));
            }
            assert(rank_from_word(w) == Some(Rank::King));
        },
        Rank::Ace => {
            if w == "a"@ {
                assert(w[0] == "a"@[0]);
                assert(rank_from_word(w) == Some(Rank::Ace));
            }
            if w == "ace"@ {
                assert(w[0] == "ace"@[0]);
                assert(rank_from_word(w) == Some(Rank::Ace));
            }
            assert(rank_from_word(w) == Some(Rank::Ace));
        },
        Rank::Two => {
            if w == "2"@ {
                assert(w[0] == "2"@[0]);
                assert(rank_from_word(w) == Some(Rank::Two));
            }
            assert(rank_from_word(w) == Some(Rank::Two));
        },
        Rank::JokerSmall => {
            if w == "s"@ {
                assert(w[0] == "s"@[0]);
                assert(rank_from_word(w) == Some(Rank::JokerSmall));
            }
            if w == "small"@ {
                assert(w[0] == "small"@[0]);
                assert(rank_from_word(w) == Some(Rank::JokerSmall));
            }
            if w == "jokersmall"@ {
                assert(w.len() == 10);
                assert(w[0] == "jokersmall"@[0]);
                assert(rank_from_word(w) == Some(Rank::JokerSmall));
            }
            if w == "sj"@ {
                assert(w[0] == "sj"@[0]);
                assert(rank_from_word(w) == Some(Rank::JokerSmall));
            }
            if w == "小王"@ {
                assert(w[0] == "小王"@[0]);
                assert(rank_from_word(w) == Some(Rank::JokerSmall));
            }
            assert(rank_from_word(w) == Some(Rank::JokerSmall));
        },
        Rank::JokerBig => {
            if w == "b"@ {
                assert(w[0] == "b"@[0]);
                assert(rank_from_word(w) == Some(Rank::JokerBig));
            }
            if w == "big"@ {
                assert(w[0] == "big"@[0]);
                assert(rank_from_word(w) == Some(Rank::JokerBig));
            }
            if w == "jokerbig"@ {
                assert(w.len() == 8);
                assert(w[0] == "jokerbig"@[0]);
                assert(rank_from_word(w) == Some(Rank::JokerBig));
            }
            if w == "bj"@ {
                assert(w[0] == "bj"@[0]);
                assert(rank_from_word(w) == Some(Rank::JokerBig));
            }
            if w == "大王"@ {
                assert(w[0] == "大王"@[0]);
                assert(rank_from_word(w) == Some(Rank::JokerBig));
            }
            assert(rank_from_word(w) == Some(Rank::JokerBig));
        },
    }
}

} // verus!
