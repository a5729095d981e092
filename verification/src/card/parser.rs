//! Splitting typed card input into rank tokens.

use vstd::prelude::*;
use crate::text::{chars_of, lower_char, lower_char_exec, string_of};

verus! {

/// The text of each string of a sequence.
pub open spec fn token_views(v: Seq<String>) -> Seq<Seq<char>> {
    v.map_values(|t: String| t@)
}

/// Whether `p` occurs in `s` at position `i`.
pub open spec fn occurs_at(s: Seq<char>, i: int, p: Seq<char>) -> bool {
    0 <= i && i + p.len() <= s.len() && s.subrange(i, i + p.len()) == p
}

/// The word tokens that are recognised as a whole, longest first.
pub open spec fn word_at(s: Seq<char>, i: int) -> Option<Seq<char>> {
    if occurs_at(s, i, "jokersmall"@) {
        Some("jokersmall"@)
    } else if occurs_at(s, i, "jokerbig"@) {
        Some("jokerbig"@)
    } else if occurs_at(s, i, "small"@) {
        Some("small"@)
    } else if occurs_at(s, i, "queen"@) {
        Some("queen"@)
    } else if occurs_at(s, i, "jack"@) {
        Some("jack"@)
    } else if occurs_at(s, i, "king"@) {
        Some("king"@)
    } else if occurs_at(s, i, "ace"@) {
        Some("ace"@)
    } else if occurs_at(s, i, "big"@) {
        Some("big"@)
    } else if occurs_at(s, i, "小王"@) {
        Some("小王"@)
    } else if occurs_at(s, i, "大王"@) {
        Some("大王"@)
    } else {
        None
    }
}

/// Whether the character at position `i` is a suit letter `s` (either case)
/// standing directly before a digit, as in `s3`; such a letter names the
/// suit of the card and is skipped.
pub open spec fn suit_letter_at(s: Seq<char>, i: int) -> bool {
    0 <= i && i + 1 < s.len() && lower_char(s[i]) == 's' && '0' <= s[i + 1] <= '9'
}

/// Whether a (lower-cased) character is a one-letter card token:
/// `j q k a` for the court cards, `s b` for the jokers.
pub open spec fn is_letter_token(c: char) -> bool {
    c == 'j' || c == 'q' || c == 'k' || c == 'a' || c == 's' || c == 'b'
}

/// Every whole word has at least one character.
pub proof fn lemma_words_nonempty()
    ensures
        "jokersmall"@.len() == 10,
        "jokerbig"@.len() == 8,
        "small"@.len() == 5,
        "queen"@.len() == 5,
        "jack"@.len() == 4,
        "king"@.len() == 4,
        "ace"@.len() == 3,
        "big"@.len() == 3,
        "小王"@.len() == 2,
        "大王"@.len() == 2,
{
    reveal_strlit("jokersmall");
    reveal_strlit("jokerbig");
    reveal_strlit("small");
    reveal_strlit("queen");
    reveal_strlit("jack");
    reveal_strlit("king");
    reveal_strlit("ace");
    reveal_strlit("big");
    reveal_strlit("小王");
    reveal_strlit("大王");
}

/// The tokens read from `s` starting at position `i`. At each position the
/// whole words are tried first (case-sensitively, including `小王` and
/// `大王`); a suit letter before a digit (`s3`) is skipped; then `10` (or a
/// lone `0`, both read as `10`), the digits `2`..`9`, and the letters of
/// `is_letter_token` in either case (kept as typed); any other character
/// (whitespace, `1`, suit symbols and other suit letters, ...) is skipped.
pub open spec fn tokens_from(s: Seq<char>, i: int) -> Seq<Seq<char>>
    decreases s.len() - i,
{
    if i < 0 || i >= s.len() {
        Seq::empty()
    } else {
        let c = lower_char(s[i]);
        if word_at(s, i) is Some {
            let w = word_at(s, i).unwrap();
            proof {
                lemma_words_nonempty();
            }
            seq![w] + tokens_from(s, i + w.len())
        } else if suit_letter_at(s, i) {
            tokens_from(s, i + 1)
        } else if c == '1' && i + 1 < s.len() && s[i + 1] == '0' {
            seq!["10"@] + tokens_from(s, i + 2)
        } else if c == '0' {
            seq!["10"@] + tokens_from(s, i + 1)
        } else if '2' <= c <= '9' || is_letter_token(c) {
            seq![seq![s[i]]] + tokens_from(s, i + 1)
        } else {
            tokens_from(s, i + 1)
        }
    }
}

/// The tokens of a whole input text.
pub open spec fn tokenize(s: Seq<char>) -> Seq<Seq<char>> {
    tokens_from(s, 0)
}

/// Whether `lit` occurs in `v` at position `i`.
fn occurs_at_exec(v: &Vec<char>, i: usize, lit: &str) -> (b: bool)
    requires
        i <= v@.len(),
    ensures
        b == occurs_at(v@, i as int, lit@),
{
    let n = lit.unicode_len();
    if n > v.len() - i {
        return false;
    }
    let mut k: usize = 0;
    let vl = v.len();
    while k < n
        invariant
            vl == v@.len(),
            n == lit@.len(),
            i + n <= v@.len(),
            k <= n,
            forall|j: int| 0 <= j < k ==> v@[i + j] == lit@[j],
        decreases n - k,
    {
        if v[i + k] != lit.get_char(k) {
            assert(v@.subrange(i as int, i + n)[k as int] != lit@[k as int]);
            return false;
        }
        k = k + 1;
    }
    assert(v@.subrange(i as int, i + n) =~= lit@);
    true
}

/// The word at position `i`, if any, as a static string.
fn word_at_exec(v: &Vec<char>, i: usize) -> (r: Option<&'static str>)
    requires
        i <= v@.len(),
    ensures
        r matches Some(w) ==> word_at(v@, i as int) == Some(w@),
        r is None ==> word_at(v@, i as int) is None,
{
    if occurs_at_exec(v, i, "jokersmall") {
        Some("jokersmall")
    } else if occurs_at_exec(v, i, "jokerbig") {
        Some("jokerbig")
    } else if occurs_at_exec(v, i, "small") {
        Some("small")
    } else if occurs_at_exec(v, i, "queen") {
        Some("queen")
    } else if occurs_at_exec(v, i, "jack") {
        Some("jack")
    } else if occurs_at_exec(v, i, "king") {
        Some("king")
    } else if occurs_at_exec(v, i, "ace") {
        Some("ace")
    } else if occurs_at_exec(v, i, "big") {
        Some("big")
    } else if occurs_at_exec(v, i, "小王") {
        Some("小王")
    } else if occurs_at_exec(v, i, "大王") {
        Some("大王")
    } else {
        None
    }
}

/// Splits typed card input into rank tokens.
///
/// Spaces are optional: `"3 3 4 5"`, `"3345"` and `"33 4 5"` all give
/// `["3", "3", "4", "5"]`; `"small big"` gives `["small", "big"]`, `"小王 大王"`
/// gives `["小王", "大王"]` and `"sj"` gives `["s", "j"]`. Suit symbols and
/// suit letters are skipped: `"s3 h4 d5"` gives `["3", "4", "5"]`.
pub fn tokenize_card_input(input: &str) -> (tokens: Vec<String>)
    ensures
        token_views(tokens@) == tokenize(input@),
{
    let v = chars_of(input);
    let n = v.len();
    let mut tokens: Vec<String> = Vec::new();
    let mut i: usize = 0;
    while i < n
        invariant
            n == v@.len(),
            v@ == input@,
            i <= n + 1,
            token_views(tokens@) + tokens_from(v@, i as int) == tokens_from(v@, 0),
        decreases n - i,
    {
        let ghost before = tokens@;
        let c = lower_char_exec(v[i]);
        match word_at_exec(&v, i) {
            Some(w) => {
                let t = string_of(w);
                tokens.push(t);
                i = i + w.unicode_len();
            },
            None => {
                if c == 's' && i + 1 < n && '0' <= v[i + 1] && v[i + 1] <= '9' {
                    i = i + 1;
                } else if c == '1' && i + 1 < n && v[i + 1] == '0' {
                    tokens.push(string_of("10"));
                    proof {
                        reveal_strlit("10");
                    }
                    i = i + 2;
                } else if c == '0' {
                    tokens.push(string_of("10"));
                    i = i + 1;
                } else if ('2' <= c && c <= '9') || c == 'j' || c == 'q' || c == 'k' || c == 'a'
                    || c == 's' || c == 'b' {
                    let t = String::from_str(input.substring_char(i, i + 1));
                    assert(input@.subrange(i as int, i + 1) =~= seq![v@[i as int]]);
                    tokens.push(t);
                    i = i + 1;
                } else {
                    i = i + 1;
                }
            },
        }
        assert(token_views(tokens@) =~= token_views(before) + (token_views(tokens@).subrange(
            before.len() as int,
            tokens@.len() as int,
        )));
    }
    assert(tokens_from(v@, i as int) =~= Seq::<Seq<char>>::empty());
    assert(token_views(tokens@) + Seq::<Seq<char>>::empty() =~= token_views(tokens@));
    tokens
}

} // verus!
