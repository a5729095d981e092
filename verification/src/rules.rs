//! Classification of plays into the categories of Dou Dizhu and the rule
//! that decides whether one play beats another.
//!
//! A play is classified from how many cards of each rank it holds. Twos and
//! jokers never take part in straights, pair sequences or the triples of a
//! plane. A bomb beats any play that is not a bomb or the joker bomb, and
//! the joker bomb beats everything.

use vstd::prelude::*;
use crate::card::{Card, Cards, Rank};
use crate::card::cards::rank_count;
use crate::error::PlayError;

verus! {

broadcast use vstd::seq_lib::group_to_multiset_ensures;

/// The categories of plays.
#[derive(Debug, Clone, Copy, PartialEq, Eq, Structural)]
pub enum PlayCategory {
    /// No cards: the player passes.
    Pass,
    /// One card.
    Single,
    /// Two cards of one rank.
    Pair,
    /// Three cards of one rank.
    Triple,
    /// Four cards of one rank.
    Bomb,
    /// The two jokers.
    JokerBomb,
    /// Three cards of one rank and one other card.
    ThreeWithOne,
    /// Three cards of one rank and a pair of another.
    ThreeWithTwo,
    /// Four cards of one rank and a pair of another.
    FourWithTwo,
    /// At least five single cards of consecutive ranks.
    Straight,
    /// At least three pairs of consecutive ranks.
    PairSequence,
    /// At least two triples of consecutive ranks.
    Plane,
    /// A plane with as many single cards as triples.
    PlaneWithSingle,
    /// A plane with as many pairs as triples.
    PlaneWithPair,
}

/// The rank at position `k` of the order `3 < 4 < ... < A < 2 < small joker < big joker`.
pub open spec fn rank_at(k: int) -> Rank {
    if k <= 0 {
        Rank::Three
    } else if k == 1 {
        Rank::Four
    } else if k == 2 {
        Rank::Five
    } else if k == 3 {
        Rank::Six
    } else if k == 4 {
        Rank::Seven
    } else if k == 5 {
        Rank::Eight
    } else if k == 6 {
        Rank::Nine
    } else if k == 7 {
        Rank::Ten
    } else if k == 8 {
        Rank::Jack
    } else if k == 9 {
        Rank::Queen
    } else if k == 10 {
        Rank::King
    } else if k == 11 {
        Rank::Ace
    } else if k == 12 {
        Rank::Two
    } else if k == 13 {
        Rank::JokerSmall
    } else {
        Rank::JokerBig
    }
}

/// The number of cards of each rank, listed in rank order (15 entries).
pub open spec fn count_seq(s: Seq<Card>) -> Seq<nat> {
    Seq::new(15, |k: int| rank_count(s, rank_at(k)))
}

/// The counts held in a vector of `usize`, as natural numbers.
pub open spec fn nat_view(v: Seq<usize>) -> Seq<nat> {
    Seq::new(v.len(), |k: int| v[k] as nat)
}

/// Which ranks a check looks at: with `mode == 0` every rank that occurs,
/// otherwise the ranks that occur exactly `mode` times.
pub open spec fn sel(c: nat, mode: nat) -> bool {
    if mode == 0 {
        c > 0
    } else {
        c == mode
    }
}

/// The selected ranks are consecutive: no unselected rank lies between two selected ones.
pub open spec fn no_gap(cs: Seq<nat>, mode: nat) -> bool {
    forall|a: int, b: int, c: int|
        #![trigger sel(cs[a], mode), sel(cs[b], mode), sel(cs[c], mode)]
        0 <= a < b < c < 15 && sel(cs[a], mode) && sel(cs[c], mode) ==> sel(cs[b], mode)
}

/// A two or a joker (positions 12, 13, 14) is among the selected ranks.
pub open spec fn has_forbidden(cs: Seq<nat>, mode: nat) -> bool {
    sel(cs[12], mode) || sel(cs[13], mode) || sel(cs[14], mode)
}

/// How many of the first `hi` ranks are selected.
pub open spec fn num_sel(cs: Seq<nat>, mode: nat, hi: int) -> nat
    decreases hi,
{
    if hi <= 0 {
        0
    } else {
        num_sel(cs, mode, hi - 1) + if sel(cs[hi - 1], mode) {
            1nat
        } else {
            0nat
        }
    }
}

/// The largest of the first `hi` counts (0 when `hi` is 0).
pub open spec fn max_upto(cs: Seq<nat>, hi: int) -> nat
    decreases hi,
{
    if hi <= 0 {
        0
    } else {
        let m = max_upto(cs, hi - 1);
        if cs[hi - 1] > m {
            cs[hi - 1]
        } else {
            m
        }
    }
}

/// The number of distinct ranks.
pub open spec fn distinct(cs: Seq<nat>) -> nat {
    num_sel(cs, 0, 15)
}

/// The categories that `len` cards can form without any sequence:
/// single, pair, joker bomb, triple, three-with-one, bomb, three-with-two,
/// four-with-two.
pub open spec fn basic_category(len: int, cs: Seq<nat>) -> Option<PlayCategory> {
    let m = max_upto(cs, 15);
    if len == 1 {
        Some(PlayCategory::Single)
    } else if len == 2 {
        if m == 1 {
            if cs[13] == 1 && cs[14] == 1 {
                Some(PlayCategory::JokerBomb)
            } else {
                None
            }
        } else if m == 2 {
            Some(PlayCategory::Pair)
        } else {
            None
        }
    } else if len == 3 {
        if m == 3 {
            Some(PlayCategory::Triple)
        } else {
            None
        }
    } else if len == 4 {
        if m == 3 {
            Some(PlayCategory::ThreeWithOne)
        } else if m == 4 {
            Some(PlayCategory::Bomb)
        } else {
            None
        }
    } else if len == 5 {
        if m == 3 && distinct(cs) == 2 {
            Some(PlayCategory::ThreeWithTwo)
        } else {
            None
        }
    } else if len == 6 {
        if m == 4 && distinct(cs) == 2 {
            Some(PlayCategory::FourWithTwo)
        } else {
            None
        }
    } else {
        None
    }
}

/// At least five cards, all of distinct and consecutive ranks, no two or joker.
pub open spec fn is_straight(len: int, cs: Seq<nat>) -> bool {
    &&& len >= 5
    &&& distinct(cs) == len
    &&& !has_forbidden(cs, 0)
    &&& no_gap(cs, 0)
}

/// Every rank that occurs, occurs exactly `t` times.
pub open spec fn all_present_are(cs: Seq<nat>, t: nat) -> bool {
    forall|k: int| 0 <= k < 15 && cs[k] > 0 ==> cs[k] == t
}

/// At least three pairs of consecutive ranks, no two or joker.
pub open spec fn is_pair_sequence(len: int, cs: Seq<nat>) -> bool {
    &&& len >= 6
    &&& len % 2 == 0
    &&& len / 2 >= 3
    &&& distinct(cs) == len / 2
    &&& all_present_are(cs, 2)
    &&& !has_forbidden(cs, 0)
    &&& no_gap(cs, 0)
}

/// The plane categories: at least two triples of consecutive ranks (no two
/// or joker among them), no rank more than three times, and nothing else,
/// or as many single cards as triples, or as many pairs as triples.
pub open spec fn plane_category(len: int, cs: Seq<nat>) -> Option<PlayCategory> {
    let t = num_sel(cs, 3, 15);
    let p = num_sel(cs, 2, 15);
    let s = num_sel(cs, 1, 15);
    if len >= 6 && max_upto(cs, 15) <= 3 && t >= 2 && !has_forbidden(cs, 3) && no_gap(cs, 3) {
        if len == 3 * t {
            Some(PlayCategory::Plane)
        } else if len == 3 * t + s && s == t {
            Some(PlayCategory::PlaneWithSingle)
        } else if len == 3 * t + 2 * p && p == t {
            Some(PlayCategory::PlaneWithPair)
        } else {
            None
        }
    } else {
        None
    }
}

/// `a` if it holds a category, `b` otherwise.
pub open spec fn or_else(a: Option<PlayCategory>, b: Option<PlayCategory>) -> Option<PlayCategory> {
    if a is Some {
        a
    } else {
        b
    }
}

/// The straight category when the cards form one.
pub open spec fn straight_category(len: int, cs: Seq<nat>) -> Option<PlayCategory> {
    if is_straight(len, cs) {
        Some(PlayCategory::Straight)
    } else {
        None
    }
}

/// The pair-sequence category when the cards form one.
pub open spec fn pair_sequence_category(len: int, cs: Seq<nat>) -> Option<PlayCategory> {
    if is_pair_sequence(len, cs) {
        Some(PlayCategory::PairSequence)
    } else {
        None
    }
}

/// The category of a set of cards, or `None` when they form no valid play.
/// No cards is a pass; up to four cards can only form basic categories;
/// five cards are tried as basic, then straight; six as basic, straight,
/// pair sequence, then plane; more as straight, pair sequence, plane.
pub open spec fn classify(s: Seq<Card>) -> Option<PlayCategory> {
    let len = s.len() as int;
    let cs = count_seq(s);
    if len == 0 {
        Some(PlayCategory::Pass)
    } else if len <= 4 {
        basic_category(len, cs)
    } else if len == 5 {
        or_else(basic_category(len, cs), straight_category(len, cs))
    } else if len == 6 {
        or_else(
            basic_category(len, cs),
            or_else(
                straight_category(len, cs),
                or_else(pair_sequence_category(len, cs), plane_category(len, cs)),
            ),
        )
    } else {
        or_else(
            straight_category(len, cs),
            or_else(
                pair_sequence_category(len, cs),
                or_else(plane_category(len, cs), basic_category(len, cs)),
            ),
        )
    }
}

/// The rank at position `k`, matching `rank_at`.
pub(crate) fn rank_at_exec(k: usize) -> (r: Rank)
    requires
        k < 15,
    ensures
        r == rank_at(k as int),
{
    Rank::ALL[k]
}

/// The number of cards of each rank, in rank order.
fn build_rank_counts(cards: &Cards) -> (r: Vec<usize>)
    ensures
        nat_view(r@) == count_seq(cards@),
        r@.len() == 15,
        forall|k: int| 0 <= k < 15 ==> r@[k] <= cards@.len(),
{
    let v = cards.as_vec();
    let n = v.len();
    let mut r: Vec<usize> = Vec::with_capacity(15);
    let mut k: usize = 0;
    while k < 15
        invariant
            n == cards@.len(),
            v@ == cards@,
            k <= 15,
            r@.len() == k,
            forall|j: int| 0 <= j < k ==> r@[j] == count_seq(cards@)[j] && r@[j] <= n,
        decreases 15 - k,
    {
        let c = crate::card::cards::count_rank_prefix(v, n, rank_at_exec(k));
        assert(v@.subrange(0, n as int) =~= cards@);
        proof {
            lemma_rank_count_le_len(cards@, rank_at(k as int));
        }
        r.push(c);
        k = k + 1;
    }
    assert(nat_view(r@) =~= count_seq(cards@));
    r
}

/// A rank never occurs more often than there are cards.
proof fn lemma_rank_count_le_len(s: Seq<Card>, r: Rank)
    ensures
        rank_count(s, r) <= s.len(),
    decreases s.len(),
{
    if s.len() == 0 {
        crate::card::cards::lemma_rank_count_empty(r);
        assert(s =~= Seq::<Card>::empty());
    } else {
        lemma_rank_count_le_len(s.drop_last(), r);
        crate::card::cards::lemma_rank_count_push(s.drop_last(), s.last(), r);
        assert(s.drop_last().push(s.last()) =~= s);
    }
}


/// Whether a count is selected by `mode` (see `sel`).
fn selected(c: usize, mode: usize) -> (b: bool)
    ensures
        b == sel(c as nat, mode as nat),
{
    if mode == 0 {
        c > 0
    } else {
        c == mode
    }
}

/// How many ranks are selected by `mode`.
fn count_selected(counts: &Vec<usize>, mode: usize) -> (r: usize)
    requires
        counts@.len() == 15,
    ensures
        r == num_sel(nat_view(counts@), mode as nat, 15),
        r <= 15,
{
    let ghost cs = nat_view(counts@);
    let mut r: usize = 0;
    let mut k: usize = 0;
    while k < 15
        invariant
            counts@.len() == 15,
            cs == nat_view(counts@),
            k <= 15,
            r == num_sel(cs, mode as nat, k as int),
            r <= k,
        decreases 15 - k,
    {
        if selected(counts[k], mode) {
            r = r + 1;
        }
        k = k + 1;
    }
    r
}

/// The largest count.
fn max_count(counts: &Vec<usize>) -> (r: usize)
    requires
        counts@.len() == 15,
    ensures
        r == max_upto(nat_view(counts@), 15),
{
    let ghost cs = nat_view(counts@);
    let mut r: usize = 0;
    let mut k: usize = 0;
    while k < 15
        invariant
            counts@.len() == 15,
            cs == nat_view(counts@),
            k <= 15,
            r == max_upto(cs, k as int),
        decreases 15 - k,
    {
        if counts[k] > r {
            r = counts[k];
        }
        k = k + 1;
    }
    r
}

/// Whether a rank may not take part in sequences: the two and the jokers.
fn is_forbidden_rank(rank: Rank) -> (b: bool)
    ensures
        b == (rank == Rank::Two || rank == Rank::JokerSmall || rank == Rank::JokerBig),
{
    match rank {
        Rank::Two | Rank::JokerSmall | Rank::JokerBig => true,
        _ => false,
    }
}

/// Whether a two or a joker is among the ranks selected by `mode`.
fn contains_forbidden_ranks(counts: &Vec<usize>, mode: usize) -> (b: bool)
    requires
        counts@.len() == 15,
    ensures
        b == has_forbidden(nat_view(counts@), mode as nat),
{
    let mut k: usize = 0;
    while k < 15
        invariant
            counts@.len() == 15,
            k <= 15,
            forall|j: int|
                0 <= j < k && #[trigger] sel(nat_view(counts@)[j], mode as nat) ==> j < 12,
        decreases 15 - k,
    {
        let r = rank_at_exec(k);
        if is_forbidden_rank(r) && selected(counts[k], mode) {
            return true;
        }
        k = k + 1;
    }
    false
}

/// Whether some rank at a position in `lo..hi` is selected by `mode`.
fn any_selected(counts: &Vec<usize>, mode: usize, lo: usize, hi: usize) -> (b: bool)
    requires
        counts@.len() == 15,
        lo <= hi <= 15,
    ensures
        b == exists|k: int| lo <= k < hi && sel(#[trigger] nat_view(counts@)[k], mode as nat),
{
    let mut k: usize = lo;
    while k < hi
        invariant
            counts@.len() == 15,
            lo <= k <= hi <= 15,
            forall|j: int| lo <= j < k ==> !sel(#[trigger] nat_view(counts@)[j], mode as nat),
        decreases hi - k,
    {
        if selected(counts[k], mode) {
            assert(sel(nat_view(counts@)[k as int], mode as nat));
            return true;
        }
        k = k + 1;
    }
    false
}

/// Whether the ranks selected by `mode` are consecutive: no unselected rank
/// lies between two selected ones.
fn are_ranks_consecutive(counts: &Vec<usize>, mode: usize) -> (b: bool)
    requires
        counts@.len() == 15,
    ensures
        b == no_gap(nat_view(counts@), mode as nat),
{
    let ghost cs = nat_view(counts@);
    let mut k: usize = 0;
    while k < 15
        invariant
            counts@.len() == 15,
            cs == nat_view(counts@),
            k <= 15,
            forall|a: int, b: int, c: int|
                #![trigger sel(cs[a], mode as nat), sel(cs[b], mode as nat), sel(cs[c], mode as nat)]
                0 <= a < b < c < 15 && b < k && sel(cs[a], mode as nat) && sel(cs[c], mode as nat)
                    ==> sel(cs[b], mode as nat),
        decreases 15 - k,
    {
        if !selected(counts[k], mode) {
            let before = any_selected(counts, mode, 0, k);
            let after = any_selected(counts, mode, k + 1, 15);
            if before && after {
                proof {
                    let a = choose|a: int| 0 <= a < k && sel(#[trigger] cs[a], mode as nat);
                    let c = choose|c: int| k + 1 <= c < 15 && sel(#[trigger] cs[c], mode as nat);
                    assert(!sel(cs[k as int], mode as nat));
                    assert(sel(cs[a], mode as nat) && sel(cs[c], mode as nat));
                }
                return false;
            }
            proof {
                assert forall|a: int, c: int|
                    0 <= a < k && k < c < 15 && sel(#[trigger] cs[a], mode as nat) implies !sel(
                    #[trigger] cs[c],
                    mode as nat,
                ) by {
                    if sel(cs[c], mode as nat) {
                        if !before {
                            assert(sel(nat_view(counts@)[a], mode as nat));
                        } else {
                            assert(sel(nat_view(counts@)[c], mode as nat));
                        }
                    }
                }
            }
        }
        k = k + 1;
    }
    true
}

/// The basic category of `len` cards with the given rank counts.
fn try_basic_pattern_with_counts(len: usize, counts: &Vec<usize>) -> (r: Option<PlayCategory>)
    requires
        counts@.len() == 15,
    ensures
        r == basic_category(len as int, nat_view(counts@)),
{
    let m = max_count(counts);
    if len == 1 {
        Some(PlayCategory::Single)
    } else if len == 2 {
        if m == 1 {
            if counts[13] == 1 && counts[14] == 1 {
                Some(PlayCategory::JokerBomb)
            } else {
                None
            }
        } else if m == 2 {
            Some(PlayCategory::Pair)
        } else {
            None
        }
    } else if len == 3 {
        if m == 3 {
            Some(PlayCategory::Triple)
        } else {
            None
        }
    } else if len == 4 {
        if m == 3 {
            Some(PlayCategory::ThreeWithOne)
        } else if m == 4 {
            Some(PlayCategory::Bomb)
        } else {
            None
        }
    } else if len == 5 {
        if m == 3 && count_selected(counts, 0) == 2 {
            Some(PlayCategory::ThreeWithTwo)
        } else {
            None
        }
    } else if len == 6 {
        if m == 4 && count_selected(counts, 0) == 2 {
            Some(PlayCategory::FourWithTwo)
        } else {
            None
        }
    } else {
        None
    }
}

/// The straight category, when `len` cards with these counts form a straight.
fn try_straight_with_counts(len: usize, counts: &Vec<usize>) -> (r: Option<PlayCategory>)
    requires
        counts@.len() == 15,
    ensures
        r == straight_category(len as int, nat_view(counts@)),
{
    if len < 5 {
        return None;
    }
    if count_selected(counts, 0) != len {
        return None;
    }
    if contains_forbidden_ranks(counts, 0) {
        return None;
    }
    if are_ranks_consecutive(counts, 0) {
        Some(PlayCategory::Straight)
    } else {
        None
    }
}

/// Whether every rank that occurs occurs exactly `t` times.
fn all_present_equal(counts: &Vec<usize>, t: usize) -> (b: bool)
    requires
        counts@.len() == 15,
    ensures
        b == all_present_are(nat_view(counts@), t as nat),
{
    let mut k: usize = 0;
    while k < 15
        invariant
            counts@.len() == 15,
            k <= 15,
            forall|j: int|
                0 <= j < k && nat_view(counts@)[j] > 0 ==> #[trigger] nat_view(counts@)[j]
                    == t as nat,
        decreases 15 - k,
    {
        if counts[k] > 0 && counts[k] != t {
            assert(nat_view(counts@)[k as int] > 0);
            return false;
        }
        k = k + 1;
    }
    true
}

/// The pair-sequence category, when `len` cards with these counts form one.
fn try_pair_sequence_with_counts(len: usize, counts: &Vec<usize>) -> (r: Option<PlayCategory>)
    requires
        counts@.len() == 15,
    ensures
        r == pair_sequence_category(len as int, nat_view(counts@)),
{
    if len < 6 || len % 2 != 0 {
        return None;
    }
    let pair_count = len / 2;
    if pair_count < 3 {
        return None;
    }
    if count_selected(counts, 0) != pair_count {
        return None;
    }
    if !all_present_equal(counts, 2) {
        return None;
    }
    if contains_forbidden_ranks(counts, 0) {
        return None;
    }
    if are_ranks_consecutive(counts, 0) {
        Some(PlayCategory::PairSequence)
    } else {
        None
    }
}

/// The plane category, when `len` cards with these counts form a plane,
/// with or without single cards or pairs.
fn try_plane_with_counts(len: usize, counts: &Vec<usize>) -> (r: Option<PlayCategory>)
    requires
        counts@.len() == 15,
    ensures
        r == plane_category(len as int, nat_view(counts@)),
{
    if len < 6 {
        return None;
    }
    if max_count(counts) > 3 {
        return None;
    }
    let triples = count_selected(counts, 3);
    let singles = count_selected(counts, 1);
    let pairs = count_selected(counts, 2);
    if triples < 2 {
        return None;
    }
    if contains_forbidden_ranks(counts, 3) {
        return None;
    }
    if !are_ranks_consecutive(counts, 3) {
        return None;
    }
    let base = triples * 3;
    if len == base {
        Some(PlayCategory::Plane)
    } else if len == base + singles && singles == triples {
        Some(PlayCategory::PlaneWithSingle)
    } else if len == base + pairs * 2 && pairs == triples {
        Some(PlayCategory::PlaneWithPair)
    } else {
        None
    }
}

/// The category of a set of cards, or `None` when they form no valid play.
pub fn classify_play(cards: &Cards) -> (r: Option<PlayCategory>)
    ensures
        r == classify(cards@),
{
    let len = cards.as_vec().len();
    if len == 0 {
        return Some(PlayCategory::Pass);
    }
    let counts = build_rank_counts(cards);
    if len <= 4 {
        try_basic_pattern_with_counts(len, &counts)
    } else if len == 5 {
        match try_basic_pattern_with_counts(len, &counts) {
            Some(c) => Some(c),
            None => try_straight_with_counts(len, &counts),
        }
    } else if len == 6 {
        match try_basic_pattern_with_counts(len, &counts) {
            Some(c) => Some(c),
            None => match try_straight_with_counts(len, &counts) {
                Some(c) => Some(c),
                None => match try_pair_sequence_with_counts(len, &counts) {
                    Some(c) => Some(c),
                    None => try_plane_with_counts(len, &counts),
                },
            },
        }
    } else {
        match try_straight_with_counts(len, &counts) {
            Some(c) => Some(c),
            None => match try_pair_sequence_with_counts(len, &counts) {
                Some(c) => Some(c),
                None => match try_plane_with_counts(len, &counts) {
                    Some(c) => Some(c),
                    None => try_basic_pattern_with_counts(len, &counts),
                },
            },
        }
    }
}

/// Whether the cards form a valid play.
pub fn is_valid_play(cards: &Cards) -> (b: bool)
    ensures
        b == (classify(cards@) is Some),
{
    classify_play(cards).is_some()
}


/// A play: a set of cards together with its category.
#[derive(Debug, PartialEq, Eq)]
pub struct Play {
    /// The category of the cards.
    pub category: PlayCategory,
    /// The cards played.
    pub cards: Cards,
}

impl Clone for Play {
    fn clone(&self) -> (r: Play)
        ensures
            r.category == self.category,
            r.cards@ == self.cards@,
    {
        Play { category: self.category, cards: self.cards.clone() }
    }
}

/// A play is well formed when its category is the category of its cards,
/// as `Play::new` makes it.
pub open spec fn well_formed(p: Play) -> bool {
    classify(p.cards@) == Some(p.category)
}

/// The highest rank among the cards (the last one of the highest strength).
pub open spec fn max_rank(s: Seq<Card>) -> Rank
    decreases s.len(),
{
    if s.len() <= 1 {
        s[0].rank
    } else {
        let m = max_rank(s.drop_last());
        if s.last().rank.spec_value() >= m.spec_value() {
            s.last().rank
        } else {
            m
        }
    }
}

/// The first position, from `k` on, of a rank that occurs exactly `t`
/// times (15 when there is none).
pub open spec fn first_with_count(cs: Seq<nat>, t: nat, k: int) -> int
    decreases 15 - k,
{
    if k < 0 || k >= 15 {
        15
    } else if cs[k] == t {
        k
    } else {
        first_with_count(cs, t, k + 1)
    }
}

/// The rank by which plays of one category are compared: none for a pass
/// or no cards; the rank of the cards for singles, pairs, triples and
/// bombs; the rank of the triple or the four for three-with-one,
/// three-with-two and four-with-two (the rank that occurs most often); the
/// big joker for the joker bomb; the highest rank among all the cards for
/// straights, pair sequences and planes (with or without their extra cards).
pub open spec fn main_rank(p: Play) -> Option<Rank> {
    let s = p.cards@;
    let cs = count_seq(s);
    if s.len() == 0 {
        None
    } else {
        match p.category {
            PlayCategory::Pass => None,
            PlayCategory::Single | PlayCategory::Pair | PlayCategory::Triple | PlayCategory::Bomb => Some(
                s[0].rank,
            ),
            PlayCategory::ThreeWithOne | PlayCategory::ThreeWithTwo
            | PlayCategory::FourWithTwo => Some(rank_at(first_with_count(cs, max_upto(cs, 15), 0))),
            PlayCategory::JokerBomb => Some(Rank::JokerBig),
            _ => Some(max_rank(s)),
        }
    }
}

/// The categories in which only plays of the same number of cards compare:
/// straights, pair sequences and planes.
pub open spec fn compares_by_length(c: PlayCategory) -> bool {
    c == PlayCategory::Straight || c == PlayCategory::PairSequence || c == PlayCategory::Plane
        || c == PlayCategory::PlaneWithSingle || c == PlayCategory::PlaneWithPair
}

/// Whether play `p` beats play `q`: anything with cards beats a pass; the
/// joker bomb beats everything but itself and nothing beats it; a bomb
/// beats every other category; otherwise the categories must agree, a
/// straight, pair sequence or plane must have as many cards as the one it
/// beats, and the main rank of `p` must be higher.
pub open spec fn beats(p: Play, q: Play) -> bool {
    if q.category == PlayCategory::Pass {
        p.cards@.len() > 0
    } else if p.category == PlayCategory::JokerBomb {
        q.category != PlayCategory::JokerBomb
    } else if q.category == PlayCategory::JokerBomb {
        false
    } else if p.category == PlayCategory::Bomb && q.category != PlayCategory::Bomb {
        true
    } else if p.category != q.category {
        false
    } else if compares_by_length(p.category) && p.cards@.len() != q.cards@.len() {
        false
    } else {
        match (main_rank(p), main_rank(q)) {
            (Some(a), Some(b)) => a.spec_value() > b.spec_value(),
            _ => false,
        }
    }
}

/// The first position, from `k` on, of a count equal to `t` (15 when none).
fn first_with_count_exec(counts: &Vec<usize>, t: usize, k: usize) -> (r: usize)
    requires
        counts@.len() == 15,
        k <= 15,
    ensures
        r as int == first_with_count(nat_view(counts@), t as nat, k as int),
        r <= 15,
{
    let ghost cs = nat_view(counts@);
    let mut j: usize = k;
    while j < 15
        invariant
            counts@.len() == 15,
            cs == nat_view(counts@),
            k <= j <= 15,
            first_with_count(cs, t as nat, k as int) == first_with_count(cs, t as nat, j as int),
        decreases 15 - j,
    {
        if counts[j] == t {
            return j;
        }
        j = j + 1;
    }
    15
}


impl Play {
    /// The play formed by the cards, with its category; `PlayError::Invalid`
    /// when the cards form no valid play.
    pub fn new(cards: Cards) -> (r: Result<Play, PlayError>)
        ensures
            r is Ok <==> classify(cards@) is Some,
            r matches Ok(p) ==> well_formed(p) && p.cards@ == cards@,
            r matches Err(e) ==> e == PlayError::Invalid,
    {
        match classify_play(&cards) {
            Some(category) => Ok(Play { category, cards }),
            None => Err(PlayError::Invalid),
        }
    }

    /// The rank by which plays of one category are compared (see `main_rank`).
    fn get_main_rank(&self) -> (r: Option<Rank>)
        ensures
            r == main_rank(*self),
    {
        let v = self.cards.as_vec();
        if v.len() == 0 {
            return None;
        }
        match self.category {
            PlayCategory::Pass => None,
            PlayCategory::Single | PlayCategory::Pair | PlayCategory::Triple | PlayCategory::Bomb => Some(
                v[0].rank,
            ),
            PlayCategory::ThreeWithOne | PlayCategory::ThreeWithTwo | PlayCategory::FourWithTwo => {
                let counts = build_rank_counts(&self.cards);
                let m = max_count(&counts);
                let k = first_with_count_exec(&counts, m, 0);
                if k < 15 {
                    Some(rank_at_exec(k))
                } else {
                    Some(Rank::JokerBig)
                }
            },
            PlayCategory::JokerBomb => Some(Rank::JokerBig),
            _ => {
                let mut best = v[0].rank;
                let mut i: usize = 1;
                while i < v.len()
                    invariant
                        v@ == self.cards@,
                        1 <= i <= v@.len(),
                        best == max_rank(v@.subrange(0, i as int)),
                    decreases v@.len() - i,
                {
                    proof {
                        let pre = v@.subrange(0, i + 1);
                        assert(pre.drop_last() =~= v@.subrange(0, i as int));
                    }
                    if v[i].rank.value() >= best.value() {
                        best = v[i].rank;
                    }
                    i = i + 1;
                }
                assert(v@.subrange(0, v@.len() as int) =~= v@);
                Some(best)
            },
        }
    }

    /// Whether this play beats `other` (see `beats`).
    pub fn can_beat(&self, other: &Play) -> (b: bool)
        ensures
            b == beats(*self, *other),
    {
        if other.category == PlayCategory::Pass {
            return self.cards.as_vec().len() > 0;
        }
        if self.category == PlayCategory::JokerBomb {
            return other.category != PlayCategory::JokerBomb;
        }
        if other.category == PlayCategory::JokerBomb {
            return false;
        }
        if self.category == PlayCategory::Bomb && other.category != PlayCategory::Bomb {
            return true;
        }
        if self.category != other.category {
            return false;
        }
        let by_length = match self.category {
            PlayCategory::Straight | PlayCategory::PairSequence | PlayCategory::Plane
            | PlayCategory::PlaneWithSingle | PlayCategory::PlaneWithPair => true,
            _ => false,
        };
        if by_length && self.cards.as_vec().len() != other.cards.as_vec().len() {
            return false;
        }
        match (self.get_main_rank(), other.get_main_rank()) {
            (Some(a), Some(b)) => a.value() > b.value(),
            _ => false,
        }
    }
}

/// A set of cards classifies as a pass exactly when it is empty.
pub proof fn lemma_pass_iff_empty(s: Seq<Card>)
    ensures
        (classify(s) == Some(PlayCategory::Pass)) <==> s.len() == 0,
{
}

/// A well-formed play with cards has a main rank.
proof fn lemma_main_rank_some(p: Play)
    requires
        well_formed(p),
        p.category != PlayCategory::Pass,
    ensures
        main_rank(p) is Some,
{
    lemma_pass_iff_empty(p.cards@);
}

/// No well-formed play beats itself.
pub proof fn lemma_beats_irreflexive(p: Play)
    requires
        well_formed(p),
    ensures
        !beats(p, p),
{
    lemma_pass_iff_empty(p.cards@);
}

/// Beating is transitive among well-formed plays: if `a` beats `b` and `b`
/// beats `c`, then `a` beats `c`.
pub proof fn lemma_beats_transitive(a: Play, b: Play, c: Play)
    requires
        well_formed(a),
        well_formed(b),
        well_formed(c),
        beats(a, b),
        beats(b, c),
    ensures
        beats(a, c),
{
    lemma_pass_iff_empty(a.cards@);
    lemma_pass_iff_empty(b.cards@);
    lemma_pass_iff_empty(c.cards@);
    if a.category != PlayCategory::Pass {
        lemma_main_rank_some(a);
    }
    if b.category != PlayCategory::Pass {
        lemma_main_rank_some(b);
    }
    if c.category != PlayCategory::Pass {
        lemma_main_rank_some(c);
    }
}

/// Beating is asymmetric among well-formed plays.
pub proof fn lemma_beats_asymmetric(a: Play, b: Play)
    requires
        well_formed(a),
        well_formed(b),
        beats(a, b),
    ensures
        !beats(b, a),
{
    if beats(b, a) {
        lemma_beats_transitive(a, b, a);
        lemma_beats_irreflexive(a);
    }
}

/// The joker bomb beats every other well-formed play, and no play beats it.
pub proof fn lemma_joker_bomb_strongest(p: Play, q: Play)
    requires
        well_formed(p),
        well_formed(q),
    ensures
        p.category == PlayCategory::JokerBomb && q.category != PlayCategory::JokerBomb ==> beats(
            p,
            q,
        ),
        q.category == PlayCategory::JokerBomb ==> !beats(p, q),
{
    lemma_pass_iff_empty(p.cards@);
    lemma_pass_iff_empty(q.cards@);
}

/// A bomb beats every well-formed play that is neither a bomb nor the joker bomb.
pub proof fn lemma_bomb_beats_non_bombs(p: Play, q: Play)
    requires
        well_formed(p),
        well_formed(q),
        p.category == PlayCategory::Bomb,
        q.category != PlayCategory::Bomb,
        q.category != PlayCategory::JokerBomb,
    ensures
        beats(p, q),
{
    lemma_pass_iff_empty(p.cards@);
}

/// Every well-formed play with cards beats a pass, and a pass beats nothing.
pub proof fn lemma_pass_is_weakest(p: Play, q: Play)
    requires
        well_formed(p),
        well_formed(q),
        q.category == PlayCategory::Pass,
    ensures
        p.category != PlayCategory::Pass ==> beats(p, q),
        !beats(q, p),
{
    lemma_pass_iff_empty(p.cards@);
    lemma_pass_iff_empty(q.cards@);
}

/// Two well-formed plays of the same ordinary category (not a pass, not the
/// joker bomb) compare by their main ranks; straights, pair sequences and
/// planes compare only when they have the same number of cards.
pub proof fn lemma_same_category_by_rank(p: Play, q: Play)
    requires
        well_formed(p),
        well_formed(q),
        p.category == q.category,
        p.category != PlayCategory::Pass,
        p.category != PlayCategory::JokerBomb,
    ensures
        beats(p, q) <==> (!compares_by_length(p.category) || p.cards@.len() == q.cards@.len())
            && main_rank(p).unwrap().spec_value() > main_rank(q).unwrap().spec_value(),
{
    lemma_main_rank_some(p);
    lemma_main_rank_some(q);
}


/// Only a bomb or the joker bomb beats a play of another category: any other
/// play that beats something other than a pass is of the same category.
pub proof fn lemma_other_categories_only_beat_their_own(p: Play, q: Play)
    requires
        beats(p, q),
        q.category != PlayCategory::Pass,
        p.category != PlayCategory::Bomb,
        p.category != PlayCategory::JokerBomb,
    ensures
        p.category == q.category,
{
}

/// A position at which the largest of the first `hi` counts is found.
proof fn max_index(cs: Seq<nat>, hi: int) -> (k: int)
    requires
        hi > 0,
    ensures
        0 <= k < hi,
        cs[k] == max_upto(cs, hi),
    decreases hi,
{
    if hi == 1 {
        assert(max_upto(cs, 0) == 0);
        0
    } else {
        let j = max_index(cs, hi - 1);
        if cs[hi - 1] > max_upto(cs, hi - 1) {
            hi - 1
        } else {
            j
        }
    }
}

/// When no count but those at `a` and `b` is set, the ranks that occur and
/// the sum are those of `a` and `b`.
proof fn lemma_only_two(cs: Seq<nat>, hi: int, a: int, b: int)
    requires
        a != b,
        forall|k: int| 0 <= k < hi && k != a && k != b ==> cs[k] == 0,
    ensures
        num_sel(cs, 0, hi) == (if 0 <= a < hi && cs[a] > 0 {
            1nat
        } else {
            0nat
        }) + (if 0 <= b < hi && cs[b] > 0 {
            1nat
        } else {
            0nat
        }),
        sum_upto(cs, hi) == (if 0 <= a < hi {
            cs[a]
        } else {
            0nat
        }) + (if 0 <= b < hi {
            cs[b]
        } else {
            0nat
        }),
    decreases hi,
{
    if hi > 0 {
        lemma_only_two(cs, hi - 1, a, b);
    }
}

/// Three different set counts make at least three ranks that occur, and a
/// sum of at least their total.
proof fn lemma_three_set(cs: Seq<nat>, hi: int, a: int, b: int, c: int)
    requires
        a != b,
        a != c,
        b != c,
        0 <= a,
        0 <= b,
        0 <= c,
        cs[a] > 0,
        cs[b] > 0,
        cs[c] > 0,
    ensures
        num_sel(cs, 0, hi) >= (if a < hi {
            1nat
        } else {
            0nat
        }) + (if b < hi {
            1nat
        } else {
            0nat
        }) + (if c < hi {
            1nat
        } else {
            0nat
        }),
        sum_upto(cs, hi) >= (if a < hi {
            cs[a]
        } else {
            0nat
        }) + (if b < hi {
            cs[b]
        } else {
            0nat
        }) + (if c < hi {
            cs[c]
        } else {
            0nat
        }),
    decreases hi,
{
    if hi > 0 {
        lemma_three_set(cs, hi - 1, a, b, c);
    }
}

/// The largest count is at most a bound that every count keeps.
proof fn lemma_max_le(cs: Seq<nat>, hi: int, m: nat)
    requires
        forall|k: int| 0 <= k < hi ==> cs[k] <= m,
    ensures
        max_upto(cs, hi) <= m,
    decreases hi,
{
    if hi > 0 {
        lemma_max_le(cs, hi - 1, m);
    }
}

/// Cards whose largest rank count is `m` and that have exactly two ranks:
/// one rank occurs `m` times, another the rest of the cards, and no other
/// rank occurs.
proof fn lemma_two_ranks(s: Seq<Card>) -> (r: (int, int))
    requires
        distinct(count_seq(s)) == 2,
    ensures
        0 <= r.0 < 15,
        0 <= r.1 < 15,
        r.0 != r.1,
        count_seq(s)[r.0] == max_upto(count_seq(s), 15),
        count_seq(s)[r.0] + count_seq(s)[r.1] == s.len(),
        count_seq(s)[r.1] > 0,
        forall|k: int| 0 <= k < 15 && k != r.0 && k != r.1 ==> count_seq(s)[k] == 0,
{
    let cs = count_seq(s);
    let a = max_index(cs, 15);
    assert(exists|k: int| 0 <= k < 15 && k != a && cs[k] > 0) by {
        if !(exists|k: int| 0 <= k < 15 && k != a && cs[k] > 0) {
            let b = if a == 0 {
                1int
            } else {
                0int
            };
            lemma_only_two(cs, 15, a, b);
        }
    }
    let b = choose|k: int| 0 <= k < 15 && k != a && cs[k] > 0;
    assert(cs[a] > 0) by {
        lemma_max_upto_ge(cs, 15, b);
    }
    assert forall|k: int| 0 <= k < 15 && k != a && k != b implies cs[k] == 0 by {
        if cs[k] > 0 {
            lemma_three_set(cs, 15, a, b, k);
        }
    }
    lemma_only_two(cs, 15, a, b);
    lemma_counts_sum(s);
    (a, b)
}

/// Cards with one rank `x` times and another `y` times (`x >= y > 0`) and
/// no others: the largest count is `x` and there are two ranks.
proof fn lemma_two_ranks_back(s: Seq<Card>, a: int, b: int)
    requires
        0 <= a < 15,
        0 <= b < 15,
        a != b,
        count_seq(s)[a] >= count_seq(s)[b] > 0,
        count_seq(s)[a] + count_seq(s)[b] == s.len(),
    ensures
        max_upto(count_seq(s), 15) == count_seq(s)[a],
        distinct(count_seq(s)) == 2,
{
    let cs = count_seq(s);
    lemma_counts_sum(s);
    assert forall|k: int| 0 <= k < 15 && k != a && k != b implies cs[k] == 0 by {
        if cs[k] > 0 {
            lemma_three_set(cs, 15, a, b, k);
        }
    }
    lemma_only_two(cs, 15, a, b);
    lemma_max_le(cs, 15, cs[a]);
    lemma_max_upto_ge(cs, 15, a);
}

/// Three-with-two is exactly five cards of two ranks, one of them three
/// times and the other twice: a triple with a pair, not with two singles.
pub proof fn lemma_three_with_two_shape(s: Seq<Card>)
    ensures
        classify(s) == Some(PlayCategory::ThreeWithTwo) <==> (s.len() == 5 && exists|a: Rank, b: Rank|
            a != b && #[trigger] rank_count(s, a) == 3 && #[trigger] rank_count(s, b) == 2),
{
    let cs = count_seq(s);
    if classify(s) == Some(PlayCategory::ThreeWithTwo) {
        lemma_category_sizes(s);
        assert(basic_category(5, cs) == Some(PlayCategory::ThreeWithTwo));
        let (ka, kb) = lemma_two_ranks(s);
        assert(rank_at(ka).spec_value() == ka + 3);
        assert(rank_at(kb).spec_value() == kb + 3);
        assert(rank_count(s, rank_at(ka)) == 3);
        assert(rank_count(s, rank_at(kb)) == 2);
    }
    if s.len() == 5 && exists|a: Rank, b: Rank|
        a != b && #[trigger] rank_count(s, a) == 3 && #[trigger] rank_count(s, b) == 2 {
        let (a, b) = choose|a: Rank, b: Rank|
            a != b && #[trigger] rank_count(s, a) == 3 && #[trigger] rank_count(s, b) == 2;
        let ka = rank_index(a);
        let kb = rank_index(b);
        assert(rank_at(ka) == a);
        assert(rank_at(kb) == b);
        assert(cs[ka] == 3 && cs[kb] == 2);
        lemma_two_ranks_back(s, ka, kb);
        assert(basic_category(5, cs) == Some(PlayCategory::ThreeWithTwo));
    }
}

/// Four-with-two is exactly six cards of two ranks, one of them four times
/// and the other twice: a four with a pair, not with two singles.
pub proof fn lemma_four_with_two_shape(s: Seq<Card>)
    ensures
        classify(s) == Some(PlayCategory::FourWithTwo) <==> (s.len() == 6 && exists|a: Rank, b: Rank|
            a != b && #[trigger] rank_count(s, a) == 4 && #[trigger] rank_count(s, b) == 2),
{
    let cs = count_seq(s);
    if classify(s) == Some(PlayCategory::FourWithTwo) {
        lemma_category_sizes(s);
        assert(basic_category(6, cs) == Some(PlayCategory::FourWithTwo));
        let (ka, kb) = lemma_two_ranks(s);
        assert(rank_at(ka).spec_value() == ka + 3);
        assert(rank_at(kb).spec_value() == kb + 3);
        assert(rank_count(s, rank_at(ka)) == 4);
        assert(rank_count(s, rank_at(kb)) == 2);
    }
    if s.len() == 6 && exists|a: Rank, b: Rank|
        a != b && #[trigger] rank_count(s, a) == 4 && #[trigger] rank_count(s, b) == 2 {
        let (a, b) = choose|a: Rank, b: Rank|
            a != b && #[trigger] rank_count(s, a) == 4 && #[trigger] rank_count(s, b) == 2;
        let ka = rank_index(a);
        let kb = rank_index(b);
        assert(rank_at(ka) == a);
        assert(rank_at(kb) == b);
        assert(cs[ka] == 4 && cs[kb] == 2);
        lemma_two_ranks_back(s, ka, kb);
        assert(basic_category(6, cs) == Some(PlayCategory::FourWithTwo));
    }
}

/// A straight, pair sequence or plane beats only a pass, or a play of its own
/// category with the same number of cards.
pub proof fn lemma_sequences_beat_same_length(p: Play, q: Play)
    requires
        compares_by_length(p.category),
        beats(p, q),
        q.category != PlayCategory::Pass,
    ensures
        q.category == p.category,
        q.cards@.len() == p.cards@.len(),
{
}

/// Classification depends only on which cards are played, not on their order.
pub proof fn lemma_classify_order_independent(s1: Seq<Card>, s2: Seq<Card>)
    requires
        s1.to_multiset() == s2.to_multiset(),
    ensures
        classify(s1) == classify(s2),
{
    assert(s1.len() == s1.to_multiset().len());
    assert(s2.len() == s2.to_multiset().len());
    assert(count_seq(s1) =~= count_seq(s2));
}

/// Each category has its number of cards: a single 1, a pair or the joker
/// bomb 2, a triple 3, a bomb or three-with-one 4, three-with-two 5,
/// four-with-two 6, a straight at least 5, a pair sequence an even number
/// of at least 6, a plane a multiple of 3 of at least 6, a plane with
/// singles a multiple of 4 of at least 8, a plane with pairs a multiple of
/// 5 of at least 10.
pub proof fn lemma_category_sizes(s: Seq<Card>)
    ensures
        classify(s) == Some(PlayCategory::Single) ==> s.len() == 1,
        classify(s) == Some(PlayCategory::Pair) ==> s.len() == 2,
        classify(s) == Some(PlayCategory::JokerBomb) ==> s.len() == 2,
        classify(s) == Some(PlayCategory::Triple) ==> s.len() == 3,
        classify(s) == Some(PlayCategory::Bomb) ==> s.len() == 4,
        classify(s) == Some(PlayCategory::ThreeWithOne) ==> s.len() == 4,
        classify(s) == Some(PlayCategory::ThreeWithTwo) ==> s.len() == 5,
        classify(s) == Some(PlayCategory::FourWithTwo) ==> s.len() == 6,
        classify(s) == Some(PlayCategory::Straight) ==> s.len() >= 5,
        classify(s) == Some(PlayCategory::PairSequence) ==> s.len() >= 6 && s.len() % 2 == 0,
        classify(s) == Some(PlayCategory::Plane) ==> s.len() >= 6 && s.len() % 3 == 0,
        classify(s) == Some(PlayCategory::PlaneWithSingle) ==> s.len() >= 8 && s.len() % 4 == 0,
        classify(s) == Some(PlayCategory::PlaneWithPair) ==> s.len() >= 10 && s.len() % 5 == 0,
{
}

/// A card of the sequence counts towards its rank.
proof fn lemma_member_counts(s: Seq<Card>, i: int)
    requires
        0 <= i < s.len(),
    ensures
        rank_count(s, s[i].rank) > 0,
{
    let c = s[i];
    assert(s.contains(c));
    assert(s.to_multiset().count(c) > 0);
    match c.suit {
        None => {},
        Some(su) => {
            match su {
                crate::card::Suit::Diamonds => {},
                crate::card::Suit::Clubs => {},
                crate::card::Suit::Hearts => {},
                crate::card::Suit::Spades => {},
            }
        },
    }
}

/// Twos and jokers never take part in a straight or a pair sequence, nor
/// in the triples of a plane.
pub proof fn lemma_sequences_exclude_twos_and_jokers(s: Seq<Card>)
    ensures
        classify(s) == Some(PlayCategory::Straight) || classify(s) == Some(
            PlayCategory::PairSequence,
        ) ==> forall|i: int|
            0 <= i < s.len() ==> #[trigger] s[i].rank != Rank::Two && s[i].rank
                != Rank::JokerSmall && s[i].rank != Rank::JokerBig,
        classify(s) is Some && (classify(s) == Some(PlayCategory::Plane) || classify(s) == Some(
            PlayCategory::PlaneWithSingle,
        ) || classify(s) == Some(PlayCategory::PlaneWithPair)) ==> rank_count(s, Rank::Two) != 3
            && rank_count(s, Rank::JokerSmall) != 3 && rank_count(s, Rank::JokerBig) != 3,
{
    let cs = count_seq(s);
    assert(cs[12] == rank_count(s, Rank::Two));
    assert(cs[13] == rank_count(s, Rank::JokerSmall));
    assert(cs[14] == rank_count(s, Rank::JokerBig));
    if classify(s) == Some(PlayCategory::Straight) || classify(s) == Some(
        PlayCategory::PairSequence,
    ) {
        assert forall|i: int| 0 <= i < s.len() implies #[trigger] s[i].rank != Rank::Two
            && s[i].rank != Rank::JokerSmall && s[i].rank != Rank::JokerBig by {
            lemma_member_counts(s, i);
        }
    }
}

/// The joker bomb is exactly one small and one big joker.
pub proof fn lemma_joker_bomb_cards(s: Seq<Card>)
    ensures
        classify(s) == Some(PlayCategory::JokerBomb) <==> (s.len() == 2 && rank_count(
            s,
            Rank::JokerSmall,
        ) == 1 && rank_count(s, Rank::JokerBig) == 1),
{
    let cs = count_seq(s);
    assert(cs[13] == rank_count(s, Rank::JokerSmall));
    assert(cs[14] == rank_count(s, Rank::JokerBig));
    if s.len() == 2 && cs[13] == 1 && cs[14] == 1 {
        assert(max_upto(cs, 15) >= 1) by {
            lemma_max_upto_ge(cs, 15, 13);
        }
        assert(max_upto(cs, 15) <= 1) by {
            lemma_counts_sum(s);
            assert(sum_upto(cs, 14) == sum_upto(cs, 13) + cs[13]);
            assert(sum_upto(cs, 13) == 0);
            lemma_zero_sum_zero_max(cs, 13);
            assert(max_upto(cs, 14) <= 1);
        }
    }
}

/// The sum of the first `hi` counts.
pub open spec fn sum_upto(cs: Seq<nat>, hi: int) -> nat
    decreases hi,
{
    if hi <= 0 {
        0
    } else {
        sum_upto(cs, hi - 1) + cs[hi - 1]
    }
}

proof fn lemma_max_upto_ge(cs: Seq<nat>, hi: int, k: int)
    requires
        0 <= k < hi,
    ensures
        max_upto(cs, hi) >= cs[k],
    decreases hi,
{
    if k < hi - 1 {
        lemma_max_upto_ge(cs, hi - 1, k);
    }
}

/// When the first `hi` counts add up to nothing, their largest is 0.
proof fn lemma_zero_sum_zero_max(cs: Seq<nat>, hi: int)
    requires
        sum_upto(cs, hi) == 0,
    ensures
        max_upto(cs, hi) == 0,
    decreases hi,
{
    if hi > 0 {
        lemma_zero_sum_zero_max(cs, hi - 1);
    }
}

/// The counts of the cards of each rank (what `Cards::rank_counts` and
/// `Cards::count_rank` give) add up to the number of cards.
pub proof fn lemma_counts_sum(s: Seq<Card>)
    ensures
        sum_upto(count_seq(s), 15) == s.len(),
    decreases s.len(),
{
    if s.len() == 0 {
        assert forall|k: int| 0 <= k < 15 implies count_seq(s)[k] == 0 by {
            crate::card::cards::lemma_rank_count_empty(rank_at(k));
            assert(s =~= Seq::<Card>::empty());
        }
        lemma_sum_zero(count_seq(s), 15);
    } else {
        let t = s.drop_last();
        let c = s.last();
        lemma_counts_sum(t);
        assert(t.push(c) =~= s);
        assert forall|k: int| 0 <= k < 15 implies count_seq(s)[k] == count_seq(t)[k] + (if c.rank
            == rank_at(k) {
            1nat
        } else {
            0nat
        }) by {
            crate::card::cards::lemma_rank_count_push(t, c, rank_at(k));
        }
        let j = rank_index(c.rank);
        assert forall|k: int| 0 <= k < 15 && k != j implies rank_at(k) != rank_at(j) by {
            assert(rank_at(k).spec_value() == k + 3);
        }
        assert(rank_at(j) == c.rank);
        lemma_sum_bump(count_seq(t), count_seq(s), 15, j);
    }
}

/// The position of a rank in `rank_at`.
pub open spec fn rank_index(r: Rank) -> int {
    r.spec_value() - 3
}

proof fn lemma_sum_zero(cs: Seq<nat>, hi: int)
    requires
        forall|k: int| 0 <= k < hi ==> cs[k] == 0,
    ensures
        sum_upto(cs, hi) == 0,
    decreases hi,
{
    if hi > 0 {
        lemma_sum_zero(cs, hi - 1);
    }
}

/// Adding one at position `j` (and only there) adds one to the sum.
proof fn lemma_sum_bump(a: Seq<nat>, b: Seq<nat>, hi: int, j: int)
    requires
        0 <= j < hi <= 15,
        a.len() == 15,
        b.len() == 15,
        forall|k: int| 0 <= k < hi ==> b[k] == a[k] + (if rank_at(k) == rank_at(j) {
            1nat
        } else {
            0nat
        }),
        forall|k: int| 0 <= k < 15 && k != j ==> rank_at(k) != rank_at(j),
    ensures
        sum_upto(b, hi) == sum_upto(a, hi) + 1,
    decreases hi,
{
    if hi - 1 == j {
        lemma_sum_same(a, b, hi - 1, j);
        assert(b[j] == a[j] + 1);
    } else {
        lemma_sum_bump(a, b, hi - 1, j);
        assert(rank_at(hi - 1) != rank_at(j));
        assert(b[hi - 1] == a[hi - 1]);
    }
}

proof fn lemma_sum_same(a: Seq<nat>, b: Seq<nat>, hi: int, j: int)
    requires
        hi <= j,
        a.len() == 15,
        b.len() == 15,
        forall|k: int| 0 <= k < hi ==> #[trigger] b[k] == a[k] + (if rank_at(k) == rank_at(j) {
            1nat
        } else {
            0nat
        }),
        forall|k: int| 0 <= k < 15 && k != j ==> rank_at(k) != rank_at(j),
        j < 15,
    ensures
        sum_upto(b, hi) == sum_upto(a, hi),
    decreases hi,
{
    if hi > 0 {
        lemma_sum_same(a, b, hi - 1, j);
        assert(rank_at(hi - 1) != rank_at(j));
    }
}

} // verus!
