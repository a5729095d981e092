//! Collections of cards: hands, plays and the deck.

use vstd::prelude::*;
use vstd::multiset::Multiset;
use vstd::std_specs::iter::IteratorSpec;
use super::{Card, Rank, Suit};

verus! {

broadcast use {vstd::seq_lib::group_to_multiset_ensures, vstd::multiset::group_multiset_axioms};

/// How many cards of rank `r` the sequence holds.
pub open spec fn rank_count(s: Seq<Card>, r: Rank) -> nat {
    let m = s.to_multiset();
    m.count(Card { rank: r, suit: None }) + m.count(Card { rank: r, suit: Some(Suit::Diamonds) })
        + m.count(Card { rank: r, suit: Some(Suit::Clubs) }) + m.count(
        Card { rank: r, suit: Some(Suit::Hearts) },
    ) + m.count(Card { rank: r, suit: Some(Suit::Spades) })
}

/// No card occurs more than 255 times (the per-card counters are bytes).
pub open spec fn counts_fit_u8(s: Seq<Card>) -> bool {
    forall|c: Card| #[trigger] s.to_multiset().count(c) <= 255
}

/// Whether the cards are in increasing order of rank, then suit.
pub open spec fn sorted_by_key(s: Seq<Card>) -> bool {
    forall|i: int, j: int| 0 <= i < j < s.len() ==> s[i].key() <= s[j].key()
}

/// The order of cards: by rank, then suit (a missing suit first).
pub open spec fn card_order() -> spec_fn(Card, Card) -> bool {
    |a: Card, b: Card| a.key() <= b.key()
}

/// The cards of `s` in sorted order.
pub open spec fn sort_cards(s: Seq<Card>) -> Seq<Card> {
    s.sort_by(card_order())
}

/// Different cards have different keys.
pub proof fn lemma_key_injective(a: Card, b: Card)
    requires
        a.key() == b.key(),
    ensures
        a == b,
{
    let sa: int = match a.suit {
        None => 0int,
        Some(x) => x.spec_value() as int,
    };
    let sb: int = match b.suit {
        None => 0int,
        Some(x) => x.spec_value() as int,
    };
    assert(0 <= sa <= 4 && 0 <= sb <= 4);
    assert(a.rank.spec_value() == b.rank.spec_value());
    assert(sa == sb);
}

/// The order of cards is a total order.
pub proof fn lemma_card_order_total()
    ensures
        vstd::relations::total_ordering(card_order()),
{
    assert forall|x: Card, y: Card| #[trigger] card_order()(x, y) && #[trigger] card_order()(y, x)
        implies x == y by {
        lemma_key_injective(x, y);
    }
}

/// A sequence sorted by key is the sorted arrangement of its cards.
pub proof fn lemma_sorted_is_sort_cards(s: Seq<Card>, t: Seq<Card>)
    requires
        sorted_by_key(t),
        t.to_multiset() == s.to_multiset(),
    ensures
        t == sort_cards(s),
{
    lemma_card_order_total();
    s.lemma_sort_by_ensures(card_order());
    assert(vstd::relations::sorted_by(t, card_order()));
    vstd::seq_lib::lemma_sorted_unique(t, sort_cards(s), card_order());
}

/// Sorting keeps the cards, each as often as before, and puts them in order.
pub proof fn lemma_sort_cards(s: Seq<Card>)
    ensures
        sort_cards(s).to_multiset() == s.to_multiset(),
        sort_cards(s).len() == s.len(),
        sorted_by_key(sort_cards(s)),
{
    lemma_card_order_total();
    s.lemma_sort_by_ensures(card_order());
    vstd::seq_lib::to_multiset_len(s);
    vstd::seq_lib::to_multiset_len(sort_cards(s));
    let t = sort_cards(s);
    assert forall|i: int, j: int| 0 <= i < j < t.len() implies t[i].key() <= t[j].key() by {
        assert(card_order()(t[i], t[j]));
    }
}

/// `s` without the first occurrence of `c` (unchanged if `c` does not occur).
pub open spec fn remove_first(s: Seq<Card>, c: Card) -> Seq<Card>
    decreases s.len(),
{
    if s.len() == 0 {
        s
    } else if s[0] == c {
        s.drop_first()
    } else {
        seq![s[0]] + remove_first(s.drop_first(), c)
    }
}

/// The cards of `hand` after taking out the first copy of each card of `cards`, in order.
pub open spec fn remove_all(hand: Seq<Card>, cards: Seq<Card>) -> Seq<Card>
    decreases cards.len(),
{
    if cards.len() == 0 {
        hand
    } else {
        remove_first(remove_all(hand, cards.drop_last()), cards.last())
    }
}

/// When `hand` holds all the cards, taking them out leaves cards that,
/// together with the cards taken, are the cards of `hand`.
pub proof fn lemma_remove_all_multiset(hand: Seq<Card>, cards: Seq<Card>)
    requires
        cards.to_multiset().subset_of(hand.to_multiset()),
    ensures
        remove_all(hand, cards).to_multiset().add(cards.to_multiset()) == hand.to_multiset(),
    decreases cards.len(),
{
    if cards.len() == 0 {
        assert(cards.to_multiset() =~= Multiset::empty());
        assert(hand.to_multiset().add(Multiset::empty()) =~= hand.to_multiset());
    } else {
        let init = cards.drop_last();
        let c = cards.last();
        assert(cards =~= init.push(c));
        assert(init.to_multiset().subset_of(hand.to_multiset()));
        lemma_remove_all_multiset(hand, init);
        let r = remove_all(hand, init);
        assert(cards.to_multiset() =~= init.to_multiset().insert(c));
        assert(cards.to_multiset().count(c) == init.to_multiset().count(c) + 1);
        assert(cards.to_multiset().count(c) <= hand.to_multiset().count(c));
        assert(r.to_multiset().add(init.to_multiset()).count(c) == hand.to_multiset().count(c));
        assert(r.to_multiset().count(c) > 0);
        lemma_remove_first_multiset(r, c);
        assert(remove_first(r, c).to_multiset().add(cards.to_multiset()) =~= hand.to_multiset());
    }
}

/// How the cards are shown: each card, separated by single spaces.
pub open spec fn cards_display(s: Seq<Card>) -> Seq<char>
    decreases s.len(),
{
    if s.len() == 0 {
        Seq::empty()
    } else if s.len() == 1 {
        s[0].display()
    } else {
        cards_display(s.drop_last()) + " "@ + s.last().display()
    }
}

/// Counting a pushed card adds one to the count of its rank only.
pub proof fn lemma_rank_count_push(s: Seq<Card>, c: Card, r: Rank)
    ensures
        rank_count(s.push(c), r) == rank_count(s, r) + (if c.rank == r {
            1nat
        } else {
            0nat
        }),
{
    assert(s.push(c).to_multiset() =~= s.to_multiset().insert(c));
    match c.suit {
        None => {},
        Some(su) => {
            match su {
                Suit::Diamonds => {},
                Suit::Clubs => {},
                Suit::Hearts => {},
                Suit::Spades => {},
            }
        },
    }
}

/// The empty sequence has no cards of any rank.
pub proof fn lemma_rank_count_empty(r: Rank)
    ensures
        rank_count(Seq::<Card>::empty(), r) == 0,
{
    assert(Seq::<Card>::empty().to_multiset() =~= Multiset::empty());
}

/// Rank counts only depend on which cards occur, not on their order.
pub proof fn lemma_rank_count_perm(s1: Seq<Card>, s2: Seq<Card>, r: Rank)
    requires
        s1.to_multiset() == s2.to_multiset(),
    ensures
        rank_count(s1, r) == rank_count(s2, r),
{
}

/// The number of cards of rank `r` in `s[0..n]`.
pub fn count_rank_prefix(v: &Vec<Card>, n: usize, r: Rank) -> (k: usize)
    requires
        n <= v@.len(),
    ensures
        k == rank_count(v@.subrange(0, n as int), r),
{
    let mut k: usize = 0;
    let mut i: usize = 0;
    proof {
        lemma_rank_count_empty(r);
        assert(v@.subrange(0, 0) =~= Seq::<Card>::empty());
    }
    while i < n
        invariant
            n <= v@.len(),
            i <= n,
            k == rank_count(v@.subrange(0, i as int), r),
            k <= i,
        decreases n - i,
    {
        proof {
            lemma_rank_count_push(v@.subrange(0, i as int), v@[i as int], r);
            assert(v@.subrange(0, i as int).push(v@[i as int]) =~= v@.subrange(0, i + 1));
        }
        if v[i].rank == r {
            k = k + 1;
        }
        i = i + 1;
    }
    k
}

/// The number of copies of `c` in `v`.
pub fn count_card(v: &Vec<Card>, c: Card) -> (k: usize)
    ensures
        k == v@.to_multiset().count(c),
{
    let mut k: usize = 0;
    let mut i: usize = 0;
    assert(v@.subrange(0, 0).to_multiset() =~= Multiset::empty());
    while i < v.len()
        invariant
            i <= v@.len(),
            k == v@.subrange(0, i as int).to_multiset().count(c),
            k <= i,
        decreases v@.len() - i,
    {
        assert(v@.subrange(0, i as int).push(v@[i as int]) =~= v@.subrange(0, i + 1));
        if v[i] == c {
            k = k + 1;
        }
        i = i + 1;
    }
    assert(v@.subrange(0, v@.len() as int) =~= v@);
    k
}

/// The index of the first copy of `c` in `v`, if any.
fn find_card(v: &Vec<Card>, c: Card) -> (r: Option<usize>)
    ensures
        r matches Some(i) ==> i < v@.len() && v@[i as int] == c && forall|j: int|
            0 <= j < i ==> v@[j] != c,
        r is None ==> !v@.contains(c),
{
    let mut i: usize = 0;
    while i < v.len()
        invariant
            i <= v@.len(),
            forall|j: int| 0 <= j < i ==> v@[j] != c,
        decreases v@.len() - i,
    {
        if v[i] == c {
            return Some(i);
        }
        i = i + 1;
    }
    None
}

/// Removing the first copy of `c` is removing it at its first index.
pub proof fn lemma_remove_first_at(s: Seq<Card>, c: Card, i: int)
    requires
        0 <= i < s.len(),
        s[i] == c,
        forall|j: int| 0 <= j < i ==> s[j] != c,
    ensures
        remove_first(s, c) == s.remove(i),
    decreases i,
{
    if i == 0 {
        assert(s.remove(0) =~= s.drop_first());
    } else {
        lemma_remove_first_at(s.drop_first(), c, i - 1);
        assert(s.remove(i) =~= seq![s[0]] + s.drop_first().remove(i - 1));
    }
}

/// Removing a card that does not occur changes nothing.
pub proof fn lemma_remove_first_absent(s: Seq<Card>, c: Card)
    requires
        !s.contains(c),
    ensures
        remove_first(s, c) == s,
    decreases s.len(),
{
    if s.len() > 0 {
        assert(!s.drop_first().contains(c)) by {
            if s.drop_first().contains(c) {
                let k = choose|k: int| 0 <= k < s.drop_first().len() && s.drop_first()[k] == c;
                assert(s[k + 1] == c);
            }
        }
        lemma_remove_first_absent(s.drop_first(), c);
        assert(s =~= seq![s[0]] + s.drop_first());
    }
}

/// Removing the first copy of `c` takes one `c` out of the multiset.
pub proof fn lemma_remove_first_multiset(s: Seq<Card>, c: Card)
    ensures
        remove_first(s, c).to_multiset() == s.to_multiset().remove(c),
{
    if s.contains(c) {
        let k = choose|k: int| 0 <= k < s.len() && s[k] == c;
        lemma_least_index(s, c, k);
        let i = choose|i: int|
            0 <= i < s.len() && s[i] == c && forall|j: int| 0 <= j < i ==> s[j] != c;
        lemma_remove_first_at(s, c, i);
    } else {
        lemma_remove_first_absent(s, c);
        assert(s.to_multiset().count(c) == 0);
        assert(s.to_multiset().remove(c) =~= s.to_multiset());
    }
}

proof fn lemma_least_index(s: Seq<Card>, c: Card, k: int)
    requires
        0 <= k < s.len(),
        s[k] == c,
    ensures
        exists|i: int| 0 <= i < s.len() && s[i] == c && forall|j: int| 0 <= j < i ==> s[j] != c,
    decreases k,
{
    if exists|j: int| 0 <= j < k && s[j] == c {
        let j = choose|j: int| 0 <= j < k && s[j] == c;
        lemma_least_index(s, c, j);
    } else {
        assert(forall|j: int| 0 <= j < k ==> s[j] != c);
    }
}


/// A collection of cards, such as a hand or a play, kept in a vector.
/// The collection dereferences to its `Vec<Card>`.
#[derive(Debug, PartialEq, Eq)]
pub struct Cards(Vec<Card>);

impl View for Cards {
    type V = Seq<Card>;

    closed spec fn view(&self) -> Seq<Card> {
        self.0@
    }
}

impl Clone for Cards {
    fn clone(&self) -> (r: Cards)
        ensures
            r@ == self@,
    {
        Cards(self.0.clone())
    }
}

impl Default for Cards {
    fn default() -> (r: Cards)
        ensures
            r@ == Seq::<Card>::empty(),
    {
        Cards(Vec::new())
    }
}

impl std::ops::Deref for Cards {
    type Target = Vec<Card>;

    fn deref(&self) -> (v: &Vec<Card>)
        ensures
            v@ == self@,
    {
        &self.0
    }
}

impl std::ops::DerefMut for Cards {
    fn deref_mut(&mut self) -> (v: &mut Vec<Card>)
        ensures
            (*v)@ == old(self)@,
            final(self)@ == (*final(v))@,
    {
        &mut self.0
    }
}

impl<'a> IntoIterator for &'a Cards {
    type Item = &'a Card;
    type IntoIter = std::slice::Iter<'a, Card>;

    fn into_iter(self) -> (it: std::slice::Iter<'a, Card>)
        ensures
            vstd::std_specs::slice::into_iter_elts(it) == self@,
    {
        proof {
            broadcast use vstd::std_specs::slice::axiom_spec_slice_iter;
        }
        self.0.iter()
    }
}

/// Counts of the cards of each rank, as `Cards::rank_counts` gives them.
#[derive(Debug, Clone, Copy, PartialEq, Eq)]
pub struct RankCounts {
    counts: [u8; 15],
}

impl RankCounts {
    /// The count kept for the rank with strength `v` (3..=17).
    pub closed spec fn spec_count(&self, r: Rank) -> u8 {
        self.counts[r.spec_value() - 3]
    }

    /// The number of cards of the given rank; `None` when there are none.
    pub fn get(&self, rank: Rank) -> (r: Option<u8>)
        ensures
            r == (if self.spec_count(rank) == 0 {
                None
            } else {
                Some(self.spec_count(rank))
            }),
    {
        let k = self.counts[(rank.value() - 3) as usize];
        if k == 0 {
            None
        } else {
            Some(k)
        }
    }

    /// The number of cards of the given rank (0 when there are none).
    pub fn count(&self, rank: Rank) -> (r: u8)
        ensures
            r == self.spec_count(rank),
    {
        self.counts[(rank.value() - 3) as usize]
    }
}

impl Cards {
    /// An empty collection.
    pub fn new() -> (r: Cards)
        ensures
            r@ == Seq::<Card>::empty(),
    {
        Cards(Vec::new())
    }

    /// An empty collection with room for `capacity` cards.
    pub fn with_capacity(capacity: usize) -> (r: Cards)
        ensures
            r@ == Seq::<Card>::empty(),
    {
        Cards(Vec::with_capacity(capacity))
    }

    /// The collection holding the given cards, in order.
    pub fn from_vec(cards: Vec<Card>) -> (r: Cards)
        ensures
            r@ == cards@,
    {
        Cards(cards)
    }

    /// A collection holding a copy of the given cards, in order.
    pub fn from_slice(cards: &[Card]) -> (r: Cards)
        ensures
            r@ == cards@,
    {
        let mut v: Vec<Card> = Vec::with_capacity(cards.len());
        let mut i: usize = 0;
        while i < cards.len()
            invariant
                i <= cards@.len(),
                v@ == cards@.subrange(0, i as int),
            decreases cards@.len() - i,
        {
            v.push(cards[i]);
            i = i + 1;
        }
        assert(v@ =~= cards@);
        Cards(v)
    }

    /// The cards as a vector.
    pub fn into_vec(self) -> (v: Vec<Card>)
        ensures
            v@ == self@,
    {
        self.0
    }

    /// The cards as a borrowed vector.
    pub fn as_vec(&self) -> (v: &Vec<Card>)
        ensures
            v@ == self@,
    {
        &self.0
    }

    /// An owning iterator over the cards; it gives them in order.
    pub fn into_iter(self) -> (it: std::vec::IntoIter<Card>)
        ensures
            it.remaining() == self@,
    {
        proof {
            broadcast use vstd::std_specs::vec::axiom_spec_into_iter;
        }
        self.0.into_iter()
    }

    /// The number of cards.
    pub fn count_all(&self) -> (n: usize)
        ensures
            n == self@.len(),
    {
        self.0.len()
    }

    /// The card at position `i`.
    pub fn card_at(&self, i: usize) -> (c: Card)
        requires
            i < self@.len(),
        ensures
            c == self@[i as int],
    {
        self.0[i]
    }

    /// Appends a card at the end.
    pub fn add(&mut self, c: Card)
        ensures
            final(self)@ == old(self)@.push(c),
    {
        self.0.push(c);
    }

    /// Appends the cards of `other` at the end, in order.
    pub fn extend_from(&mut self, other: &Cards)
        ensures
            final(self)@ == old(self)@ + other@,
    {
        let mut i: usize = 0;
        let ghost start = self@;
        while i < other.0.len()
            invariant
                i <= other@.len(),
                self@ == start + other@.subrange(0, i as int),
            decreases other@.len() - i,
        {
            self.0.push(other.0[i]);
            i = i + 1;
            assert(self@ =~= start + other@.subrange(0, i as int));
        }
        assert(other@.subrange(0, other@.len() as int) =~= other@);
    }

    /// Sorts the cards in place by rank, then suit.
    pub fn sort(&mut self)
        ensures
            final(self)@ == sort_cards(old(self)@),
            sorted_by_key(final(self)@),
            final(self)@.to_multiset() == old(self)@.to_multiset(),
    {
        let mut out: Vec<Card> = Vec::with_capacity(self.0.len());
        let mut i: usize = 0;
        assert(self@.subrange(0, 0).to_multiset() =~= Multiset::empty());
        assert(out@.to_multiset() =~= Multiset::empty());
        while i < self.0.len()
            invariant
                i <= self@.len(),
                sorted_by_key(out@),
                out@.to_multiset() == self@.subrange(0, i as int).to_multiset(),
            decreases self@.len() - i,
        {
            let c = self.0[i];
            let mut j: usize = 0;
            while j < out.len() && card_key_le(&out[j], &c)
                invariant
                    j <= out@.len(),
                    forall|k: int| 0 <= k < j ==> out@[k].key() <= c.key(),
                decreases out@.len() - j,
            {
                j = j + 1;
            }
            let ghost before = out@;
            out.insert(j, c);
            proof {
                vstd::seq_lib::to_multiset_insert(before, j as int, c);
                assert(self@.subrange(0, i as int).push(c) =~= self@.subrange(0, i + 1));
                assert forall|a: int, b: int| 0 <= a < b < out@.len() implies out@[a].key()
                    <= out@[b].key() by {
                    if b < j {
                    } else if b == j {
                    } else if a < j {
                        assert(out@[b] == before[b - 1]);
                    } else if a == j {
                        assert(out@[b] == before[b - 1]);
                        assert(before[j as int].key() > c.key());
                    } else {
                        assert(out@[b] == before[b - 1]);
                        assert(out@[a] == before[a - 1]);
                    }
                }
            }
            i = i + 1;
        }
        assert(self@.subrange(0, self@.len() as int) =~= self@);
        proof {
            lemma_sorted_is_sort_cards(self@, out@);
        }
        self.0 = out;
    }

    /// The same cards, sorted by rank, then suit.
    pub fn sorted(self) -> (r: Cards)
        ensures
            r@ == sort_cards(self@),
            sorted_by_key(r@),
            r@.to_multiset() == self@.to_multiset(),
    {
        let mut s = self;
        s.sort();
        s
    }

    /// Whether every card of `other` occurs in this collection at least as
    /// many times as in `other`.
    pub fn contains_all(&self, other: &Cards) -> (b: bool)
        requires
            other@.len() == 0 || self@.len() < other@.len() || counts_fit_u8(self@),
        ensures
            b == other@.to_multiset().subset_of(self@.to_multiset()),
    {
        let n = other.0.len();
        let mut i: usize = 0;
        while i < n
            invariant
                n == other@.len(),
                i <= n,
                forall|j: int|
                    0 <= j < i ==> other@.to_multiset().count(#[trigger] other@[j])
                        <= self@.to_multiset().count(other@[j]),
            decreases n - i,
        {
            let c = other.0[i];
            let need = count_card(&other.0, c);
            let have = count_card(&self.0, c);
            if need > have {
                return false;
            }
            i = i + 1;
        }
        assert forall|c: Card| other@.to_multiset().count(c) <= self@.to_multiset().count(c) by {
            if other@.to_multiset().count(c) > 0 {
                assert(other@.contains(c));
                let j = choose|j: int| 0 <= j < other@.len() && other@[j] == c;
                assert(other@.to_multiset().count(other@[j]) <= self@.to_multiset().count(other@[j]));
            }
        }
        true
    }

    /// The number of cards of the given rank.
    pub fn count_rank(&self, rank: Rank) -> (k: u8)
        requires
            rank_count(self@, rank) <= 255,
        ensures
            k == rank_count(self@, rank),
    {
        let n = self.0.len();
        let k = count_rank_prefix(&self.0, n, rank);
        assert(self@.subrange(0, n as int) =~= self@);
        k as u8
    }

    /// The number of cards of each rank.
    pub fn rank_counts(&self) -> (r: RankCounts)
        requires
            forall|k: Rank| rank_count(self@, k) <= 255,
        ensures
            forall|k: Rank| #[trigger] r.spec_count(k) == rank_count(self@, k),
    {
        let mut counts: [u8; 15] = [0u8; 15];
        let n = self.0.len();
        assert(self@.subrange(0, n as int) =~= self@);
        let mut i: usize = 0;
        while i < 15
            invariant
                n == self@.len(),
                i <= 15,
                forall|k: Rank| #![trigger rank_count(self@, k)]
                    k.spec_value() - 3 < i ==> counts[k.spec_value() - 3] == rank_count(self@, k),
                forall|k: Rank| rank_count(self@, k) <= 255,
            decreases 15 - i,
        {
            let r = Rank::ALL[i];
            assert(r.spec_value() - 3 == i);
            let k = count_rank_prefix(&self.0, n, r);
            assert(self@.subrange(0, n as int) =~= self@);
            assert(k <= 255);
            let ghost prev = counts;
            counts[i] = k as u8;
            assert forall|q: Rank| #![trigger rank_count(self@, q)]
                q.spec_value() - 3 < i + 1 implies counts[q.spec_value() - 3] == rank_count(
                self@,
                q,
            ) by {
                if q.spec_value() - 3 == i {
                    assert(q == r);
                } else {
                    assert(counts[q.spec_value() - 3] == prev[q.spec_value() - 3]);
                }
            }
            i = i + 1;
        }
        RankCounts { counts }
    }

    /// The remaining cards after taking out the cards of `played` (the first
    /// copy of each, in turn; the others keep their order), or `None` when
    /// this collection does not hold them all.
    pub fn subtract(&self, played: &Cards) -> (r: Option<Cards>)
        requires
            played@.len() == 0 || self@.len() < played@.len() || (counts_fit_u8(self@)
                && counts_fit_u8(played@)),
        ensures
            r is Some <==> played@.to_multiset().subset_of(self@.to_multiset()),
            r matches Some(rest) ==> rest@ == remove_all(self@, played@)
                && rest@.to_multiset().add(played@.to_multiset()) == self@.to_multiset(),
    {
        if played.0.len() == 0 {
            assert(played@ =~= Seq::<Card>::empty());
            assert(played@.to_multiset() =~= Multiset::empty());
            assert(self@.to_multiset().add(Multiset::empty()) =~= self@.to_multiset());
            return Some(self.clone());
        }
        if !self.contains_all(played) {
            return None;
        }
        let mut rest = self.clone();
        let n = played.0.len();
        let mut i: usize = 0;
        assert(played@.subrange(0, 0).to_multiset() =~= Multiset::empty());
        assert(rest@.to_multiset().add(Multiset::empty()) =~= rest@.to_multiset());
        while i < n
            invariant
                n == played@.len(),
                i <= n,
                played@.to_multiset().subset_of(self@.to_multiset()),
                rest@.to_multiset().add(played@.subrange(0, i as int).to_multiset())
                    == self@.to_multiset(),
                rest@ == remove_all(self@, played@.subrange(0, i as int)),
            decreases n - i,
        {
            let c = played.0[i];
            proof {
                let pre = played@.subrange(0, i as int);
                let post = played@.subrange(i as int, n as int);
                assert(played@ =~= pre + post);
                vstd::seq_lib::lemma_multiset_commutative(pre, post);
                assert(post[0] == c);
                assert(post.to_multiset().count(c) > 0);
                assert(played@.to_multiset().count(c) == pre.to_multiset().count(c)
                    + post.to_multiset().count(c));
                assert(played@.to_multiset().count(c) <= self@.to_multiset().count(c));
                assert(self@.to_multiset().count(c) == rest@.to_multiset().count(c)
                    + pre.to_multiset().count(c));
                assert(rest@.to_multiset().count(c) > 0);
                assert(pre.push(c) =~= played@.subrange(0, i + 1));
            }
            let ghost before = rest@;
            let removed = rest.remove_one(c);
            proof {
                lemma_remove_first_multiset(before, c);
                assert(rest@.to_multiset().add(played@.subrange(0, i + 1).to_multiset())
                    =~= self@.to_multiset());
                assert(played@.subrange(0, i + 1).drop_last() =~= played@.subrange(0, i as int));
            }
            i = i + 1;
        }
        assert(played@.subrange(0, n as int) =~= played@);
        Some(rest)
    }

    /// Removes the first copy of `card`; gives it back, or `None` when the
    /// collection does not hold it.
    pub fn remove_one(&mut self, card: Card) -> (r: Option<Card>)
        ensures
            final(self)@ == remove_first(old(self)@, card),
            r == (if old(self)@.contains(card) {
                Some(card)
            } else {
                None
            }),
    {
        match find_card(&self.0, card) {
            Some(i) => {
                proof {
                    lemma_remove_first_at(self@, card, i as int);
                }
                let c = self.0.remove(i);
                Some(c)
            },
            None => {
                proof {
                    lemma_remove_first_absent(self@, card);
                }
                None
            },
        }
    }

    /// Whether the collection holds the card.
    pub fn contains(&self, card: &Card) -> (b: bool)
        ensures
            b == self@.contains(*card),
    {
        find_card(&self.0, *card).is_some()
    }

    /// The cards shown as text, separated by single spaces (for example `♠3 ♥3`).
    pub fn to_string(&self) -> (s: String)
        ensures
            s@ == cards_display(self@),
    {
        let mut out = String::new();
        let n = self.0.len();
        let mut i: usize = 0;
        while i < n
            invariant
                n == self@.len(),
                i <= n,
                out@ == cards_display(self@.subrange(0, i as int)),
            decreases n - i,
        {
            let shown = self.0[i].to_string();
            proof {
                let pre = self@.subrange(0, i as int + 1);
                assert(pre.drop_last() =~= self@.subrange(0, i as int));
                assert(pre.last() == self@[i as int]);
            }
            if i == 0 {
                out = shown;
                assert(cards_display(self@.subrange(0, 0)) == Seq::<char>::empty());
            } else {
                out = out.concat(" ");
                out = out.concat(shown.as_str());
            }
            i = i + 1;
        }
        assert(self@.subrange(0, n as int) =~= self@);
        out
    }
}

/// Whether card `a` comes no later than card `b` in the sorted order.
fn card_key_le(a: &Card, b: &Card) -> (r: bool)
    ensures
        r == (a.key() <= b.key()),
{
    let ka: u32 = (a.rank.value() as u32) * 5 + match a.suit {
        None => 0u32,
        Some(s) => s.value() as u32,
    };
    let kb: u32 = (b.rank.value() as u32) * 5 + match b.suit {
        None => 0u32,
        Some(s) => s.value() as u32,
    };
    ka <= kb
}

} // verus!
