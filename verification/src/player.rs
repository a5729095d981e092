//! Players: their role (landlord or farmer), their hand, choosing cards
//! from typed input, and playing cards out of the hand.

use vstd::prelude::*;
use vstd::multiset::Multiset;
use crate::card::{Card, Cards, Rank};
use crate::card::cards::{counts_fit_u8, remove_all, sort_cards, sorted_by_key, lemma_remove_first_multiset};
use crate::card::parser::{token_views, tokenize, tokenize_card_input};
use crate::card::rank::parse_rank;
use crate::error::{PlayerError, PlayerResult};
use crate::rules::{classify, well_formed, Play};
use crate::text::string_of;

verus! {

broadcast use {vstd::seq_lib::group_to_multiset_ensures, vstd::multiset::group_multiset_axioms};

/// The role of a player.
#[derive(Debug, Clone, Copy, PartialEq, Eq, Structural)]
pub enum Role {
    /// A farmer.
    Farmer,
    /// The landlord.
    Landlord,
}

impl Role {
    /// How the role is shown.
    pub open spec fn display(self) -> Seq<char> {
        match self {
            Role::Farmer => "农民"@,
            Role::Landlord => "地主"@,
        }
    }

    /// The role shown as text (`农民` or `地主`).
    pub fn to_string(&self) -> (s: String)
        ensures
            s@ == self.display(),
    {
        match self {
            Role::Farmer => string_of("农民"),
            Role::Landlord => string_of("地主"),
        }
    }
}

/// Whether a player is a person at the keyboard or the computer.
#[derive(Debug, Clone, Copy, PartialEq, Eq, Structural)]
pub enum PlayerType {
    /// A person.
    Human,
    /// The computer; for now it is asked for input like a person.
    AI,
}

impl PlayerType {
    /// How the player type is shown.
    pub open spec fn display(self) -> Seq<char> {
        match self {
            PlayerType::Human => "玩家"@,
            PlayerType::AI => "人机"@,
        }
    }

    /// The player type shown as text (`玩家` or `人机`).
    pub fn to_string(&self) -> (s: String)
        ensures
            s@ == self.display(),
    {
        match self {
            PlayerType::Human => string_of("玩家"),
            PlayerType::AI => string_of("人机"),
        }
    }
}

/// A player: number, hand, role and type.
#[derive(Debug)]
pub struct Player {
    /// The player's number.
    pub id: usize,
    /// The player's cards.
    pub hand: Cards,
    /// Landlord or farmer.
    pub role: Role,
    /// Person or computer.
    pub player_type: PlayerType,
}

/// Whether the hand can be checked for holding `cards`: the per-card
/// counters are bytes, so when the check has to count, no card may occur
/// more than 255 times in the hand.
pub open spec fn can_count(hand: Seq<Card>, cards: Seq<Card>) -> bool {
    cards.len() == 0 || hand.len() < cards.len() || counts_fit_u8(hand)
}

/// No card occurs in the hand more often than a 32-bit counter holds.
pub open spec fn counts_fit_i32(hand: Seq<Card>) -> bool {
    forall|c: Card| #[trigger] hand.to_multiset().count(c) <= 0x7fff_ffff
}

/// What selecting cards for a list of rank tokens gives.
pub enum Selection {
    /// The cards selected, in the order of the tokens.
    Chosen(Seq<Card>),
    /// No card of this rank is left in the hand.
    RankMissing(Rank),
    /// This token names no rank.
    BadToken(Seq<char>),
}

/// The first card of the hand, from position `j` on, of rank `r` that is
/// not yet used up by `chosen`.
pub open spec fn pick_from(hand: Seq<Card>, chosen: Seq<Card>, r: Rank, j: int) -> Option<Card>
    decreases hand.len() - j,
{
    if j < 0 || j >= hand.len() {
        None
    } else if hand[j].rank == r && hand.to_multiset().count(hand[j]) > chosen.to_multiset().count(
        hand[j],
    ) {
        Some(hand[j])
    } else {
        pick_from(hand, chosen, r, j + 1)
    }
}

/// Selecting cards for the tokens from position `i` on, after `chosen`:
/// each token must name a rank, and the first card of that rank that is
/// still available (in hand order) is taken.
pub open spec fn select_from(hand: Seq<Card>, tokens: Seq<Seq<char>>, i: int, chosen: Seq<Card>) -> Selection
    decreases tokens.len() - i,
{
    if i < 0 || i >= tokens.len() {
        Selection::Chosen(chosen)
    } else {
        match parse_rank(tokens[i]) {
            None => Selection::BadToken(tokens[i]),
            Some(r) => match pick_from(hand, chosen, r, 0) {
                None => Selection::RankMissing(r),
                Some(c) => select_from(hand, tokens, i + 1, chosen.push(c)),
            },
        }
    }
}

/// Whether a result of selecting cards agrees with a `Selection`.
pub open spec fn selection_matches(r: PlayerResult<Cards>, sel: Selection) -> bool {
    match sel {
        Selection::Chosen(s) => r matches Ok(cs) && cs@ == s,
        Selection::RankMissing(k) => r matches Err(PlayerError::CardNotFound(m)) && m@
            == k.display(),
        Selection::BadToken(t) => r matches Err(PlayerError::InvalidInput(m)) && m@ == t,
    }
}

/// The text of the error for cards that the hand does not hold.
pub open spec fn not_in_hand_text() -> Seq<char> {
    "手牌中不存在这些卡牌"@
}

/// Whether a result of choosing a play from typed input agrees with the
/// selection it comes from: the selected cards must form a valid play.
pub open spec fn choice_matches(r: PlayerResult<Play>, sel: Selection) -> bool {
    match sel {
        Selection::Chosen(s) => if classify(s) is Some {
            r matches Ok(p) && well_formed(p) && p.cards@ == s
        } else {
            r matches Err(PlayerError::InvalidPlay(m)) && m@ == not_in_hand_text()
        },
        Selection::RankMissing(k) => r matches Err(PlayerError::CardNotFound(m)) && m@
            == k.display(),
        Selection::BadToken(t) => r matches Err(PlayerError::InvalidInput(m)) && m@ == t,
    }
}

impl Player {
    /// A player with the given number, hand, role and type.
    pub fn new(id: usize, hand: Cards, role: Role, player_type: PlayerType) -> (p: Player)
        ensures
            p.id == id,
            p.hand@ == hand@,
            p.role == role,
            p.player_type == player_type,
    {
        Player { id, hand, role, player_type }
    }

    /// Whether the player is the landlord.
    pub fn is_landlord(&self) -> (b: bool)
        ensures
            b == (self.role == Role::Landlord),
    {
        self.role == Role::Landlord
    }

    /// Adds cards to the hand and sorts it.
    fn take_cards(&mut self, cards: &Cards)
        ensures
            final(self).id == old(self).id,
            final(self).role == old(self).role,
            final(self).player_type == old(self).player_type,
            final(self).hand@ == sort_cards(old(self).hand@ + cards@),
            sorted_by_key(final(self).hand@),
            final(self).hand@.to_multiset() == old(self).hand@.to_multiset().add(
                cards@.to_multiset(),
            ),
    {
        let ghost before = self.hand@;
        self.hand.extend_from(cards);
        proof {
            vstd::seq_lib::lemma_multiset_commutative(before, cards@);
        }
        self.hand.sort();
    }

    /// The player, not yet the landlord, becomes the landlord and takes the
    /// landlord's cards; the hand is sorted afterwards.
    pub fn become_landlord(&mut self, landlord_cards: &Cards)
        requires
            old(self).role != Role::Landlord,
        ensures
            final(self).role == Role::Landlord,
            final(self).id == old(self).id,
            final(self).player_type == old(self).player_type,
            final(self).hand@ == sort_cards(old(self).hand@ + landlord_cards@),
            sorted_by_key(final(self).hand@),
            final(self).hand@.to_multiset() == old(self).hand@.to_multiset().add(
                landlord_cards@.to_multiset(),
            ),
    {
        self.role = Role::Landlord;
        self.take_cards(landlord_cards);
    }

    /// The landlord takes more landlord's cards; the hand is sorted afterwards.
    /// Only the landlord may do so.
    pub fn add_landlord_cards(&mut self, landlord_cards: &Cards)
        requires
            old(self).role == Role::Landlord,
        ensures
            final(self).role == Role::Landlord,
            final(self).id == old(self).id,
            final(self).player_type == old(self).player_type,
            final(self).hand@ == sort_cards(old(self).hand@ + landlord_cards@),
            sorted_by_key(final(self).hand@),
            final(self).hand@.to_multiset() == old(self).hand@.to_multiset().add(
                landlord_cards@.to_multiset(),
            ),
    {
        self.take_cards(landlord_cards);
    }

    /// Whether the hand holds all the given cards (with their multiplicities).
    pub fn has_cards(&self, cards: &Cards) -> (b: bool)
        requires
            can_count(self.hand@, cards@),
        ensures
            b == cards@.to_multiset().subset_of(self.hand@.to_multiset()),
    {
        self.hand.contains_all(cards)
    }

    /// The first available card of rank `r` in the hand, given the cards
    /// already chosen.
    fn pick(&self, chosen: &Vec<Card>, r: Rank) -> (c: Option<Card>)
        ensures
            c == pick_from(self.hand@, chosen@, r, 0),
    {
        let hand = self.hand.as_vec();
        let n = hand.len();
        let mut j: usize = 0;
        while j < n
            invariant
                n == hand@.len(),
                hand@ == self.hand@,
                j <= n,
                pick_from(self.hand@, chosen@, r, 0) == pick_from(self.hand@, chosen@, r, j as int),
            decreases n - j,
        {
            let c = hand[j];
            if c.rank == r && crate::card::cards::count_card(hand, c)
                > crate::card::cards::count_card(chosen, c) {
                return Some(c);
            }
            j = j + 1;
        }
        None
    }

    /// Chooses cards of the hand for the given rank tokens: each token must
    /// name a rank (else `InvalidInput` with the token), and for each the
    /// first card of that rank still available in the hand is taken (else
    /// `CardNotFound` with the rank).
    pub fn select_cards(&self, card_tokens: Vec<String>) -> (r: PlayerResult<Cards>)
        requires
            counts_fit_i32(self.hand@),
        ensures
            selection_matches(r, select_from(self.hand@, token_views(card_tokens@), 0, seq![])),
    {
        let ghost toks = token_views(card_tokens@);
        let mut chosen: Vec<Card> = Vec::new();
        let n = card_tokens.len();
        let mut i: usize = 0;
        while i < n
            invariant
                n == card_tokens@.len(),
                toks == token_views(card_tokens@),
                i <= n,
                select_from(self.hand@, toks, 0, seq![]) == select_from(
                    self.hand@,
                    toks,
                    i as int,
                    chosen@,
                ),
            decreases n - i,
        {
            let token = &card_tokens[i];
            assert(toks[i as int] == token@);
            match Rank::from_str(token.as_str()) {
                Ok(rank) => {
                    match self.pick(&chosen, rank) {
                        Some(c) => {
                            chosen.push(c);
                        },
                        None => {
                            return Err(PlayerError::CardNotFound(rank.to_string()));
                        },
                    }
                },
                Err(_) => {
                    return Err(PlayerError::InvalidInput(token.clone()));
                },
            }
            i = i + 1;
        }
        Ok(Cards::from_vec(chosen))
    }

    /// Chooses a play from typed input: the input is split into rank
    /// tokens, the cards are selected from the hand, and they must form a
    /// valid play (else `InvalidPlay`).
    pub fn choose_play_human(&self, line: &str) -> (r: PlayerResult<Play>)
        requires
            counts_fit_i32(self.hand@),
        ensures
            choice_matches(r, select_from(self.hand@, tokenize(line@), 0, seq![])),
    {
        let tokens = tokenize_card_input(line);
        let selected = match self.select_cards(tokens) {
            Ok(s) => s,
            Err(e) => {
                return Err(e);
            },
        };
        match Play::new(selected) {
            Ok(play) => Ok(play),
            Err(_) => Err(PlayerError::InvalidPlay(string_of("手牌中不存在这些卡牌"))),
        }
    }

    /// Chooses a play for a computer player; it reads input like a person.
    pub fn choose_play_ai(&self, line: &str) -> (r: PlayerResult<Play>)
        requires
            counts_fit_i32(self.hand@),
        ensures
            choice_matches(r, select_from(self.hand@, tokenize(line@), 0, seq![])),
    {
        self.choose_play_human(line)
    }

    /// Chooses a play from typed input, by the player's type.
    pub fn choose_play(&self, line: &str) -> (r: PlayerResult<Play>)
        requires
            counts_fit_i32(self.hand@),
        ensures
            choice_matches(r, select_from(self.hand@, tokenize(line@), 0, seq![])),
    {
        match self.player_type {
            PlayerType::Human => self.choose_play_human(line),
            PlayerType::AI => self.choose_play_ai(line),
        }
    }

    /// Plays cards out of the hand: when the hand holds them all, the first
    /// copy of each is removed; otherwise the hand stays as it is and the
    /// error is `InvalidPlay`.
    pub fn play_cards(&mut self, cards: &Cards) -> (r: PlayerResult<()>)
        requires
            can_count(old(self).hand@, cards@),
        ensures
            r is Ok <==> cards@.to_multiset().subset_of(old(self).hand@.to_multiset()),
            r is Ok ==> final(self).hand@ == remove_all(old(self).hand@, cards@)
                && final(self).hand@.to_multiset().add(cards@.to_multiset()) == old(
                self,
            ).hand@.to_multiset(),
            r matches Err(e) ==> final(self).hand@ == old(self).hand@ && (e matches PlayerError::InvalidPlay(m)
                && m@ == not_in_hand_text()),
            final(self).id == old(self).id,
            final(self).role == old(self).role,
            final(self).player_type == old(self).player_type,
    {
        if !self.has_cards(cards) {
            return Err(PlayerError::InvalidPlay(string_of("手牌中不存在这些卡牌")));
        }
        let ghost start = self.hand@;
        let v = cards.as_vec();
        let n = v.len();
        let mut i: usize = 0;
        assert(v@.subrange(0, 0) =~= Seq::<Card>::empty());
        assert(self.hand@.to_multiset().add(Multiset::empty()) =~= self.hand@.to_multiset());
        while i < n
            invariant
                n == cards@.len(),
                v@ == cards@,
                i <= n,
                cards@.to_multiset().subset_of(start.to_multiset()),
                self.hand@ == remove_all(start, v@.subrange(0, i as int)),
                self.hand@.to_multiset().add(v@.subrange(0, i as int).to_multiset())
                    == start.to_multiset(),
                self.id == old(self).id,
                self.role == old(self).role,
                self.player_type == old(self).player_type,
            decreases n - i,
        {
            let c = v[i];
            proof {
                let pre = v@.subrange(0, i as int);
                let post = v@.subrange(i as int, n as int);
                assert(v@ =~= pre + post);
                vstd::seq_lib::lemma_multiset_commutative(pre, post);
                assert(post[0] == c);
                assert(post.to_multiset().count(c) > 0);
                assert(cards@.to_multiset().count(c) == pre.to_multiset().count(c)
                    + post.to_multiset().count(c));
                assert(self.hand@.to_multiset().count(c) > 0);
                assert(pre.push(c) =~= v@.subrange(0, i + 1));
                assert(v@.subrange(0, i + 1).drop_last() =~= pre);
            }
            let ghost before = self.hand@;
            self.hand.remove_one(c);
            proof {
                lemma_remove_first_multiset(before, c);
                assert(self.hand@.to_multiset().add(v@.subrange(0, i + 1).to_multiset())
                    =~= start.to_multiset());
            }
            i = i + 1;
        }
        assert(v@.subrange(0, n as int) =~= cards@);
        Ok(())
    }
}

} // verus!
