//! The deck model: ranks, suits, cards, the canonical 52-card deck, and the
//! text form of a card (rank string followed by a one-character suit glyph).

use vstd::multiset::Multiset;
use vstd::prelude::*;
use vstd::string::StringExecFns;

verus! {

/// The text form of a rank: "A", "K", ..., "10", ..., "2".
pub open spec fn rank_text(r: Rank) -> Seq<char> {
    match r {
        Rank::Ace => "A"@,
        Rank::King => "K"@,
        Rank::Queen => "Q"@,
        Rank::Jack => "J"@,
        Rank::Ten => "10"@,
        Rank::Nine => "9"@,
        Rank::Eight => "8"@,
        Rank::Seven => "7"@,
        Rank::Six => "6"@,
        Rank::Five => "5"@,
        Rank::Four => "4"@,
        Rank::Three => "3"@,
        Rank::Two => "2"@,
    }
}

/// The one-character glyph of a suit.
pub open spec fn suit_text(s: Suit) -> Seq<char> {
    match s {
        Suit::Spades => "♤"@,
        Suit::Hearts => "♡"@,
        Suit::Diamonds => "♢"@,
        Suit::Clubs => "♧"@,
    }
}

/// The canonical text form of a card: rank string followed by the suit glyph.
pub open spec fn text_of(c: Card) -> Seq<char> {
    rank_text(c.rank) + suit_text(c.suit)
}

/// One of the 13 symbolic ranks, in the deck's canonical order.
#[derive(Clone, Copy, PartialEq, Eq, Structural, Debug)]
pub enum Rank {
    Ace,
    King,
    Queen,
    Jack,
    Ten,
    Nine,
    Eight,
    Seven,
    Six,
    Five,
    Four,
    Three,
    Two,
}

/// One of the 4 suits, in the deck's canonical order.
#[derive(Clone, Copy, PartialEq, Eq, Structural, Debug)]
pub enum Suit {
    Spades,
    Hearts,
    Diamonds,
    Clubs,
}

/// A playing card: a (rank, suit) pair with value equality.
#[derive(Clone, Copy, PartialEq, Eq, Structural, Debug)]
pub struct Card {
    pub rank: Rank,
    pub suit: Suit,
}

/// The rank at position `i` of the canonical rank order (A, K, Q, J, 10, ..., 2).
pub open spec fn rank_at(i: int) -> Rank {
    if i == 0 {
        Rank::Ace
    } else if i == 1 {
        Rank::King
    } else if i == 2 {
        Rank::Queen
    } else if i == 3 {
        Rank::Jack
    } else if i == 4 {
        Rank::Ten
    } else if i == 5 {
        Rank::Nine
    } else if i == 6 {
        Rank::Eight
    } else if i == 7 {
        Rank::Seven
    } else if i == 8 {
        Rank::Six
    } else if i == 9 {
        Rank::Five
    } else if i == 10 {
        Rank::Four
    } else if i == 11 {
        Rank::Three
    } else {
        Rank::Two
    }
}

/// The position of a rank in the canonical rank order.
pub open spec fn rank_index(r: Rank) -> int {
    match r {
        Rank::Ace => 0,
        Rank::King => 1,
        Rank::Queen => 2,
        Rank::Jack => 3,
        Rank::Ten => 4,
        Rank::Nine => 5,
        Rank::Eight => 6,
        Rank::Seven => 7,
        Rank::Six => 8,
        Rank::Five => 9,
        Rank::Four => 10,
        Rank::Three => 11,
        Rank::Two => 12,
    }
}

/// The suit at position `i` of the canonical suit order.
pub open spec fn suit_at(i: int) -> Suit {
    if i == 0 {
        Suit::Spades
    } else if i == 1 {
        Suit::Hearts
    } else if i == 2 {
        Suit::Diamonds
    } else {
        Suit::Clubs
    }
}

/// The position of a suit in the canonical suit order.
pub open spec fn suit_index(s: Suit) -> int {
    match s {
        Suit::Spades => 0,
        Suit::Hearts => 1,
        Suit::Diamonds => 2,
        Suit::Clubs => 3,
    }
}

/// The card at position `i` of the canonical (rank-major, suit-minor) deck order.
pub open spec fn card_at(i: int) -> Card {
    Card { rank: rank_at(i / 4), suit: suit_at(i % 4) }
}

/// The position of a card in the canonical deck order.
pub open spec fn card_index(c: Card) -> int {
    4 * rank_index(c.rank) + suit_index(c.suit)
}

/// The canonical deck order: all 52 cards, rank-major, suit-minor.
pub open spec fn deck_order() -> Seq<Card> {
    Seq::new(52, |i: int| card_at(i))
}

/// The full deck as a multiset: every canonical card exactly once.
pub open spec fn full_deck() -> Multiset<Card> {
    deck_order().to_multiset()
}

/// Every card sits at the deck position its rank and suit give it.
pub proof fn lemma_card_index(c: Card)
    ensures
        0 <= card_index(c) < 52,
        card_at(card_index(c)) == c,
{
    assert(0 <= rank_index(c.rank) < 13);
    assert(0 <= suit_index(c.suit) < 4);
    let i = card_index(c);
    assert(i / 4 == rank_index(c.rank) && i % 4 == suit_index(c.suit)) by (nonlinear_arith)
        requires
            i == 4 * rank_index(c.rank) + suit_index(c.suit),
            0 <= rank_index(c.rank) < 13,
            0 <= suit_index(c.suit) < 4;
}

/// Distinct deck positions hold distinct cards.
pub proof fn lemma_card_at_injective(i: int, j: int)
    ensures
        0 <= i < 52 && 0 <= j < 52 && i != j ==> card_at(i) != card_at(j),
{
    if 0 <= i < 52 && 0 <= j < 52 && i != j {
        if card_at(i) == card_at(j) {
            lemma_card_index(card_at(i));
            assert(card_index(card_at(i)) == 4 * (i / 4) + i % 4);
            assert(4 * (i / 4) + i % 4 == i) by (nonlinear_arith)
                requires
                    0 <= i;
            assert(card_index(card_at(j)) == 4 * (j / 4) + j % 4);
            assert(4 * (j / 4) + j % 4 == j) by (nonlinear_arith)
                requires
                    0 <= j;
            assert(false);
        }
    }
}

/// The full deck holds each canonical card exactly once and has 52 cards.
pub proof fn lemma_full_deck_count(c: Card)
    ensures
        full_deck().count(c) == 1,
        full_deck().len() == 52,
{
    broadcast use vstd::seq_lib::group_to_multiset_ensures;

    let d = deck_order();
    assert(d.no_duplicates()) by {
        assert forall|i: int, j: int| 0 <= i < 52 && 0 <= j < 52 && i != j implies d[i] != d[j] by {
            lemma_card_at_injective(i, j);
        }
    }
    lemma_card_index(c);
    assert(d[card_index(c)] == c);
    assert(d.contains(c));
    d.lemma_multiset_has_no_duplicates();
}

impl Card {
    /// The 13 ranks, in canonical order.
    pub fn ranks() -> (r: Vec<Rank>)
        ensures
            r@.len() == 13,
            forall|i: int| 0 <= i < 13 ==> r@[i] == rank_at(i),
    {
        let mut v: Vec<Rank> = Vec::new();
        v.push(Rank::Ace);
        v.push(Rank::King);
        v.push(Rank::Queen);
        v.push(Rank::Jack);
        v.push(Rank::Ten);
        v.push(Rank::Nine);
        v.push(Rank::Eight);
        v.push(Rank::Seven);
        v.push(Rank::Six);
        v.push(Rank::Five);
        v.push(Rank::Four);
        v.push(Rank::Three);
        v.push(Rank::Two);
        v
    }

    /// The 4 suits, in canonical order.
    pub fn colors() -> (r: Vec<Suit>)
        ensures
            r@.len() == 4,
            forall|i: int| 0 <= i < 4 ==> r@[i] == suit_at(i),
    {
        let mut v: Vec<Suit> = Vec::new();
        v.push(Suit::Spades);
        v.push(Suit::Hearts);
        v.push(Suit::Diamonds);
        v.push(Suit::Clubs);
        v
    }

    /// All 52 cards in the canonical deck order.
    pub fn all() -> (r: Vec<Card>)
        ensures
            r@ == deck_order(),
    {
        let ranks = Self::ranks();
        let colors = Self::colors();
        let mut cards: Vec<Card> = Vec::new();
        let mut ri: usize = 0;
        while ri < 13
            invariant
                ri <= 13,
                ranks@.len() == 13,
                colors@.len() == 4,
                forall|i: int| 0 <= i < 13 ==> ranks@[i] == rank_at(i),
                forall|i: int| 0 <= i < 4 ==> colors@[i] == suit_at(i),
                cards@.len() == 4 * ri,
                forall|k: int| 0 <= k < cards@.len() ==> cards@[k] == card_at(k),
            decreases 13 - ri,
        {
            let mut si: usize = 0;
            while si < 4
                invariant
                    ri < 13,
                    si <= 4,
                    ranks@.len() == 13,
                    colors@.len() == 4,
                    forall|i: int| 0 <= i < 13 ==> ranks@[i] == rank_at(i),
                    forall|i: int| 0 <= i < 4 ==> colors@[i] == suit_at(i),
                    cards@.len() == 4 * ri + si,
                    forall|k: int| 0 <= k < cards@.len() ==> cards@[k] == card_at(k),
                decreases 4 - si,
            {
                let c = Card { rank: ranks[ri], suit: colors[si] };
                proof {
                    let k = 4 * (ri as int) + (si as int);
                    assert(k / 4 == ri as int && k % 4 == si as int) by (nonlinear_arith)
                        requires
                            k == 4 * (ri as int) + (si as int),
                            0 <= ri as int,
                            0 <= si as int,
                            (si as int) < 4;
                }
                cards.push(c);
                si += 1;
            }
            ri += 1;
        }
        proof {
            assert(cards@ =~= deck_order());
        }
        cards
    }

    /// The text form of this card, e.g. "A♤" or "10♡".
    pub fn text(&self) -> (r: String)
        ensures
            r@ == text_of(*self),
    {
        let mut s = String::new();
        match self.rank {
            Rank::Ace => s.append("A"),
            Rank::King => s.append("K"),
            Rank::Queen => s.append("Q"),
            Rank::Jack => s.append("J"),
            Rank::Ten => s.append("10"),
            Rank::Nine => s.append("9"),
            Rank::Eight => s.append("8"),
            Rank::Seven => s.append("7"),
            Rank::Six => s.append("6"),
            Rank::Five => s.append("5"),
            Rank::Four => s.append("4"),
            Rank::Three => s.append("3"),
            Rank::Two => s.append("2"),
        }
        match self.suit {
            Suit::Spades => s.append("♤"),
            Suit::Hearts => s.append("♡"),
            Suit::Diamonds => s.append("♢"),
            Suit::Clubs => s.append("♧"),
        }
        proof {
            assert(s@ =~= text_of(*self));
        }
        s
    }

    /// Parses a card back from its canonical text form; `None` when the text
    /// is the text form of no card.
    pub fn parse(s: &str) -> (r: Option<Card>)
        ensures
            match r {
                Some(c) => text_of(c) == s@,
                None => forall|c: Card| text_of(c) != s@,
            },
    {
        let target: String = s.to_owned();
        let all = Self::all();
        let mut i: usize = 0;
        while i < 52
            invariant
                all@ == deck_order(),
                target@ == s@,
                i <= 52,
                forall|k: int| 0 <= k < i ==> text_of(deck_order()[k]) != s@,
            decreases 52 - i,
        {
            let c = all[i];
            let t = c.text();
            if t == target {
                return Some(c);
            }
            i += 1;
        }
        proof {
            assert forall|c: Card| text_of(c) != s@ by {
                lemma_card_index(c);
                assert(deck_order()[card_index(c)] == c);
            }
        }
        None
    }
}

/// A uniformly random permutation of the full 52-card deck. Its exact order
/// depends on the random source, so only the multiset of cards is promised.
pub fn shuffled_deck() -> (r: Vec<Card>)
    ensures
        r@.to_multiset() == full_deck(),
{
    let mut cards = Card::all();
    crate::rng::shuffle_cards(&mut cards);
    cards
}

/// The text form identifies a card uniquely: two cards with the same text
/// form are the same card.
pub proof fn lemma_text_round_trip(a: Card, b: Card)
    ensures
        text_of(a) == text_of(b) ==> a == b,
{
    if text_of(a) == text_of(b) {
        reveal_strlit("A");
        reveal_strlit("K");
        reveal_strlit("Q");
        reveal_strlit("J");
        reveal_strlit("10");
        reveal_strlit("9");
        reveal_strlit("8");
        reveal_strlit("7");
        reveal_strlit("6");
        reveal_strlit("5");
        reveal_strlit("4");
        reveal_strlit("3");
        reveal_strlit("2");
        reveal_strlit("♤");
        reveal_strlit("♡");
        reveal_strlit("♢");
        reveal_strlit("♧");
        let ta = text_of(a);
        let tb = text_of(b);
        assert(ta[ta.len() - 1] == suit_text(a.suit)[0]);
        assert(tb[tb.len() - 1] == suit_text(b.suit)[0]);
        assert(a.suit == b.suit);
        assert(rank_text(a.rank) =~= ta.subrange(0, ta.len() - 1));
        assert(rank_text(b.rank) =~= tb.subrange(0, tb.len() - 1));
        assert(rank_text(a.rank)[0] == rank_text(b.rank)[0]);
        assert(a.rank == b.rank);
    }
}

} // verus!
