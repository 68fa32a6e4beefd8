//! The game engine: the `App` aggregate (four hands, the played history, the
//! turn index and the reveal flag) and the four commands that drive it.

use crate::card::{full_deck, Card};
use crate::card::{lemma_full_deck_count, shuffled_deck};
use vstd::multiset::Multiset;
use vstd::prelude::*;

verus! {

/// One player's hand: the cards currently held, in deal order, mutated only
/// by removal.
#[derive(Clone, Debug)]
pub struct Player {
    pub cards: Vec<Card>,
}

/// The four commands the view layer can dispatch into the engine.
#[derive(Clone, Copy, PartialEq, Eq, Structural, Debug)]
pub enum Message {
    NextCard,
    RevealCards,
    HideCards,
    Restart,
}

impl Default for Player {
    /// A player with an empty hand.
    fn default() -> (r: Self)
        ensures
            r.cards@ == Seq::<Card>::empty(),
    {
        Player { cards: Vec::new() }
    }
}

/// The root of all mutable state: four hands, the played history (oldest
/// first), the turn index, and the reveal flag.
#[derive(Debug)]
pub struct App {
    pub players: Vec<Player>,
    pub cards: Vec<Card>,
    pub turn: usize,
    pub revealed: bool,
}

/// The turn after `t` in the fixed rotation 1, 2, 3, 0, 1, ...
pub open spec fn next_turn(t: int) -> int {
    (t + 1) % 4
}

/// The same game with the reveal flag set to `b` and nothing else changed.
pub open spec fn set_revealed(g: App, b: bool) -> App {
    App { players: g.players, cards: g.cards, turn: g.turn, revealed: b }
}

/// Four simultaneous inserts distribute over a four-way multiset sum.
proof fn lemma_sum_insert4(
    m0: Multiset<Card>,
    m1: Multiset<Card>,
    m2: Multiset<Card>,
    m3: Multiset<Card>,
    a: Card,
    b: Card,
    c: Card,
    e: Card,
)
    ensures
        m0.insert(a).add(m1.insert(b)).add(m2.insert(c)).add(m3.insert(e)) == m0.add(m1).add(
            m2,
        ).add(m3).insert(a).insert(b).insert(c).insert(e),
{
    broadcast use vstd::multiset::group_multiset_axioms;

    assert(m0.insert(a).add(m1.insert(b)).add(m2.insert(c)).add(m3.insert(e)) =~= m0.add(m1).add(
        m2,
    ).add(m3).insert(a).insert(b).insert(c).insert(e));
}

/// Taking four more cards of a sequence inserts exactly those four into the
/// multiset of the prefix.
proof fn lemma_take_step(d: Seq<Card>, j: int)
    requires
        0 <= j,
        4 * j + 4 <= d.len(),
    ensures
        d.take(4 * j + 4).to_multiset() == d.take(4 * j).to_multiset().insert(d[4 * j]).insert(
            d[4 * j + 1],
        ).insert(d[4 * j + 2]).insert(d[4 * j + 3]),
{
    broadcast use vstd::seq_lib::group_to_multiset_ensures;

    assert(d.take(4 * j + 4) =~= d.take(4 * j).push(d[4 * j]).push(d[4 * j + 1]).push(
        d[4 * j + 2],
    ).push(d[4 * j + 3]));
}

/// `post` is `pre` after the card at position `i` of the acting player's hand
/// was removed, appended to the played history, and the turn advanced.
pub open spec fn plays(pre: App, post: App, i: int) -> bool {
    let t = pre.turn as int;
    &&& 0 <= i < pre.hand(t).len()
    &&& post.players@.len() == 4
    &&& post.hand(t) == pre.hand(t).remove(i)
    &&& forall|p: int| 0 <= p < 4 && p != t ==> post.hand(p) == pre.hand(p)
    &&& post.cards@ == pre.cards@.push(pre.hand(t)[i])
    &&& post.turn as int == next_turn(pre.turn as int)
    &&& post.revealed == pre.revealed
}

impl App {
    /// The hand of player `p`, as a sequence of cards.
    pub open spec fn hand(self, p: int) -> Seq<Card> {
        self.players@[p].cards@
    }

    /// Every card of the game, in hand or played, as one multiset.
    pub open spec fn dealt(self) -> Multiset<Card> {
        self.hand(0).to_multiset().add(self.hand(1).to_multiset()).add(
            self.hand(2).to_multiset(),
        ).add(self.hand(3).to_multiset()).add(self.cards@.to_multiset())
    }

    /// Well-formedness: four players, a turn index in range, and no card ever
    /// created, duplicated, or lost.
    pub open spec fn wf(self) -> bool {
        &&& self.players@.len() == 4
        &&& self.turn < 4
        &&& self.dealt() == full_deck()
    }

    /// The game is complete exactly when every hand is empty.
    pub open spec fn spec_complete(self) -> bool {
        forall|p: int| 0 <= p < 4 ==> self.hand(p).len() == 0
    }

    /// Whether every hand is empty.
    pub fn complete(&self) -> (r: bool)
        requires
            self.players@.len() == 4,
        ensures
            r == self.spec_complete(),
    {
        let r = self.players[0].cards.len() == 0 && self.players[1].cards.len() == 0
            && self.players[2].cards.len() == 0 && self.players[3].cards.len() == 0;
        proof {
            if self.spec_complete() {
                assert(self.hand(0).len() == 0);
                assert(self.hand(1).len() == 0);
                assert(self.hand(2).len() == 0);
                assert(self.hand(3).len() == 0);
            }
            if r {
                assert forall|p: int| 0 <= p < 4 implies self.hand(p).len() == 0 by {
                    assert(p == 0 || p == 1 || p == 2 || p == 3);
                }
            }
        }
        r
    }

    /// Deals a given deck round-robin: the card at deck position `i` goes to
    /// player `i % 4`, relative order within each hand preserved; the turn
    /// starts at 1, nothing is played yet, and nothing is revealed.
    pub fn create_from_deck(deck: Vec<Card>) -> (r: Self)
        requires
            deck@.to_multiset() == full_deck(),
        ensures
            r.wf(),
            r.turn == 1,
            !r.revealed,
            r.cards@ == Seq::<Card>::empty(),
            forall|p: int| 0 <= p < 4 ==> r.hand(p).len() == 13,
            forall|p: int, j: int|
                0 <= p < 4 && 0 <= j < 13 ==> r.hand(p)[j] == deck@[4 * j + p],
    {
        proof {
            broadcast use vstd::seq_lib::group_to_multiset_ensures;

            lemma_full_deck_count(crate::card::card_at(0));
            assert(deck@.len() == 52);
        }
        let mut h0: Vec<Card> = Vec::new();
        let mut h1: Vec<Card> = Vec::new();
        let mut h2: Vec<Card> = Vec::new();
        let mut h3: Vec<Card> = Vec::new();
        let mut j: usize = 0;
        while j < 13
            invariant
                j <= 13,
                deck@.len() == 52,
                h0@.len() == j,
                h1@.len() == j,
                h2@.len() == j,
                h3@.len() == j,
                forall|k: int| 0 <= k < j ==> h0@[k] == deck@[4 * k],
                forall|k: int| 0 <= k < j ==> h1@[k] == deck@[4 * k + 1],
                forall|k: int| 0 <= k < j ==> h2@[k] == deck@[4 * k + 2],
                forall|k: int| 0 <= k < j ==> h3@[k] == deck@[4 * k + 3],
                h0@.to_multiset().add(h1@.to_multiset()).add(h2@.to_multiset()).add(
                    h3@.to_multiset(),
                ) == deck@.take(4 * j as int).to_multiset(),
            decreases 13 - j,
        {
            let ghost s0 = h0@;
            let ghost s1 = h1@;
            let ghost s2 = h2@;
            let ghost s3 = h3@;
            h0.push(deck[4 * j]);
            h1.push(deck[4 * j + 1]);
            h2.push(deck[4 * j + 2]);
            h3.push(deck[4 * j + 3]);
            proof {
                broadcast use vstd::seq_lib::group_to_multiset_ensures;

                let d = deck@;
                let jj = j as int;
                lemma_take_step(d, jj);
                lemma_sum_insert4(
                    s0.to_multiset(),
                    s1.to_multiset(),
                    s2.to_multiset(),
                    s3.to_multiset(),
                    d[4 * jj],
                    d[4 * jj + 1],
                    d[4 * jj + 2],
                    d[4 * jj + 3],
                );
                assert(h0@.to_multiset() == s0.to_multiset().insert(d[4 * jj]));
                assert(h1@.to_multiset() == s1.to_multiset().insert(d[4 * jj + 1]));
                assert(h2@.to_multiset() == s2.to_multiset().insert(d[4 * jj + 2]));
                assert(h3@.to_multiset() == s3.to_multiset().insert(d[4 * jj + 3]));
            }
            j += 1;
        }
        let mut players: Vec<Player> = Vec::new();
        players.push(Player { cards: h0 });
        players.push(Player { cards: h1 });
        players.push(Player { cards: h2 });
        players.push(Player { cards: h3 });
        let r = App { players, cards: Vec::new(), turn: 1, revealed: false };
        proof {
            broadcast use vstd::seq_lib::group_to_multiset_ensures;
            broadcast use vstd::multiset::group_multiset_axioms;

            assert(deck@.take(52) =~= deck@);
            assert(r.dealt() =~= deck@.to_multiset());
        }
        r
    }

    /// A fresh game: a uniformly shuffled deck, dealt round-robin.
    pub fn create() -> (r: Self)
        ensures
            r.wf(),
            r.turn == 1,
            !r.revealed,
            r.cards@ == Seq::<Card>::empty(),
            forall|p: int| 0 <= p < 4 ==> r.hand(p).len() == 13,
    {
        Self::create_from_deck(shuffled_deck())
    }

    /// Removes the card at position `i` of the acting player's hand, appends
    /// it to the played history, and advances the turn.
    pub fn next_card_at(&mut self, i: usize) -> (card: Card)
        requires
            old(self).wf(),
            i < old(self).hand(old(self).turn as int).len(),
        ensures
            final(self).wf(),
            plays(*old(self), *final(self), i as int),
            card == old(self).hand(old(self).turn as int)[i as int],
    {
        let t = self.turn;
        let mut player = self.players.remove(t);
        let card = player.cards.remove(i);
        self.players.insert(t, player);
        self.cards.push(card);
        self.turn = (self.turn + 1) % 4;
        proof {
            broadcast use vstd::seq_lib::group_to_multiset_ensures;
            broadcast use vstd::multiset::group_multiset_axioms;

            let pre = *old(self);
            let tt = t as int;
            assert(self.players@ =~= pre.players@.update(tt, self.players@[tt]));
            assert(pre.hand(tt).contains(pre.hand(tt)[i as int]));
            assert(self.dealt() =~= pre.dealt());
        }
        card
    }

    /// Applies one command, reducer-style, and reports that the state changed.
    pub fn update(&mut self, msg: Message) -> (r: bool)
        requires
            old(self).wf(),
            msg == Message::NextCard ==> old(self).hand(old(self).turn as int).len() > 0,
        ensures
            r,
            final(self).wf(),
            match msg {
                Message::NextCard => exists|i: int| plays(*old(self), *final(self), i),
                Message::RevealCards => *final(self) == set_revealed(*old(self), true),
                Message::HideCards => *final(self) == set_revealed(*old(self), false),
                Message::Restart => {
                    &&& final(self).turn == 1
                    &&& !final(self).revealed
                    &&& final(self).cards@ == Seq::<Card>::empty()
                    &&& forall|p: int| 0 <= p < 4 ==> final(self).hand(p).len() == 13
                },
            },
    {
        match msg {
            Message::NextCard => {
                let n = self.players[self.turn].cards.len();
                let i = crate::rng::random_below(n);
                self.next_card_at(i);
                proof {
                    assert(plays(*old(self), *self, i as int));
                }
            }
            Message::RevealCards => {
                self.revealed = true;
            }
            Message::HideCards => {
                self.revealed = false;
            }
            Message::Restart => {
                *self = Self::create();
            }
        }
        true
    }
}

/// Deal completeness: in any well-formed game, the hands and the played
/// history together hold each of the 52 canonical cards exactly once.
pub proof fn lemma_deal_complete(g: App)
    requires
        g.wf(),
    ensures
        forall|c: Card| g.dealt().count(c) == 1,
{
    assert forall|c: Card| g.dealt().count(c) == 1 by {
        lemma_full_deck_count(c);
    }
}

/// Conservation: in any well-formed game, the remaining hand sizes and the
/// played history length always sum to 52.
pub proof fn lemma_conservation(g: App)
    requires
        g.wf(),
    ensures
        g.hand(0).len() + g.hand(1).len() + g.hand(2).len() + g.hand(3).len()
            + g.cards@.len() == 52,
{
    broadcast use vstd::seq_lib::group_to_multiset_ensures;
    broadcast use vstd::multiset::group_multiset_axioms;

    lemma_full_deck_count(crate::card::card_at(0));
    assert(g.dealt().len() == 52);
}

/// Reveal idempotence: setting the reveal flag twice is the same as setting
/// it once, and setting it never alters hands, turn, or history.
pub proof fn lemma_reveal_idempotent(g: App, b: bool)
    ensures
        set_revealed(set_revealed(g, b), b) == set_revealed(g, b),
        set_revealed(g, b).players == g.players,
        set_revealed(g, b).cards == g.cards,
        set_revealed(g, b).turn == g.turn,
{
}

/// Turn rotation: from turn 1 the rotation visits 2, 3, 0 and returns to 1,
/// and it never leaves the range 0..4.
pub proof fn lemma_turn_cycle()
    ensures
        next_turn(1) == 2,
        next_turn(2) == 3,
        next_turn(3) == 0,
        next_turn(0) == 1,
        forall|t: int| 0 <= t < 4 ==> 0 <= #[trigger] next_turn(t) < 4,
{
}

} // verus!
