//! Rendering of the game state as text: each hand as a line, the latest
//! played card with the player who played it, and the played history in rows
//! of 13. The exact text is pinned by spec functions so the view layer shows
//! precisely the engine's state.

use crate::card::{text_of, Card};
use crate::game::{App, Player};
use vstd::prelude::*;
use vstd::string::StringExecFns;

verus! {

/// The cards of a hand in order, separated by single spaces.
pub open spec fn joined_cards(cards: Seq<Card>) -> Seq<char>
    decreases cards.len(),
{
    if cards.len() == 0 {
        Seq::empty()
    } else if cards.len() == 1 {
        text_of(cards[0])
    } else {
        joined_cards(cards.drop_last()) + " "@ + text_of(cards.last())
    }
}

/// `n` concealed-card placeholders, separated by single spaces.
pub open spec fn concealed_text(n: nat) -> Seq<char>
    decreases n,
{
    if n == 0 {
        Seq::empty()
    } else if n == 1 {
        "▯"@
    } else {
        concealed_text((n - 1) as nat) + " ▯"@
    }
}

/// One hand as a line: "-" when empty, the cards when revealed, placeholders
/// otherwise.
pub open spec fn hand_text(cards: Seq<Card>, revealed: bool) -> Seq<char> {
    if cards.len() == 0 {
        "-"@
    } else if revealed {
        joined_cards(cards)
    } else {
        concealed_text(cards.len())
    }
}

/// The label of the player at index `p`: the human is "you".
pub open spec fn player_label(p: int) -> Seq<char> {
    if p == 0 {
        "you"@
    } else if p == 1 {
        "player 1"@
    } else if p == 2 {
        "player 2"@
    } else {
        "player 3"@
    }
}

/// The "Latest" line: the last played card and who played it, or "-" when
/// nothing was played yet.
pub open spec fn latest_text(g: App) -> Seq<char> {
    if g.cards@.len() == 0 {
        "-\n"@
    } else {
        text_of(g.cards@.last()) + " ("@ + player_label((g.turn + 3) as int % 4) + ")\n"@
    }
}

/// One history row: each card followed by a space.
pub open spec fn row_text(cards: Seq<Card>) -> Seq<char>
    decreases cards.len(),
{
    if cards.len() == 0 {
        Seq::empty()
    } else {
        row_text(cards.drop_last()) + text_of(cards.last()) + " "@
    }
}

/// The played history in rows of 13 cards, each row ended by a newline.
pub open spec fn history_text(cards: Seq<Card>) -> Seq<char>
    decreases cards.len(),
{
    if cards.len() == 0 {
        Seq::empty()
    } else if cards.len() <= 13 {
        row_text(cards) + "\n"@
    } else {
        row_text(cards.take(13)) + "\n"@ + history_text(cards.skip(13))
    }
}

/// The history section shown when the board is revealed or the game is done.
pub open spec fn history_section(g: App) -> Seq<char> {
    "\n"@ + (if g.spec_complete() {
        "Entire game:\n"@
    } else {
        "Cards so far:\n"@
    }) + (if g.cards@.len() == 0 {
        "-\n"@
    } else {
        history_text(g.cards@)
    })
}

/// The section of one opponent: a header, the hand line, and a blank line.
/// Player 2 sits across the table and is always shown.
pub open spec fn player_section(g: App, n: int) -> Seq<char> {
    (if n == 1 {
        "Player 1:\n"@
    } else if n == 2 {
        "Player 2:\n"@
    } else {
        "Player 3:\n"@
    }) + hand_text(g.hand(n), g.revealed || n == 2) + "\n"@ + "\n"@
}

/// The whole board: the three opponents, the human's hand, the latest played
/// card, and, when revealed or complete, the played history.
pub open spec fn board_text(g: App) -> Seq<char> {
    player_section(g, 1) + player_section(g, 2) + player_section(g, 3) + "You:\n"@ + hand_text(
        g.hand(0),
        true,
    ) + "\n"@ + "\n"@ + "Latest:\n"@ + latest_text(g) + (if g.revealed || g.spec_complete() {
        history_section(g)
    } else {
        Seq::<char>::empty()
    })
}

impl Player {
    /// This hand as a line of text: the cards when `revealed`, placeholders
    /// otherwise, "-" when the hand is empty.
    pub fn cards(&self, revealed: bool) -> (r: String)
        ensures
            r@ == hand_text(self.cards@, revealed),
    {
        if self.cards.len() == 0 {
            return "-".to_owned();
        }
        let mut s = String::new();
        if revealed {
            let mut i: usize = 0;
            while i < self.cards.len()
                invariant
                    i <= self.cards@.len(),
                    s@ == joined_cards(self.cards@.take(i as int)),
                decreases self.cards@.len() - i,
            {
                if i > 0 {
                    s.append(" ");
                }
                let t = self.cards[i].text();
                s.append(t.as_str());
                proof {
                    let pre = self.cards@.take(i as int);
                    let cur = self.cards@.take(i as int + 1);
                    assert(cur.drop_last() =~= pre);
                    assert(cur.last() == self.cards@[i as int]);
                }
                i += 1;
            }
            proof {
                assert(self.cards@.take(self.cards@.len() as int) =~= self.cards@);
            }
        } else {
            s.append("▯");
            let mut i: usize = 1;
            while i < self.cards.len()
                invariant
                    1 <= i <= self.cards@.len(),
                    s@ == concealed_text(i as nat),
                decreases self.cards@.len() - i,
            {
                s.append(" ▯");
                i += 1;
            }
        }
        s
    }
}

/// The played history as rows of 13 cards, each card followed by a space and
/// each row ended by a newline.
fn history_rows(cards: &Vec<Card>) -> (r: String)
    ensures
        r@ == history_text(cards@),
{
    let mut s = String::new();
    let mut start: usize = 0;
    proof {
        assert(cards@.skip(0) =~= cards@);
    }
    while start < cards.len()
        invariant
            start <= cards@.len(),
            s@ + history_text(cards@.skip(start as int)) == history_text(cards@),
        decreases cards@.len() - start,
    {
        let remaining = cards.len() - start;
        let chunk = if remaining < 13 {
            remaining
        } else {
            13
        };
        let ghost rest = cards@.skip(start as int);
        let ghost row = rest.take(chunk as int);
        let ghost pre_row = s@;
        let total = cards.len();
        let mut k: usize = 0;
        while k < chunk
            invariant
                total == cards@.len(),
                k <= chunk,
                chunk <= remaining,
                remaining == cards@.len() - start,
                start < cards@.len(),
                row == cards@.skip(start as int).take(chunk as int),
                s@ == pre_row + row_text(row.take(k as int)),
            decreases chunk - k,
        {
            let t = cards[start + k].text();
            s.append(t.as_str());
            s.append(" ");
            proof {
                let pre = row.take(k as int);
                let cur = row.take(k as int + 1);
                assert(cur.drop_last() =~= pre);
                assert(cur.last() == cards@[start as int + k as int]);
            }
            k += 1;
        }
        s.append("\n");
        proof {
            assert(row.take(chunk as int) =~= row);
            if rest.len() <= 13 {
                assert(row =~= rest);
                assert(rest.skip(chunk as int) =~= Seq::<Card>::empty());
                assert(history_text(rest) == row_text(rest) + "\n"@);
            } else {
                assert(row =~= rest.take(13));
                assert(rest.skip(13) =~= cards@.skip(start as int + 13));
            }
        }
        start += chunk;
    }
    proof {
        assert(cards@.skip(start as int) =~= Seq::<Card>::empty());
        assert(history_text(Seq::<Card>::empty()) == Seq::<char>::empty());
        assert(s@ + Seq::<char>::empty() =~= s@);
    }
    s
}

/// One board section: a header line, a hand line, and a blank line.
fn hand_section(header: &str, player: &Player, revealed: bool) -> (r: String)
    ensures
        r@ == header@ + hand_text(player.cards@, revealed) + "\n"@ + "\n"@,
{
    let mut s = String::new();
    s.append(header);
    let line = player.cards(revealed);
    s.append(line.as_str());
    s.append("\n");
    s.append("\n");
    proof {
        assert(s@ =~= header@ + hand_text(player.cards@, revealed) + "\n"@ + "\n"@);
    }
    s
}

impl App {
    /// The "Latest" part: header plus the last played card and its player.
    fn latest_part(&self) -> (r: String)
        requires
            self.turn < 4,
        ensures
            r@ == "Latest:\n"@ + latest_text(*self),
    {
        let mut s = String::new();
        s.append("Latest:\n");
        if self.cards.len() > 0 {
            let card = self.cards[self.cards.len() - 1];
            let t = card.text();
            s.append(t.as_str());
            s.append(" (");
            let p = (self.turn + 3) % 4;
            if p == 0 {
                s.append("you");
            } else if p == 1 {
                s.append("player 1");
            } else if p == 2 {
                s.append("player 2");
            } else {
                s.append("player 3");
            }
            s.append(")\n");
            proof {
                assert(s@ =~= "Latest:\n"@ + latest_text(*self));
            }
        } else {
            s.append("-\n");
            proof {
                assert(s@ =~= "Latest:\n"@ + latest_text(*self));
            }
        }
        s
    }

    /// The history part shown when the board is revealed or the game is done.
    fn history_part(&self) -> (r: String)
        requires
            self.players@.len() == 4,
        ensures
            r@ == history_section(*self),
    {
        let done = self.complete();
        let mut s = String::new();
        s.append("\n");
        if done {
            s.append("Entire game:\n");
        } else {
            s.append("Cards so far:\n");
        }
        if self.cards.len() == 0 {
            s.append("-\n");
        } else {
            let rows = history_rows(&self.cards);
            s.append(rows.as_str());
        }
        proof {
            assert(s@ =~= history_section(*self));
        }
        s
    }

    /// The board as the view layer shows it.
    #[verifier::rlimit(100)]
    pub fn view(&self) -> (r: String)
        requires
            self.wf(),
        ensures
            r@ == board_text(*self),
    {
        let done = self.complete();
        let mut board = String::new();

        let s1 = hand_section("Player 1:\n", &self.players[1], self.revealed);
        board.append(s1.as_str());
        let s2 = hand_section("Player 2:\n", &self.players[2], true);
        board.append(s2.as_str());
        let s3 = hand_section("Player 3:\n", &self.players[3], self.revealed);
        board.append(s3.as_str());
        let sy = hand_section("You:\n", &self.players[0], true);
        board.append(sy.as_str());
        proof {
            assert(s1@ =~= player_section(*self, 1));
            assert(s2@ =~= player_section(*self, 2));
            assert(s3@ =~= player_section(*self, 3));
        }

        let latest = self.latest_part();
        board.append(latest.as_str());

        if self.revealed || done {
            let hist = self.history_part();
            board.append(hist.as_str());
        }
        proof {
            assert(board@ =~= board_text(*self));
        }
        board
    }
}

} // verus!
