use bridge::card::{Card, Rank, Suit};
use bridge::game::{App, Message, Player};

#[test]
fn empty_hand_renders_as_dash() {
    let p = Player { cards: vec![] };
    assert_eq!(p.cards(true), "-");
    assert_eq!(p.cards(false), "-");
}

#[test]
fn concealed_hand_renders_placeholders() {
    let p = Player {
        cards: vec![
            Card { rank: Rank::Ace, suit: Suit::Spades },
            Card { rank: Rank::Ten, suit: Suit::Hearts },
            Card { rank: Rank::Two, suit: Suit::Clubs },
        ],
    };
    assert_eq!(p.cards(false), "▯ ▯ ▯");
}

#[test]
fn revealed_hand_renders_cards() {
    let p = Player {
        cards: vec![
            Card { rank: Rank::Ace, suit: Suit::Spades },
            Card { rank: Rank::Ten, suit: Suit::Hearts },
        ],
    };
    assert_eq!(p.cards(true), "A♤ 10♡");
}

#[test]
fn fresh_board_text_is_exact() {
    // Dealing the canonical deck round-robin puts all spades with the human,
    // hearts with player 1, diamonds with player 2, clubs with player 3.
    let app = App::create_from_deck(Card::all());
    let expected = "Player 1:\n\
        ▯ ▯ ▯ ▯ ▯ ▯ ▯ ▯ ▯ ▯ ▯ ▯ ▯\n\
        \n\
        Player 2:\n\
        A♢ K♢ Q♢ J♢ 10♢ 9♢ 8♢ 7♢ 6♢ 5♢ 4♢ 3♢ 2♢\n\
        \n\
        Player 3:\n\
        ▯ ▯ ▯ ▯ ▯ ▯ ▯ ▯ ▯ ▯ ▯ ▯ ▯\n\
        \n\
        You:\n\
        A♤ K♤ Q♤ J♤ 10♤ 9♤ 8♤ 7♤ 6♤ 5♤ 4♤ 3♤ 2♤\n\
        \n\
        Latest:\n\
        -\n";
    assert_eq!(app.view(), expected);
}

#[test]
fn revealed_board_shows_all_hands_and_empty_history() {
    let mut app = App::create_from_deck(Card::all());
    app.update(Message::RevealCards);
    let expected = "Player 1:\n\
        A♡ K♡ Q♡ J♡ 10♡ 9♡ 8♡ 7♡ 6♡ 5♡ 4♡ 3♡ 2♡\n\
        \n\
        Player 2:\n\
        A♢ K♢ Q♢ J♢ 10♢ 9♢ 8♢ 7♢ 6♢ 5♢ 4♢ 3♢ 2♢\n\
        \n\
        Player 3:\n\
        A♧ K♧ Q♧ J♧ 10♧ 9♧ 8♧ 7♧ 6♧ 5♧ 4♧ 3♧ 2♧\n\
        \n\
        You:\n\
        A♤ K♤ Q♤ J♤ 10♤ 9♤ 8♤ 7♤ 6♤ 5♤ 4♤ 3♤ 2♤\n\
        \n\
        Latest:\n\
        -\n\
        \n\
        Cards so far:\n\
        -\n";
    assert_eq!(app.view(), expected);
}

#[test]
fn latest_line_names_the_player() {
    let mut app = App::create_from_deck(Card::all());
    app.update(Message::NextCard);
    let view = app.view();
    // Player 1 just played a heart.
    assert!(view.contains(" (player 1)\n"));
    app.update(Message::NextCard);
    assert!(app.view().contains(" (player 2)\n"));
    app.update(Message::NextCard);
    assert!(app.view().contains(" (player 3)\n"));
    app.update(Message::NextCard);
    assert!(app.view().contains(" (you)\n"));
}

#[test]
fn history_wraps_in_rows_of_13() {
    let mut app = App::create_from_deck(Card::all());
    for _ in 0..15 {
        app.update(Message::NextCard);
    }
    app.update(Message::RevealCards);
    let view = app.view();
    let (_, history) = view.split_once("Cards so far:\n").unwrap();
    let rows: Vec<&str> = history.lines().collect();
    assert_eq!(rows.len(), 2);
    assert_eq!(rows[0].split_whitespace().count(), 13);
    assert_eq!(rows[1].split_whitespace().count(), 2);
}

#[test]
fn finished_game_shows_entire_history() {
    let mut app = App::create_from_deck(Card::all());
    for _ in 0..52 {
        app.update(Message::NextCard);
    }
    let view = app.view();
    assert!(view.contains("Entire game:\n"));
    let (_, history) = view.split_once("Entire game:\n").unwrap();
    assert_eq!(history.lines().count(), 4);
    assert_eq!(history.split_whitespace().count(), 52);
}
