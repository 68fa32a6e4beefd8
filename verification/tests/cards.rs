use bridge::card::{shuffled_deck, Card, Rank, Suit};

fn card(rank: Rank, suit: Suit) -> Card {
    Card { rank, suit }
}

#[test]
fn all_has_52_distinct_cards() {
    let all = Card::all();
    assert_eq!(all.len(), 52);
    for i in 0..all.len() {
        for j in 0..all.len() {
            if i != j {
                assert_ne!(all[i], all[j]);
            }
        }
    }
}

#[test]
fn all_is_rank_major_suit_minor() {
    let all = Card::all();
    assert_eq!(all[0], card(Rank::Ace, Suit::Spades));
    assert_eq!(all[1], card(Rank::Ace, Suit::Hearts));
    assert_eq!(all[2], card(Rank::Ace, Suit::Diamonds));
    assert_eq!(all[3], card(Rank::Ace, Suit::Clubs));
    assert_eq!(all[4], card(Rank::King, Suit::Spades));
    assert_eq!(all[51], card(Rank::Two, Suit::Clubs));
}

#[test]
fn text_forms_are_exact() {
    assert_eq!(card(Rank::Ace, Suit::Spades).text(), "A♤");
    assert_eq!(card(Rank::Ten, Suit::Hearts).text(), "10♡");
    assert_eq!(card(Rank::Queen, Suit::Diamonds).text(), "Q♢");
    assert_eq!(card(Rank::Two, Suit::Clubs).text(), "2♧");
}

#[test]
fn display_round_trip() {
    for c in Card::all() {
        let parsed = Card::parse(&c.text());
        assert_eq!(parsed, Some(c));
    }
}

#[test]
fn parse_rejects_non_cards() {
    assert_eq!(Card::parse(""), None);
    assert_eq!(Card::parse("A"), None);
    assert_eq!(Card::parse("♤"), None);
    assert_eq!(Card::parse("1♤"), None);
    assert_eq!(Card::parse("A♤ "), None);
    assert_eq!(Card::parse("B♤"), None);
}

#[test]
fn text_forms_are_all_distinct() {
    let all = Card::all();
    for i in 0..all.len() {
        for j in 0..all.len() {
            if i != j {
                assert_ne!(all[i].text(), all[j].text());
            }
        }
    }
}

#[test]
fn shuffled_deck_is_a_permutation() {
    let mut deck = shuffled_deck();
    assert_eq!(deck.len(), 52);
    let mut texts: Vec<String> = deck.drain(..).map(|c| c.text()).collect();
    texts.sort();
    let mut expected: Vec<String> = Card::all().iter().map(|c| c.text()).collect();
    expected.sort();
    assert_eq!(texts, expected);
}

#[test]
fn shuffled_deck_varies() {
    let first = shuffled_deck();
    let mut saw_different = false;
    for _ in 0..20 {
        if shuffled_deck() != first {
            saw_different = true;
            break;
        }
    }
    assert!(saw_different);
}
