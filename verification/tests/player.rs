use ratscrew::card::{Card, Rank, Suit};
use ratscrew::player::{move_all, GameError, PlayerState, Role, DECK_SIZE};

fn n(number: u32, suit: Suit) -> Card {
    Card::new(Rank::Num(number), suit)
}

fn key(card: &Card) -> (u32, String) {
    (card.rank.value(), card.suit.value())
}

fn keys(cards: &Vec<Card>) -> Vec<(u32, String)> {
    cards.iter().map(key).collect()
}

#[test]
fn roles_are_each_other_s_opponent() {
    assert_eq!(Role::Human.opponent(), Role::Machine);
    assert_eq!(Role::Machine.opponent(), Role::Human);
}

#[test]
fn new_player_holds_nothing() {
    let player = PlayerState::new();
    assert!(player.hand.is_empty());
    assert!(player.side_pile.is_empty());
    assert!(!player.won());
}

#[test]
fn dealt_cards_go_on_top_of_the_hand() {
    let mut player = PlayerState::new();
    player.add_to_hand(n(2, Suit::Hearts));
    player.add_to_hand(n(3, Suit::Clubs));
    assert_eq!(keys(&player.hand), vec![(2, "Hearts".to_string()), (3, "Clubs".to_string())]);
    assert!(player.side_pile.is_empty());
}

#[test]
fn move_all_reverses_the_cards() {
    let mut from = vec![n(2, Suit::Hearts), n(3, Suit::Clubs), n(4, Suit::Spades)];
    let mut onto = vec![n(9, Suit::Hearts)];
    move_all(&mut from, &mut onto);
    assert!(from.is_empty());
    assert_eq!(
        keys(&onto),
        vec![
            (9, "Hearts".to_string()),
            (4, "Spades".to_string()),
            (3, "Clubs".to_string()),
            (2, "Hearts".to_string()),
        ]
    );
}

#[test]
fn side_pile_takes_the_pile_top_first() {
    let mut player = PlayerState::new();
    player.side_pile.push(n(10, Suit::Diamonds));
    player.hand.push(n(8, Suit::Diamonds));
    let mut pile = vec![n(2, Suit::Hearts), n(3, Suit::Clubs)];
    player.add_to_side_pile(&mut pile);
    assert!(pile.is_empty());
    assert_eq!(
        keys(&player.side_pile),
        vec![(10, "Diamonds".to_string()), (3, "Clubs".to_string()), (2, "Hearts".to_string())]
    );
    assert_eq!(keys(&player.hand), vec![(8, "Diamonds".to_string())]);
}

#[test]
fn side_pile_takes_an_empty_pile() {
    let mut player = PlayerState::new();
    let mut pile = Vec::new();
    player.add_to_side_pile(&mut pile);
    assert!(player.side_pile.is_empty());
}

#[test]
fn empty_side_pile_cannot_refill_the_hand() {
    let mut player = PlayerState::new();
    assert_eq!(player.add_side_pile_to_hand(), Err(GameError::HandExhausted));
    assert!(player.hand.is_empty());
    assert!(player.side_pile.is_empty());
}

#[test]
fn empty_side_pile_leaves_a_hand_as_it_is() {
    let mut player = PlayerState::new();
    player.hand.push(n(8, Suit::Diamonds));
    assert_eq!(player.add_side_pile_to_hand(), Err(GameError::HandExhausted));
    assert_eq!(keys(&player.hand), vec![(8, "Diamonds".to_string())]);
}

#[test]
fn side_pile_refills_the_hand() {
    let mut player = PlayerState::new();
    for number in 2..=10 {
        player.side_pile.push(n(number, Suit::Spades));
    }
    assert_eq!(player.add_side_pile_to_hand(), Ok(()));
    assert!(player.side_pile.is_empty());
    let mut got = keys(&player.hand);
    got.sort();
    let mut want: Vec<(u32, String)> = (2..=10).map(|v| (v, "Spades".to_string())).collect();
    want.sort();
    assert_eq!(got, want);
}

#[test]
fn refill_goes_on_top_of_the_hand() {
    let mut player = PlayerState::new();
    player.hand.push(n(2, Suit::Hearts));
    player.hand.push(n(3, Suit::Hearts));
    player.side_pile.push(n(9, Suit::Clubs));
    assert_eq!(player.add_side_pile_to_hand(), Ok(()));
    assert_eq!(
        keys(&player.hand),
        vec![(2, "Hearts".to_string()), (3, "Hearts".to_string()), (9, "Clubs".to_string())]
    );
}

#[test]
fn hand_of_the_whole_deck_has_won() {
    assert_eq!(DECK_SIZE, 52);
    let mut player = PlayerState::new();
    for _ in 0..51 {
        player.add_to_hand(n(2, Suit::Hearts));
    }
    assert!(!player.won());
    player.add_to_hand(n(2, Suit::Hearts));
    assert!(player.won());
    player.add_to_hand(n(2, Suit::Hearts));
    assert!(!player.won());
}
