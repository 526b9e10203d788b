use ratscrew::card::{Card, Rank, Suit};

#[test]
fn test_card_creation() {
    let card = Card::new(Rank::Num(6), Suit::Clubs);

    assert_eq!(card.rank.value(), 6);
    assert_eq!(card.suit, Suit::Clubs);
}

#[test]
fn test_different_rank() {
    let card = Card::new(Rank::Num(6), Suit::Clubs);

    assert_ne!(card.rank.value(), 11);
}

#[test]
fn test_different_suit() {
    let card = Card::new(Rank::Num(6), Suit::Clubs);

    assert_ne!(card.suit, Suit::Diamonds);
}

#[test]
fn rank_values() {
    assert_eq!(Rank::Num(2).value(), 2);
    assert_eq!(Rank::Num(10).value(), 10);
    assert_eq!(Rank::Jack.value(), 11);
    assert_eq!(Rank::Queen.value(), 12);
    assert_eq!(Rank::King.value(), 13);
    assert_eq!(Rank::Ace.value(), 1);
}

#[test]
fn rank_from_value_covers_one_to_thirteen() {
    assert_eq!(Rank::from_value(0), None);
    assert_eq!(Rank::from_value(1), Some(Rank::Ace));
    assert_eq!(Rank::from_value(2), Some(Rank::Num(2)));
    assert_eq!(Rank::from_value(10), Some(Rank::Num(10)));
    assert_eq!(Rank::from_value(11), Some(Rank::Jack));
    assert_eq!(Rank::from_value(12), Some(Rank::Queen));
    assert_eq!(Rank::from_value(13), Some(Rank::King));
    assert_eq!(Rank::from_value(14), None);
    for n in 1..=13 {
        assert_eq!(Rank::from_value(n).unwrap().value(), n);
    }
}

#[test]
fn suit_names() {
    assert_eq!(Suit::Hearts.value(), "Hearts");
    assert_eq!(Suit::Diamonds.value(), "Diamonds");
    assert_eq!(Suit::Spades.value(), "Spades");
    assert_eq!(Suit::Clubs.value(), "Clubs");
}

#[test]
fn cards_are_equal_by_rank_alone() {
    let five_clubs = Card::new(Rank::Num(5), Suit::Clubs);
    let five_hearts = Card::new(Rank::Num(5), Suit::Hearts);
    let six_clubs = Card::new(Rank::Num(6), Suit::Clubs);
    assert!(five_clubs == five_hearts);
    assert!(five_clubs != six_clubs);
    assert!(Card::new(Rank::Ace, Suit::Spades) == Card::new(Rank::Ace, Suit::Diamonds));
    assert!(Card::new(Rank::Jack, Suit::Spades) != Card::new(Rank::Num(11), Suit::Spades));
}

#[test]
fn card_equals_a_bare_number() {
    assert!(Card::new(Rank::Num(6), Suit::Clubs) == 6u32);
    assert!(Card::new(Rank::Num(6), Suit::Clubs) != 9u32);
    assert!(Card::new(Rank::Ace, Suit::Clubs) == 1u32);
    assert!(Card::new(Rank::King, Suit::Clubs) == 13u32);
    assert!(Card::new(Rank::Jack, Suit::Clubs) == 11u32);
}

#[test]
fn wire_form_of_a_card() {
    assert_eq!(Card::card_to_string(Card::new(Rank::Num(6), Suit::Clubs)), "6, Clubs");
    assert_eq!(Card::card_to_string(Card::new(Rank::Num(10), Suit::Hearts)), "10, Hearts");
    assert_eq!(Card::card_to_string(Card::new(Rank::Ace, Suit::Spades)), "1, Spades");
    assert_eq!(Card::card_to_string(Card::new(Rank::Jack, Suit::Diamonds)), "11, Diamonds");
    assert_eq!(Card::card_to_string(Card::new(Rank::Queen, Suit::Diamonds)), "12, Diamonds");
    assert_eq!(Card::card_to_string(Card::new(Rank::King, Suit::Diamonds)), "13, Diamonds");
}

#[test]
fn wire_form_of_a_large_number_card() {
    assert_eq!(Card::card_to_string(Card::new(Rank::Num(0), Suit::Clubs)), "0, Clubs");
    assert_eq!(
        Card::card_to_string(Card::new(Rank::Num(4294967295), Suit::Clubs)),
        "4294967295, Clubs"
    );
    assert_eq!(Card::card_to_string(Card::new(Rank::Num(1203), Suit::Clubs)), "1203, Clubs");
}

#[test]
fn display_form_of_a_card() {
    assert_eq!(Card::new(Rank::Num(6), Suit::Clubs).to_string(), "6 of Clubs");
    assert_eq!(Card::new(Rank::Num(10), Suit::Hearts).to_string(), "10 of Hearts");
    assert_eq!(Card::new(Rank::Ace, Suit::Spades).to_string(), "Ace of Spades");
    assert_eq!(Card::new(Rank::Jack, Suit::Diamonds).to_string(), "Jack of Diamonds");
    assert_eq!(Card::new(Rank::Queen, Suit::Hearts).to_string(), "Queen of Hearts");
    assert_eq!(Card::new(Rank::King, Suit::Clubs).to_string(), "King of Clubs");
}

#[test]
fn rank_labels() {
    assert_eq!(Rank::Num(7).label(), "7");
    assert_eq!(Rank::Jack.label(), "Jack");
    assert_eq!(Rank::Queen.label(), "Queen");
    assert_eq!(Rank::King.label(), "King");
    assert_eq!(Rank::Ace.label(), "Ace");
}

#[test]
fn get_suit_reads_the_four_names() {
    assert_eq!(Card::get_suit("Hearts".to_string()), Suit::Hearts);
    assert_eq!(Card::get_suit("Diamonds".to_string()), Suit::Diamonds);
    assert_eq!(Card::get_suit("Spades".to_string()), Suit::Spades);
    assert_eq!(Card::get_suit("Clubs".to_string()), Suit::Clubs);
}

#[test]
fn get_suit_passes_over_surrounding_white_space() {
    assert_eq!(Card::get_suit("  Clubs\r\n".to_string()), Suit::Clubs);
    assert_eq!(Card::get_suit("\tSpades ".to_string()), Suit::Spades);
    assert_eq!(Card::get_suit("\u{2003}Hearts\u{a0}".to_string()), Suit::Hearts);
}

#[test]
fn suit_parse_tells_names_from_other_text() {
    assert_eq!(Suit::parse("Hearts"), Some(Suit::Hearts));
    assert_eq!(Suit::parse(" Diamonds "), Some(Suit::Diamonds));
    assert_eq!(Suit::parse("hearts"), None);
    assert_eq!(Suit::parse("Heart"), None);
    assert_eq!(Suit::parse("Heartss"), None);
    assert_eq!(Suit::parse("Hea rts"), None);
    assert_eq!(Suit::parse(""), None);
    assert_eq!(Suit::parse("   "), None);
}

fn same(card: Card, rank: Rank, suit: Suit) -> bool {
    card.rank == rank && card.suit == suit
}

#[test]
fn parse_card_reads_the_wire_form() {
    assert!(same(Card::parse_card("6, Clubs".to_string()), Rank::Num(6), Suit::Clubs));
    assert!(same(Card::parse_card("2, Hearts".to_string()), Rank::Num(2), Suit::Hearts));
    assert!(same(Card::parse_card("10, Spades".to_string()), Rank::Num(10), Suit::Spades));
    assert!(same(Card::parse_card("1, Diamonds".to_string()), Rank::Ace, Suit::Diamonds));
    assert!(same(Card::parse_card("11, Diamonds".to_string()), Rank::Jack, Suit::Diamonds));
    assert!(same(Card::parse_card("12, Diamonds".to_string()), Rank::Queen, Suit::Diamonds));
    assert!(same(Card::parse_card("13, Diamonds".to_string()), Rank::King, Suit::Diamonds));
}

#[test]
fn parse_card_reads_what_card_to_string_writes() {
    let suits = [Suit::Hearts, Suit::Diamonds, Suit::Spades, Suit::Clubs];
    for suit in suits.iter() {
        for n in 1..=13 {
            let rank = Rank::from_value(n).unwrap();
            let card = Card::new(rank, *suit);
            let back = Card::parse_card(Card::card_to_string(card));
            assert!(same(back, rank, *suit));
        }
    }
}

#[test]
fn parse_card_passes_over_white_space_round_the_suit() {
    assert!(same(Card::parse_card("6, Clubs\r\n".to_string()), Rank::Num(6), Suit::Clubs));
    assert!(same(Card::parse_card("6,  Clubs ".to_string()), Rank::Num(6), Suit::Clubs));
}

#[test]
fn parse_card_reads_the_last_two_parts() {
    assert!(same(Card::parse_card("junk, 6, Clubs".to_string()), Rank::Num(6), Suit::Clubs));
    assert!(same(Card::parse_card("3, 4, Hearts".to_string()), Rank::Num(4), Suit::Hearts));
}

#[test]
fn parse_card_takes_a_sign_and_leading_zeros() {
    assert!(same(Card::parse_card("+6, Clubs".to_string()), Rank::Num(6), Suit::Clubs));
    assert!(same(Card::parse_card("007, Clubs".to_string()), Rank::Num(7), Suit::Clubs));
    assert!(same(Card::parse_card("0000000000000013, Clubs".to_string()), Rank::King, Suit::Clubs));
}

#[test]
fn parse_tells_cards_from_other_text() {
    assert!(Card::parse("6, Clubs").is_some());
    assert!(Card::parse("").is_none());
    assert!(Card::parse("6").is_none());
    assert!(Card::parse("Clubs").is_none());
    assert!(Card::parse("6,Clubs").is_none());
    assert!(Card::parse("6 Clubs").is_none());
    assert!(Card::parse("0, Clubs").is_none());
    assert!(Card::parse("14, Clubs").is_none());
    assert!(Card::parse("4294967296, Clubs").is_none());
    assert!(Card::parse("99999999999999999999, Clubs").is_none());
    assert!(Card::parse("-6, Clubs").is_none());
    assert!(Card::parse("+, Clubs").is_none());
    assert!(Card::parse(", Clubs").is_none());
    assert!(Card::parse(" 6, Clubs").is_none());
    assert!(Card::parse("6 , Clubs").is_none());
    assert!(Card::parse("six, Clubs").is_none());
    assert!(Card::parse("6, Club").is_none());
    assert!(Card::parse("6, clubs").is_none());
    assert!(Card::parse("6, Clubs, ").is_none());
    assert!(Card::parse("6, Clubs,").is_none());
    assert!(Card::parse("6x, Clubs").is_none());
    assert!(Card::parse("6,, Clubs").is_none());
}
