//! Cards: suit, rank and the rank-only equality that the game plays by.

use crate::text::{
    chars_of, decimal, decimal_string, drop_spaces, find_last_separator, is_digit, is_space,
    last_separator_before, lemma_decimal_reads_back, lemma_one_separator, number_of_text,
    parse_number, skip_spaces, slice_of, spells, trim_bounds, trimmed,
};
use vstd::prelude::*;
use vstd::std_specs::cmp::PartialEqSpecImpl;

verus! {

/// Suit of a card. It never takes part in a comparison of cards.
#[derive(Debug, Clone, Copy, PartialEq, Eq, Structural)]
pub enum Suit {
    Hearts,
    Diamonds,
    Spades,
    Clubs,
}

/// Rank of a card. A number card carries its number; a standard deck holds
/// the numbers 2 to 10.
#[derive(Debug, Clone, Copy, PartialEq, Eq, Structural)]
pub enum Rank {
    Num(u32),
    Jack,
    Queen,
    King,
    Ace,
}

/// A playing card.
#[derive(Debug, Clone, Copy, Eq)]
pub struct Card {
    pub rank: Rank,
    pub suit: Suit,
}

impl Rank {
    /// The number a rank counts as: a number card's own number, 11 to 13 for
    /// the faces, 1 for the ace.
    pub open spec fn spec_value(self) -> u32 {
        match self {
            Rank::Num(n) => n,
            Rank::Jack => 11,
            Rank::Queen => 12,
            Rank::King => 13,
            Rank::Ace => 1,
        }
    }

    /// Whether the rank occurs in a standard deck.
    pub open spec fn is_standard(self) -> bool {
        self matches Rank::Num(n) ==> 2 <= n <= 10
    }

    /// The number the rank counts as.
    #[verifier::when_used_as_spec(spec_value)]
    pub fn value(self) -> (v: u32)
        ensures
            v == self.spec_value(),
            self.is_standard() ==> 1 <= v <= 13,
    {
        match self {
            Rank::Num(n) => n,
            Rank::Jack => 11,
            Rank::Queen => 12,
            Rank::King => 13,
            Rank::Ace => 1,
        }
    }
}

/// Cards are equal when their ranks are: the suit is not looked at.
impl PartialEq<Card> for Card {
    fn eq(&self, other: &Card) -> (r: bool) {
        self.rank == other.rank
    }
}

impl PartialEqSpecImpl<Card> for Card {
    open spec fn obeys_eq_spec() -> bool {
        true
    }

    open spec fn eq_spec(&self, other: &Card) -> bool {
        self.rank == other.rank
    }
}

/// A card equals a bare number when its rank counts as that number.
impl PartialEq<u32> for Card {
    fn eq(&self, other: &u32) -> (r: bool) {
        self.rank.value() == *other
    }
}

impl PartialEqSpecImpl<u32> for Card {
    open spec fn obeys_eq_spec() -> bool {
        true
    }

    open spec fn eq_spec(&self, other: &u32) -> bool {
        self.rank.spec_value() == *other
    }
}

impl Card {
    /// Whether the card occurs in a standard deck.
    pub open spec fn is_standard(self) -> bool {
        self.rank.is_standard()
    }

    /// The card of that rank and suit.
    pub fn new(rank: Rank, suit: Suit) -> (card: Card)
        ensures
            card.rank == rank,
            card.suit == suit,
    {
        Card { rank, suit }
    }
}

impl Suit {
    /// The suit's name, as it is written on the wire and shown to a player.
    pub open spec fn spec_name(self) -> Seq<char> {
        match self {
            Suit::Hearts => "Hearts"@,
            Suit::Diamonds => "Diamonds"@,
            Suit::Spades => "Spades"@,
            Suit::Clubs => "Clubs"@,
        }
    }

    /// The suit that `name` names, if it names one.
    pub open spec fn of_name(name: Seq<char>) -> Option<Suit> {
        if name == "Hearts"@ {
            Some(Suit::Hearts)
        } else if name == "Diamonds"@ {
            Some(Suit::Diamonds)
        } else if name == "Spades"@ {
            Some(Suit::Spades)
        } else if name == "Clubs"@ {
            Some(Suit::Clubs)
        } else {
            None
        }
    }

    /// The suit's name.
    pub fn value(self) -> (name: String)
        ensures
            name@ == self.spec_name(),
    {
        match self {
            Suit::Hearts => String::from_str("Hearts"),
            Suit::Diamonds => String::from_str("Diamonds"),
            Suit::Spades => String::from_str("Spades"),
            Suit::Clubs => String::from_str("Clubs"),
        }
    }

    /// Reads a suit from the characters of `chars` from `from` up to `to`.
    pub fn from_chars(chars: &Vec<char>, from: usize, to: usize) -> (r: Option<Suit>)
        requires
            from <= to <= chars.len(),
        ensures
            r == Suit::of_name(chars@.subrange(from as int, to as int)),
    {
        if spells(chars, from, to, "Hearts") {
            Some(Suit::Hearts)
        } else if spells(chars, from, to, "Diamonds") {
            Some(Suit::Diamonds)
        } else if spells(chars, from, to, "Spades") {
            Some(Suit::Spades)
        } else if spells(chars, from, to, "Clubs") {
            Some(Suit::Clubs)
        } else {
            None
        }
    }

    /// Reads a suit from its name; white space around the name is passed over.
    pub fn parse(text: &str) -> (r: Option<Suit>)
        ensures
            r == Suit::of_name(trimmed(text@)),
    {
        let chars = chars_of(text);
        let (from, to) = trim_bounds(&chars);
        Suit::from_chars(&chars, from, to)
    }
}

impl Rank {
    /// The standard rank that counts as `n`, for `n` from 1 to 13.
    pub open spec fn of_value(n: u32) -> Option<Rank> {
        if 2 <= n <= 10 {
            Some(Rank::Num(n))
        } else if n == 11 {
            Some(Rank::Jack)
        } else if n == 12 {
            Some(Rank::Queen)
        } else if n == 13 {
            Some(Rank::King)
        } else if n == 1 {
            Some(Rank::Ace)
        } else {
            None
        }
    }

    /// The standard rank that counts as `n`.
    pub fn from_value(n: u32) -> (r: Option<Rank>)
        ensures
            r == Rank::of_value(n),
            r is Some <==> 1 <= n <= 13,
            r matches Some(rank) ==> rank.is_standard() && rank.spec_value() == n,
    {
        if n > 1 && n <= 10 {
            Some(Rank::Num(n))
        } else if n == 11 {
            Some(Rank::Jack)
        } else if n == 12 {
            Some(Rank::Queen)
        } else if n == 13 {
            Some(Rank::King)
        } else if n == 1 {
            Some(Rank::Ace)
        } else {
            None
        }
    }

    /// The rank as a player reads it: a number card's number, or the name of
    /// a face or of the ace.
    pub open spec fn spec_label(self) -> Seq<char> {
        match self {
            Rank::Num(n) => decimal(n as nat),
            Rank::Jack => "Jack"@,
            Rank::Queen => "Queen"@,
            Rank::King => "King"@,
            Rank::Ace => "Ace"@,
        }
    }

    /// The rank as a player reads it.
    pub fn label(self) -> (s: String)
        ensures
            s@ == self.spec_label(),
    {
        match self {
            Rank::Num(n) => decimal_string(n),
            Rank::Jack => String::from_str("Jack"),
            Rank::Queen => String::from_str("Queen"),
            Rank::King => String::from_str("King"),
            Rank::Ace => String::from_str("Ace"),
        }
    }
}

impl Card {
    /// The card on the wire: the number its rank counts as, a comma and a
    /// space, and the suit's name.
    pub open spec fn spec_wire(self) -> Seq<char> {
        decimal(self.rank.spec_value() as nat) + ", "@ + self.suit.spec_name()
    }

    /// The card as a player reads it: rank, ` of `, suit.
    pub open spec fn spec_display(self) -> Seq<char> {
        self.rank.spec_label() + " of "@ + self.suit.spec_name()
    }

    /// The card that `text` stands for on the wire. The last separator parts
    /// the suit from what comes before; of that, only what follows the
    /// separator before counts, and it must be a numeral from 1 to 13.
    pub open spec fn of_wire(text: Seq<char>) -> Option<Card> {
        let j = last_separator_before(text, text.len() as int);
        if j < 0 {
            None
        } else {
            let i = last_separator_before(text, j);
            let rank_text = text.subrange(if i < 0 { 0 } else { i + 2 }, j);
            let suit_text = text.subrange(j + 2, text.len() as int);
            match (number_of_text(rank_text), Suit::of_name(trimmed(suit_text))) {
                (Some(n), Some(suit)) => match Rank::of_value(n) {
                    Some(rank) => Some(Card { rank, suit }),
                    None => None,
                },
                _ => None,
            }
        }
    }

    /// Writes the card as it goes over the wire.
    pub fn card_to_string(card: Card) -> (s: String)
        ensures
            s@ == card.spec_wire(),
    {
        let mut s = decimal_string(card.rank.value());
        s.append(", ");
        s.append(card.suit.value().as_str());
        s
    }

    /// Writes the card as a player reads it.
    pub fn to_string(&self) -> (s: String)
        ensures
            s@ == self.spec_display(),
    {
        let mut s = self.rank.label();
        s.append(" of ");
        s.append(self.suit.value().as_str());
        s
    }

    /// Reads a card from its wire form, or tells that `text` is none.
    pub fn parse(text: &str) -> (r: Option<Card>)
        ensures
            r == Card::of_wire(text@),
    {
        let chars = chars_of(text);
        let n = chars.len();
        let j = match find_last_separator(&chars, n) {
            Some(j) => j,
            None => { return None; },
        };
        let start: usize = match find_last_separator(&chars, j) {
            Some(i) => i + 2,
            None => 0,
        };
        let number = parse_number(&chars, start, j);
        let suit_chars = slice_of(&chars, j + 2, n);
        let (from, to) = trim_bounds(&suit_chars);
        let suit = Suit::from_chars(&suit_chars, from, to);
        match (number, suit) {
            (Some(n), Some(suit)) => match Rank::from_value(n) {
                Some(rank) => Some(Card { rank, suit }),
                None => None,
            },
            _ => None,
        }
    }

    /// The suit that `suit` names; white space around the name is passed
    /// over.
    pub fn get_suit(suit: String) -> (r: Suit)
        requires
            Suit::of_name(trimmed(suit@)) is Some,
        ensures
            Some(r) == Suit::of_name(trimmed(suit@)),
    {
        Suit::parse(suit.as_str()).unwrap()
    }

    /// The card that `card_string` stands for on the wire.
    pub fn parse_card(card_string: String) -> (card: Card)
        requires
            Card::of_wire(card_string@) is Some,
        ensures
            Some(card) == Card::of_wire(card_string@),
            card.is_standard(),
    {
        Card::parse(card_string.as_str()).unwrap()
    }
}

/// A suit's name is read back as the suit: the four names differ, and none
/// holds a comma or white space.
pub proof fn lemma_suit_name_reads_back(suit: Suit)
    ensures
        Suit::of_name(trimmed(suit.spec_name())) == Some(suit),
        Suit::of_name(suit.spec_name()) == Some(suit),
        forall|i: int| 0 <= i < suit.spec_name().len() ==> suit.spec_name()[i] != ',',
{
    reveal_strlit("Hearts");
    reveal_strlit("Diamonds");
    reveal_strlit("Spades");
    reveal_strlit("Clubs");
    let name = suit.spec_name();
    assert(!is_space(name[0]));
    assert(!is_space(name[name.len() - 1]));
    assert(skip_spaces(name, 0) == 0);
    assert(drop_spaces(name, 0, name.len() as int) == name.len());
    assert(trimmed(name) =~= name);
    assert("Hearts"@[0] != "Diamonds"@[0]);
    assert("Hearts"@[0] != "Spades"@[0]);
    assert("Hearts"@[0] != "Clubs"@[0]);
    assert("Diamonds"@[0] != "Spades"@[0]);
    assert("Diamonds"@[0] != "Clubs"@[0]);
    assert("Spades"@[0] != "Clubs"@[0]);
}

/// What `card_to_string` writes of a standard card, `parse_card` reads back
/// as that card.
pub proof fn lemma_wire_round_trip(card: Card)
    requires
        card.is_standard(),
    ensures
        Card::of_wire(card.spec_wire()) == Some(card),
{
    let value = card.rank.spec_value();
    let numeral = decimal(value as nat);
    let name = card.suit.spec_name();
    lemma_decimal_reads_back(value as nat);
    lemma_suit_name_reads_back(card.suit);
    assert forall|i: int| 0 <= i < numeral.len() implies numeral[i] != ',' by {
        assert(is_digit(numeral[i]));
    }
    lemma_one_separator(numeral, name);
    assert(Rank::of_value(value) == Some(card.rank));
}

} // verus!
