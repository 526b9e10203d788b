//! The deck: the 52 cards in their fixed order, and shuffling.
//!
//! Shuffling is done by the `rand` crate. Its functions stand behind the
//! trusted items at the end of this file; their contracts are believed, not
//! proved.

use crate::card::{Card, Rank, Suit};
use vstd::prelude::*;

verus! {

/// The suit of the `k`-th block of thirteen cards in the deck.
pub open spec fn suit_at(k: int) -> Suit {
    if k == 0 {
        Suit::Hearts
    } else if k == 1 {
        Suit::Diamonds
    } else if k == 2 {
        Suit::Clubs
    } else {
        Suit::Spades
    }
}

/// The rank of the `k`-th card of a suit: the numbers 2 to 10, then jack,
/// queen, king, ace.
pub open spec fn rank_at(k: int) -> Rank {
    if 0 <= k < 9 {
        Rank::Num((k + 2) as u32)
    } else if k == 9 {
        Rank::Jack
    } else if k == 10 {
        Rank::Queen
    } else if k == 11 {
        Rank::King
    } else {
        Rank::Ace
    }
}

/// The card at place `i` of the deck.
pub open spec fn card_at(i: int) -> Card {
    Card { rank: rank_at(i % 13), suit: suit_at(i / 13) }
}

/// The deck in its fixed order: suit by suit, and within a suit rank by rank.
pub open spec fn full_deck() -> Seq<Card> {
    Seq::new(52, |i: int| card_at(i))
}

/// The place of a suit's block in the deck.
pub open spec fn suit_place(suit: Suit) -> int {
    match suit {
        Suit::Hearts => 0,
        Suit::Diamonds => 1,
        Suit::Clubs => 2,
        Suit::Spades => 3,
    }
}

/// The place of a rank within its suit.
pub open spec fn rank_place(rank: Rank) -> int {
    match rank {
        Rank::Num(n) => n - 2,
        Rank::Jack => 9,
        Rank::Queen => 10,
        Rank::King => 11,
        Rank::Ace => 12,
    }
}

/// The place of a standard card in the deck.
pub open spec fn place_of(card: Card) -> int {
    suit_place(card.suit) * 13 + rank_place(card.rank)
}

/// The deck holds every standard card, each at its own place, and nothing
/// else: 52 cards, every pairing of a rank with a suit exactly once.
pub proof fn lemma_deck_is_complete()
    ensures
        full_deck().len() == 52,
        forall|i: int| 0 <= i < 52 ==> (#[trigger] full_deck()[i]).is_standard(),
        forall|i: int| 0 <= i < 52 ==> place_of(#[trigger] full_deck()[i]) == i,
        forall|card: Card|
            card.is_standard() ==> 0 <= #[trigger] place_of(card) < 52 && full_deck()[place_of(
                card,
            )] == card,
        full_deck().no_duplicates(),
{
    assert forall|i: int| 0 <= i < 52 implies place_of(#[trigger] full_deck()[i]) == i by {
        assert(full_deck()[i] == card_at(i));
    }
    assert forall|i: int, j: int| 0 <= i < 52 && 0 <= j < 52 && i != j implies full_deck()[i]
        != full_deck()[j] by {
        assert(place_of(full_deck()[i]) == i);
        assert(place_of(full_deck()[j]) == j);
    }
}

/// Every rank is in the deck once in each of the four suits, and nowhere
/// else.
pub proof fn lemma_four_of_each_rank(rank: Rank, i: int)
    requires
        rank.is_standard(),
        0 <= i < 52,
    ensures
        full_deck()[i].rank == rank <==> i % 13 == rank_place(rank),
        0 <= rank_place(rank) < 13,
{
    assert(full_deck()[i] == card_at(i));
}

fn suit_in_deck(k: usize) -> (suit: Suit)
    requires
        k < 4,
    ensures
        suit == suit_at(k as int),
{
    if k == 0 {
        Suit::Hearts
    } else if k == 1 {
        Suit::Diamonds
    } else if k == 2 {
        Suit::Clubs
    } else {
        Suit::Spades
    }
}

fn face_in_deck(k: usize) -> (rank: Rank)
    requires
        9 <= k < 13,
    ensures
        rank == rank_at(k as int),
{
    if k == 9 {
        Rank::Jack
    } else if k == 10 {
        Rank::Queen
    } else if k == 11 {
        Rank::King
    } else {
        Rank::Ace
    }
}

/// Builds the deck in its fixed order.
pub fn make_deck() -> (deck: Vec<Card>)
    ensures
        deck@ == full_deck(),
{
    let mut deck: Vec<Card> = Vec::new();
    let mut s: usize = 0;
    while s < 4
        invariant
            s <= 4,
            deck@.len() == 13 * s,
            forall|i: int| 0 <= i < deck@.len() ==> deck@[i] == card_at(i),
        decreases 4 - s,
    {
        let suit = suit_in_deck(s);
        let mut n: u32 = 2;
        while n < 11
            invariant
                s < 4,
                2 <= n <= 11,
                suit == suit_at(s as int),
                deck@.len() == 13 * s + (n - 2),
                forall|i: int| 0 <= i < deck@.len() ==> deck@[i] == card_at(i),
            decreases 11 - n,
        {
            deck.push(Card::new(Rank::Num(n), suit));
            n += 1;
        }
        let mut f: usize = 9;
        while f < 13
            invariant
                s < 4,
                9 <= f <= 13,
                suit == suit_at(s as int),
                deck@.len() == 13 * s + f,
                forall|i: int| 0 <= i < deck@.len() ==> deck@[i] == card_at(i),
            decreases 13 - f,
        {
            deck.push(Card::new(face_in_deck(f), suit));
            f += 1;
        }
        s += 1;
    }
    assert(deck@ =~= full_deck());
    deck
}

/// Shuffles the deck `passes` times over. Whatever the order that comes
/// out, the cards are the same; with no pass the deck stays as it lies.
pub fn shuffle_passes(deck: Vec<Card>, passes: usize) -> (shuffled: Vec<Card>)
    ensures
        shuffled@.to_multiset() == deck@.to_multiset(),
        shuffled@.len() == deck@.len(),
        passes == 0 ==> shuffled@ == deck@,
{
    let mut cards = deck;
    let mut rng = rand::thread_rng();
    let mut done: usize = 0;
    while done < passes
        invariant
            cards@.to_multiset() == deck@.to_multiset(),
            done <= passes,
            done == 0 ==> cards@ == deck@,
        decreases passes - done,
    {
        shuffle_with(&mut rng, &mut cards);
        done += 1;
    }
    proof {
        cards@.to_multiset_ensures();
        deck@.to_multiset_ensures();
    }
    cards
}

/// Shuffles the deck between five and fourteen times over; how often is
/// drawn at random. One pass already gives every order the same chance: the
/// further passes are a habit of the game, and change nothing that is
/// promised here.
pub fn shuffle_deck(deck: Vec<Card>) -> (shuffled: Vec<Card>)
    ensures
        shuffled@.to_multiset() == deck@.to_multiset(),
        shuffled@.len() == deck@.len(),
{
    let mut rng = rand::thread_rng();
    let passes = range_with(&mut rng, 5, 15);
    shuffle_passes(deck, passes)
}

/// `rand::rngs::ThreadRng`, the handle to the thread's random number
/// generator. Nothing is known of what is inside.
#[verifier::external_type_specification]
#[verifier::external_body]
pub struct ExThreadRng(rand::rngs::ThreadRng);

/// `rand::thread_rng` hands out the thread's generator. Nothing is claimed
/// of it. (It panics where the system has no entropy to seed the generator
/// with, which nothing here can rule out.)
pub assume_specification[ rand::thread_rng ]() -> (rng: rand::rngs::ThreadRng)
;

/// `rand::Rng::shuffle` reorders a slice in place by swapping pairs of its
/// elements. Claimed: the cards after the call are the cards before it, each
/// as often as before. Nothing is claimed of their order.
#[verifier::external_body]
fn shuffle_with(rng: &mut rand::rngs::ThreadRng, cards: &mut Vec<Card>)
    ensures
        final(cards)@.to_multiset() == old(cards)@.to_multiset(),
{
    rand::Rng::shuffle(rng, cards.as_mut_slice());
}

/// `rand::Rng::gen_range` draws a number from `low` up to, not including,
/// `high`, and panics unless `low < high`. Claimed: the bounds, nothing of
/// which number it is.
#[verifier::external_body]
fn range_with(rng: &mut rand::rngs::ThreadRng, low: usize, high: usize) -> (n: usize)
    requires
        low < high,
    ensures
        low <= n < high,
{
    rand::Rng::gen_range(rng, low, high)
}

/// `rand::random::<usize>` draws a machine word. Nothing is claimed of it.
#[verifier::external_body]
pub(crate) fn random_word() -> (word: usize)
{
    rand::random::<usize>()
}

} // verus!
