//! The combination detector: what the newest two or three cards of the pile
//! amount to. The pile is ordered oldest first, so its top is its last card.

use crate::card::Card;
use vstd::prelude::*;

verus! {

/// A scoring combination on top of the pile.
#[derive(Debug, Clone, Copy, PartialEq, Eq, Structural)]
pub enum Combination {
    /// The top two cards have one rank.
    Pair,
    /// The top two cards are a six and a nine.
    SixtyNine,
    /// The top card and the third from the top have one rank.
    Sandwich,
    /// The top card and the third from the top are a six and a nine.
    SixtyNineSandwich,
    /// The top three cards have three ranks in a row, in any order.
    Run,
}

/// The card `depth` places below the top of `pile`; the top itself is at
/// depth 0.
pub open spec fn from_top(pile: Seq<Card>, depth: int) -> Card
    recommends
        0 <= depth < pile.len(),
{
    pile[pile.len() - 1 - depth]
}

/// One card counts as 6 and the other as 9.
pub open spec fn sixty_nine(left: Card, right: Card) -> bool {
    ||| left.rank.spec_value() == 6 && right.rank.spec_value() == 9
    ||| right.rank.spec_value() == 6 && left.rank.spec_value() == 9
}

/// Two of the three cards have one rank.
pub open spec fn some_pair(left: Card, middle: Card, right: Card) -> bool {
    left.rank == middle.rank || left.rank == right.rank || middle.rank == right.rank
}

/// The card counts as 1: it is an ace.
pub open spec fn ace(card: Card) -> bool {
    card.rank.spec_value() == 1
}

/// The two numbers differ by exactly one.
pub open spec fn one_apart(x: int, y: int) -> bool {
    x - y == 1 || y - x == 1
}

/// The two cards stand next to each other in the order of ranks, where an
/// ace counts as 1 and as 14 alike.
pub open spec fn sequential(left: Card, right: Card) -> bool {
    let x = left.rank.spec_value() as int;
    let y = right.rank.spec_value() as int;
    ||| one_apart(x, y)
    ||| ace(left) && one_apart(14, y)
    ||| ace(right) && one_apart(x, 14)
}

/// The three cards form a run: no two of them share a rank, and one of them
/// stands next to both others.
pub open spec fn run_of(left: Card, middle: Card, right: Card) -> bool {
    &&& !some_pair(left, middle, right)
    &&& {
        ||| sequential(left, middle) && sequential(middle, right)
        ||| sequential(left, right) && sequential(middle, right)
        ||| sequential(left, middle) && sequential(left, right)
    }
}

/// The combination on top of `pile`, if there is one. Where several are
/// there at once, the first in this order is named: pair, sixty-nine,
/// sandwich, sixty-nine sandwich, run. A pile of fewer than two cards holds
/// none, and one of two cards only a pair or a sixty-nine.
pub open spec fn combination_of(pile: Seq<Card>) -> Option<Combination> {
    if pile.len() < 2 {
        None
    } else if from_top(pile, 0).rank == from_top(pile, 1).rank {
        Some(Combination::Pair)
    } else if sixty_nine(from_top(pile, 0), from_top(pile, 1)) {
        Some(Combination::SixtyNine)
    } else if pile.len() < 3 {
        None
    } else if from_top(pile, 0).rank == from_top(pile, 2).rank {
        Some(Combination::Sandwich)
    } else if sixty_nine(from_top(pile, 0), from_top(pile, 2)) {
        Some(Combination::SixtyNineSandwich)
    } else if run_of(from_top(pile, 0), from_top(pile, 1), from_top(pile, 2)) {
        Some(Combination::Run)
    } else {
        None
    }
}

/// Whether the top two cards have one rank.
pub fn is_pair(pile: &Vec<Card>) -> (r: bool)
    requires
        pile.len() >= 2,
    ensures
        r == (from_top(pile@, 0).rank == from_top(pile@, 1).rank),
{
    pile[pile.len() - 1] == pile[pile.len() - 2]
}

/// Whether the top card and the third from the top have one rank.
pub fn is_sandwich(pile: &Vec<Card>) -> (r: bool)
    requires
        pile.len() >= 3,
    ensures
        r == (from_top(pile@, 0).rank == from_top(pile@, 2).rank),
{
    pile[pile.len() - 1] == pile[pile.len() - 3]
}

/// Whether one of the two cards counts as 6 and the other as 9.
pub fn is_sixty_nine_match(left: Card, right: Card) -> (r: bool)
    ensures
        r == sixty_nine(left, right),
{
    let six: u32 = 6;
    let nine: u32 = 9;
    if left == six && right == nine {
        return true;
    }
    if right == six && left == nine {
        return true;
    }
    false
}

/// Whether the top two cards are a six and a nine.
pub fn is_sixty_nine(pile: &Vec<Card>) -> (r: bool)
    requires
        pile.len() >= 2,
    ensures
        r == sixty_nine(from_top(pile@, 0), from_top(pile@, 1)),
{
    is_sixty_nine_match(pile[pile.len() - 1], pile[pile.len() - 2])
}

/// Whether the top card and the third from the top are a six and a nine.
pub fn is_sixty_nine_sandwich(pile: &Vec<Card>) -> (r: bool)
    requires
        pile.len() >= 3,
    ensures
        r == sixty_nine(from_top(pile@, 0), from_top(pile@, 2)),
{
    is_sixty_nine_match(pile[pile.len() - 1], pile[pile.len() - 3])
}

/// Whether two of the three cards have one rank.
pub fn find_pair_run(left: Card, middle: Card, right: Card) -> (r: bool)
    ensures
        r == some_pair(left, middle, right),
{
    left == middle || left == right || middle == right
}

/// Whether the card is an ace.
pub fn is_ace(card: Card) -> (r: bool)
    ensures
        r == ace(card),
{
    card.rank.value() == 1
}

/// Whether the two cards stand next to each other in the order of ranks,
/// an ace counting as 1 and as 14.
pub fn find_abs(left: Card, right: Card) -> (r: bool)
    ensures
        r == sequential(left, right),
{
    let x: u64 = left.rank.value() as u64;
    let y: u64 = right.rank.value() as u64;
    if is_ace(left) && (y == 13 || y == 15) {
        return true;
    }
    if is_ace(right) && (x == 13 || x == 15) {
        return true;
    }
    x + 1 == y || y + 1 == x
}

/// Whether the top three cards form a run.
pub fn is_run(pile: &Vec<Card>) -> (r: bool)
    requires
        pile.len() >= 3,
    ensures
        r == run_of(from_top(pile@, 0), from_top(pile@, 1), from_top(pile@, 2)),
{
    let left = pile[pile.len() - 1];
    let middle = pile[pile.len() - 2];
    let right = pile[pile.len() - 3];
    if !find_pair_run(left, middle, right) {
        let one_two = find_abs(left, middle);
        let one_three = find_abs(left, right);
        let two_three = find_abs(middle, right);
        if one_two && two_three {
            return true;
        }
        if one_three && two_three {
            return true;
        }
        if one_two && one_three {
            return true;
        }
    }
    false
}

/// Names the combination on top of the pile, if there is one.
pub fn find_combination(pile: &Vec<Card>) -> (r: Option<Combination>)
    ensures
        r == combination_of(pile@),
{
    if pile.len() < 2 {
        return None;
    }
    if is_pair(pile) {
        return Some(Combination::Pair);
    } else if is_sixty_nine(pile) {
        return Some(Combination::SixtyNine);
    }
    if pile.len() > 2 {
        if is_sandwich(pile) {
            return Some(Combination::Sandwich);
        } else if is_sixty_nine_sandwich(pile) {
            return Some(Combination::SixtyNineSandwich);
        } else if is_run(pile) {
            return Some(Combination::Run);
        }
    }
    None
}

/// Whether there is a combination on top of the pile.
pub fn test_pile(pile: &Vec<Card>) -> (r: bool)
    ensures
        r == combination_of(pile@) is Some,
        pile.len() < 2 ==> !r,
{
    find_combination(pile).is_some()
}

/// The order in which the three cards lie does not matter to a run.
pub proof fn lemma_run_any_order(a: Card, b: Card, c: Card)
    ensures
        run_of(a, b, c) == run_of(a, c, b),
        run_of(a, b, c) == run_of(b, a, c),
        run_of(a, b, c) == run_of(b, c, a),
        run_of(a, b, c) == run_of(c, a, b),
        run_of(a, b, c) == run_of(c, b, a),
{
}

/// Two cards of one rank among the three rule out a run.
pub proof fn lemma_pair_masks_run(a: Card, b: Card, c: Card)
    requires
        some_pair(a, b, c),
    ensures
        !run_of(a, b, c),
{
}

/// Only the top three cards count: two piles of three cards or more that
/// end in the same three hold the same combination.
pub proof fn lemma_only_the_top_counts(p: Seq<Card>, q: Seq<Card>)
    requires
        p.len() >= 3,
        q.len() >= 3,
        from_top(p, 0) == from_top(q, 0),
        from_top(p, 1) == from_top(q, 1),
        from_top(p, 2) == from_top(q, 2),
    ensures
        combination_of(p) == combination_of(q),
{
}

} // verus!
