//! The two roles of a session and what each holds: a hand to play from and
//! a side pile of cards won.

use crate::card::Card;
use crate::deck::shuffle_deck;
use vstd::multiset::Multiset;
use vstd::prelude::*;

verus! {

/// Who plays: the human at the far end of the channel, or the machine.
#[derive(Debug, Clone, Copy, PartialEq, Eq, Structural)]
pub enum Role {
    Human,
    Machine,
}

impl Role {
    /// The other role.
    pub open spec fn spec_opponent(self) -> Role {
        match self {
            Role::Human => Role::Machine,
            Role::Machine => Role::Human,
        }
    }

    /// The other role.
    #[verifier::when_used_as_spec(spec_opponent)]
    pub fn opponent(self) -> (other: Role)
        ensures
            other == self.spec_opponent(),
    {
        match self {
            Role::Human => Role::Machine,
            Role::Machine => Role::Human,
        }
    }
}

/// What ends a session early, or is passed over without ending it.
#[derive(Debug, Clone, Copy, PartialEq, Eq, Structural)]
pub enum GameError {
    /// A line that is no command. It is passed over.
    MalformedCommand,
    /// A role had to play with no card in its hand and none in its side
    /// pile. The other role wins.
    HandExhausted,
    /// The player asked to quit. Nobody wins.
    PlayerQuit,
    /// The channel to the player failed. Nobody wins.
    ChannelFailure,
}

/// The number of cards in the deck, and so the size of a hand that has won.
pub const DECK_SIZE: usize = 52;

/// What a role holds. The top of the hand, from which a card is played, is
/// its last card.
pub struct PlayerState {
    pub hand: Vec<Card>,
    pub side_pile: Vec<Card>,
}

/// What a role holds, as two sequences of cards.
pub struct PlayerView {
    pub hand: Seq<Card>,
    pub side_pile: Seq<Card>,
}

impl View for PlayerState {
    type V = PlayerView;

    open spec fn view(&self) -> PlayerView {
        PlayerView { hand: self.hand@, side_pile: self.side_pile@ }
    }
}

impl PlayerView {
    /// The cards held, each as often as it is held, wherever it lies.
    pub open spec fn cards(self) -> Multiset<Card> {
        self.hand.to_multiset().add(self.side_pile.to_multiset())
    }

    /// Whether the hand holds the whole deck.
    pub open spec fn won(self) -> bool {
        self.hand.len() == DECK_SIZE
    }
}

/// Moves every card of `from` onto `onto`, the top card first, so that they
/// arrive in reverse order.
pub fn move_all(from: &mut Vec<Card>, onto: &mut Vec<Card>)
    ensures
        final(from)@.len() == 0,
        final(onto)@ == old(onto)@ + old(from)@.reverse(),
{
    let ghost start = onto@;
    let ghost source = from@;
    while from.len() > 0
        invariant
            from@.len() <= source.len(),
            from@ == source.take(from@.len() as int),
            onto@ == start + source.skip(from@.len() as int).reverse(),
        decreases from@.len(),
    {
        let ghost before = from@.len() as int;
        let card = from.pop().unwrap();
        onto.push(card);
        assert(onto@ =~= start + source.skip(before - 1).reverse());
    }
    assert(source.skip(0) =~= source);
}

impl PlayerState {
    /// A role that holds nothing yet.
    pub fn new() -> (state: PlayerState)
        ensures
            state@.hand.len() == 0,
            state@.side_pile.len() == 0,
    {
        PlayerState { hand: Vec::new(), side_pile: Vec::new() }
    }

    /// Puts a dealt card on top of the hand.
    pub fn add_to_hand(&mut self, card: Card)
        ensures
            final(self)@.hand == old(self)@.hand.push(card),
            final(self)@.side_pile == old(self)@.side_pile,
    {
        self.hand.push(card);
    }

    /// Takes the whole pile into the side pile, the top card of the pile
    /// first. The pile is left empty.
    pub fn add_to_side_pile(&mut self, pile: &mut Vec<Card>)
        ensures
            final(pile)@.len() == 0,
            final(self)@.side_pile == old(self)@.side_pile + old(pile)@.reverse(),
            final(self)@.hand == old(self)@.hand,
    {
        move_all(pile, &mut self.side_pile);
    }

    /// Shuffles the side pile and puts all of it on the hand. With an empty
    /// side pile there is nothing to take, and nothing changes.
    ///
    /// The order of the cards taken is random; they are the cards of the
    /// side pile, and they lie on top of what the hand held.
    pub fn add_side_pile_to_hand(&mut self) -> (r: Result<(), GameError>)
        ensures
            old(self)@.side_pile.len() == 0 ==> r == Err::<(), GameError>(GameError::HandExhausted)
                && final(self)@ == old(self)@,
            old(self)@.side_pile.len() > 0 ==> r is Ok && refilled(old(self)@, final(self)@),
    {
        if self.side_pile.len() == 0 {
            return Err(GameError::HandExhausted);
        }
        let mut side: Vec<Card> = Vec::new();
        std::mem::swap(&mut self.side_pile, &mut side);
        let mut shuffled = shuffle_deck(side);
        let ghost drawn = shuffled@;
        move_all(&mut shuffled, &mut self.hand);
        proof {
            drawn.lemma_reverse_to_multiset();
            assert(self@.hand.skip(old(self)@.hand.len() as int) =~= drawn.reverse());
            assert(self@.hand.take(old(self)@.hand.len() as int) =~= old(self)@.hand);
        }
        Ok(())
    }

    /// Whether the hand holds the whole deck.
    pub fn won(&self) -> (r: bool)
        ensures
            r == self@.won(),
    {
        self.hand.len() == DECK_SIZE
    }
}

/// What a refill leaves of `before`: the side pile is empty, the hand holds
/// what it held and, on top of that, the cards of the side pile in some
/// order.
pub open spec fn refilled(before: PlayerView, after: PlayerView) -> bool {
    let kept = before.hand.len() as int;
    &&& after.side_pile.len() == 0
    &&& after.hand.len() == kept + before.side_pile.len()
    &&& after.hand.take(kept) == before.hand
    &&& after.hand.skip(kept).to_multiset() == before.side_pile.to_multiset()
}

} // verus!
