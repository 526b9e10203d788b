//! What holds of every session, whatever the cards and whatever the player
//! sends.

use crate::deck::{full_deck, lemma_deck_is_complete};
use crate::engine::{
    hand_played_from, lemma_play_keeps_cards, lemma_reaction_keeps_cards,
    lemma_refill_keeps_cards, play_result, step_result, Phase, SessionView,
};
use crate::player::{GameError, PlayerView, Role};
use crate::protocol::{Event, Notice};
use vstd::prelude::*;

verus! {

/// No step loses a card or makes one: the cards in the two hands, the two
/// side piles and the pile are after the step what they were before it.
pub proof fn lemma_step_keeps_cards(
    before: SessionView,
    event: Event,
    after: SessionView,
    notices: Seq<Notice>,
)
    requires
        step_result(before, event, after, notices),
    ensures
        after.cards() == before.cards(),
        before.intact() ==> after.intact(),
{
    match before.phase {
        Phase::AwaitingPlay(role) => {
            if event != Event::Quit && event != Event::ChannelFailure && (event == Event::Play
                || role == Role::Machine) {
                lemma_play_result_keeps_cards(before, after, notices);
            }
        },
        Phase::AwaitingReaction(role) => {
            lemma_reaction_keeps_cards(before, role, event);
        },
        _ => {},
    }
}

/// A play loses no card and makes none.
pub proof fn lemma_play_result_keeps_cards(
    before: SessionView,
    after: SessionView,
    notices: Seq<Notice>,
)
    requires
        play_result(before, after, notices),
    ensures
        after.cards() == before.cards(),
{
    if let Phase::AwaitingPlay(role) = before.phase {
        let p = before.player(role);
        if p.hand.len() > 0 {
            lemma_play_keeps_cards(before, role);
        } else if p.side_pile.len() > 0 {
            let taken = PlayerView {
                hand: hand_played_from(after, role),
                side_pile: Seq::empty(),
            };
            let mid = before.with_player(role, taken);
            lemma_refill_keeps_cards(p, taken);
            lemma_play_keeps_cards(mid, role);
        }
    }
}

/// Every step leaves a valid session valid: it still holds the 52 cards of
/// the deck, and unless it has ended no hand holds them all.
pub proof fn lemma_deck_stays_whole(
    before: SessionView,
    event: Event,
    after: SessionView,
    notices: Seq<Notice>,
)
    requires
        before.valid(),
        step_result(before, event, after, notices),
    ensures
        after.valid(),
        after.cards().len() == 52,
{
    lemma_step_keeps_cards(before, event, after, notices);
    lemma_hands_within_deck(before);
    lemma_hands_within_deck(after);
    lemma_win_is_immediate(before, event, after, notices);
}

/// A session that holds the cards of the deck holds 52 cards, counted over
/// its two hands, its two side piles and its pile.
pub proof fn lemma_hands_within_deck(s: SessionView)
    requires
        s.intact(),
    ensures
        s.cards().len() == 52,
        s.human.hand.len() + s.human.side_pile.len() + s.machine.hand.len()
            + s.machine.side_pile.len() + s.pile.len() == 52,
{
    broadcast use vstd::seq_lib::to_multiset_len;
    broadcast use vstd::multiset::group_multiset_axioms;

    lemma_deck_is_complete();
    assert(full_deck().to_multiset().len() == 52);
}

/// A role that is asked to play with an empty hand and an empty side pile
/// has lost: the session ends, and the other role has won.
pub proof fn lemma_exhausted_role_loses(
    before: SessionView,
    role: Role,
    after: SessionView,
    notices: Seq<Notice>,
)
    requires
        before.phase == Phase::AwaitingPlay(role),
        before.player(role).hand.len() == 0,
        before.player(role).side_pile.len() == 0,
        play_result(before, after, notices),
    ensures
        after.is_over(),
        after.winner() == Some(role.spec_opponent()),
        after == before.with_phase(Phase::GameOver(role.spec_opponent())),
{
}

/// A hand that comes to hold 52 cards ends the session at once, with its
/// role as the winner.
pub proof fn lemma_win_is_immediate(
    before: SessionView,
    event: Event,
    after: SessionView,
    notices: Seq<Notice>,
)
    requires
        before.intact(),
        step_result(before, event, after, notices),
    ensures
        forall|role: Role|
            (#[trigger] after.player(role)).won() && !before.player(role).won() ==> after.phase
                == Phase::GameOver(role),
        !before.is_over() && !before.human.won() && !before.machine.won() && !after.is_over()
            ==> !after.human.won() && !after.machine.won(),
{
    lemma_step_keeps_cards(before, event, after, notices);
    lemma_hands_within_deck(before);
    lemma_hands_within_deck(after);
    if let Phase::AwaitingPlay(role) = before.phase {
        let p = before.player(role);
        let plays = event != Event::Quit && event != Event::ChannelFailure && (event
            == Event::Play || role == Role::Machine);
        if plays && p.hand.len() == 0 && p.side_pile.len() > 0 {
            let taken = PlayerView {
                hand: hand_played_from(after, role),
                side_pile: Seq::empty(),
            };
            let mid = before.with_player(role, taken);
            lemma_refill_keeps_cards(p, taken);
            assert(mid.cards() =~= before.cards());
            lemma_hands_within_deck(mid);
        }
    }
}

/// A quit, while a play or a reaction is awaited, ends the session at once:
/// no card moves, and nobody has won.
pub proof fn lemma_quit_ends_session(before: SessionView, after: SessionView, notices: Seq<Notice>)
    requires
        before.phase is AwaitingPlay || before.phase is AwaitingReaction,
        step_result(before, Event::Quit, after, notices),
    ensures
        after == before.with_phase(Phase::Aborted(GameError::PlayerQuit)),
        after.is_over(),
        after.winner() is None,
        notices == seq![Notice::Quit],
{
}

/// A side pile gives up cards only to its own role's empty hand, and then
/// all of them: after any step a side pile either still begins with what it
/// held, or is empty and its role's hand was.
pub proof fn lemma_side_pile_only_refills(
    before: SessionView,
    event: Event,
    after: SessionView,
    notices: Seq<Notice>,
    role: Role,
)
    requires
        step_result(before, event, after, notices),
    ensures
        ({
            let held = before.player(role).side_pile;
            let left = after.player(role).side_pile;
            ||| held.len() <= left.len() && left.take(held.len() as int) == held
            ||| left.len() == 0 && before.player(role).hand.len() == 0 && before.phase
                == Phase::AwaitingPlay(role)
        }),
{
    let held = before.player(role).side_pile;
    let left = after.player(role).side_pile;
    if left == held {
        assert(left.take(held.len() as int) =~= held);
    } else if let Phase::AwaitingReaction(by) = before.phase {
        assert(left =~= held + before.pile.reverse());
        assert(left.take(held.len() as int) =~= held);
    }
}

} // verus!
