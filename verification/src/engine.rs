//! The turn engine: a session from the deal to its end.
//!
//! The engine reads and writes nothing. Whoever drives it hands it one
//! [`Event`] at a time and gets back the [`Notice`]s to pass on to the
//! player; [`Session::awaits_command`] tells whether the next event is a
//! line from the player.

use crate::card::Card;
use crate::deck::{full_deck, make_deck, random_word, shuffle_deck};
use crate::detector::{combination_of, test_pile};
use crate::laws::lemma_deck_stays_whole;
use crate::player::{refilled, GameError, PlayerState, PlayerView, Role};
use crate::protocol::{Event, Notice};
use vstd::multiset::Multiset;
use vstd::prelude::*;

verus! {

/// Where a session stands.
#[derive(Debug, Clone, Copy, PartialEq, Eq, Structural)]
pub enum Phase {
    /// Nothing has been dealt yet.
    Dealing,
    /// The role is to put a card on the pile. The human does so on a
    /// command; the machine without one.
    AwaitingPlay(Role),
    /// The role has put its card on the pile, and the reaction to the pile
    /// is awaited.
    AwaitingReaction(Role),
    /// The session has ended, and the role has won it.
    GameOver(Role),
    /// The session has ended without a winner.
    Aborted(GameError),
}

/// A whole session: what the two roles hold, the pile between them, and the
/// phase. The top of the pile is its last card.
pub struct Session {
    pub human: PlayerState,
    pub machine: PlayerState,
    pub pile: Vec<Card>,
    pub phase: Phase,
}

/// A session as plain sequences of cards.
pub struct SessionView {
    pub human: PlayerView,
    pub machine: PlayerView,
    pub pile: Seq<Card>,
    pub phase: Phase,
}

impl View for Session {
    type V = SessionView;

    open spec fn view(&self) -> SessionView {
        SessionView {
            human: self.human@,
            machine: self.machine@,
            pile: self.pile@,
            phase: self.phase,
        }
    }
}

impl SessionView {
    /// What `role` holds.
    pub open spec fn player(self, role: Role) -> PlayerView {
        match role {
            Role::Human => self.human,
            Role::Machine => self.machine,
        }
    }

    /// The session with what `role` holds replaced.
    pub open spec fn with_player(self, role: Role, state: PlayerView) -> SessionView {
        match role {
            Role::Human => SessionView { human: state, ..self },
            Role::Machine => SessionView { machine: state, ..self },
        }
    }

    /// The session in another phase.
    pub open spec fn with_phase(self, phase: Phase) -> SessionView {
        SessionView { phase, ..self }
    }

    /// Every card of the session, each as often as it is there: in the two
    /// hands, the two side piles and the pile.
    pub open spec fn cards(self) -> Multiset<Card> {
        self.human.cards().add(self.machine.cards()).add(self.pile.to_multiset())
    }

    /// Whether the cards of the session are those of the deck: none lost,
    /// none twice.
    pub open spec fn intact(self) -> bool {
        self.cards() == full_deck().to_multiset()
    }

    /// Whether the session has ended.
    pub open spec fn is_over(self) -> bool {
        self.phase is GameOver || self.phase is Aborted
    }

    /// Whether the session is as a game can bring it about: its cards are
    /// those of the deck, and while it goes on no hand holds them all.
    pub open spec fn valid(self) -> bool {
        &&& self.intact()
        &&& !self.is_over() ==> !self.human.won() && !self.machine.won()
    }

    /// The role that has won, once one has.
    pub open spec fn winner(self) -> Option<Role> {
        match self.phase {
            Phase::GameOver(role) => Some(role),
            _ => None,
        }
    }

    /// Whether the session stands still until the player sends a line.
    pub open spec fn awaits_command(self) -> bool {
        self.phase == Phase::AwaitingPlay(Role::Human) || self.phase is AwaitingReaction
    }
}

/// The cards that a deal of `rounds` rounds hands to the human: the top
/// card of the deck and every second one below it.
pub open spec fn dealt_to_human(deck: Seq<Card>, rounds: int) -> Seq<Card> {
    Seq::new(rounds as nat, |i: int| deck[deck.len() - 1 - 2 * i])
}

/// The cards that a deal of `rounds` rounds hands to the machine: the
/// second card from the top of the deck and every second one below it.
pub open spec fn dealt_to_machine(deck: Seq<Card>, rounds: int) -> Seq<Card> {
    Seq::new(rounds as nat, |i: int| deck[deck.len() - 2 - 2 * i])
}

/// An empty sequence of cards holds no card.
pub proof fn lemma_no_cards(cards: Seq<Card>)
    requires
        cards.len() == 0,
    ensures
        cards.to_multiset() == Multiset::<Card>::empty(),
{
    assert forall|card: Card| cards.to_multiset().count(card) == 0 by {
        vstd::seq_lib::to_multiset_contains(cards, card);
    }
    assert(cards.to_multiset() =~= Multiset::<Card>::empty());
}

/// A deal loses no card and makes none: what the two roles are handed and
/// what stays in the deck are together the cards of the deck.
pub proof fn lemma_deal_keeps_cards(deck: Seq<Card>, rounds: int)
    requires
        0 <= rounds,
        2 * rounds <= deck.len(),
    ensures
        dealt_to_human(deck, rounds).to_multiset().add(
            dealt_to_machine(deck, rounds).to_multiset(),
        ).add(deck.take(deck.len() - 2 * rounds).to_multiset()) == deck.to_multiset(),
    decreases rounds,
{
    broadcast use vstd::seq_lib::to_multiset_build;

    let n = deck.len() as int;
    if rounds == 0 {
        assert(deck.take(n) =~= deck);
        assert(dealt_to_human(deck, 0) =~= Seq::<Card>::empty());
        assert(dealt_to_machine(deck, 0) =~= Seq::<Card>::empty());
        lemma_no_cards(dealt_to_human(deck, 0));
        lemma_no_cards(dealt_to_machine(deck, 0));
        assert(dealt_to_human(deck, 0).to_multiset().add(
            dealt_to_machine(deck, 0).to_multiset(),
        ).add(deck.to_multiset()) =~= deck.to_multiset());
    } else {
        let r = rounds - 1;
        lemma_deal_keeps_cards(deck, r);
        let h = deck[n - 1 - 2 * r];
        let m = deck[n - 2 - 2 * r];
        let rest = deck.take(n - 2 * rounds);
        assert(dealt_to_human(deck, rounds) =~= dealt_to_human(deck, r).push(h));
        assert(dealt_to_machine(deck, rounds) =~= dealt_to_machine(deck, r).push(m));
        assert(deck.take(n - 2 * r) =~= rest.push(m).push(h));
        assert(dealt_to_human(deck, rounds).to_multiset().add(
            dealt_to_machine(deck, rounds).to_multiset(),
        ).add(rest.to_multiset()) =~= dealt_to_human(deck, r).to_multiset().add(
            dealt_to_machine(deck, r).to_multiset(),
        ).add(deck.take(n - 2 * r).to_multiset()));
    }
}

/// Deals the deck from its top, a card to the human and then one to the
/// machine, for as long as two cards are left. Of a deck with an odd number
/// of cards the bottom card stays behind.
pub fn deal_hands(deck: &mut Vec<Card>, machine: &mut PlayerState, human: &mut PlayerState)
    ensures
        final(deck)@ == old(deck)@.take(old(deck)@.len() as int % 2),
        final(human)@.hand == old(human)@.hand + dealt_to_human(
            old(deck)@,
            old(deck)@.len() as int / 2,
        ),
        final(machine)@.hand == old(machine)@.hand + dealt_to_machine(
            old(deck)@,
            old(deck)@.len() as int / 2,
        ),
        final(human)@.side_pile == old(human)@.side_pile,
        final(machine)@.side_pile == old(machine)@.side_pile,
{
    let ghost full = deck@;
    let ghost human_before = human@;
    let ghost machine_before = machine@;
    let n = deck.len();
    let rounds = n / 2;
    let mut i: usize = 0;
    while i < rounds
        invariant
            i <= rounds == n / 2,
            n == full.len(),
            deck@ == full.take(n - 2 * i),
            human@.hand == human_before.hand + dealt_to_human(full, i as int),
            machine@.hand == machine_before.hand + dealt_to_machine(full, i as int),
            human@.side_pile == human_before.side_pile,
            machine@.side_pile == machine_before.side_pile,
        decreases rounds - i,
    {
        let first = deck.pop().unwrap();
        human.add_to_hand(first);
        let second = deck.pop().unwrap();
        machine.add_to_hand(second);
        assert(dealt_to_human(full, i + 1) =~= dealt_to_human(full, i as int).push(first));
        assert(dealt_to_machine(full, i + 1) =~= dealt_to_machine(full, i as int).push(second));
        assert(deck@ =~= full.take(n - 2 * (i + 1)));
        assert(human@.hand =~= human_before.hand + dealt_to_human(full, i + 1));
        assert(machine@.hand =~= machine_before.hand + dealt_to_machine(full, i + 1));
        i += 1;
    }
}

/// Which role moves first, decided by a random word: the machine on an even
/// word, the human on an odd one.
pub fn first_mover(word: usize) -> (role: Role)
    ensures
        role == if word % 2 == 0 {
            Role::Machine
        } else {
            Role::Human
        },
{
    if word % 2 == 0 {
        Role::Machine
    } else {
        Role::Human
    }
}

/// The session after `role` has played from a hand that holds a card: the
/// top card of the hand lies on the pile and the reaction is awaited. A role
/// that holds the whole deck in its hand plays no card: it has won. From an
/// empty hand nothing is played.
pub open spec fn played(s: SessionView, role: Role) -> SessionView {
    let p = s.player(role);
    if p.hand.len() == 0 {
        s
    } else if p.won() {
        s.with_phase(Phase::GameOver(role))
    } else {
        SessionView {
            pile: s.pile.push(p.hand.last()),
            phase: Phase::AwaitingReaction(role),
            ..s.with_player(
                role,
                PlayerView { hand: p.hand.drop_last(), side_pile: p.side_pile },
            )
        }
    }
}

/// What the player is told when `role` plays from a hand that holds a card.
pub open spec fn play_notices(s: SessionView, role: Role) -> Seq<Notice> {
    let p = s.player(role);
    if p.hand.len() == 0 {
        Seq::empty()
    } else if p.won() {
        seq![Notice::Won(role)]
    } else {
        seq![Notice::Pile]
    }
}

/// The hand that `role` played from, read off the session after the play.
pub open spec fn hand_played_from(after: SessionView, role: Role) -> Seq<Card> {
    if after.phase == Phase::AwaitingReaction(role) && after.pile.len() > 0 {
        after.player(role).hand.push(after.pile.last())
    } else {
        after.player(role).hand
    }
}

/// How a session may stand after the role whose play is awaited has played.
///
/// With a card in its hand the role plays it. With an empty hand and an
/// empty side pile it has lost, and the other role has won. With an empty
/// hand and cards in its side pile it first takes the side pile, shuffled,
/// into its hand: the order is random, so only this is said of the hand it
/// then plays from, that it holds the cards of the side pile.
/// In any other phase nothing happens.
pub open spec fn play_result(
    before: SessionView,
    after: SessionView,
    notices: Seq<Notice>,
) -> bool {
    match before.phase {
        Phase::AwaitingPlay(role) => {
            let p = before.player(role);
            if p.hand.len() > 0 {
                after == played(before, role) && notices == play_notices(before, role)
            } else if p.side_pile.len() == 0 {
                after == before.with_phase(Phase::GameOver(role.spec_opponent())) && notices
                    == seq![Notice::Exhausted(role)]
            } else {
                let taken = PlayerView {
                    hand: hand_played_from(after, role),
                    side_pile: Seq::empty(),
                };
                let mid = before.with_player(role, taken);
                refilled(p, taken) && after == played(mid, role) && notices == play_notices(
                    mid,
                    role,
                )
            }
        },
        _ => after == before && notices.len() == 0,
    }
}

/// The role that the pile goes to, if it goes to any, when `role` has
/// played and `event` is the reaction. On a slap the pile goes to the role
/// that played where there is a combination, and to the other where there
/// is none. Without a slap a combination has been missed, and the pile goes
/// to the other role; with no combination it stays.
pub open spec fn pot_winner(role: Role, event: Event, combination: bool) -> Option<Role> {
    if event == Event::Slap {
        Some(
            if combination {
                role
            } else {
                role.spec_opponent()
            },
        )
    } else if combination {
        Some(role.spec_opponent())
    } else {
        None
    }
}

/// The session after the pile has gone to the side pile of `to`, its top
/// card first.
pub open spec fn awarded(s: SessionView, to: Role) -> SessionView {
    let p = s.player(to);
    SessionView {
        pile: Seq::empty(),
        ..s.with_player(
            to,
            PlayerView { hand: p.hand, side_pile: p.side_pile + s.pile.reverse() },
        )
    }
}

/// The session after the reaction `event` to the card that `role` played.
/// A quit or a failed channel ends the session and moves no card. Otherwise
/// the pile goes where `pot_winner` says; a role that then holds the whole
/// deck in its hand has won, and else the other role is to play.
pub open spec fn reacted(s: SessionView, role: Role, event: Event) -> SessionView {
    if event == Event::Quit {
        s.with_phase(Phase::Aborted(GameError::PlayerQuit))
    } else if event == Event::ChannelFailure {
        s.with_phase(Phase::Aborted(GameError::ChannelFailure))
    } else {
        match pot_winner(role, event, combination_of(s.pile) is Some) {
            Some(to) => {
                let t = awarded(s, to);
                if t.player(to).won() {
                    t.with_phase(Phase::GameOver(to))
                } else {
                    t.with_phase(Phase::AwaitingPlay(role.spec_opponent()))
                }
            },
            None => s.with_phase(Phase::AwaitingPlay(role.spec_opponent())),
        }
    }
}

/// What the player is told after the reaction `event` to the card that
/// `role` played.
pub open spec fn reaction_notices(s: SessionView, role: Role, event: Event) -> Seq<Notice> {
    if event == Event::Quit {
        seq![Notice::Quit]
    } else if event == Event::ChannelFailure {
        Seq::empty()
    } else {
        let combination = combination_of(s.pile) is Some;
        match pot_winner(role, event, combination) {
            Some(to) => {
                if awarded(s, to).player(to).won() {
                    seq![Notice::Pot { combination, to }, Notice::Won(to)]
                } else {
                    seq![Notice::Pot { combination, to }, Notice::Turn(role.spec_opponent())]
                }
            },
            None => seq![Notice::Turn(role.spec_opponent())],
        }
    }
}

/// How a session may stand after an event.
///
/// Before the deal and after the end nothing happens. A quit or a failed
/// channel ends the session at once, and moves no card. Where a play is
/// awaited, the human plays on `Play` and is told of an invalid key on
/// anything else; the machine waits for no command and plays whatever the
/// event. Where a reaction is awaited, the event is the reaction.
pub open spec fn step_result(
    before: SessionView,
    event: Event,
    after: SessionView,
    notices: Seq<Notice>,
) -> bool {
    match before.phase {
        Phase::AwaitingPlay(role) => {
            if event == Event::Quit {
                after == before.with_phase(Phase::Aborted(GameError::PlayerQuit)) && notices
                    == seq![Notice::Quit]
            } else if event == Event::ChannelFailure {
                after == before.with_phase(Phase::Aborted(GameError::ChannelFailure))
                    && notices.len() == 0
            } else if event == Event::Play || role == Role::Machine {
                play_result(before, after, notices)
            } else {
                after == before && notices == seq![Notice::InvalidKey]
            }
        },
        Phase::AwaitingReaction(role) => after == reacted(before, role, event) && notices
            == reaction_notices(before, role, event),
        _ => after == before && notices.len() == 0,
    }
}

/// A session that has just been dealt: 26 cards in each hand, nothing
/// anywhere else, the cards of the deck all there, and a role to play. Such
/// a session is valid.
pub open spec fn freshly_dealt(s: SessionView) -> bool {
    &&& s.phase is AwaitingPlay
    &&& s.human.hand.len() == 26
    &&& s.machine.hand.len() == 26
    &&& s.human.side_pile.len() == 0
    &&& s.machine.side_pile.len() == 0
    &&& s.pile.len() == 0
    &&& s.valid()
}

impl Session {
    /// A session in which nothing has been dealt yet.
    pub fn new() -> (session: Session)
        ensures
            session@.phase == Phase::Dealing,
            session@.human.hand.len() == 0,
            session@.human.side_pile.len() == 0,
            session@.machine.hand.len() == 0,
            session@.machine.side_pile.len() == 0,
            session@.pile.len() == 0,
    {
        Session {
            human: PlayerState::new(),
            machine: PlayerState::new(),
            pile: Vec::new(),
            phase: Phase::Dealing,
        }
    }

    /// What `role` holds, to look at.
    pub fn state(&self, role: Role) -> (state: &PlayerState)
        ensures
            state@ == self@.player(role),
    {
        match role {
            Role::Human => &self.human,
            Role::Machine => &self.machine,
        }
    }

    /// Whether the session has ended.
    pub fn is_over(&self) -> (r: bool)
        ensures
            r == self@.is_over(),
    {
        match self.phase {
            Phase::GameOver(_) => true,
            Phase::Aborted(_) => true,
            _ => false,
        }
    }

    /// The role that has won, once one has.
    pub fn winner(&self) -> (r: Option<Role>)
        ensures
            r == self@.winner(),
    {
        match self.phase {
            Phase::GameOver(role) => Some(role),
            _ => None,
        }
    }

    /// Whether the session stands still until the player sends a line.
    pub fn awaits_command(&self) -> (r: bool)
        ensures
            r == self@.awaits_command(),
    {
        match self.phase {
            Phase::AwaitingPlay(Role::Human) => true,
            Phase::AwaitingReaction(_) => true,
            _ => false,
        }
    }

    /// Starts a session from a deck as it lies: whatever the session held is
    /// put aside, the deck is dealt from its top, and `first` is to play.
    pub fn start_with(&mut self, deck: Vec<Card>, first: Role) -> (notices: Vec<Notice>)
        ensures
            final(self)@.phase == Phase::AwaitingPlay(first),
            final(self)@.human.hand == dealt_to_human(deck@, deck@.len() as int / 2),
            final(self)@.machine.hand == dealt_to_machine(deck@, deck@.len() as int / 2),
            final(self)@.human.side_pile.len() == 0,
            final(self)@.machine.side_pile.len() == 0,
            final(self)@.pile.len() == 0,
            deck@.len() % 2 == 0 ==> final(self)@.cards() == deck@.to_multiset(),
            notices@ == seq![Notice::FirstMover(first), Notice::Turn(first)],
    {
        let mut deck = deck;
        let ghost full = deck@;
        let mut human = PlayerState::new();
        let mut machine = PlayerState::new();
        deal_hands(&mut deck, &mut machine, &mut human);
        self.human = human;
        self.machine = machine;
        self.pile = Vec::new();
        self.phase = Phase::AwaitingPlay(first);
        let mut notices: Vec<Notice> = Vec::new();
        notices.push(Notice::FirstMover(first));
        notices.push(Notice::Turn(first));
        proof {
            let rounds = full.len() as int / 2;
            assert(self@.human.hand =~= dealt_to_human(full, rounds));
            assert(self@.machine.hand =~= dealt_to_machine(full, rounds));
            if full.len() % 2 == 0 {
                lemma_deal_keeps_cards(full, rounds);
                lemma_no_cards(full.take(full.len() - 2 * rounds));
                lemma_no_cards(self@.human.side_pile);
                lemma_no_cards(self@.machine.side_pile);
                lemma_no_cards(self@.pile);
                assert(self@.cards() =~= full.to_multiset());
            }
        }
        notices
    }

    /// Deals: builds the deck, shuffles it, hands each role 26 cards and
    /// draws the role that moves first. Only a session in which nothing has
    /// been dealt yet is dealt; any other is left as it is.
    ///
    /// Which cards a role is handed and who moves first is random.
    pub fn deal(&mut self) -> (notices: Vec<Notice>)
        ensures
            old(self)@.phase != Phase::Dealing ==> final(self)@ == old(self)@ && notices@.len()
                == 0,
            old(self)@.phase == Phase::Dealing ==> freshly_dealt(final(self)@) && notices@
                == seq![
                Notice::FirstMover(final(self)@.phase->AwaitingPlay_0),
                Notice::Turn(final(self)@.phase->AwaitingPlay_0),
            ],
    {
        match self.phase {
            Phase::Dealing => {},
            _ => {
                return Vec::new();
            },
        }
        let deck = shuffle_deck(make_deck());
        let first = first_mover(random_word());
        self.start_with(deck, first)
    }

    /// Plays the top card of the hand of `role` onto the pile, whatever the
    /// phase; the reaction is then awaited. A role that holds the whole deck
    /// in its hand plays no card: it has won. From an empty hand nothing is
    /// played and nothing changes.
    pub fn play_top_card(&mut self, role: Role) -> (notices: Vec<Notice>)
        ensures
            final(self)@ == played(old(self)@, role),
            notices@ == play_notices(old(self)@, role),
    {
        let mut notices: Vec<Notice> = Vec::new();
        let (held, won) = match role {
            Role::Human => (self.human.hand.len(), self.human.won()),
            Role::Machine => (self.machine.hand.len(), self.machine.won()),
        };
        if held == 0 {
            assert(self@ =~~= played(old(self)@, role));
            return notices;
        }
        if won {
            self.phase = Phase::GameOver(role);
            notices.push(Notice::Won(role));
            assert(self@ =~~= played(old(self)@, role));
            assert(notices@ =~= play_notices(old(self)@, role));
            return notices;
        }
        let card = match role {
            Role::Human => self.human.hand.pop().unwrap(),
            Role::Machine => self.machine.hand.pop().unwrap(),
        };
        self.pile.push(card);
        self.phase = Phase::AwaitingReaction(role);
        notices.push(Notice::Pile);
        assert(self@ =~~= played(old(self)@, role));
        assert(notices@ =~= play_notices(old(self)@, role));
        notices
    }

    /// Lets the role whose play is awaited play its card. A role with an
    /// empty hand first takes its side pile, shuffled, into its hand; with
    /// an empty side pile too it has lost, and the other role has won.
    /// Where no play is awaited nothing happens.
    pub fn play_card(&mut self) -> (notices: Vec<Notice>)
        ensures
            play_result(old(self)@, final(self)@, notices@),
            final(self)@.cards() == old(self)@.cards(),
    {
        let role = match self.phase {
            Phase::AwaitingPlay(role) => role,
            _ => {
                return Vec::new();
            },
        };
        let held = match role {
            Role::Human => self.human.hand.len(),
            Role::Machine => self.machine.hand.len(),
        };
        if held > 0 {
            proof {
                lemma_play_keeps_cards(self@, role);
            }
            return self.play_top_card(role);
        }
        let refill = match role {
            Role::Human => self.human.add_side_pile_to_hand(),
            Role::Machine => self.machine.add_side_pile_to_hand(),
        };
        match refill {
            Err(_) => {
                self.phase = Phase::GameOver(role.opponent());
                let mut notices: Vec<Notice> = Vec::new();
                notices.push(Notice::Exhausted(role));
                assert(self@ =~~= old(self)@.with_phase(Phase::GameOver(role.spec_opponent())));
                assert(notices@ =~= seq![Notice::Exhausted(role)]);
                notices
            },
            Ok(_) => {
                let ghost mid = self@;
                let notices = self.play_top_card(role);
                proof {
                    let taken = PlayerView {
                        hand: hand_played_from(self@, role),
                        side_pile: Seq::empty(),
                    };
                    assert(mid.player(role).hand.len() > 0);
                    assert(taken.hand =~= mid.player(role).hand);
                    assert(mid.player(role).side_pile =~= taken.side_pile);
                    assert(mid.player(role) == taken);
                    assert(mid =~~= old(self)@.with_player(role, taken));
                    lemma_refill_keeps_cards(old(self)@.player(role), taken);
                    lemma_play_keeps_cards(mid, role);
                }
                notices
            },
        }
    }

    /// Takes the reaction `event` to the card that was just played: hands
    /// the pile to the role that it goes to, if it goes to any, and passes
    /// the turn on or ends the session. Where no reaction is awaited
    /// nothing happens.
    pub fn react(&mut self, event: Event) -> (notices: Vec<Notice>)
        ensures
            old(self)@.phase matches Phase::AwaitingReaction(role) ==> final(self)@ == reacted(
                old(self)@,
                role,
                event,
            ) && notices@ == reaction_notices(old(self)@, role, event),
            !(old(self)@.phase is AwaitingReaction) ==> final(self)@ == old(self)@ && notices@.len()
                == 0,
            final(self)@.cards() == old(self)@.cards(),
    {
        let mut notices: Vec<Notice> = Vec::new();
        let role = match self.phase {
            Phase::AwaitingReaction(role) => role,
            _ => {
                return notices;
            },
        };
        proof {
            lemma_reaction_keeps_cards(self@, role, event);
        }
        match event {
            Event::Quit => {
                self.phase = Phase::Aborted(GameError::PlayerQuit);
                notices.push(Notice::Quit);
                assert(self@ =~~= reacted(old(self)@, role, event));
                assert(notices@ =~= reaction_notices(old(self)@, role, event));
                return notices;
            },
            Event::ChannelFailure => {
                self.phase = Phase::Aborted(GameError::ChannelFailure);
                assert(self@ =~~= reacted(old(self)@, role, event));
                assert(notices@ =~= reaction_notices(old(self)@, role, event));
                return notices;
            },
            _ => {},
        }
        let combination = test_pile(&self.pile);
        let slap = match event {
            Event::Slap => true,
            _ => false,
        };
        let to: Option<Role> = if slap {
            Some(
                if combination {
                    role
                } else {
                    role.opponent()
                },
            )
        } else if combination {
            Some(role.opponent())
        } else {
            None
        };
        assert(to == pot_winner(role, event, combination));
        match to {
            Some(to) => {
                let won = match to {
                    Role::Human => {
                        self.human.add_to_side_pile(&mut self.pile);
                        self.human.won()
                    },
                    Role::Machine => {
                        self.machine.add_to_side_pile(&mut self.pile);
                        self.machine.won()
                    },
                };
                assert(self@.pile =~= Seq::<Card>::empty());
                assert(self@ =~~= awarded(old(self)@, to));
                notices.push(Notice::Pot { combination, to });
                if won {
                    self.phase = Phase::GameOver(to);
                    notices.push(Notice::Won(to));
                    assert(self@ =~~= reacted(old(self)@, role, event));
                    assert(notices@ =~= reaction_notices(old(self)@, role, event));
                    return notices;
                }
            },
            None => {},
        }
        self.phase = Phase::AwaitingPlay(role.opponent());
        notices.push(Notice::Turn(role.opponent()));
        assert(self@ =~~= reacted(old(self)@, role, event));
        assert(notices@ =~= reaction_notices(old(self)@, role, event));
        notices
    }

    /// Takes one event and moves the session on. No card is lost or made,
    /// and a valid session stays valid.
    pub fn step(&mut self, event: Event) -> (notices: Vec<Notice>)
        ensures
            step_result(old(self)@, event, final(self)@, notices@),
            final(self)@.cards() == old(self)@.cards(),
            old(self)@.valid() ==> final(self)@.valid(),
    {
        let notices = self.step_on(event);
        proof {
            if old(self)@.valid() {
                lemma_deck_stays_whole(old(self)@, event, self@, notices@);
            }
        }
        notices
    }

    fn step_on(&mut self, event: Event) -> (notices: Vec<Notice>)
        ensures
            step_result(old(self)@, event, final(self)@, notices@),
            final(self)@.cards() == old(self)@.cards(),
    {
        let mut notices: Vec<Notice> = Vec::new();
        match self.phase {
            Phase::AwaitingPlay(role) => {
                match event {
                    Event::Quit => {
                        self.phase = Phase::Aborted(GameError::PlayerQuit);
                        notices.push(Notice::Quit);
                        assert(self@ =~~= old(self)@.with_phase(
                            Phase::Aborted(GameError::PlayerQuit),
                        ));
                        assert(notices@ =~= seq![Notice::Quit]);
                        notices
                    },
                    Event::ChannelFailure => {
                        self.phase = Phase::Aborted(GameError::ChannelFailure);
                        assert(self@ =~~= old(self)@.with_phase(
                            Phase::Aborted(GameError::ChannelFailure),
                        ));
                        notices
                    },
                    Event::Play => self.play_card(),
                    _ => {
                        match role {
                            Role::Machine => self.play_card(),
                            Role::Human => {
                                notices.push(Notice::InvalidKey);
                                assert(notices@ =~= seq![Notice::InvalidKey]);
                                notices
                            },
                        }
                    },
                }
            },
            Phase::AwaitingReaction(_) => self.react(event),
            _ => notices,
        }
    }
}

/// Playing a card moves it from a hand to the pile: the cards of the
/// session stay the same.
pub proof fn lemma_play_keeps_cards(s: SessionView, role: Role)
    ensures
        played(s, role).cards() == s.cards(),
{
    broadcast use vstd::seq_lib::to_multiset_build;

    let p = s.player(role);
    if p.hand.len() > 0 && !p.won() {
        assert(p.hand =~= p.hand.drop_last().push(p.hand.last()));
        assert(played(s, role).cards() =~= s.cards());
    }
}

/// Taking the side pile into the hand moves its cards: what the role holds
/// stays the same.
pub proof fn lemma_refill_keeps_cards(before: PlayerView, after: PlayerView)
    requires
        refilled(before, after),
    ensures
        after.cards() == before.cards(),
{
    let kept = before.hand.len() as int;
    assert(after.hand =~= after.hand.take(kept) + after.hand.skip(kept));
    vstd::seq_lib::lemma_multiset_commutative(after.hand.take(kept), after.hand.skip(kept));
    lemma_no_cards(after.side_pile);
    assert(after.cards() =~= before.cards());
}

/// Handing the pile to a role moves its cards to that role's side pile: the
/// cards of the session stay the same.
pub proof fn lemma_award_keeps_cards(s: SessionView, to: Role)
    ensures
        awarded(s, to).cards() == s.cards(),
{
    let p = s.player(to);
    vstd::seq_lib::lemma_multiset_commutative(p.side_pile, s.pile.reverse());
    s.pile.lemma_reverse_to_multiset();
    lemma_no_cards(awarded(s, to).pile);
    assert(awarded(s, to).cards() =~= s.cards());
}

/// A reaction moves the pile or nothing: the cards of the session stay the
/// same.
pub proof fn lemma_reaction_keeps_cards(s: SessionView, role: Role, event: Event)
    ensures
        reacted(s, role, event).cards() == s.cards(),
{
    lemma_award_keeps_cards(s, Role::Human);
    lemma_award_keeps_cards(s, Role::Machine);
}

} // verus!
