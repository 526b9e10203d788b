//! What goes over the channel: the commands a player sends, and the lines
//! the player is sent. Lines are given without their line ends.

use crate::card::Card;
use crate::player::{GameError, Role};
use crate::text::{chars_of, drop_spaces, is_space, skip_spaces, spells, trim_bounds, trimmed};
use vstd::prelude::*;

verus! {

/// A command of the player.
#[derive(Debug, Clone, Copy, PartialEq, Eq, Structural)]
pub enum Command {
    /// `c`: play a card.
    Play,
    /// `space`: slap the pile, claiming a combination.
    Slap,
    /// `q`: quit.
    Quit,
}

/// The command that `word` spells, where it spells one.
pub open spec fn command_of(word: Seq<char>) -> Result<Command, GameError> {
    if word == "c"@ {
        Ok(Command::Play)
    } else if word == "space"@ {
        Ok(Command::Slap)
    } else if word == "q"@ {
        Ok(Command::Quit)
    } else {
        Err(GameError::MalformedCommand)
    }
}

impl Command {
    /// The word that stands for the command on the wire.
    pub open spec fn spec_word(self) -> Seq<char> {
        match self {
            Command::Play => "c"@,
            Command::Slap => "space"@,
            Command::Quit => "q"@,
        }
    }

    /// The command that a key stands for at the player's end: the space bar
    /// slaps, `c` plays a card, `q` quits, and no other key is a command.
    pub open spec fn spec_of_key(key: char) -> Option<Command> {
        if key == ' ' {
            Some(Command::Slap)
        } else if key == 'c' {
            Some(Command::Play)
        } else if key == 'q' {
            Some(Command::Quit)
        } else {
            None
        }
    }

    /// The word that stands for the command on the wire. Read back as a
    /// line, it gives the command again.
    pub fn word(self) -> (word: String)
        ensures
            word@ == self.spec_word(),
            command_of(trimmed(word@)) == Ok::<Command, GameError>(self),
    {
        proof {
            lemma_words_are_commands();
        }
        match self {
            Command::Play => String::from_str("c"),
            Command::Slap => String::from_str("space"),
            Command::Quit => String::from_str("q"),
        }
    }

    /// The command that a key stands for at the player's end.
    pub fn of_key(key: char) -> (command: Option<Command>)
        ensures
            command == Command::spec_of_key(key),
    {
        if key == ' ' {
            Some(Command::Slap)
        } else if key == 'c' {
            Some(Command::Play)
        } else if key == 'q' {
            Some(Command::Quit)
        } else {
            None
        }
    }
}

/// The three words are three different commands, and trimming leaves each
/// as it is: a command written as its word is read back as itself.
pub proof fn lemma_words_are_commands()
    ensures
        forall|command: Command|
            command_of(trimmed(#[trigger] command.spec_word())) == Ok::<Command, GameError>(
                command,
            ),
{
    reveal_strlit("c");
    reveal_strlit("space");
    reveal_strlit("q");
    assert forall|command: Command|
        command_of(trimmed(#[trigger] command.spec_word())) == Ok::<Command, GameError>(
            command,
        ) by {
        let w = command.spec_word();
        assert(!is_space(w[0]));
        assert(!is_space(w[w.len() - 1]));
        assert(skip_spaces(w, 0) == 0);
        assert(drop_spaces(w, 0, w.len() as int) == w.len());
        assert(trimmed(w) =~= w);
        assert("c"@[0] != "space"@[0]);
        assert("q"@[0] != "space"@[0]);
        assert("q"@[0] != "c"@[0]);
    }
}

/// Reads a command from a line; white space around it is passed over.
/// Anything else, an empty line too, is a malformed command.
pub fn parse_command(line: &str) -> (r: Result<Command, GameError>)
    ensures
        r == command_of(trimmed(line@)),
{
    let chars = chars_of(line);
    let (from, to) = trim_bounds(&chars);
    if spells(&chars, from, to, "c") {
        Ok(Command::Play)
    } else if spells(&chars, from, to, "space") {
        Ok(Command::Slap)
    } else if spells(&chars, from, to, "q") {
        Ok(Command::Quit)
    } else {
        Err(GameError::MalformedCommand)
    }
}

/// What the driver of a session reports to it.
#[derive(Debug, Clone, Copy, PartialEq, Eq, Structural)]
pub enum Event {
    /// The player sent `c`.
    Play,
    /// The player sent `space`.
    Slap,
    /// The player sent `q`.
    Quit,
    /// The player sent a line that is no command, or no line was called
    /// for.
    Pass,
    /// Reading from the player, or writing to the player, failed.
    ChannelFailure,
}

impl Event {
    /// The event that a line from the player amounts to. A malformed
    /// command is no error here: it is a pass.
    pub open spec fn of_line(line: Seq<char>) -> Event {
        match command_of(trimmed(line)) {
            Ok(Command::Play) => Event::Play,
            Ok(Command::Slap) => Event::Slap,
            Ok(Command::Quit) => Event::Quit,
            Err(_) => Event::Pass,
        }
    }

    /// The event that a line from the player amounts to.
    pub fn from_line(line: &str) -> (event: Event)
        ensures
            event == Event::of_line(line@),
    {
        match parse_command(line) {
            Ok(Command::Play) => Event::Play,
            Ok(Command::Slap) => Event::Slap,
            Ok(Command::Quit) => Event::Quit,
            Err(_) => Event::Pass,
        }
    }
}

/// Something to tell the player.
#[derive(Debug, Clone, Copy, PartialEq, Eq, Structural)]
pub enum Notice {
    /// Who moves first.
    FirstMover(Role),
    /// Whose turn it is.
    Turn(Role),
    /// The human was to play a card and sent something else.
    InvalidKey,
    /// The top of the pile, to be shown.
    Pile,
    /// The pile went to a role, with or without a combination on it.
    Pot { combination: bool, to: Role },
    /// A role holds the whole deck and has won.
    Won(Role),
    /// A role had nothing left to play, and the other has won.
    Exhausted(Role),
    /// The player quit.
    Quit,
}

impl Notice {
    /// The line that tells the player of the notice. For the pile it is the
    /// heading alone.
    pub open spec fn spec_text(self) -> Seq<char> {
        match self {
            Notice::FirstMover(Role::Machine) => "Computer goes first!"@,
            Notice::FirstMover(Role::Human) => "You go first!"@,
            Notice::Turn(Role::Machine) => "Computer's turn!"@,
            Notice::Turn(Role::Human) => "Your turn! Press c to play card"@,
            Notice::InvalidKey => "Invalid key! Press c to play card"@,
            Notice::Pile => "Pile:"@,
            Notice::Pot { combination: true, to: Role::Human } => "Combination found. You won the pot!!"@,
            Notice::Pot { combination: true, to: Role::Machine } => "Combination found. Computer gets the pot!!"@,
            Notice::Pot { combination: false, to: Role::Human } => "No combination. You get the pot!!"@,
            Notice::Pot { combination: false, to: Role::Machine } => "No combination. Computer gets the pot!!"@,
            Notice::Won(Role::Human) => "Congratulations!! You won the game!!"@,
            Notice::Won(Role::Machine) => "Oh, to bad. You lost!!"@,
            Notice::Exhausted(Role::Human) => "Your hand is empty. Computer wins!!"@,
            Notice::Exhausted(Role::Machine) => "Computers hand is empty. You win!!"@,
            Notice::Quit => "Player quit"@,
        }
    }

    /// The line that tells the player of the notice.
    pub fn text(self) -> (s: String)
        ensures
            s@ == self.spec_text(),
    {
        let line: &str = match self {
            Notice::FirstMover(Role::Machine) => "Computer goes first!",
            Notice::FirstMover(Role::Human) => "You go first!",
            Notice::Turn(Role::Machine) => "Computer's turn!",
            Notice::Turn(Role::Human) => "Your turn! Press c to play card",
            Notice::InvalidKey => "Invalid key! Press c to play card",
            Notice::Pile => "Pile:",
            Notice::Pot { combination: true, to: Role::Human } => "Combination found. You won the pot!!",
            Notice::Pot { combination: true, to: Role::Machine } => "Combination found. Computer gets the pot!!",
            Notice::Pot { combination: false, to: Role::Human } => "No combination. You get the pot!!",
            Notice::Pot { combination: false, to: Role::Machine } => "No combination. Computer gets the pot!!",
            Notice::Won(Role::Human) => "Congratulations!! You won the game!!",
            Notice::Won(Role::Machine) => "Oh, to bad. You lost!!",
            Notice::Exhausted(Role::Human) => "Your hand is empty. Computer wins!!",
            Notice::Exhausted(Role::Machine) => "Computers hand is empty. You win!!",
            Notice::Quit => "Player quit",
        };
        String::from_str(line)
    }
}

/// The cards of the pile that are shown: the newest three, or all of them
/// where there are fewer, the newest last.
pub open spec fn shown(pile: Seq<Card>) -> Seq<Card> {
    if pile.len() > 3 {
        pile.skip(pile.len() - 3)
    } else {
        pile
    }
}

/// The lines that show the pile: a heading and a line for each card shown,
/// or one line that says that the pile is empty.
pub open spec fn pile_lines(pile: Seq<Card>) -> Seq<Seq<char>> {
    if pile.len() == 0 {
        seq!["Pile is empty"@]
    } else {
        seq!["Pile:"@] + shown(pile).map_values(|card: Card| card.spec_display())
    }
}

/// The lines that show the top of the pile to the player.
pub fn send_pile(pile: &Vec<Card>) -> (lines: Vec<String>)
    ensures
        lines.deep_view() == pile_lines(pile@),
{
    let mut lines: Vec<String> = Vec::new();
    let n = pile.len();
    if n == 0 {
        lines.push(String::from_str("Pile is empty"));
        assert(lines.deep_view() =~= pile_lines(pile@));
        return lines;
    }
    lines.push(String::from_str("Pile:"));
    let start: usize = if n > 3 {
        n - 3
    } else {
        0
    };
    assert(shown(pile@) =~= pile@.subrange(start as int, n as int));
    let mut i: usize = start;
    while i < n
        invariant
            start <= i <= n == pile.len(),
            lines.deep_view() == seq!["Pile:"@] + pile@.subrange(start as int, i as int).map_values(
                |card: Card| card.spec_display(),
            ),
        decreases n - i,
    {
        let ghost before = lines.deep_view();
        lines.push(pile[i].to_string());
        assert(lines.deep_view() =~= before.push(pile@[i as int].spec_display()));
        assert(pile@.subrange(start as int, i + 1) =~= pile@.subrange(start as int, i as int).push(
            pile@[i as int],
        ));
        assert(lines.deep_view() =~= seq!["Pile:"@] + pile@.subrange(
            start as int,
            i + 1,
        ).map_values(|card: Card| card.spec_display()));
        i += 1;
    }
    lines
}

/// The lines that tell the player of a notice: for the pile, the lines that
/// show it; for any other notice, its one line.
pub open spec fn lines_of(notice: Notice, pile: Seq<Card>) -> Seq<Seq<char>> {
    if notice == Notice::Pile {
        pile_lines(pile)
    } else {
        seq![notice.spec_text()]
    }
}

/// The lines that tell the player of a notice.
pub fn notice_lines(notice: Notice, pile: &Vec<Card>) -> (lines: Vec<String>)
    ensures
        lines.deep_view() == lines_of(notice, pile@),
{
    match notice {
        Notice::Pile => send_pile(pile),
        _ => {
            let mut lines: Vec<String> = Vec::new();
            lines.push(notice.text());
            assert(lines.deep_view() =~= lines_of(notice, pile@));
            lines
        },
    }
}

} // verus!
