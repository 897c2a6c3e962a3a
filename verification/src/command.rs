//! The commands that a user can give, and the keys that give them.

use vstd::prelude::*;

verus! {

/// One thing that the user asks for.
#[derive(Clone, Copy, Debug, PartialEq, Eq, Structural)]
pub enum Command {
    /// Move the cursor of the focused list up.
    MoveUp,
    /// Move the cursor of the focused list down.
    MoveDown,
    /// Study the card before.
    MoveLeft,
    /// Study the following card.
    MoveRight,
    /// Give the focus to the other list.
    TogglePane,
    /// Study the selected deck.
    Select,
    /// Delete what is selected in the focused list.
    Delete,
    /// Turn a card over.
    Flip,
    /// Shuffle the deck under study.
    Shuffle,
    /// Leave study for the deck screen.
    ReturnToBrowse,
    /// Leave the application.
    Quit,
}

/// A key press, as far as the application tells keys apart.
#[derive(Clone, Copy, Debug, PartialEq, Eq)]
pub enum Key {
    Char(char),
    Enter,
    Tab,
    Esc,
    Up,
    Down,
    Left,
    Right,
    /// Any key that has no name above.
    Other,
}

/// What the application does after a command.
#[derive(Clone, Copy, Debug, PartialEq, Eq, Structural)]
pub enum Outcome {
    /// Wait for the next command.
    Continue,
    /// Stop.
    Quit,
}

impl Key {
    /// The key bindings: the command that this key gives, if it gives one.
    pub open spec fn command(self) -> Option<Command> {
        match self {
            Key::Char('q') => Some(Command::Quit),
            Key::Char('D') => Some(Command::Delete),
            Key::Char(' ') => Some(Command::Flip),
            Key::Char('r') => Some(Command::Shuffle),
            Key::Char('k') | Key::Up => Some(Command::MoveUp),
            Key::Char('j') | Key::Down => Some(Command::MoveDown),
            Key::Char('h') | Key::Left => Some(Command::MoveLeft),
            Key::Char('l') | Key::Right => Some(Command::MoveRight),
            Key::Enter => Some(Command::Select),
            Key::Tab => Some(Command::TogglePane),
            Key::Esc => Some(Command::ReturnToBrowse),
            _ => None,
        }
    }
}

impl Command {
    /// Looks `key` up in the key bindings.
    pub fn from_key(key: Key) -> (command: Option<Command>)
        ensures
            command == key.command(),
    {
        match key {
            Key::Char('q') => Some(Command::Quit),
            Key::Char('D') => Some(Command::Delete),
            Key::Char(' ') => Some(Command::Flip),
            Key::Char('r') => Some(Command::Shuffle),
            Key::Char('k') | Key::Up => Some(Command::MoveUp),
            Key::Char('j') | Key::Down => Some(Command::MoveDown),
            Key::Char('h') | Key::Left => Some(Command::MoveLeft),
            Key::Char('l') | Key::Right => Some(Command::MoveRight),
            Key::Enter => Some(Command::Select),
            Key::Tab => Some(Command::TogglePane),
            Key::Esc => Some(Command::ReturnToBrowse),
            _ => None,
        }
    }
}

} // verus!
