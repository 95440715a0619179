//! Decoding of key presses into commands.

use vstd::prelude::*;
use crate::direction::Direction;

verus! {

/// What the person at the keyboard can ask for.
#[derive(Clone, Copy, Debug, PartialEq, Eq, Structural, Hash)]
pub enum Command {
    /// Leave the game.
    Quit,
    /// Head the player in a direction.
    Move(Direction),
    /// Start afresh.
    Reset,
}

/// What a key event carries: one character, or a key that types none.
#[derive(Clone, Copy, Debug, PartialEq, Eq, Structural, Hash)]
pub enum Key {
    Char(char),
    Other,
}

/// One event of the keyboard: a key, and whether it went down or came up.
#[derive(Clone, Copy, Debug, PartialEq, Eq, Structural, Hash)]
pub struct KeyEvent {
    pub key: Key,
    /// `true` for the release of the key, `false` for the press.
    pub released: bool,
}

/// The command that a key symbol stands for: `w`, `a`, `s`, `d` head the
/// player up, left, down, right, `q` quits and `r` resets. No other symbol
/// stands for a command.
pub open spec fn spec_decode(symbol: char) -> Option<Command> {
    if symbol == 'w' {
        Some(Command::Move(Direction::Up))
    } else if symbol == 'a' {
        Some(Command::Move(Direction::Left))
    } else if symbol == 's' {
        Some(Command::Move(Direction::Down))
    } else if symbol == 'd' {
        Some(Command::Move(Direction::Right))
    } else if symbol == 'q' {
        Some(Command::Quit)
    } else if symbol == 'r' {
        Some(Command::Reset)
    } else {
        None
    }
}

/// A control character: one of the code points below the space, the delete
/// character, or one of the 32 that follow it.
pub open spec fn spec_is_control(symbol: char) -> bool {
    (symbol as u32) < 0x20 || 0x7f <= (symbol as u32) < 0xa0
}

/// The command that a key event stands for. Only the press of a key that
/// carries a character other than a control character is decoded; a
/// release and every other key stand for nothing.
pub open spec fn spec_read_input(event: KeyEvent) -> Option<Command> {
    match event.key {
        Key::Char(symbol) => if event.released || spec_is_control(symbol) {
            None
        } else {
            spec_decode(symbol)
        },
        Key::Other => None,
    }
}

/// Decodes a key symbol. A symbol that stands for no command is passed
/// over, which is no error.
#[verifier::when_used_as_spec(spec_decode)]
pub fn decode(symbol: char) -> (command: Option<Command>)
    ensures
        command == spec_decode(symbol),
{
    if symbol == 'w' {
        Some(Command::Move(Direction::Up))
    } else if symbol == 'a' {
        Some(Command::Move(Direction::Left))
    } else if symbol == 's' {
        Some(Command::Move(Direction::Down))
    } else if symbol == 'd' {
        Some(Command::Move(Direction::Right))
    } else if symbol == 'q' {
        Some(Command::Quit)
    } else if symbol == 'r' {
        Some(Command::Reset)
    } else {
        None
    }
}

/// Whether a character is a control character.
#[verifier::when_used_as_spec(spec_is_control)]
pub fn is_control(symbol: char) -> (control: bool)
    ensures
        control == spec_is_control(symbol),
{
    let code: u32 = symbol as u32;
    code < 0x20 || (0x7f <= code && code < 0xa0)
}

/// Decodes a key event.
#[verifier::when_used_as_spec(spec_read_input)]
pub fn read_input(event: KeyEvent) -> (command: Option<Command>)
    ensures
        command == spec_read_input(event),
{
    match event.key {
        Key::Char(symbol) => {
            if event.released || is_control(symbol) {
                None
            } else {
                decode(symbol)
            }
        },
        Key::Other => None,
    }
}

/// A key event stands for a command exactly when it is the press of one of
/// the six command keys, and then for that key's command. Decoding looks at
/// nothing but the event.
pub proof fn lemma_read_input_decodes_presses(event: KeyEvent)
    ensures
        spec_read_input(event) is Some <==> !event.released && (event.key matches Key::Char(symbol)
            && spec_decode(symbol) is Some),
        event.key matches Key::Char(symbol) ==> (!event.released ==> spec_read_input(event)
            == spec_decode(symbol)),
        event.released ==> spec_read_input(event) is None,
{
}

} // verus!
