//! The debugger commands and the key bindings that produce them.

use vstd::prelude::*;

verus! {

/// A pressed key, reduced to what the bindings distinguish.  An interface
/// layer translates its event type into this one.
#[derive(PartialEq, Eq, Structural, Clone, Copy, Debug)]
pub enum Key {
    Char(char),
    Enter,
    Esc,
    Backspace,
    Left,
    Right,
    /// Any key the bindings do not mention.
    Other,
}

/// What the user asks the debugger to do.
#[derive(PartialEq, Eq, Structural, Clone, Copy, Debug)]
pub enum Command {
    /// The debugger moves one step forward.
    StepForward,
    /// The debugger moves 10 steps forward.
    BigStepForward,
    /// The debugger moves one step backward.
    StepBackward,
    /// The debugger moves 10 steps backward.
    BigStepBackward,
    /// Exits the application.
    Exit,
    /// Redraws the interface.
    Redraw,
    /// Toggles the debugger's visual diff.
    ToggleDiff,
}

/// The key-binding table: `n`, space, Enter and Right step forward; `N` steps
/// forward by ten; `p`, Backspace and Left step back; `P` steps back by ten;
/// `d` toggles the diff highlight; `q`, Esc and Ctrl-C exit.
pub open spec fn spec_command_of_key(code: Key, ctrl: bool) -> Option<Command> {
    if code == Key::Esc || code == Key::Char('q') || (ctrl && (code == Key::Char('c') || code
        == Key::Char('C'))) {
        Some(Command::Exit)
    } else if code == Key::Enter || code == Key::Char('n') || code == Key::Right || code
        == Key::Char(' ') {
        Some(Command::StepForward)
    } else if code == Key::Char('N') {
        Some(Command::BigStepForward)
    } else if code == Key::Char('P') {
        Some(Command::BigStepBackward)
    } else if code == Key::Char('d') {
        Some(Command::ToggleDiff)
    } else if code == Key::Backspace || code == Key::Char('p') || code == Key::Left {
        Some(Command::StepBackward)
    } else {
        None
    }
}

impl Command {
    /// The command bound to a pressed key, with `ctrl` saying whether the
    /// control modifier was held.
    pub fn command_from_key_pressed(code: Key, ctrl: bool) -> (r: Option<Command>)
        ensures
            r == spec_command_of_key(code, ctrl),
    {
        if code == Key::Esc || code == Key::Char('q') || (ctrl && (code == Key::Char('c') || code
            == Key::Char('C'))) {
            Some(Command::Exit)
        } else if code == Key::Enter || code == Key::Char('n') || code == Key::Right || code
            == Key::Char(' ') {
            Some(Command::StepForward)
        } else if code == Key::Char('N') {
            Some(Command::BigStepForward)
        } else if code == Key::Char('P') {
            Some(Command::BigStepBackward)
        } else if code == Key::Char('d') {
            Some(Command::ToggleDiff)
        } else if code == Key::Backspace || code == Key::Char('p') || code == Key::Left {
            Some(Command::StepBackward)
        } else {
            None
        }
    }
}

} // verus!
