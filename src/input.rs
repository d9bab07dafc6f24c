//! Keyboard handling: what each key does in normal and in command mode.

use vstd::prelude::*;
use crate::display::SortBy;

verus! {

/// A key press, as far as the dashboard tells keys apart.
#[derive(Clone, Copy, Debug, PartialEq, Eq, Structural)]
pub enum Key {
    Char(char),
    Backspace,
    Enter,
    Esc,
    Other,
}

/// What the dashboard has to do after a key press.
#[derive(Debug, PartialEq, Eq)]
pub enum InputAction {
    Nothing,
    Quit,
    TogglePause,
    /// Run the command typed, as it was typed.
    Run(String),
}

/// The dashboard's input state: the process order, and the command line.
pub struct InputState {
    pub sort_by: SortBy,
    pub command_mode: bool,
    pub command_input: String,
}

/// Relies on `String::push`: appends one character.
#[verifier::external_body]
fn push_char(s: &mut String, c: char)
    ensures
        final(s)@ == old(s)@.push(c),
{
    s.push(c)
}

/// Relies on `String::pop`: removes and returns the last character, if any.
#[verifier::external_body]
fn pop_char(s: &mut String) -> (r: Option<char>)
    ensures
        old(s)@.len() == 0 ==> r is None && final(s)@ == old(s)@,
        old(s)@.len() > 0 ==> r == Some(old(s)@.last()) && final(s)@ == old(s)@.drop_last(),
{
    s.pop()
}

/// `new` and `action` follow from `old` when `key` is pressed.
pub open spec fn is_key_step(old: InputState, new: InputState, key: Key, action: InputAction) -> bool {
    if old.command_mode {
        match key {
            Key::Char(c) => new.command_mode && new.command_input@ == old.command_input@.push(c)
                && new.sort_by == old.sort_by && action == InputAction::Nothing,
            Key::Backspace => new.command_mode && new.command_input@ == (if old.command_input@.len()
                > 0 {
                old.command_input@.drop_last()
            } else {
                old.command_input@
            }) && new.sort_by == old.sort_by && action == InputAction::Nothing,
            Key::Enter => !new.command_mode && new.command_input@.len() == 0 && new.sort_by
                == old.sort_by && (action matches InputAction::Run(t) && t@ == old.command_input@),
            Key::Esc => !new.command_mode && new.command_input@.len() == 0 && new.sort_by
                == old.sort_by && action == InputAction::Nothing,
            Key::Other => new.command_mode && new.command_input@ == old.command_input@ && new.sort_by
                == old.sort_by && action == InputAction::Nothing,
        }
    } else {
        match key {
            Key::Char(':') => new.command_mode && new.command_input@.len() == 0 && new.sort_by
                == old.sort_by && action == InputAction::Nothing,
            Key::Char('q') => new == old && action == InputAction::Quit,
            Key::Char('c') => !new.command_mode && new.command_input == old.command_input
                && new.sort_by == SortBy::Cpu && action == InputAction::Nothing,
            Key::Char('m') => !new.command_mode && new.command_input == old.command_input
                && new.sort_by == SortBy::Memory && action == InputAction::Nothing,
            Key::Char('p') => !new.command_mode && new.command_input == old.command_input
                && new.sort_by == SortBy::Pid && action == InputAction::Nothing,
            Key::Char(' ') | Key::Char('s') => new == old && action == InputAction::TogglePause,
            _ => new == old && action == InputAction::Nothing,
        }
    }
}

impl InputState {
    /// Normal mode, ordered by CPU usage, nothing typed.
    pub fn new() -> (r: InputState)
        ensures
            r.sort_by == SortBy::Cpu,
            !r.command_mode,
            r.command_input@.len() == 0,
    {
        InputState { sort_by: SortBy::Cpu, command_mode: false, command_input: String::new() }
    }

    /// Handles one key press.
    pub fn on_key(&mut self, key: Key) -> (r: InputAction)
        ensures
            is_key_step(*old(self), *final(self), key, r),
    {
        if self.command_mode {
            match key {
                Key::Char(c) => {
                    push_char(&mut self.command_input, c);
                    InputAction::Nothing
                },
                Key::Backspace => {
                    let _ = pop_char(&mut self.command_input);
                    InputAction::Nothing
                },
                Key::Enter => {
                    let typed = self.command_input.clone();
                    self.command_input = String::new();
                    self.command_mode = false;
                    InputAction::Run(typed)
                },
                Key::Esc => {
                    self.command_input = String::new();
                    self.command_mode = false;
                    InputAction::Nothing
                },
                Key::Other => InputAction::Nothing,
            }
        } else {
            match key {
                Key::Char(':') => {
                    self.command_mode = true;
                    self.command_input = String::new();
                    InputAction::Nothing
                },
                Key::Char('q') => InputAction::Quit,
                Key::Char('c') => {
                    self.sort_by = SortBy::Cpu;
                    InputAction::Nothing
                },
                Key::Char('m') => {
                    self.sort_by = SortBy::Memory;
                    InputAction::Nothing
                },
                Key::Char('p') => {
                    self.sort_by = SortBy::Pid;
                    InputAction::Nothing
                },
                Key::Char(' ') | Key::Char('s') => InputAction::TogglePause,
                _ => InputAction::Nothing,
            }
        }
    }
}

} // verus!
