//! Terminal keys as the session understands them.

use vstd::prelude::*;

use crate::input::TerminalEvent;
use crate::text::{char_is_control, is_control};

verus! {

/// Shift, in the terminal's modifier bits.
pub const SHIFT: u8 = 1;

/// Control, in the terminal's modifier bits.
pub const CONTROL: u8 = 2;

/// Alt, in the terminal's modifier bits.
pub const ALT: u8 = 4;

/// Super, in the terminal's modifier bits.
pub const SUPER: u8 = 8;

/// The keys that the session can bind; every other key is `Other`.
#[derive(Clone, Copy, Debug, PartialEq, Eq)]
pub enum KeyCode {
    Backspace,
    Enter,
    Left,
    Right,
    Up,
    Down,
    Home,
    End,
    Delete,
    Insert,
    Esc,
    Tab,
    Char(char),
    Other,
}

/// Whether a key went down, repeats, or went up.
#[derive(Clone, Copy, Debug, PartialEq, Eq)]
pub enum KeyEventKind {
    Press,
    Repeat,
    Release,
}

/// A key with its modifier bits.
#[derive(Clone, Copy, Debug, PartialEq, Eq)]
pub struct KeyEvent {
    pub code: KeyCode,
    pub modifiers: u8,
    pub kind: KeyEventKind,
}

impl KeyEvent {
    /// A key press.
    pub fn new(code: KeyCode, modifiers: u8) -> (r: KeyEvent)
        ensures
            r == (KeyEvent { code, modifiers, kind: KeyEventKind::Press }),
    {
        KeyEvent { code, modifiers, kind: KeyEventKind::Press }
    }

    /// A key event of the given kind.
    pub fn new_with_kind(code: KeyCode, modifiers: u8, kind: KeyEventKind) -> (r: KeyEvent)
        ensures
            r == (KeyEvent { code, modifiers, kind }),
    {
        KeyEvent { code, modifiers, kind }
    }
}

/// The session event a key stands for. Only known modifier combinations are
/// bound; clipboard shortcuts are left to the terminal.
pub open spec fn key_binding(key: KeyEvent) -> Option<TerminalEvent> {
    if key.kind == KeyEventKind::Release {
        None
    } else if key.modifiers == CONTROL {
        match key.code {
            KeyCode::Left => Some(TerminalEvent::WordLeft),
            KeyCode::Right => Some(TerminalEvent::WordRight),
            KeyCode::Char('a') => Some(TerminalEvent::Home),
            KeyCode::Char('e') => Some(TerminalEvent::End),
            KeyCode::Char('w') => Some(TerminalEvent::KillWord),
            KeyCode::Char('u') => Some(TerminalEvent::KillStart),
            KeyCode::Char('k') => Some(TerminalEvent::KillEnd),
            KeyCode::Char('y') => Some(TerminalEvent::Yank),
            KeyCode::Char('c') => Some(TerminalEvent::Interrupt),
            KeyCode::Char('r') => Some(TerminalEvent::Search),
            KeyCode::Char('_') | KeyCode::Char('7') => Some(TerminalEvent::Undo),
            _ => None,
        }
    } else if key.modifiers == ALT {
        match key.code {
            KeyCode::Left | KeyCode::Char('b') => Some(TerminalEvent::WordLeft),
            KeyCode::Right | KeyCode::Char('f') => Some(TerminalEvent::WordRight),
            KeyCode::Char('u') => Some(TerminalEvent::Undo),
            KeyCode::Char('r') => Some(TerminalEvent::Redo),
            KeyCode::Char('e') => Some(TerminalEvent::EditExternally),
            _ => None,
        }
    } else if key.modifiers != 0 && key.modifiers != SHIFT {
        None
    } else {
        match key.code {
            KeyCode::Char(c) if !is_control(c) => Some(TerminalEvent::Character(c)),
            _ if key.modifiers != 0 => None,
            KeyCode::Left => Some(TerminalEvent::Left),
            KeyCode::Right => Some(TerminalEvent::Right),
            KeyCode::Home => Some(TerminalEvent::Home),
            KeyCode::End => Some(TerminalEvent::End),
            KeyCode::Backspace => Some(TerminalEvent::Backspace),
            KeyCode::Delete => Some(TerminalEvent::Delete),
            KeyCode::Up => Some(TerminalEvent::Up),
            KeyCode::Down => Some(TerminalEvent::Down),
            KeyCode::Enter => Some(TerminalEvent::Enter),
            KeyCode::Esc => Some(TerminalEvent::Escape),
            KeyCode::Tab => Some(TerminalEvent::Complete),
            _ => None,
        }
    }
}

/// Maps a key to the session event it stands for, if any.
pub fn map_key(key: KeyEvent) -> (r: Option<TerminalEvent>)
    ensures
        r == key_binding(key),
{
    match key.kind {
        KeyEventKind::Press | KeyEventKind::Repeat => {},
        KeyEventKind::Release => {
            return None;
        },
    }
    let modifiers = key.modifiers;
    if modifiers == CONTROL {
        return match key.code {
            KeyCode::Left => Some(TerminalEvent::WordLeft),
            KeyCode::Right => Some(TerminalEvent::WordRight),
            KeyCode::Char('a') => Some(TerminalEvent::Home),
            KeyCode::Char('e') => Some(TerminalEvent::End),
            KeyCode::Char('w') => Some(TerminalEvent::KillWord),
            KeyCode::Char('u') => Some(TerminalEvent::KillStart),
            KeyCode::Char('k') => Some(TerminalEvent::KillEnd),
            KeyCode::Char('y') => Some(TerminalEvent::Yank),
            KeyCode::Char('c') => Some(TerminalEvent::Interrupt),
            KeyCode::Char('r') => Some(TerminalEvent::Search),
            KeyCode::Char('_') | KeyCode::Char('7') => Some(TerminalEvent::Undo),
            _ => None,
        };
    }
    if modifiers == ALT {
        return match key.code {
            KeyCode::Left | KeyCode::Char('b') => Some(TerminalEvent::WordLeft),
            KeyCode::Right | KeyCode::Char('f') => Some(TerminalEvent::WordRight),
            KeyCode::Char('u') => Some(TerminalEvent::Undo),
            KeyCode::Char('r') => Some(TerminalEvent::Redo),
            KeyCode::Char('e') => Some(TerminalEvent::EditExternally),
            _ => None,
        };
    }
    if modifiers != 0 && modifiers != SHIFT {
        return None;
    }
    match key.code {
        KeyCode::Char(c) if !char_is_control(c) => Some(TerminalEvent::Character(c)),
        _ if modifiers != 0 => None,
        KeyCode::Left => Some(TerminalEvent::Left),
        KeyCode::Right => Some(TerminalEvent::Right),
        KeyCode::Home => Some(TerminalEvent::Home),
        KeyCode::End => Some(TerminalEvent::End),
        KeyCode::Backspace => Some(TerminalEvent::Backspace),
        KeyCode::Delete => Some(TerminalEvent::Delete),
        KeyCode::Up => Some(TerminalEvent::Up),
        KeyCode::Down => Some(TerminalEvent::Down),
        KeyCode::Enter => Some(TerminalEvent::Enter),
        KeyCode::Esc => Some(TerminalEvent::Escape),
        KeyCode::Tab => Some(TerminalEvent::Complete),
        _ => None,
    }
}

/// No key with Control and Shift, nor any key with Super, reaches the
/// session: the terminal keeps its copy and paste shortcuts.
pub proof fn law_clipboard_shortcuts_unbound(key: KeyEvent)
    requires
        key.modifiers == CONTROL + SHIFT || key.modifiers == SUPER,
    ensures
        key_binding(key) is None,
{
}

/// A released key never reaches the session.
pub proof fn law_releases_unbound(key: KeyEvent)
    requires
        key.kind == KeyEventKind::Release,
    ensures
        key_binding(key) is None,
{
}

/// The keys of the request line do what the key table promises, whether
/// the key is pressed or repeats: the arrows, Home, End, Backspace, Delete,
/// Enter, Escape and Tab alone; Control with the arrows and A, E, W, U, K,
/// Y, C, R, `_` and 7; Alt with the arrows and B, F, U, R, E; and any
/// printable character, alone or with Shift, is typed.
pub proof fn law_key_table(kind: KeyEventKind, c: char)
    requires
        kind != KeyEventKind::Release,
    ensures
        key_binding(KeyEvent { code: KeyCode::Left, modifiers: 0, kind }) == Some(TerminalEvent::Left),
        key_binding(KeyEvent { code: KeyCode::Right, modifiers: 0, kind }) == Some(TerminalEvent::Right),
        key_binding(KeyEvent { code: KeyCode::Up, modifiers: 0, kind }) == Some(TerminalEvent::Up),
        key_binding(KeyEvent { code: KeyCode::Down, modifiers: 0, kind }) == Some(TerminalEvent::Down),
        key_binding(KeyEvent { code: KeyCode::Home, modifiers: 0, kind }) == Some(TerminalEvent::Home),
        key_binding(KeyEvent { code: KeyCode::End, modifiers: 0, kind }) == Some(TerminalEvent::End),
        key_binding(KeyEvent { code: KeyCode::Backspace, modifiers: 0, kind }) == Some(
            TerminalEvent::Backspace,
        ),
        key_binding(KeyEvent { code: KeyCode::Delete, modifiers: 0, kind }) == Some(TerminalEvent::Delete),
        key_binding(KeyEvent { code: KeyCode::Enter, modifiers: 0, kind }) == Some(TerminalEvent::Enter),
        key_binding(KeyEvent { code: KeyCode::Esc, modifiers: 0, kind }) == Some(TerminalEvent::Escape),
        key_binding(KeyEvent { code: KeyCode::Tab, modifiers: 0, kind }) == Some(TerminalEvent::Complete),
        key_binding(KeyEvent { code: KeyCode::Left, modifiers: CONTROL, kind }) == Some(
            TerminalEvent::WordLeft,
        ),
        key_binding(KeyEvent { code: KeyCode::Right, modifiers: CONTROL, kind }) == Some(
            TerminalEvent::WordRight,
        ),
        key_binding(KeyEvent { code: KeyCode::Char('a'), modifiers: CONTROL, kind }) == Some(
            TerminalEvent::Home,
        ),
        key_binding(KeyEvent { code: KeyCode::Char('e'), modifiers: CONTROL, kind }) == Some(
            TerminalEvent::End,
        ),
        key_binding(KeyEvent { code: KeyCode::Char('w'), modifiers: CONTROL, kind }) == Some(
            TerminalEvent::KillWord,
        ),
        key_binding(KeyEvent { code: KeyCode::Char('u'), modifiers: CONTROL, kind }) == Some(
            TerminalEvent::KillStart,
        ),
        key_binding(KeyEvent { code: KeyCode::Char('k'), modifiers: CONTROL, kind }) == Some(
            TerminalEvent::KillEnd,
        ),
        key_binding(KeyEvent { code: KeyCode::Char('y'), modifiers: CONTROL, kind }) == Some(
            TerminalEvent::Yank,
        ),
        key_binding(KeyEvent { code: KeyCode::Char('c'), modifiers: CONTROL, kind }) == Some(
            TerminalEvent::Interrupt,
        ),
        key_binding(KeyEvent { code: KeyCode::Char('r'), modifiers: CONTROL, kind }) == Some(
            TerminalEvent::Search,
        ),
        key_binding(KeyEvent { code: KeyCode::Char('_'), modifiers: CONTROL, kind }) == Some(
            TerminalEvent::Undo,
        ),
        key_binding(KeyEvent { code: KeyCode::Char('7'), modifiers: CONTROL, kind }) == Some(
            TerminalEvent::Undo,
        ),
        key_binding(KeyEvent { code: KeyCode::Left, modifiers: ALT, kind }) == Some(TerminalEvent::WordLeft),
        key_binding(KeyEvent { code: KeyCode::Right, modifiers: ALT, kind }) == Some(
            TerminalEvent::WordRight,
        ),
        key_binding(KeyEvent { code: KeyCode::Char('b'), modifiers: ALT, kind }) == Some(
            TerminalEvent::WordLeft,
        ),
        key_binding(KeyEvent { code: KeyCode::Char('f'), modifiers: ALT, kind }) == Some(
            TerminalEvent::WordRight,
        ),
        key_binding(KeyEvent { code: KeyCode::Char('u'), modifiers: ALT, kind }) == Some(
            TerminalEvent::Undo,
        ),
        key_binding(KeyEvent { code: KeyCode::Char('r'), modifiers: ALT, kind }) == Some(
            TerminalEvent::Redo,
        ),
        key_binding(KeyEvent { code: KeyCode::Char('e'), modifiers: ALT, kind }) == Some(
            TerminalEvent::EditExternally,
        ),
        !is_control(c) ==> key_binding(KeyEvent { code: KeyCode::Char(c), modifiers: 0, kind }) == Some(
            TerminalEvent::Character(c),
        ),
        !is_control(c) ==> key_binding(KeyEvent { code: KeyCode::Char(c), modifiers: SHIFT, kind })
            == Some(TerminalEvent::Character(c)),
{
}

} // verus!
