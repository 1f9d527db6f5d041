//! Keys, actions and the motion language that composes counts, operators and motions.
use vstd::prelude::*;
use crate::editor::Mode;
use crate::moves::MoveInfo;

verus! {

/// A key as the interpreter sees it.
#[derive(Debug, Clone, Copy, PartialEq, Eq, Structural)]
pub enum KeyCode {
    Char(char),
    Esc,
    Enter,
    Backspace,
    Tab,
    Left,
    Right,
    Up,
    Down,
    Other,
}

/// The modifier keys held with a key.
#[derive(Debug, Clone, Copy, PartialEq, Eq, Structural)]
pub enum Modifiers {
    Plain,
    Shift,
    Control,
    Other,
}

/// A key press or release, with its modifiers.
#[derive(Debug, Clone, Copy, PartialEq, Eq, Structural)]
pub struct KeyEvent {
    pub code: KeyCode,
    pub modifiers: Modifiers,
    pub press: bool,
}

/// An input event.
#[derive(Debug, Clone, Copy, PartialEq, Eq, Structural)]
pub enum InputEvent {
    Key(KeyEvent),
    Resize(usize, usize),
    Other,
}

/// Work that the interpreter hands back to whoever drives the terminal and the disk.
#[derive(Debug, Clone, Copy, PartialEq, Eq, Structural)]
pub enum Effect {
    /// Show the cursor as a bar (Insert mode).
    BarCursor,
    /// Show the cursor as a block.
    BlockCursor,
    /// Save the current buffer.
    Save,
    /// Leave the editor.
    Quit,
}

/// What a key asks for.
#[derive(Debug)]
pub enum Action {
    Nothing,
    DeleteUnresolved,
    Delete(Box<Action>, MoveInfo),
    ChangeUnresolved,
    Change(Box<Action>, MoveInfo),
    CopyUnresolved,
    Copy(Box<Action>, MoveInfo),
    CenterUnresolved,
    Center(Box<Action>, MoveInfo),
    MoveForward,
    MoveBackwards,
    MoveDown,
    MoveUp,
    MoveWord,
    MoveEndWord,
    MoveBackWord,
    PopChar,
    PopBackspace,
    PutNewlineInsert,
    WriteCurrentBuffer,
    MoveToUnresolved,
    MoveTo(char),
    MoveUntilUnresolved,
    MoveUntil(char),
    InsertChar(char),
    SwitchMode(Mode),
    ActOnSelf,
    DeleteVisualMode,
    ChangeVisualMode,
    CopyVisualMode,
    MoveEndOfLine,
    AppendEndOfLine,
    Paste,
    Quit,
}

/// An operator waiting for its motion.
pub open spec fn is_operator(a: Action) -> bool {
    a is DeleteUnresolved || a is ChangeUnresolved || a is CopyUnresolved || a is CenterUnresolved
}

/// The same operator.
pub open spec fn same_operator(a: Action, b: Action) -> bool {
    (a is DeleteUnresolved && b is DeleteUnresolved) || (a is ChangeUnresolved && b is ChangeUnresolved)
        || (a is CopyUnresolved && b is CopyUnresolved) || (a is CenterUnresolved
        && b is CenterUnresolved)
}

/// The resolved form of operator `op` over `movement`, which `action` produced.
pub open spec fn resolved(op: Action, action: Action, movement: MoveInfo) -> Action {
    match op {
        Action::DeleteUnresolved => Action::Delete(Box::new(action), movement),
        Action::ChangeUnresolved => Action::Change(Box::new(action), movement),
        Action::CenterUnresolved => Action::Center(Box::new(action), movement),
        Action::CopyUnresolved => Action::Copy(Box::new(action), movement),
        _ => op,
    }
}

/// A motion that takes whole lines when an operator applies to it.
pub open spec fn line_wise(a: Action) -> bool {
    a is MoveUp || a is MoveDown || a is ActOnSelf
}

/// A motion whose end is not part of what an operator covers.
pub open spec fn exclusive(a: Action) -> bool {
    a is MoveWord || a is MoveForward || a is MoveBackwards || a is MoveBackWord
}

impl Action {
    /// The action waits for one more character.
    pub fn expects_input(&self) -> (r: bool)
        ensures
            r == (*self is MoveToUnresolved || *self is MoveUntilUnresolved),
    {
        match self {
            Action::MoveToUnresolved | Action::MoveUntilUnresolved => true,
            _ => false,
        }
    }

    /// A copy of `self`.
    pub fn duplicate(&self) -> (r: Action)
        ensures
            r == *self,
        decreases self,
    {
        match self {
            Action::Nothing => Action::Nothing,
            Action::DeleteUnresolved => Action::DeleteUnresolved,
            Action::Delete(a, m) => Action::Delete(Box::new((**a).duplicate()), *m),
            Action::ChangeUnresolved => Action::ChangeUnresolved,
            Action::Change(a, m) => Action::Change(Box::new((**a).duplicate()), *m),
            Action::CopyUnresolved => Action::CopyUnresolved,
            Action::Copy(a, m) => Action::Copy(Box::new((**a).duplicate()), *m),
            Action::CenterUnresolved => Action::CenterUnresolved,
            Action::Center(a, m) => Action::Center(Box::new((**a).duplicate()), *m),
            Action::MoveForward => Action::MoveForward,
            Action::MoveBackwards => Action::MoveBackwards,
            Action::MoveDown => Action::MoveDown,
            Action::MoveUp => Action::MoveUp,
            Action::MoveWord => Action::MoveWord,
            Action::MoveEndWord => Action::MoveEndWord,
            Action::MoveBackWord => Action::MoveBackWord,
            Action::PopChar => Action::PopChar,
            Action::PopBackspace => Action::PopBackspace,
            Action::PutNewlineInsert => Action::PutNewlineInsert,
            Action::WriteCurrentBuffer => Action::WriteCurrentBuffer,
            Action::MoveToUnresolved => Action::MoveToUnresolved,
            Action::MoveTo(c) => Action::MoveTo(*c),
            Action::MoveUntilUnresolved => Action::MoveUntilUnresolved,
            Action::MoveUntil(c) => Action::MoveUntil(*c),
            Action::InsertChar(c) => Action::InsertChar(*c),
            Action::SwitchMode(m) => Action::SwitchMode(*m),
            Action::ActOnSelf => Action::ActOnSelf,
            Action::DeleteVisualMode => Action::DeleteVisualMode,
            Action::ChangeVisualMode => Action::ChangeVisualMode,
            Action::CopyVisualMode => Action::CopyVisualMode,
            Action::MoveEndOfLine => Action::MoveEndOfLine,
            Action::AppendEndOfLine => Action::AppendEndOfLine,
            Action::Paste => Action::Paste,
            Action::Quit => Action::Quit,
        }
    }

    /// A find or until that waited for a character, resolved with `c`; any other
    /// action unchanged.
    pub fn resolve_char(a: &Self, c: char) -> (r: Self)
        ensures
            r == (match *a {
                Action::MoveToUnresolved => Action::MoveTo(c),
                Action::MoveUntilUnresolved => Action::MoveUntil(c),
                _ => *a,
            }),
    {
        match a {
            Action::MoveToUnresolved => Action::MoveTo(c),
            Action::MoveUntilUnresolved => Action::MoveUntil(c),
            _ => a.duplicate(),
        }
    }

    /// An operator resolved over `movement`, which `action` produced; any other action
    /// unchanged.
    pub fn resolve_movement(a: &Self, action: Action, movement: MoveInfo) -> (r: Self)
        ensures
            r == resolved(*a, action, movement),
    {
        match a {
            Action::DeleteUnresolved => Action::Delete(Box::new(action), movement),
            Action::ChangeUnresolved => Action::Change(Box::new(action), movement),
            Action::CenterUnresolved => Action::Center(Box::new(action), movement),
            Action::CopyUnresolved => Action::Copy(Box::new(action), movement),
            _ => a.duplicate(),
        }
    }

    pub fn is_operator(&self) -> (r: bool)
        ensures
            r == is_operator(*self),
    {
        match self {
            Action::DeleteUnresolved | Action::ChangeUnresolved | Action::CopyUnresolved
            | Action::CenterUnresolved => true,
            _ => false,
        }
    }

    pub fn same_operator(&self, other: &Action) -> (r: bool)
        ensures
            r == same_operator(*self, *other),
    {
        match (self, other) {
            (Action::DeleteUnresolved, Action::DeleteUnresolved) => true,
            (Action::ChangeUnresolved, Action::ChangeUnresolved) => true,
            (Action::CopyUnresolved, Action::CopyUnresolved) => true,
            (Action::CenterUnresolved, Action::CenterUnresolved) => true,
            _ => false,
        }
    }

    pub fn is_line_wise(&self) -> (r: bool)
        ensures
            r == line_wise(*self),
    {
        match self {
            Action::MoveUp | Action::MoveDown | Action::ActOnSelf => true,
            _ => false,
        }
    }

    pub fn is_exclusive(&self) -> (r: bool)
        ensures
            r == exclusive(*self),
    {
        match self {
            Action::MoveWord | Action::MoveForward | Action::MoveBackwards | Action::MoveBackWord => true,
            _ => false,
        }
    }
}

/// A composed command: one action, an operator over a motion, or a motion repeated.
#[derive(Debug)]
pub enum Motion {
    Single(Action),
    Command(Action, Box<Motion>),
    Repeating(usize, Box<Motion>),
}

impl Motion {
    /// A copy of `self`.
    pub fn duplicate(&self) -> (r: Motion)
        ensures
            r == *self,
        decreases self,
    {
        match self {
            Motion::Single(a) => Motion::Single(a.duplicate()),
            Motion::Command(op, m) => Motion::Command(op.duplicate(), Box::new((**m).duplicate())),
            Motion::Repeating(n, m) => Motion::Repeating(*n, Box::new((**m).duplicate())),
        }
    }
}

} // verus!
