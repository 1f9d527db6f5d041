//! The edit pane: its scroll state and the key interpreter that drives the editor.
use vstd::prelude::*;
use crate::editor::{Editor, Mode, max_x};
use crate::edits::{pop_char_spec, backspace_spec, drop_spaces, joined_cut, clamp_pos, delete_lines_spec, delete_selection_spec};
use crate::keys::{Action, Motion, KeyCode, KeyEvent, Modifiers, Effect, InputEvent, is_operator, same_operator, exclusive, line_wise};
use crate::moves::{Pos, MoveInfo};
use crate::render::Viewport;
use crate::text::{CAPACITY, lines_ok};
use crate::vertical::vertical_target;
use crate::words::{word_target, end_target, back_target};
use crate::edits::find_target;

verus! {

/// Frames that a copied region stays highlighted.
pub const YANK_HIGHLIGHT_FRAMES: usize = 15;

/// Which part of the screen a component takes.
#[derive(Debug, Clone, Copy, PartialEq, Eq, Structural)]
pub enum Layout {
    /// All rows but the last two.
    EditArea,
    /// The row above the last.
    StatusLine,
    /// The last row.
    MessageLine,
}

/// The viewport of a component laid out on a `w` by `h` screen.
pub open spec fn layout_viewport(layout: Layout, w: usize, h: usize) -> (usize, usize, usize, usize) {
    match layout {
        Layout::EditArea => (0, 0, w, if h >= 2 { (h - 2) as usize } else { 0 }),
        Layout::StatusLine => (0, if h >= 2 { (h - 2) as usize } else { 0 }, w, 1),
        Layout::MessageLine => (0, if h >= 1 { (h - 1) as usize } else { 0 }, w, 1),
    }
}

/// The viewport that `layout` gives on a `w` by `h` screen.
pub fn viewport_for(layout: Layout, w: usize, h: usize) -> (r: Viewport)
    ensures
        (r.pos.0, r.pos.1, r.width, r.height) == layout_viewport(layout, w, h),
{
    match layout {
        Layout::EditArea => Viewport { pos: (0, 0), width: w, height: if h >= 2 { h - 2 } else { 0 } },
        Layout::StatusLine => Viewport { pos: (0, if h >= 2 { h - 2 } else { 0 }), width: w, height: 1 },
        Layout::MessageLine => Viewport { pos: (0, if h >= 1 { h - 1 } else { 0 }), width: w, height: 1 },
    }
}

/// `viewport` at its place with a new size.
pub fn resize_viewport(viewport: &Viewport, w: usize, h: usize) -> (r: Viewport)
    ensures
        r.pos == viewport.pos,
        r.width == w,
        r.height == h,
{
    Viewport { pos: viewport.pos, width: w, height: h }
}

/// Where a motion action leaves the cursor, for the actions that are motions.
pub open spec fn motion_target(e: Editor, a: Action, amount: usize) -> Option<Pos> {
    let ls = e.lines();
    let p = e.cursor_pos;
    let m = max_x(e.cur_line().len(), e.mode);
    match a {
        Action::ActOnSelf => Some(p),
        Action::MoveForward => Some(((if p.0 + amount <= m { p.0 + amount } else { m as int }) as usize, p.1)),
        Action::MoveBackwards => Some(((if p.0 >= amount { p.0 - amount } else { 0 }) as usize, p.1)),
        Action::MoveUp => Some(vertical_target(ls, e.mode, p, e.latest_x, (if p.1 >= amount { p.1 - amount } else { 0 }) as usize)),
        Action::MoveDown => Some(vertical_target(ls, e.mode, p, e.latest_x, (if p.1 + amount < ls.len() { p.1 + amount } else { ls.len() - 1 }) as usize)),
        Action::MoveTo(c) => Some((find_target(e.cur_line(), c, p.0 as nat, amount as nat, 1) as usize, p.1)),
        Action::MoveUntil(c) => Some((find_target(e.cur_line(), c, p.0 as nat, amount as nat, 0) as usize, p.1)),
        Action::MoveWord => Some(word_target(ls, p, amount as nat)),
        Action::MoveEndWord => Some(end_target(ls, p, amount as nat)),
        Action::MoveBackWord => Some(back_target(ls, p, amount as nat)),
        Action::MoveEndOfLine => Some(((if e.cur_line().len() > 0 { e.cur_line().len() - 1 } else { 0 }) as usize, p.1)),
        _ => None,
    }
}

/// The extent an operator covers after motion `a` with count `amount`: from the cursor to
/// where the motion lands, or for the current line itself, down `amount` lines.
pub open spec fn motion_extent(e: Editor, a: Action, amount: usize) -> Option<MoveInfo> {
    let p = e.cursor_pos;
    let len = e.lines().len();
    if a is ActOnSelf {
        let last: int = if amount == 0 {
            p.1 as int
        } else if p.1 + amount - 1 < len {
            p.1 + amount - 1
        } else {
            len - 1
        };
        Some(MoveInfo { start_pos: p, end_pos: (p.0, last as usize) })
    } else {
        match motion_target(e, a, amount) {
            Some(q) => Some(MoveInfo { start_pos: p, end_pos: q }),
            None => None,
        }
    }
}

/// The characters a delete covers over the ordered extent `o` of motion `a`: without the
/// end of an exclusive motion; nothing when such a motion did not move.
pub open spec fn delete_extent(ls: Seq<Seq<char>>, a: Action, o: MoveInfo) -> Option<MoveInfo> {
    if !exclusive(a) {
        Some(o)
    } else if o.start_pos == o.end_pos {
        None
    } else if o.end_pos.0 > 0 {
        Some(MoveInfo { start_pos: o.start_pos, end_pos: ((o.end_pos.0 - 1) as usize, o.end_pos.1) })
    } else {
        let py = o.end_pos.1 - 1;
        let pl = ls[py].len();
        Some(MoveInfo { start_pos: o.start_pos, end_pos: ((if pl > 0 { pl - 1 } else { 0 }) as usize, py as usize) })
    }
}

/// The line that deleting the ordered extent `o` leaves fits within capacity.
pub open spec fn cut_fits(ls: Seq<Seq<char>>, o: MoveInfo) -> bool {
    o.start_pos.1 != o.end_pos.1 ==> joined_cut(ls, o).len() <= CAPACITY
}

/// The extent that copying over the ordered extent `o` of motion `a` takes: the end
/// included unless the motion is exclusive.
pub open spec fn copy_extent(a: Action, o: MoveInfo) -> MoveInfo {
    if exclusive(a) || o.end_pos.0 == usize::MAX {
        o
    } else {
        MoveInfo { start_pos: o.start_pos, end_pos: ((o.end_pos.0 + 1) as usize, o.end_pos.1) }
    }
}

/// Deleting over extent `m` of motion `a` turns lines `ls` into those of `e1`; the cursor
/// goes to the start, or stays at `cur` when nothing is deleted.
pub open spec fn deleted(a: Action, m: MoveInfo, ls: Seq<Seq<char>>, mode: Mode, cur: Pos, e1: Editor) -> bool {
    let o = m.spec_ordered();
    if !(o.start_pos.1 < ls.len() && o.end_pos.1 < ls.len()) {
        e1.lines() == ls && e1.cursor_pos == cur
    } else if line_wise(a) {
        e1.lines() == delete_lines_spec(ls, o.start_pos.1 as int, o.end_pos.1 as int) && e1.cursor_pos
            == clamp_pos(e1.lines(), mode, o.start_pos)
    } else {
        match delete_extent(ls, a, o) {
            Some(sel) => if cut_fits(ls, sel.spec_ordered()) {
                e1.lines() == delete_selection_spec(ls, sel.spec_ordered()) && e1.cursor_pos == clamp_pos(
                    e1.lines(),
                    mode,
                    sel.spec_ordered().start_pos,
                )
            } else {
                e1.lines() == ls && e1.cursor_pos == cur
            },
            None => e1.lines() == ls && e1.cursor_pos == cur,
        }
    }
}

/// What operator `op`, applied over extent `m` that motion `a` produced, does: the lines
/// before were `ls`, the mode `mode`, the cursor `cur`.
pub open spec fn operated(
    op: Action,
    a: Action,
    m: MoveInfo,
    ls: Seq<Seq<char>>,
    mode: Mode,
    cur: Pos,
    e1: Editor,
    p0: EditorBuffer,
    p1: EditorBuffer,
) -> bool {
    let o = m.spec_ordered();
    match op {
        Action::DeleteUnresolved => deleted(a, m, ls, mode, cur, e1) && e1.mode == mode,
        Action::ChangeUnresolved => deleted(a, m, ls, mode, cur, e1) && e1.mode == Mode::Insert,
        Action::CopyUnresolved => {
            &&& e1.lines() == ls
            &&& e1.mode == mode
            &&& (o.start_pos.1 < ls.len() && o.end_pos.1 < ls.len() ==> {
                &&& e1.cursor_pos == clamp_pos(ls, mode, o.start_pos)
                &&& p1.elapsed_frames == 0
                &&& if line_wise(a) {
                    &&& e1.clipboard.view() == crate::yank::copy_lines_text(ls, o.start_pos.1 as int, o.end_pos.1 as int)
                    &&& p1.highlighted_selection == Some(
                        MoveInfo {
                            start_pos: (0usize, o.start_pos.1),
                            end_pos: (ls[o.end_pos.1 as int].len() as usize, o.end_pos.1),
                        },
                    )
                } else {
                    &&& e1.clipboard.view() == crate::yank::copy_text(ls, copy_extent(a, o).spec_ordered())
                    &&& p1.highlighted_selection == Some(o)
                }
            })
        },
        Action::CenterUnresolved => {
            &&& e1.lines() == ls
            &&& e1.cursor_pos == cur
            &&& e1.mode == mode
            &&& p1.top_index == (if line_wise(a) {
                if m.end_pos.1 >= p0.viewport.height / 2 {
                    (m.end_pos.1 - p0.viewport.height / 2) as usize
                } else {
                    0
                }
            } else {
                p0.top_index
            })
        },
        _ => true,
    }
}

/// Deleting the Visual selection and switching to `mode`.
pub open spec fn visual_deleted(e0: Editor, e1: Editor, mode: Mode) -> bool {
    let ls = e0.lines();
    match e0.curr_selection {
        Some(sel) => {
            let o = sel.1.spec_ordered();
            o.start_pos.1 < ls.len() && o.end_pos.1 < ls.len() && cut_fits(ls, o) ==> {
                &&& e1.lines() == delete_selection_spec(ls, o)
                &&& e1.mode == mode
                &&& e1.curr_selection.is_none()
                &&& e1.cursor_pos == clamp_pos(e1.lines(), mode, sel.0)
            }
        },
        None => e1 == e0,
    }
}

/// Copying the Visual selection, both ends included, and returning to Normal mode with the
/// copied region highlighted.
pub open spec fn visual_copied(e0: Editor, e1: Editor, p1: EditorBuffer) -> bool {
    let ls = e0.lines();
    match e0.curr_selection {
        Some(sel) => {
            let m = sel.1;
            m.end_pos.0 < usize::MAX && m.start_pos.1 < ls.len() && m.end_pos.1 < ls.len() ==> {
                &&& e1.clipboard.view() == crate::yank::copy_text(
                    ls,
                    MoveInfo { start_pos: m.start_pos, end_pos: ((m.end_pos.0 + 1) as usize, m.end_pos.1) }.spec_ordered(),
                )
                &&& e1.lines() == ls
                &&& e1.mode == Mode::Normal
                &&& e1.curr_selection.is_none()
                &&& e1.cursor_pos == clamp_pos(ls, Mode::Normal, m.start_pos)
                &&& p1.highlighted_selection == Some(m)
                &&& p1.elapsed_frames == 0
            }
        },
        None => e1 == e0,
    }
}

/// Where switching from `e0`'s mode to `m` leaves the cursor.
pub open spec fn switched_cursor(e0: Editor, m: Mode) -> Pos {
    let p = e0.cursor_pos;
    let len = e0.cur_line().len();
    if m == Mode::Normal && e0.mode == Mode::Insert {
        let x1: nat = if p.0 >= 2 { (p.0 - 2) as nat } else { 0 };
        let mx = max_x(len, Mode::Normal);
        ((if x1 + 1 <= mx { x1 + 1 } else { mx }) as usize, p.1)
    } else if m == Mode::Visual && p.0 > 0 && p.0 >= len {
        ((p.0 - 1) as usize, p.1)
    } else {
        p
    }
}

/// What applying `a` with count `amount` does to editor `e0` and pane `p0`, giving `e1`
/// and `p1`.
pub open spec fn applied(a: Action, amount: usize, e0: Editor, e1: Editor, p0: EditorBuffer, p1: EditorBuffer) -> bool {
    let p = e0.cursor_pos;
    let ls = e0.lines();
    &&& (motion_target(e0, a, amount) matches Some(q) ==> e1.cursor_pos == q && e1.buffer == e0.buffer
        && e1.mode == e0.mode && e1.clipboard == e0.clipboard)
    &&& (a matches Action::InsertChar(c) ==> e0.cur_line().len() < CAPACITY ==> {
        &&& e1.lines() == ls.update(p.1 as int, e0.cur_line().insert(p.0 as int, c))
        &&& e1.cursor_pos == ((if p.0 + 1 <= max_x(e0.cur_line().len() + 1, e0.mode) {
            p.0 + 1
        } else {
            p.0 as int
        }) as usize, p.1)
        &&& e1.mode == e0.mode
    })
    &&& (a is PopChar ==> (e1.lines(), e1.cursor_pos) == pop_char_spec(ls, e0.mode, p))
    &&& (a is PopBackspace ==> (p.0 == 0 && p.1 > 0 ==> ls[p.1 - 1].len() + e0.cur_line().len() <= CAPACITY)
        ==> (e1.lines(), e1.cursor_pos) == backspace_spec(ls, e0.mode, p))
    &&& (a is PutNewlineInsert ==> ls.len() < CAPACITY ==> e1.lines() == ls.update(
        p.1 as int,
        e0.cur_line().take(p.0 as int),
    ).insert(p.1 + 1, drop_spaces(e0.cur_line().skip(p.0 as int))) && e1.cursor_pos == (0usize, (p.1 + 1) as usize))
    &&& (a matches Action::SwitchMode(m) ==> {
        &&& e1.mode == m
        &&& e1.lines() == ls
        &&& e1.cursor_pos == switched_cursor(e0, m)
        &&& (m == Mode::Visual ==> e1.curr_selection == Some(
            (e1.cursor_pos, MoveInfo { start_pos: e1.cursor_pos, end_pos: e1.cursor_pos }),
        ))
        &&& (m != Mode::Visual ==> e1.curr_selection.is_none())
    })
    &&& (a is AppendEndOfLine ==> e1.mode == Mode::Insert && e1.lines() == ls && e1.cursor_pos == (
        e0.cur_line().len() as usize,
        p.1,
    ))
    &&& (a is Paste ==> {
        let r = crate::yank::paste_spec(ls, p.0 as nat, p.1 as int, e0.clipboard.view());
        let c = crate::yank::paste_cursor(p, e0.clipboard.view());
        if lines_ok(r) {
            &&& e1.lines() == r
            &&& e1.cursor_pos == clamp_pos(r, e0.mode, (
                (if c.0 <= usize::MAX { c.0 } else { usize::MAX as nat }) as usize,
                (if c.1 <= usize::MAX { c.1 } else { usize::MAX as nat }) as usize,
            ))
        } else {
            e1 == e0
        }
    })
    &&& (a matches Action::Delete(b, m) ==> operated(Action::DeleteUnresolved, *b, m, ls, e0.mode, p, e1, p0, p1))
    &&& (a matches Action::Change(b, m) ==> operated(Action::ChangeUnresolved, *b, m, ls, e0.mode, p, e1, p0, p1))
    &&& (a matches Action::Copy(b, m) ==> operated(Action::CopyUnresolved, *b, m, ls, e0.mode, p, e1, p0, p1))
    &&& (a matches Action::Center(b, m) ==> operated(Action::CenterUnresolved, *b, m, ls, e0.mode, p, e1, p0, p1))
    &&& (a is DeleteVisualMode ==> visual_deleted(e0, e1, Mode::Normal))
    &&& (a is ChangeVisualMode ==> visual_deleted(e0, e1, Mode::Insert))
    &&& (a is CopyVisualMode ==> visual_copied(e0, e1, p1))
    &&& (a is WriteCurrentBuffer || a is Quit || a is Nothing ==> e1 == e0)
}

/// The effects after running action `a`, which were `f` before.
pub open spec fn effects_after(a: Action, f: Seq<Effect>) -> Seq<Effect> {
    if a is WriteCurrentBuffer {
        f.push(Effect::Save)
    } else if a is Quit {
        f.push(Effect::Quit)
    } else if a is Change {
        f.push(Effect::BarCursor)
    } else {
        f
    }
}

/// The count that a typed prefix gives, one when none was typed.
pub open spec fn count_of(repeater: Option<usize>) -> usize {
    match repeater {
        Some(n) => n,
        None => 1,
    }
}

/// The motion or edit that a plain key names in Normal mode.
pub open spec fn key_action(c: char) -> Option<Action> {
    if c == 'h' {
        Some(Action::MoveBackwards)
    } else if c == 'j' {
        Some(Action::MoveDown)
    } else if c == 'k' {
        Some(Action::MoveUp)
    } else if c == 'l' {
        Some(Action::MoveForward)
    } else if c == 'w' {
        Some(Action::MoveWord)
    } else if c == 'b' {
        Some(Action::MoveBackWord)
    } else if c == 'e' {
        Some(Action::MoveEndWord)
    } else if c == '$' {
        Some(Action::MoveEndOfLine)
    } else if c == 'x' {
        Some(Action::PopChar)
    } else {
        None
    }
}

/// The count after typing digit `d`: appended, or 0 when it would not fit.
pub open spec fn next_count(repeater: Option<usize>, d: nat) -> Option<usize> {
    match repeater {
        Some(n) => Some((if n * 10 + d <= usize::MAX { n * 10 + d } else { 0 }) as usize),
        None => Some(d as usize),
    }
}

/// The operator that a key names in Normal mode.
pub open spec fn operator_key(c: char) -> Option<Action> {
    if c == 'd' {
        Some(Action::DeleteUnresolved)
    } else if c == 'c' {
        Some(Action::ChangeUnresolved)
    } else if c == 'y' {
        Some(Action::CopyUnresolved)
    } else if c == 'z' {
        Some(Action::CenterUnresolved)
    } else {
        None
    }
}

/// The edit pane and its key interpreter.
pub struct EditorBuffer {
    pub top_index: usize,
    pub left_offset: usize,
    pub side_scroll: usize,
    pub viewport: Viewport,
    pub layout: Layout,
    /// A find or until waiting for its character.
    pub waiting_input: Option<Action>,
    /// An operator waiting for its motion, with the count typed before it.
    pub waiting_action: Option<(Option<usize>, Action)>,
    /// The count typed so far.
    pub repeater: Option<usize>,
    /// The region last copied.
    pub highlighted_selection: Option<MoveInfo>,
    pub elapsed_frames: usize,
}

impl EditorBuffer {
    pub open spec fn wf(&self) -> bool {
        &&& match self.waiting_input {
            Some(a) => a is MoveToUnresolved || a is MoveUntilUnresolved,
            None => true,
        }
        &&& match self.waiting_action {
            Some(w) => is_operator(w.1),
            None => true,
        }
    }

    /// The interpreter waits for nothing.
    pub open spec fn idle(&self) -> bool {
        self.waiting_input.is_none() && self.waiting_action.is_none() && self.repeater.is_none()
    }

    pub fn new(viewport: Viewport, layout: Layout) -> (r: EditorBuffer)
        ensures
            r.wf(),
            r.idle(),
            r.viewport == viewport,
            r.top_index == 0,
            r.side_scroll == 0,
    {
        EditorBuffer {
            top_index: 0,
            left_offset: 3,
            side_scroll: 0,
            viewport,
            layout,
            waiting_input: None,
            waiting_action: None,
            repeater: None,
            highlighted_selection: None,
            elapsed_frames: 0,
        }
    }

    /// Takes the viewport that the layout gives on a `w` by `h` screen.
    pub fn resize(&mut self, w: usize, h: usize)
        ensures
            (final(self).viewport.pos.0, final(self).viewport.pos.1, final(self).viewport.width,
                final(self).viewport.height) == layout_viewport(old(self).layout, w, h),
            final(self).waiting_input == old(self).waiting_input,
            final(self).waiting_action == old(self).waiting_action,
            final(self).repeater == old(self).repeater,
    {
        self.viewport = viewport_for(self.layout, w, h);
    }

    /// Applies `action` to the editor with count `amount` where it takes one; returns the
    /// extent of a motion.
    #[verifier::rlimit(100)]
    pub fn match_action(&mut self, editor: &mut Editor, action: Action, amount: usize, effects: &mut Vec<Effect>) -> (r: Option<MoveInfo>)
        requires
            old(editor).wf(),
            old(self).wf(),
        ensures
            final(editor).wf(),
            final(self).wf(),
            final(self).waiting_input == old(self).waiting_input,
            final(self).waiting_action == old(self).waiting_action,
            final(self).repeater == old(self).repeater,
            final(self).viewport == old(self).viewport,
            !(action is Center) ==> final(self).top_index == old(self).top_index,
            applied(action, amount, *old(editor), *final(editor), *old(self), *final(self)),
            r == motion_extent(*old(editor), action, amount),
            motion_extent(*old(editor), action, amount) is Some ==> *final(self) == *old(self),
            final(effects)@ == effects_after(action, old(effects)@),
    {
        match action {
            Action::ActOnSelf => {
                let (x, y) = editor.cursor_pos;
                let len = editor.buffer.lines.len();
                let last = if amount == 0 {
                    y
                } else if len - 1 - y >= amount - 1 {
                    y + (amount - 1)
                } else {
                    len - 1
                };
                Some(MoveInfo { start_pos: (x, y), end_pos: (x, last) })
            },
            Action::MoveForward => Some(editor.move_cursor_right(amount)),
            Action::MoveBackwards => Some(editor.move_cursor_left(amount)),
            Action::MoveUp => Some(editor.move_cursor_up(amount)),
            Action::MoveDown => Some(editor.move_cursor_down(amount)),
            Action::MoveTo(c) => Some(editor.move_to(c, amount, 1)),
            Action::MoveUntil(c) => Some(editor.move_to(c, amount, 0)),
            Action::MoveWord => Some(editor.move_word(amount)),
            Action::MoveEndWord => Some(editor.move_end_word(amount)),
            Action::MoveBackWord => Some(editor.move_end_word_backwards(amount)),
            Action::MoveEndOfLine => Some(editor.move_to_end()),
            Action::PopChar => {
                editor.pop_char();
                None
            },
            Action::PopBackspace => {
                let (x, y) = editor.cursor_pos;
                if x == 0 && y > 0 {
                    let a = editor.buffer.lines[y - 1].len();
                    let b = editor.buffer.lines[y].len();
                    proof {
                        assert(editor.lines()[y - 1].len() <= CAPACITY);
                        assert(editor.lines()[y as int].len() <= CAPACITY);
                    }
                    if a + b <= CAPACITY {
                        editor.pop_backspace();
                    }
                } else {
                    editor.pop_backspace();
                }
                None
            },
            Action::InsertChar(c) => {
                if editor.buffer.lines[editor.cursor_pos.1].len() < CAPACITY {
                    editor.put_char(c);
                }
                None
            },
            Action::Paste => {
                editor.paste();
                None
            },
            Action::Copy(a, movement) => {
                self.copy_over(editor, &a, movement);
                None
            },
            Action::Delete(a, movement) => {
                self.delete_over(editor, &a, movement);
                None
            },
            Action::Change(a, movement) => {
                self.delete_over(editor, &a, movement);
                editor.switch_mode(Mode::Insert);
                effects.push(Effect::BarCursor);
                None
            },
            Action::Center(a, movement) => {
                if a.is_line_wise() {
                    let to_center = movement.end_pos.1;
                    let half = self.viewport.height / 2;
                    self.top_index = if to_center >= half { to_center - half } else { 0 };
                }
                None
            },
            Action::PutNewlineInsert => {
                if editor.buffer.lines.len() < CAPACITY {
                    editor.put_newline();
                }
                None
            },
            Action::SwitchMode(mode) => {
                if mode == Mode::Visual && editor.cursor_pos.0 > 0 && editor.cursor_pos.0 >= editor.buffer.lines[editor.cursor_pos.1].len() {
                    editor.move_cursor_left(1);
                }
                editor.switch_mode(mode);
                None
            },
            Action::WriteCurrentBuffer => {
                effects.push(Effect::Save);
                None
            },
            Action::Quit => {
                effects.push(Effect::Quit);
                None
            },
            Action::DeleteVisualMode => {
                self.delete_visual(editor, Mode::Normal);
                None
            },
            Action::ChangeVisualMode => {
                self.delete_visual(editor, Mode::Insert);
                None
            },
            Action::CopyVisualMode => {
                match editor.curr_selection {
                    Some(selection) => {
                        let m = selection.1;
                        let len = editor.buffer.lines.len();
                        if m.end_pos.0 < usize::MAX && m.start_pos.1 < len && m.end_pos.1 < len {
                            editor.copy(MoveInfo { start_pos: m.start_pos, end_pos: (m.end_pos.0 + 1, m.end_pos.1) });
                            self.highlighted_selection = Some(m);
                            self.elapsed_frames = 0;
                            editor.switch_mode(Mode::Normal);
                            editor.clamp_cursor(m.start_pos);
                        }
                    },
                    None => {},
                }
                None
            },
            Action::AppendEndOfLine => {
                editor.move_to_end();
                editor.switch_mode(Mode::Insert);
                editor.move_cursor_right(1);
                None
            },
            Action::MoveToUnresolved | Action::MoveUntilUnresolved | Action::DeleteUnresolved
            | Action::ChangeUnresolved | Action::CenterUnresolved | Action::CopyUnresolved
            | Action::Nothing => None,
        }
    }

    /// Copies what an operator covers over `movement`, which `a` produced: whole lines for
    /// line motions, else characters, with the end of an inclusive motion.
    fn copy_over(&mut self, editor: &mut Editor, a: &Action, movement: MoveInfo)
        requires
            old(editor).wf(),
            old(self).wf(),
        ensures
            final(editor).wf(),
            final(self).wf(),
            operated(Action::CopyUnresolved, *a, movement, old(editor).lines(), old(editor).mode,
                old(editor).cursor_pos, *final(editor), *old(self), *final(self)),
            final(self).waiting_input == old(self).waiting_input,
            final(self).waiting_action == old(self).waiting_action,
            final(self).repeater == old(self).repeater,
            final(self).viewport == old(self).viewport,
            final(self).top_index == old(self).top_index,
    {
        let m = movement.get_ordered();
        let len = editor.buffer.lines.len();
        if m.start_pos.1 < len && m.end_pos.1 < len {
            if a.is_line_wise() {
                self.highlighted_selection = Some(editor.copy_lines(m));
            } else {
                let end = if a.is_exclusive() || m.end_pos.0 == usize::MAX {
                    m.end_pos
                } else {
                    (m.end_pos.0 + 1, m.end_pos.1)
                };
                editor.copy(MoveInfo { start_pos: m.start_pos, end_pos: end });
                self.highlighted_selection = Some(m);
            }
            editor.clamp_cursor(m.start_pos);
            self.elapsed_frames = 0;
        }
    }

    /// Deletes what an operator covers over `movement`, which `a` produced: whole lines for
    /// line motions, else characters, without the end of an exclusive motion.
    fn delete_over(&mut self, editor: &mut Editor, a: &Action, movement: MoveInfo)
        requires
            old(editor).wf(),
        ensures
            final(editor).wf(),
            *final(self) == *old(self),
            deleted(*a, movement, old(editor).lines(), old(editor).mode, old(editor).cursor_pos, *final(editor)),
            final(editor).mode == old(editor).mode,
            final(editor).clipboard == old(editor).clipboard,
    {
        let m = movement.get_ordered();
        let len = editor.buffer.lines.len();
        if m.start_pos.1 >= len || m.end_pos.1 >= len {
            return;
        }
        if a.is_line_wise() {
            editor.delete_lines(m);
            return;
        }
        let end = if !a.is_exclusive() {
            Some(m.end_pos)
        } else if m.start_pos.0 == m.end_pos.0 && m.start_pos.1 == m.end_pos.1 {
            None
        } else if m.end_pos.0 > 0 {
            Some((m.end_pos.0 - 1, m.end_pos.1))
        } else {
            let py = m.end_pos.1 - 1;
            let pl = editor.buffer.lines[py].len();
            Some((if pl > 0 { pl - 1 } else { 0 }, py))
        };
        match end {
            Some(e) => {
                let sel = MoveInfo { start_pos: m.start_pos, end_pos: e };
                proof {
                    assert(delete_extent(editor.lines(), *a, m) == Some(sel));
                }
                let o = sel.get_ordered();
                if o.start_pos.1 != o.end_pos.1 {
                    let first = editor.buffer.lines[o.start_pos.1].len();
                    let last = editor.buffer.lines[o.end_pos.1].len();
                    let keep_a = if o.start_pos.0 <= first { o.start_pos.0 } else { first };
                    let keep_b = if o.end_pos.0 < last { last - (o.end_pos.0 + 1) } else { 0 };
                    proof {
                        assert(editor.lines()[o.start_pos.1 as int].len() <= CAPACITY);
                        assert(editor.lines()[o.end_pos.1 as int].len() <= CAPACITY);
                        assert(joined_cut(editor.lines(), o).len() == keep_a + keep_b);
                    }
                    if keep_a + keep_b <= CAPACITY {
                        editor.delete_selection(sel);
                    }
                } else {
                    editor.delete_selection(sel);
                }
            },
            None => {},
        }
    }

    /// Deletes the Visual selection, then switches to `mode` with the cursor where the
    /// selection began.
    fn delete_visual(&mut self, editor: &mut Editor, mode: Mode)
        requires
            old(editor).wf(),
            mode != Mode::Visual,
        ensures
            final(editor).wf(),
            *final(self) == *old(self),
            visual_deleted(*old(editor), *final(editor), mode),
    {
        match editor.curr_selection {
            Some(selection) => {
                let anchor = selection.0;
                let m = selection.1;
                let o = m.get_ordered();
                let len = editor.buffer.lines.len();
                if o.start_pos.1 >= len || o.end_pos.1 >= len {
                    return;
                }
                if o.start_pos.1 != o.end_pos.1 {
                    let first = editor.buffer.lines[o.start_pos.1].len();
                    let last = editor.buffer.lines[o.end_pos.1].len();
                    let keep_a = if o.start_pos.0 <= first { o.start_pos.0 } else { first };
                    let keep_b = if o.end_pos.0 < last { last - (o.end_pos.0 + 1) } else { 0 };
                    proof {
                        assert(editor.lines()[o.start_pos.1 as int].len() <= CAPACITY);
                        assert(editor.lines()[o.end_pos.1 as int].len() <= CAPACITY);
                        assert(joined_cut(editor.lines(), o).len() == keep_a + keep_b);
                    }
                    if keep_a + keep_b > CAPACITY {
                        return;
                    }
                }
                editor.delete_selection(m);
                editor.switch_mode(mode);
                editor.clamp_cursor(anchor);
            },
            None => {},
        }
    }
}

} // verus!

verus! {

/// The key is pressed with no modifier.
pub open spec fn plain(ev: KeyEvent, code: KeyCode) -> bool {
    ev.press && ev.code == code && ev.modifiers == Modifiers::Plain
}

/// The value of a decimal digit character.
pub open spec fn digit_value(c: char) -> nat {
    (c as u32 - '0' as u32) as nat
}

/// The count a motion runs with after an operator: the count typed before the operator
/// times the one typed after it.
pub open spec fn combine(cnt: Option<usize>, rep: Option<usize>) -> usize {
    let p = count_of(cnt) * count_of(rep);
    if p <= usize::MAX {
        p as usize
    } else {
        usize::MAX
    }
}

/// The action and count of a motion tree that is one action, maybe repeated.
pub open spec fn inner_single(m: Motion) -> Option<(Action, usize)> {
    match m {
        Motion::Single(a) => Some((a, 1usize)),
        Motion::Repeating(n, b) => match *b {
            Motion::Single(a) => Some((a, n)),
            _ => None,
        },
        _ => None,
    }
}

/// Where a motion leaves the cursor before its operator applies.
pub open spec fn motion_cursor(e: Editor, a: Action, amount: usize) -> Pos {
    match motion_target(e, a, amount) {
        Some(q) => q,
        None => e.cursor_pos,
    }
}

/// What dispatching action `a` does under the count and the operator waiting in `p0`: the
/// action itself with the count, or the operator over the extent the action moves over
/// with the combined count. The count and the operator are then gone.
pub open spec fn dispatched(a: Action, e0: Editor, e1: Editor, p0: EditorBuffer, p1: EditorBuffer) -> bool {
    &&& p1.waiting_action.is_none()
    &&& p1.repeater.is_none()
    &&& match p0.waiting_action {
        None => applied(a, count_of(p0.repeater), e0, e1, p0, p1),
        Some(w) => {
            let n = combine(w.0, p0.repeater);
            match motion_extent(e0, a, n) {
                Some(m) => operated(w.1, a, m, e0.lines(), e0.mode, motion_cursor(e0, a, n), e1, p0, p1),
                None => true,
            }
        },
    }
}

/// What a key does in Normal or Visual mode.
pub open spec fn normal_key_ok(
    ev: KeyEvent,
    e0: Editor,
    e1: Editor,
    p0: EditorBuffer,
    p1: EditorBuffer,
    f0: Seq<Effect>,
    f1: Seq<Effect>,
) -> bool {
    let idle = p1.waiting_input.is_none() && p1.waiting_action.is_none() && p1.repeater.is_none();
    if !ev.press {
        e1 == e0 && p1 == p0 && f1 == f0
    } else if p0.waiting_input is Some {
        let w = p0.waiting_input->Some_0;
        &&& (plain(ev, KeyCode::Esc) ==> idle && e1 == e0 && f1 == f0)
        &&& (ev.code matches KeyCode::Char(c) ==> (ev.modifiers == Modifiers::Plain || ev.modifiers
            == Modifiers::Shift) ==> {
            let a = match w {
                Action::MoveToUnresolved => Action::MoveTo(c),
                _ => Action::MoveUntil(c),
            };
            &&& idle
            &&& dispatched(a, e0, e1, p0, p1)
        })
    } else {
        let plain_mod = ev.modifiers == Modifiers::Plain;
        &&& (plain(ev, KeyCode::Esc) ==> idle && e1.mode == Mode::Normal && e1.lines() == e0.lines()
            && e1.cursor_pos == switched_cursor(e0, Mode::Normal) && e1.curr_selection.is_none() && f1 == f0)
        &&& (plain_mod && ev.code == KeyCode::Left ==> dispatched(Action::MoveBackwards, e0, e1, p0, p1))
        &&& (plain_mod && ev.code == KeyCode::Right ==> dispatched(Action::MoveForward, e0, e1, p0, p1))
        &&& (plain_mod && ev.code == KeyCode::Up ==> dispatched(Action::MoveUp, e0, e1, p0, p1))
        &&& (plain_mod && ev.code == KeyCode::Down ==> dispatched(Action::MoveDown, e0, e1, p0, p1))
        &&& (ev.code matches KeyCode::Char(c) ==> {
            &&& (plain_mod && '0' <= c <= '9' ==> p1.repeater == next_count(p0.repeater, digit_value(c))
                && p1.waiting_action == p0.waiting_action && p1.waiting_input.is_none() && e1 == e0)
            &&& (plain_mod && c == 'f' ==> p1.waiting_input == Some(Action::MoveToUnresolved) && e1 == e0)
            &&& (plain_mod && c == 't' ==> p1.waiting_input == Some(Action::MoveUntilUnresolved) && e1 == e0)
            &&& (plain_mod ==> (key_action(c) matches Some(a) ==> idle && dispatched(a, e0, e1, p0, p1)))
            &&& (plain_mod && (ev.code == KeyCode::Char('$')) ==> idle && dispatched(Action::MoveEndOfLine, e0, e1, p0, p1))
            &&& (plain_mod ==> (operator_key(c) matches Some(op) ==> e0.mode == Mode::Normal ==> (
            if p0.waiting_action matches Some(w) && same_operator(w.1, op) {
                idle && dispatched(Action::ActOnSelf, e0, e1, p0, p1)
            } else {
                p1.waiting_action == Some((p0.repeater, op)) && p1.repeater.is_none() && e1 == e0
            })))
            &&& (plain_mod && e0.mode == Mode::Visual ==> {
                &&& (c == 'y' ==> idle && dispatched(Action::CopyVisualMode, e0, e1, p0, p1))
                &&& (c == 'd' ==> idle && dispatched(Action::DeleteVisualMode, e0, e1, p0, p1))
                &&& (c == 'c' ==> idle && dispatched(Action::ChangeVisualMode, e0, e1, p0, p1))
            })
            &&& (plain_mod && c == 'v' ==> idle && dispatched(Action::SwitchMode(Mode::Visual), e0, e1, p0, p1))
            &&& (plain_mod && c == 'p' ==> idle && dispatched(Action::Paste, e0, e1, p0, p1))
            &&& (plain_mod && c == 'i' ==> idle && dispatched(Action::SwitchMode(Mode::Insert), e0, e1, p0, p1)
                && (p0.waiting_action.is_none() ==> f1 == f0.push(Effect::BarCursor)))
            &&& (plain_mod && c == 'a' ==> p0.waiting_action.is_none() ==> idle && e1.mode == Mode::Insert
                && e1.lines() == e0.lines() && e1.cursor_pos == ((if e0.cursor_pos.0 + 1 <= e0.cur_line().len() {
                e0.cursor_pos.0 + 1
            } else {
                e0.cur_line().len() as int
            }) as usize, e0.cursor_pos.1) && f1 == f0.push(Effect::BarCursor))
            &&& (ev.modifiers == Modifiers::Shift && c == 'A' ==> idle && dispatched(
                Action::AppendEndOfLine,
                e0,
                e1,
                p0,
                p1,
            ) && (p0.waiting_action.is_none() ==> f1 == f0.push(Effect::BarCursor)))
            &&& (ev.modifiers == Modifiers::Shift && c == '$' ==> idle && dispatched(Action::MoveEndOfLine, e0, e1, p0, p1))
            &&& (ev.modifiers == Modifiers::Control && c == 's' ==> idle && dispatched(
                Action::WriteCurrentBuffer,
                e0,
                e1,
                p0,
                p1,
            ) && (p0.waiting_action.is_none() ==> f1 == f0.push(Effect::Save)))
            &&& (ev.modifiers == Modifiers::Control && c == 'q' ==> idle && dispatched(
                Action::Quit,
                e0,
                e1,
                p0,
                p1,
            ) && (p0.waiting_action.is_none() ==> f1 == f0.push(Effect::Quit)))
        })
    }
}

/// What a key does in Insert mode.
pub open spec fn insert_key_ok(
    ev: KeyEvent,
    e0: Editor,
    e1: Editor,
    p0: EditorBuffer,
    p1: EditorBuffer,
    f0: Seq<Effect>,
    f1: Seq<Effect>,
) -> bool {
    let idle = p1.waiting_input.is_none() && p1.waiting_action.is_none() && p1.repeater.is_none();
    let plain_mod = ev.modifiers == Modifiers::Plain;
    if !ev.press {
        e1 == e0 && p1 == p0 && f1 == f0
    } else {
        &&& (ev.code matches KeyCode::Char(c) ==> (plain_mod || ev.modifiers == Modifiers::Shift) ==> dispatched(
            Action::InsertChar(c),
            e0,
            e1,
            p0,
            p1,
        ))
        &&& (plain(ev, KeyCode::Esc) ==> idle && e1.mode == Mode::Normal && e1.lines() == e0.lines()
            && e1.cursor_pos == switched_cursor(e0, Mode::Normal) && f1 == f0.push(Effect::BlockCursor))
        &&& (plain(ev, KeyCode::Enter) ==> dispatched(Action::PutNewlineInsert, e0, e1, p0, p1))
        &&& (plain(ev, KeyCode::Backspace) ==> dispatched(Action::PopBackspace, e0, e1, p0, p1))
        &&& (plain(ev, KeyCode::Tab) ==> dispatched(Action::InsertChar('\t'), e0, e1, p0, p1))
        &&& (plain(ev, KeyCode::Left) ==> dispatched(Action::MoveBackwards, e0, e1, p0, p1))
        &&& (plain(ev, KeyCode::Right) ==> dispatched(Action::MoveForward, e0, e1, p0, p1))
        &&& (plain(ev, KeyCode::Up) ==> dispatched(Action::MoveUp, e0, e1, p0, p1))
        &&& (plain(ev, KeyCode::Down) ==> dispatched(Action::MoveDown, e0, e1, p0, p1))
    }
}

/// What an action does depends on the pane only through its viewport and top line.
pub proof fn lemma_applied_pane(a: Action, n: usize, e0: Editor, e1: Editor, p: EditorBuffer, q: EditorBuffer, p1: EditorBuffer)
    requires
        applied(a, n, e0, e1, p, p1),
        p.viewport == q.viewport,
        p.top_index == q.top_index,
    ensures
        applied(a, n, e0, e1, q, p1),
{
}

/// What an operator does depends on the pane only through its viewport and top line.
pub proof fn lemma_operated_pane(
    op: Action,
    a: Action,
    m: MoveInfo,
    ls: Seq<Seq<char>>,
    mode: Mode,
    cur: Pos,
    e1: Editor,
    p: EditorBuffer,
    q: EditorBuffer,
    p1: EditorBuffer,
)
    requires
        operated(op, a, m, ls, mode, cur, e1, p, p1),
        p.viewport == q.viewport,
        p.top_index == q.top_index,
    ensures
        operated(op, a, m, ls, mode, cur, e1, q, p1),
{
}

/// Dispatching depends on the pane only through its waiting operator, count, viewport and
/// top line.
pub proof fn lemma_dispatched_pane(a: Action, e0: Editor, e1: Editor, p: EditorBuffer, q: EditorBuffer, p1: EditorBuffer)
    requires
        dispatched(a, e0, e1, p, p1),
        p.waiting_action == q.waiting_action,
        p.repeater == q.repeater,
        p.viewport == q.viewport,
        p.top_index == q.top_index,
    ensures
        dispatched(a, e0, e1, q, p1),
{
    match p.waiting_action {
        None => lemma_applied_pane(a, count_of(p.repeater), e0, e1, p, q, p1),
        Some(w) => {
            let n = combine(w.0, p.repeater);
            match motion_extent(e0, a, n) {
                Some(m) => lemma_operated_pane(w.1, a, m, e0.lines(), e0.mode, motion_cursor(e0, a, n), e1, p, q, p1),
                None => {},
            }
        },
    }
}

impl EditorBuffer {
    /// Runs `motion`, repeated `quantifier` times; returns the action that ran last and
    /// the extent it moved over.
    pub fn flush_motions(&mut self, editor: &mut Editor, motion: &Motion, quantifier: usize, effects: &mut Vec<Effect>) -> (r: (Action, Option<MoveInfo>))
        requires
            old(editor).wf(),
            old(self).wf(),
        ensures
            final(editor).wf(),
            final(self).wf(),
            final(self).waiting_action == old(self).waiting_action,
            final(self).repeater == old(self).repeater,
            final(self).viewport == old(self).viewport,
            inner_single(*motion) matches Some((a, n)) ==> !(a is MoveToUnresolved || a is MoveUntilUnresolved) ==> {
                &&& r.0 == a
                &&& final(self).waiting_input == old(self).waiting_input
                &&& final(effects)@ == effects_after(a, old(effects)@)
                &&& applied(a, (if *motion is Single { quantifier } else { n }), *old(editor), *final(editor), *old(self), *final(self))
                &&& r.1 == motion_extent(*old(editor), a, if *motion is Single { quantifier } else { n })
                &&& (motion_extent(*old(editor), a, if *motion is Single { quantifier } else { n }) is Some ==> *final(self) == *old(self))
                &&& (!(a is Center) ==> final(self).top_index == old(self).top_index)
            },
            *motion matches Motion::Command(op, inner) ==> quantifier == 1 ==> is_operator(op) ==> (
            inner_single(*inner) matches Some((a, n)) ==> !(a is MoveToUnresolved || a is MoveUntilUnresolved)
                ==> {
                &&& final(self).waiting_input == old(self).waiting_input
                &&& (motion_extent(*old(editor), a, n) matches Some(m) ==> operated(op, a, m, old(editor).lines(),
                    old(editor).mode, motion_cursor(*old(editor), a, n), *final(editor), *old(self), *final(self)))
            }),
        decreases motion,
    {
        match motion {
            Motion::Command(op, inner) => {
                if quantifier == 1 {
                    let (a, movement) = self.flush_motions(editor, &**inner, 1, effects);
                    match movement {
                        Some(mov) => {
                            let resolved_action = Action::resolve_movement(op, a, mov);
                            self.match_action(editor, resolved_action, 1, effects);
                        },
                        None => {},
                    }
                } else {
                    let mut k: usize = 0;
                    #[verifier::loop_isolation(false)]
                    while k < quantifier
                        invariant
                            editor.wf(),
                            self.wf(),
                            self.waiting_action == old(self).waiting_action,
                            self.repeater == old(self).repeater,
                            self.viewport == old(self).viewport,
                        decreases quantifier - k,
                    {
                        let (a, movement) = self.flush_motions(editor, &**inner, 1, effects);
                        match movement {
                            Some(mov) => {
                                let resolved_action = Action::resolve_movement(op, a, mov);
                                self.match_action(editor, resolved_action, quantifier, effects);
                            },
                            None => {},
                        }
                        k += 1;
                    }
                }
                (Action::Nothing, None)
            },
            Motion::Single(a) => {
                if a.expects_input() {
                    self.waiting_input = Some(a.duplicate());
                    return (a.duplicate(), None);
                }
                let r = self.match_action(editor, a.duplicate(), quantifier, effects);
                (a.duplicate(), r)
            },
            Motion::Repeating(n, m) => self.flush_motions(editor, &**m, *n, effects),
        }
    }

    /// Runs `motion` under the count and the operator typed before it, and clears both. An
    /// operator applies once, over what its motion covers with the combined count.
    pub fn handle_motions(&mut self, editor: &mut Editor, motion: Motion, effects: &mut Vec<Effect>)
        requires
            old(editor).wf(),
            old(self).wf(),
        ensures
            final(editor).wf(),
            final(self).wf(),
            final(self).waiting_action.is_none(),
            final(self).repeater.is_none(),
            final(self).viewport == old(self).viewport,
            motion matches Motion::Single(a) ==> !(a is MoveToUnresolved || a is MoveUntilUnresolved) ==> dispatched(
                a,
                *old(editor),
                *final(editor),
                *old(self),
                *final(self),
            ) && final(self).waiting_input == old(self).waiting_input,
            old(self).waiting_action.is_none() ==> (motion matches Motion::Single(a) ==> !(
            a is MoveToUnresolved || a is MoveUntilUnresolved) ==> final(effects)@ == effects_after(a, old(effects)@)),
    {
        let ghost orig = motion;
        let rep = self.repeater;
        self.repeater = None;
        let waiting = match &self.waiting_action {
            Some(w) => Some((w.0, w.1.duplicate())),
            None => None,
        };
        self.waiting_action = None;
        let composed = match waiting {
            Some((count, op)) => {
                let c = match count { Some(v) => v, None => 1 };
                let r = match rep { Some(v) => v, None => 1 };
                proof {
                    if c > 0 && r <= usize::MAX / c {
                        assert(c * r <= usize::MAX) by (nonlinear_arith)
                            requires
                                c > 0,
                                r <= usize::MAX / c,
                        ;
                    } else if c > 0 {
                        assert(c * r > usize::MAX) by (nonlinear_arith)
                            requires
                                c > 0,
                                r > usize::MAX / c,
                        ;
                    }
                }
                let n = if c == 0 { 0 } else if r <= usize::MAX / c { c * r } else { usize::MAX };
                proof {
                    assert(count_of(count) == c);
                    assert(count_of(rep) == r);
                    if c == 0 {
                        assert(c * r == 0) by (nonlinear_arith)
                            requires
                                c == 0,
                        ;
                    }
                    assert(n == combine(count, rep));
                    assert(is_operator(op));
                }
                Motion::Command(op, Box::new(Motion::Repeating(n, Box::new(motion))))
            },
            None => match rep {
                Some(n) => Motion::Repeating(n, Box::new(motion)),
                None => motion,
            },
        };
        let ghost mid = *self;
        let ghost e0 = *editor;
        self.flush_motions(editor, &composed, 1, effects);
        proof {
            match orig {
                Motion::Single(a) => {
                    if !(a is MoveToUnresolved || a is MoveUntilUnresolved) {
                        match old(self).waiting_action {
                            None => {
                                lemma_applied_pane(a, count_of(rep), e0, *editor, mid, *old(self), *self);
                            },
                            Some(w) => {
                                let n = combine(w.0, rep);
                                match motion_extent(e0, a, n) {
                                    Some(m) => {
                                        lemma_operated_pane(w.1, a, m, e0.lines(), e0.mode,
                                            motion_cursor(e0, a, n), *editor, mid, *old(self), *self);
                                    },
                                    None => {},
                                }
                            },
                        }
                    }
                },
                _ => {},
            }
        }
    }

    /// Starts operator `a`, or applies it to the current line and those below under the
    /// count when it repeats the operator already waiting. Visual mode has no operators.
    pub fn handle_waiting_command(&mut self, editor: &mut Editor, a: Action, effects: &mut Vec<Effect>)
        requires
            old(editor).wf(),
            old(self).wf(),
            is_operator(a),
        ensures
            final(editor).wf(),
            final(self).wf(),
            final(self).waiting_input == old(self).waiting_input,
            old(editor).mode == Mode::Visual ==> *final(self) == *old(self) && *final(editor) == *old(editor),
            old(editor).mode != Mode::Visual ==> if old(self).waiting_action matches Some(w) && same_operator(w.1, a) {
                dispatched(Action::ActOnSelf, *old(editor), *final(editor), *old(self), *final(self))
            } else {
                &&& final(self).waiting_action == Some((old(self).repeater, a))
                &&& final(self).repeater.is_none()
                &&& *final(editor) == *old(editor)
            },
    {
        if editor.mode == Mode::Visual {
            return;
        }
        let doubled = match &self.waiting_action {
            Some(w) => w.1.same_operator(&a),
            None => false,
        };
        if doubled {
            self.handle_motions(editor, Motion::Single(Action::ActOnSelf), effects);
            return;
        }
        self.waiting_action = Some((self.repeater, a));
        self.repeater = None;
    }

    /// Resolves a waiting find or until with a typed character; Esc drops all pending input.
    pub fn handle_waiting_inputs(&mut self, editor: &mut Editor, ev: KeyEvent, effects: &mut Vec<Effect>)
        requires
            old(editor).wf(),
            old(self).wf(),
            old(self).waiting_input is Some,
        ensures
            final(editor).wf(),
            final(self).wf(),
            normal_key_ok(ev, *old(editor), *final(editor), *old(self), *final(self), old(effects)@, final(effects)@),
    {
        if !ev.press {
            return;
        }
        match ev.code {
            KeyCode::Esc => {
                if ev.modifiers == Modifiers::Plain {
                    self.waiting_input = None;
                    self.waiting_action = None;
                    self.repeater = None;
                }
            },
            KeyCode::Char(c) => {
                if ev.modifiers == Modifiers::Plain || ev.modifiers == Modifiers::Shift {
                    let pending = match &self.waiting_input {
                        Some(a) => Some(a.duplicate()),
                        None => None,
                    };
                    match pending {
                        Some(a) => {
                            self.waiting_input = None;
                            let resolved_action = Action::resolve_char(&a, c);
                            let ghost mid = *self;
                            let ghost e0 = *editor;
                            self.handle_motions(editor, Motion::Single(resolved_action), effects);
                            proof {
                                lemma_dispatched_pane(resolved_action, e0, *editor, mid, *old(self), *self);
                            }
                        },
                        None => {},
                    }
                }
            },
            _ => {},
        }
    }

    /// Keys in Insert mode: characters go in, Enter splits, Backspace joins or deletes,
    /// Tab inserts a tab, arrows move, Esc returns to Normal.
    pub fn handle_insert_keys(&mut self, editor: &mut Editor, ev: KeyEvent, effects: &mut Vec<Effect>)
        requires
            old(editor).wf(),
            old(self).wf(),
        ensures
            final(editor).wf(),
            final(self).wf(),
            insert_key_ok(ev, *old(editor), *final(editor), *old(self), *final(self), old(effects)@, final(effects)@),
    {
        if !ev.press {
            return;
        }
        let plain_mod = ev.modifiers == Modifiers::Plain;
        match ev.code {
            KeyCode::Char(c) => {
                if plain_mod || ev.modifiers == Modifiers::Shift {
                    self.handle_motions(editor, Motion::Single(Action::InsertChar(c)), effects);
                }
            },
            KeyCode::Esc => {
                if plain_mod {
                    self.waiting_input = None;
                    self.waiting_action = None;
                    self.repeater = None;
                    self.handle_motions(editor, Motion::Single(Action::SwitchMode(Mode::Normal)), effects);
                    effects.push(Effect::BlockCursor);
                }
            },
            KeyCode::Enter => {
                if plain_mod {
                    self.handle_motions(editor, Motion::Single(Action::PutNewlineInsert), effects);
                }
            },
            KeyCode::Backspace => {
                if plain_mod {
                    self.handle_motions(editor, Motion::Single(Action::PopBackspace), effects);
                }
            },
            KeyCode::Tab => {
                if plain_mod {
                    self.handle_motions(editor, Motion::Single(Action::InsertChar('\t')), effects);
                }
            },
            KeyCode::Left => {
                if plain_mod {
                    self.handle_motions(editor, Motion::Single(Action::MoveBackwards), effects);
                }
            },
            KeyCode::Right => {
                if plain_mod {
                    self.handle_motions(editor, Motion::Single(Action::MoveForward), effects);
                }
            },
            KeyCode::Up => {
                if plain_mod {
                    self.handle_motions(editor, Motion::Single(Action::MoveUp), effects);
                }
            },
            KeyCode::Down => {
                if plain_mod {
                    self.handle_motions(editor, Motion::Single(Action::MoveDown), effects);
                }
            },
            KeyCode::Other => {},
        }
    }

    /// Keys in Normal and Visual mode.
    pub fn handle_normal_keys(&mut self, editor: &mut Editor, ev: KeyEvent, effects: &mut Vec<Effect>)
        requires
            old(editor).wf(),
            old(self).wf(),
        ensures
            final(editor).wf(),
            final(self).wf(),
            normal_key_ok(ev, *old(editor), *final(editor), *old(self), *final(self), old(effects)@, final(effects)@),
    {
        if self.waiting_input.is_some() {
            self.handle_waiting_inputs(editor, ev, effects);
            return;
        }
        if !ev.press {
            return;
        }
        let m = ev.modifiers;
        let plain_mod = m == Modifiers::Plain;
        match ev.code {
            KeyCode::Esc => {
                if plain_mod {
                    self.waiting_input = None;
                    self.waiting_action = None;
                    self.repeater = None;
                    self.handle_motions(editor, Motion::Single(Action::SwitchMode(Mode::Normal)), effects);
                } else {
                    self.repeater = None;
                }
            },
            KeyCode::Left => {
                if plain_mod {
                    self.handle_motions(editor, Motion::Single(Action::MoveBackwards), effects);
                } else {
                    self.repeater = None;
                }
            },
            KeyCode::Right => {
                if plain_mod {
                    self.handle_motions(editor, Motion::Single(Action::MoveForward), effects);
                } else {
                    self.repeater = None;
                }
            },
            KeyCode::Up => {
                if plain_mod {
                    self.handle_motions(editor, Motion::Single(Action::MoveUp), effects);
                } else {
                    self.repeater = None;
                }
            },
            KeyCode::Down => {
                if plain_mod {
                    self.handle_motions(editor, Motion::Single(Action::MoveDown), effects);
                } else {
                    self.repeater = None;
                }
            },
            KeyCode::Char(c) => {
                if m == Modifiers::Control {
                    if c == 's' {
                        self.handle_motions(editor, Motion::Single(Action::WriteCurrentBuffer), effects);
                    } else if c == 'q' {
                        self.handle_motions(editor, Motion::Single(Action::Quit), effects);
                    } else {
                        self.repeater = None;
                    }
                } else if m == Modifiers::Shift {
                    if c == 'A' {
                        let ghost w0 = self.waiting_action;
                        self.handle_motions(editor, Motion::Single(Action::AppendEndOfLine), effects);
                        effects.push(Effect::BarCursor);
                    } else if c == '$' {
                        self.handle_motions(editor, Motion::Single(Action::MoveEndOfLine), effects);
                    } else {
                        self.repeater = None;
                    }
                } else if plain_mod {
                    self.handle_plain_char(editor, c, effects);
                } else {
                    self.repeater = None;
                }
            },
            _ => {
                self.repeater = None;
            },
        }
    }

    fn handle_plain_char(&mut self, editor: &mut Editor, c: char, effects: &mut Vec<Effect>)
        requires
            old(editor).wf(),
            old(self).wf(),
            old(self).waiting_input.is_none(),
        ensures
            final(editor).wf(),
            final(self).wf(),
            normal_key_ok(
                KeyEvent { code: KeyCode::Char(c), modifiers: Modifiers::Plain, press: true },
                *old(editor),
                *final(editor),
                *old(self),
                *final(self),
                old(effects)@,
                final(effects)@,
            ),
    {
        let visual = editor.mode == Mode::Visual;
        if c == 'v' {
            self.handle_motions(editor, Motion::Single(Action::SwitchMode(Mode::Visual)), effects);
        } else if c == 'y' {
            if visual {
                self.handle_motions(editor, Motion::Single(Action::CopyVisualMode), effects);
            } else {
                self.handle_waiting_command(editor, Action::CopyUnresolved, effects);
            }
        } else if c == 'p' {
            self.handle_motions(editor, Motion::Single(Action::Paste), effects);
        } else if c == 'z' {
            self.handle_waiting_command(editor, Action::CenterUnresolved, effects);
        } else if c == 'f' {
            self.waiting_input = Some(Action::MoveToUnresolved);
        } else if c == 't' {
            self.waiting_input = Some(Action::MoveUntilUnresolved);
        } else if c == 'j' {
            self.handle_motions(editor, Motion::Single(Action::MoveDown), effects);
        } else if c == 'k' {
            self.handle_motions(editor, Motion::Single(Action::MoveUp), effects);
        } else if c == 'h' {
            self.handle_motions(editor, Motion::Single(Action::MoveBackwards), effects);
        } else if c == 'l' {
            self.handle_motions(editor, Motion::Single(Action::MoveForward), effects);
        } else if c == 'x' {
            self.handle_motions(editor, Motion::Single(Action::PopChar), effects);
        } else if c == 'i' {
            self.handle_motions(editor, Motion::Single(Action::SwitchMode(Mode::Insert)), effects);
            effects.push(Effect::BarCursor);
        } else if c == 'a' {
            self.handle_motions(editor, Motion::Single(Action::SwitchMode(Mode::Insert)), effects);
            self.handle_motions(editor, Motion::Single(Action::MoveForward), effects);
            effects.push(Effect::BarCursor);
        } else if c == 'w' {
            self.handle_motions(editor, Motion::Single(Action::MoveWord), effects);
        } else if c == 'b' {
            self.handle_motions(editor, Motion::Single(Action::MoveBackWord), effects);
        } else if c == 'e' {
            self.handle_motions(editor, Motion::Single(Action::MoveEndWord), effects);
        } else if c == '$' {
            self.handle_motions(editor, Motion::Single(Action::MoveEndOfLine), effects);
        } else if c == 'd' {
            if visual {
                self.handle_motions(editor, Motion::Single(Action::DeleteVisualMode), effects);
            } else {
                self.handle_waiting_command(editor, Action::DeleteUnresolved, effects);
            }
        } else if c == 'c' {
            if visual {
                self.handle_motions(editor, Motion::Single(Action::ChangeVisualMode), effects);
            } else {
                self.handle_waiting_command(editor, Action::ChangeUnresolved, effects);
            }
        } else if '0' <= c && c <= '9' {
            let d = (c as u32 - '0' as u32) as usize;
            self.repeater = match self.repeater {
                Some(n) => Some(if n <= (usize::MAX - d) / 10 { n * 10 + d } else { 0 }),
                None => Some(d),
            };
            proof {
                match old(self).repeater {
                    Some(n) => {
                        if n <= (usize::MAX - d) / 10 {
                            assert(n * 10 + d <= usize::MAX) by (nonlinear_arith)
                                requires
                                    n <= (usize::MAX - d) / 10,
                                    d <= 9,
                            ;
                        } else {
                            assert(n * 10 + d > usize::MAX) by (nonlinear_arith)
                                requires
                                    n > (usize::MAX - d) / 10,
                                    d <= 9,
                            ;
                        }
                    },
                    None => {},
                }
            }
        } else {
            self.repeater = None;
        }
    }

    /// Handles one input event by the editor's mode; returns the effects to carry out.
    /// Events other than keys change nothing.
    pub fn handle_events(&mut self, editor: &mut Editor, event: InputEvent) -> (r: Vec<Effect>)
        requires
            old(editor).wf(),
            old(self).wf(),
        ensures
            final(editor).wf(),
            final(self).wf(),
            match event {
                InputEvent::Key(ev) => if old(editor).mode == Mode::Insert {
                    insert_key_ok(ev, *old(editor), *final(editor), *old(self), *final(self), Seq::empty(), r@)
                } else {
                    normal_key_ok(ev, *old(editor), *final(editor), *old(self), *final(self), Seq::empty(), r@)
                },
                _ => *final(editor) == *old(editor) && *final(self) == *old(self) && r@ == Seq::<Effect>::empty(),
            },
    {
        let mut effects: Vec<Effect> = Vec::new();
        match event {
            InputEvent::Key(ev) => {
                match editor.mode {
                    Mode::Normal | Mode::Visual => self.handle_normal_keys(editor, ev, &mut effects),
                    Mode::Insert => self.handle_insert_keys(editor, ev, &mut effects),
                }
            },
            _ => {},
        }
        effects
    }
}

} // verus!
