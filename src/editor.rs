//! The editor: a document, a cursor, a mode, a selection and a clipboard.
use vstd::prelude::*;
use crate::moves::{Pos, MoveInfo};
use crate::text::{TextBuffer, CAPACITY, split_on, join_with, lemma_join_split, view_lines, split_pieces, join_pieces};

verus! {

/// The editing mode.
#[derive(Debug, Clone, Copy, PartialEq, Eq, Structural)]
pub enum Mode {
    Normal,
    Insert,
    Visual,
}

impl Mode {
    pub open spec fn name(&self) -> Seq<char> {
        match self {
            Mode::Normal => seq!['N', 'O', 'R', 'M', 'A', 'L'],
            Mode::Insert => seq!['I', 'N', 'S', 'E', 'R', 'T'],
            Mode::Visual => seq!['V', 'I', 'S', 'U', 'A', 'L'],
        }
    }

    /// The mode's name in capitals.
    pub fn to_string(&self) -> (r: String)
        ensures
            r@ == self.name(),
    {
        let r = match self {
            Mode::Normal => String::from_str("NORMAL"),
            Mode::Insert => String::from_str("INSERT"),
            Mode::Visual => String::from_str("VISUAL"),
        };
        proof {
            reveal_strlit("NORMAL");
            reveal_strlit("INSERT");
            reveal_strlit("VISUAL");
        }
        assert(r@ =~= self.name());
        r
    }
}

/// How many positions at the end of a line the cursor may not occupy.
pub open spec fn slack(mode: Mode) -> nat {
    if mode == Mode::Insert {
        0
    } else {
        1
    }
}

/// The largest cursor column on a line of `len` characters.
pub open spec fn max_x(len: nat, mode: Mode) -> nat {
    if len >= slack(mode) {
        (len - slack(mode)) as nat
    } else {
        0
    }
}

/// The in-process clipboard: the pieces of its text between newlines.
pub struct DefaultClipboard {
    pub data: Vec<Vec<char>>,
}

impl DefaultClipboard {
    pub open spec fn view(&self) -> Seq<char> {
        join_with(view_lines(self.data@), '\n')
    }

    pub fn new() -> (r: DefaultClipboard)
        ensures
            r.view() == Seq::<char>::empty(),
    {
        DefaultClipboard { data: Vec::new() }
    }

    /// The stored text.
    pub fn get_contents(&self) -> (r: Vec<char>)
        ensures
            r@ == self.view(),
    {
        join_pieces(&self.data)
    }

    /// Replaces the stored text.
    pub fn set_contents(&mut self, contents: &Vec<char>)
        ensures
            view_lines(final(self).data@) == split_on(contents@, '\n'),
            final(self).view() == contents@,
    {
        self.data = split_pieces(contents);
        proof {
            lemma_join_split(contents@, '\n');
        }
    }
}

/// The selection that Visual mode keeps for an anchor and a cursor.
pub open spec fn selection_for(anchor: Pos, cursor: Pos) -> (Pos, MoveInfo) {
    (anchor, MoveInfo { start_pos: anchor, end_pos: cursor }.spec_ordered())
}

/// A text editor over one document.
pub struct Editor {
    pub buffer: TextBuffer,
    /// `(x, y)`: a character index and a line index.
    pub cursor_pos: Pos,
    pub mode: Mode,
    pub message: String,
    /// In Visual mode, where the selection started and what it covers.
    pub curr_selection: Option<(Pos, MoveInfo)>,
    /// The column that vertical motions aim for.
    pub latest_x: Option<usize>,
    pub clipboard: DefaultClipboard,
}

impl Editor {
    pub open spec fn lines(&self) -> Seq<Seq<char>> {
        self.buffer.view()
    }

    pub open spec fn cur_line(&self) -> Seq<char> {
        self.lines()[self.cursor_pos.1 as int]
    }

    /// The selection exists exactly in Visual mode and follows the cursor.
    pub open spec fn selection_ok(&self) -> bool {
        &&& (self.mode == Mode::Visual) == self.curr_selection.is_some()
        &&& match self.curr_selection {
            Some(s) => s == selection_for(s.0, self.cursor_pos),
            None => true,
        }
    }

    /// The cursor stands inside the document.
    pub open spec fn cursor_ok(&self) -> bool {
        &&& self.cursor_pos.1 < self.lines().len()
        &&& self.cursor_pos.0 <= max_x(self.cur_line().len(), self.mode)
    }

    pub open spec fn wf(&self) -> bool {
        &&& self.buffer.wf()
        &&& self.cursor_ok()
        &&& self.selection_ok()
        &&& match self.latest_x {
            Some(v) => v <= CAPACITY,
            None => true,
        }
    }

    /// The selection after the cursor moves to `p`.
    pub open spec fn selection_at(&self, p: Pos) -> Option<(Pos, MoveInfo)> {
        match self.curr_selection {
            Some(s) => Some(selection_for(s.0, p)),
            None => None,
        }
    }

    /// `b` is `a` with only the cursor, and the selection that follows it, changed.
    pub open spec fn moved(a: &Editor, b: &Editor) -> bool {
        &&& b.buffer == a.buffer
        &&& b.mode == a.mode
        &&& b.message == a.message
        &&& b.latest_x == a.latest_x
        &&& b.clipboard == a.clipboard
        &&& b.curr_selection == a.selection_at(b.cursor_pos)
    }

    /// `b` differs from `a` at most in its lines, cursor, change flag and remembered
    /// column, and its selection follows its cursor.
    pub open spec fn kept(a: &Editor, b: &Editor) -> bool {
        &&& b.mode == a.mode
        &&& b.message == a.message
        &&& b.clipboard == a.clipboard
        &&& b.buffer.path == a.buffer.path
        &&& b.buffer.bytes_len == a.buffer.bytes_len
        &&& b.curr_selection == a.selection_at(b.cursor_pos)
    }

    /// `b` is `a` with at most its lines changed.
    pub open spec fn same_but_lines(a: &Editor, b: &Editor) -> bool {
        &&& b.cursor_pos == a.cursor_pos
        &&& b.mode == a.mode
        &&& b.message == a.message
        &&& b.curr_selection == a.curr_selection
        &&& b.latest_x == a.latest_x
        &&& b.clipboard == a.clipboard
        &&& b.buffer.path == a.buffer.path
        &&& b.buffer.bytes_len == a.buffer.bytes_len
        &&& b.buffer.has_changes == a.buffer.has_changes
    }

    /// An editor on an empty document.
    pub fn new() -> (r: Editor)
        ensures
            r.wf(),
            r.lines() == seq![Seq::<char>::empty()],
            r.cursor_pos == (0usize, 0usize),
            r.mode == Mode::Normal,
            r.curr_selection.is_none(),
            r.latest_x.is_none(),
            r.clipboard.view() == Seq::<char>::empty(),
    {
        Editor {
            buffer: TextBuffer::new("default.txt"),
            cursor_pos: (0, 0),
            mode: Mode::Normal,
            message: String::new(),
            curr_selection: None,
            latest_x: None,
            clipboard: DefaultClipboard::new(),
        }
    }

    /// An editor on `buffer`, with the cursor at the start.
    pub fn with_buffer(buffer: TextBuffer) -> (r: Editor)
        requires
            buffer.wf(),
        ensures
            r.wf(),
            r.buffer == buffer,
            r.cursor_pos == (0usize, 0usize),
            r.mode == Mode::Normal,
    {
        Editor {
            buffer,
            cursor_pos: (0, 0),
            mode: Mode::Normal,
            message: String::new(),
            curr_selection: None,
            latest_x: None,
            clipboard: DefaultClipboard::new(),
        }
    }

    /// Places the cursor; in Visual mode the selection follows it.
    pub fn move_cursor_to(&mut self, x: usize, y: usize)
        requires
            (old(self).mode == Mode::Visual) == old(self).curr_selection.is_some(),
        ensures
            final(self).cursor_pos == (x, y),
            Editor::moved(&*old(self), &*final(self)),
            final(self).selection_ok(),
    {
        self.cursor_pos = (x, y);
        if self.mode == Mode::Visual {
            match self.curr_selection {
                Some(select) => {
                    self.curr_selection = Some(
                        (
                            select.0,
                            MoveInfo { start_pos: select.0, end_pos: self.cursor_pos }.get_ordered(),
                        ),
                    );
                },
                None => {},
            }
        }
    }

    /// The largest cursor column on line `y`.
    pub fn max_cursor_x(&self, y: usize) -> (r: usize)
        requires
            y < self.lines().len(),
            self.buffer.wf(),
        ensures
            r == max_x(self.lines()[y as int].len(), self.mode),
    {
        let len = self.buffer.lines[y].len();
        if self.mode == Mode::Insert {
            len
        } else if len >= 1 {
            len - 1
        } else {
            0
        }
    }

    /// Moves left by `amount`, stopping at the line start.
    pub fn move_cursor_left(&mut self, amount: usize) -> (r: MoveInfo)
        requires
            old(self).wf(),
        ensures
            final(self).wf(),
            final(self).cursor_pos == (
                (if old(self).cursor_pos.0 >= amount { (old(self).cursor_pos.0 - amount) as usize } else { 0usize }),
                old(self).cursor_pos.1,
            ),
            final(self).buffer == old(self).buffer,
            final(self).mode == old(self).mode,
            final(self).clipboard == old(self).clipboard,
            final(self).message == old(self).message,
            final(self).curr_selection == old(self).selection_at(final(self).cursor_pos),
            final(self).latest_x == Some(final(self).cursor_pos.0),
            r == (MoveInfo { start_pos: old(self).cursor_pos, end_pos: final(self).cursor_pos }),
    {
        let start = self.cursor_pos;
        let x = if self.cursor_pos.0 >= amount { self.cursor_pos.0 - amount } else { 0 };
        self.move_cursor_to(x, self.cursor_pos.1);
        self.latest_x = Some(self.cursor_pos.0);
        MoveInfo { start_pos: start, end_pos: self.cursor_pos }
    }

    /// Moves right by `amount`, stopping at the last column the mode allows.
    pub fn move_cursor_right(&mut self, amount: usize) -> (r: MoveInfo)
        requires
            old(self).wf(),
        ensures
            final(self).wf(),
            final(self).cursor_pos == (
                (if old(self).cursor_pos.0 + amount <= max_x(old(self).cur_line().len(), old(self).mode) {
                    (old(self).cursor_pos.0 + amount) as usize
                } else {
                    max_x(old(self).cur_line().len(), old(self).mode) as usize
                }),
                old(self).cursor_pos.1,
            ),
            final(self).buffer == old(self).buffer,
            final(self).mode == old(self).mode,
            final(self).clipboard == old(self).clipboard,
            final(self).message == old(self).message,
            final(self).curr_selection == old(self).selection_at(final(self).cursor_pos),
            final(self).latest_x == Some(final(self).cursor_pos.0),
            r == (MoveInfo { start_pos: old(self).cursor_pos, end_pos: final(self).cursor_pos }),
    {
        let start = self.cursor_pos;
        let n = self.max_cursor_x(self.cursor_pos.1);
        let x = if n - self.cursor_pos.0 >= amount { self.cursor_pos.0 + amount } else { n };
        self.move_cursor_to(x, self.cursor_pos.1);
        self.latest_x = Some(self.cursor_pos.0);
        MoveInfo { start_pos: start, end_pos: self.cursor_pos }
    }
}

} // verus!
