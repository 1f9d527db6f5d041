//! Drawing the edit pane, the status line and the message line.
use vstd::prelude::*;
use crate::editor::{Editor, Mode};
use crate::moves::MoveInfo;
use crate::pane::{EditorBuffer, YANK_HIGHLIGHT_FRAMES};
use crate::render::{Cell, RenderBuffer, Style, Viewport, styled};
use crate::styles::{default_text_style, default_line_number_style, highlighted_text};
use crate::text::{CAPACITY, decimal, decimal_chars, append_chars, append_str};
use crate::vertical::{TABSTOP, spaces_till_next_tab, lemma_spaces_bounds};

verus! {

/// `n` spaces.
pub open spec fn spaces(n: nat) -> Seq<char> {
    Seq::new(n, |i: int| ' ')
}

/// `s` as it shows on screen: each tab widened with spaces to the next tab stop.
pub open spec fn expand(s: Seq<char>) -> Seq<char>
    decreases s.len(),
{
    if s.len() == 0 {
        Seq::empty()
    } else {
        let e = expand(s.drop_last());
        if s.last() == '\t' {
            e + spaces(spaces_till_next_tab(e.len(), TABSTOP as nat))
        } else {
            e.push(s.last())
        }
    }
}

/// The characters of a row of cells.
pub open spec fn cell_chars(cells: Seq<Cell>) -> Seq<char>
    decreases cells.len(),
{
    if cells.len() == 0 {
        Seq::empty()
    } else {
        cell_chars(cells.drop_last()).push(cells.last().character)
    }
}

/// Whether `(x, y)` lies in the ordered extent `selection`, both ends included.
pub open spec fn in_selection(x: nat, y: nat, selection: MoveInfo) -> bool {
    let (sx, sy) = selection.start_pos;
    let (ex, ey) = selection.end_pos;
    if sy == ey {
        y == sy && sx <= x <= ex
    } else if y == sy {
        x >= sx
    } else if y == ey {
        x <= ex
    } else {
        sy < y < ey
    }
}

/// The text of the status line's mode box.
pub open spec fn mode_text(mode: Mode) -> Seq<char> {
    seq![' '] + mode.name() + seq![' ']
}

/// The text of the status line's file name, with a mark for unsaved changes.
pub open spec fn name_text(path: Seq<char>, changed: bool) -> Seq<char> {
    if changed {
        path + " [+]"@
    } else {
        path
    }
}

/// The byte count and cursor position, right-aligned in a field of `width` columns.
pub open spec fn position_text(bytes: nat, x: nat, y: nat, width: nat) -> Seq<char> {
    let p = decimal(bytes) + " B | "@ + decimal(y) + seq![':'] + decimal(x) + seq![' '];
    let pad: nat = if p.len() + 3 >= width / 20 {
        p.len() + 3
    } else {
        width / 20
    };
    spaces((pad - p.len()) as nat) + p
}

/// The extra columns that tabs add among the first `take` characters of `line` from
/// `side` on.
fn shown_shift(line: &Vec<char>, side: usize, take: usize) -> (r: usize)
    requires
        line@.len() <= CAPACITY,
        side <= CAPACITY,
        take <= CAPACITY + 1,
    ensures
        r == view_shift(line@, side as nat, if side <= line@.len() {
            if take <= line@.len() - side { take as nat } else { (line@.len() - side) as nat }
        } else {
            0
        }),
        r <= take,
{
    let mut shift: usize = 0;
    let mut i: usize = 0;
    while i < take && side + i < line.len()
        invariant
            line@.len() <= CAPACITY,
            side <= CAPACITY,
            shift <= i,
            i <= take <= CAPACITY + 1,
            side + i <= line@.len() || i == 0,
            shift == view_shift(line@, side as nat, i as nat),
        decreases take - i,
    {
        proof {
            lemma_spaces_bounds((shift + i + side) as nat);
        }
        if line[side + i] == '\t' {
            shift = shift + Editor::get_spaces_till_next_tab(shift + i + side, TABSTOP) - 1;
        }
        i += 1;
    }
    shift
}

impl EditorBuffer {
    /// Whether `(x, y)` lies in the ordered extent `selection`, both ends included.
    pub fn is_in_selection(x: usize, y: usize, selection: &MoveInfo) -> (r: bool)
        ensures
            r == in_selection(x as nat, y as nat, *selection),
    {
        let (start_x, start_y) = selection.start_pos;
        let (end_x, end_y) = selection.end_pos;
        if start_y == end_y {
            return y == start_y && (x >= start_x && x <= end_x);
        }
        if y == start_y {
            return x >= start_x;
        }
        if y == end_y {
            return x <= end_x;
        }
        y > start_y && y < end_y
    }

    /// The style of character `x` of line `y`: selected, just copied, or plain (lighter on
    /// the cursor's line).
    fn cell_style(&self, editor: &Editor, x: usize, y: usize) -> (r: Style) {
        let plain = default_text_style(y == editor.cursor_pos.1);
        match &editor.curr_selection {
            Some(selection) => {
                if Self::is_in_selection(x, y, &selection.1) {
                    highlighted_text()
                } else {
                    plain
                }
            },
            None => match &self.highlighted_selection {
                Some(selection) => {
                    if Self::is_in_selection(x, y, selection) && self.elapsed_frames <= YANK_HIGHLIGHT_FRAMES {
                        highlighted_text()
                    } else {
                        plain
                    }
                },
                None => plain,
            },
        }
    }

    /// The cells of line `y` as it shows on screen; an empty line shows as one space.
    pub fn line_cells(&self, editor: &Editor, y: usize) -> (r: Vec<Cell>)
        requires
            editor.wf(),
            y < editor.lines().len(),
        ensures
            cell_chars(r@) == expand(if editor.lines()[y as int].len() == 0 {
                seq![' ']
            } else {
                editor.lines()[y as int]
            }),
    {
        let line = &editor.buffer.lines[y];
        let mut single: Vec<char> = Vec::new();
        single.push(' ');
        let l: &Vec<char> = if line.len() == 0 { &single } else { line };
        proof {
            assert(editor.lines()[y as int].len() <= CAPACITY);
        }
        let mut cells: Vec<Cell> = Vec::new();
        let mut x: usize = 0;
        while x < l.len()
            invariant
                l@.len() <= CAPACITY,
                x <= l@.len(),
                cell_chars(cells@) == expand(l@.take(x as int)),
                cells@.len() <= TABSTOP * x,
            decreases l@.len() - x,
        {
            proof {
                assert(l@.take(x + 1).drop_last() == l@.take(x as int));
                assert(l@.take(x + 1).last() == l@[x as int]);
                lemma_spaces_bounds(cells@.len() as nat);
                lemma_cell_chars_len(cells@);
            }
            let style = self.cell_style(editor, x, y);
            let c = l[x];
            if c == '\t' {
                let n = Editor::get_spaces_till_next_tab(cells.len(), TABSTOP);
                let mut k: usize = 0;
                let ghost base = cells@;
                while k < n
                    invariant
                        k <= n,
                        cells@.len() == base.len() + k,
                        cell_chars(cells@) == cell_chars(base) + spaces(k as nat),
                    decreases n - k,
                {
                    let ghost before = cells@;
                    cells.push(Cell::with_style(' ', style));
                    proof {
                        assert(cells@.drop_last() == before);
                        assert(spaces((k + 1) as nat) =~= spaces(k as nat).push(' '));
                    }
                    k += 1;
                }
            } else {
                let ghost before = cells@;
                cells.push(Cell::with_style(c, style));
                proof {
                    assert(cells@.drop_last() == before);
                }
            }
            x += 1;
        }
        proof {
            assert(l@.take(l@.len() as int) == l@);
        }
        cells
    }

    /// Draws the visible lines, with the cursor's line and the selection highlighted: row
    /// `i` of the pane shows line `top_index + i` as expanded on screen, from column
    /// `side_scroll` on, after the line numbers.
    pub fn draw_lines(&mut self, render_buffer: &mut RenderBuffer, editor: &mut Editor)
        requires
            old(editor).wf(),
            old(render_buffer).wf(),
        ensures
            *final(editor) == *old(editor),
            final(render_buffer).wf(),
            final(render_buffer).width == old(render_buffer).width,
            final(render_buffer).height == old(render_buffer).height,
            *final(self) == *old(self),
            pane_shows(final(render_buffer).data@, old(render_buffer).width as int, old(render_buffer).height as int,
                old(self).viewport, old(self).top_index as nat, old(self).side_scroll as nat, old(self).left_offset as nat,
                *old(editor)),
    {
        let row = if editor.cursor_pos.1 >= self.top_index { editor.cursor_pos.1 - self.top_index } else { 0 };
        let blank_width = if self.viewport.width >= self.left_offset { self.viewport.width - self.left_offset } else { 0 };
        let mut blanks: Vec<char> = Vec::new();
        let mut k: usize = 0;
        while k < blank_width
            invariant
                k <= blank_width,
            decreases blank_width - k,
        {
            blanks.push(' ');
            k += 1;
        }
        let blank_cells = styled(&blanks, default_text_style(true));
        render_buffer.put_cells(&blank_cells, (self.left_offset, row), &self.viewport);
        let len = editor.buffer.lines.len();
        let ghost w = render_buffer.width as int;
        let ghost x0 = self.left_offset + self.viewport.pos.0;
        let ghost vy = self.viewport.pos.1 as int;
        let mut i: usize = 0;
        while i < self.viewport.height && self.top_index < len && i < len - self.top_index
            invariant
                editor.wf(),
                render_buffer.wf(),
                render_buffer.width == old(render_buffer).width,
                render_buffer.height == old(render_buffer).height,
                w == render_buffer.width,
                x0 == self.left_offset + self.viewport.pos.0,
                vy == self.viewport.pos.1,
                len == editor.lines().len(),
                *self == *old(self),
                *editor == *old(editor),
                forall|r: int, j: int|
                    #![trigger render_buffer.data@[grid_index(w, vy, x0, r, j)]]
                    0 <= r < i && 0 <= j && self.left_offset + j < self.viewport.width && self.side_scroll + j < shown(
                        *editor,
                        self.top_index + r,
                    ).len() && x0 + j < w && r + vy < render_buffer.height
                        ==> render_buffer.data@[grid_index(w, vy, x0, r, j)].character == shown(
                        *editor,
                        self.top_index + r,
                    )[self.side_scroll + j],
            decreases self.viewport.height - i,
        {
            let y = self.top_index + i;
            let cells = self.line_cells(editor, y);
            let side = self.side_scroll;
            let mut visible: Vec<Cell> = Vec::new();
            let mut j: usize = side;
            while j < cells.len()
                invariant
                    j >= side,
                    j <= cells@.len() || j == side,
                    visible@.len() == j - side,
                    forall|t: int| 0 <= t < visible@.len() ==> #[trigger] visible@[t] == cells@[side + t],
                decreases cells@.len() - j,
            {
                visible.push(cells[j]);
                j += 1;
            }
            let ghost before = render_buffer.data@;
            render_buffer.put_cells(&visible, (self.left_offset, i), &self.viewport);
            proof {
                lemma_cell_chars_len(cells@);
                assert forall|r: int, jj: int|
                    #![trigger render_buffer.data@[grid_index(w, vy, x0, r, jj)]]
                    0 <= r < i + 1 && 0 <= jj && self.left_offset + jj < self.viewport.width && self.side_scroll + jj < shown(
                        *editor,
                        self.top_index + r,
                    ).len() && x0 + jj < w && r + vy < render_buffer.height
                        implies render_buffer.data@[grid_index(w, vy, x0, r, jj)].character == shown(
                        *editor,
                        self.top_index + r,
                    )[self.side_scroll + jj] by {
                    let kk = (r + vy) * w + x0 + jj;
                    let hh = render_buffer.height as int;
                    assert((r + vy + 1) * w <= hh * w) by (nonlinear_arith)
                        requires
                            r + vy + 1 <= hh,
                            0 <= w,
                    ;
                    assert((r + vy) * w + w == (r + vy + 1) * w) by (nonlinear_arith);
                    assert(hh * w == w * hh) by (nonlinear_arith);
                    assert(0 <= kk) by (nonlinear_arith)
                        requires
                            kk == (r + vy) * w + x0 + jj,
                            0 <= r,
                            0 <= vy,
                            0 <= w,
                            0 <= x0,
                            0 <= jj,
                    ;
                    if r < i {
                        assert((r + vy) * w + w <= (i + vy) * w) by (nonlinear_arith)
                            requires
                                r + 1 <= i,
                                w >= 0,
                        ;
                        assert(render_buffer.data@[kk] == before[kk]);
                    } else {
                        assert(cells@.len() == shown(*editor, y as int).len());
                        assert(visible@[jj] == cells@[side + jj]);
                        lemma_cell_chars_index(cells@, side + jj);
                    }
                }
            }
            i += 1;
        }
        proof {
            assert forall|r: int, jj: int|
                #![trigger render_buffer.data@[grid_index(w, vy, x0, r, jj)]]
                0 <= r < self.viewport.height && self.top_index + r < len && 0 <= jj && self.left_offset + jj < self.viewport.width
                    && self.side_scroll + jj < shown(*editor, self.top_index + r).len() && x0 + jj < w && r + vy
                    < render_buffer.height implies render_buffer.data@[grid_index(w, vy, x0, r, jj)].character == shown(
                *editor,
                self.top_index + r,
            )[self.side_scroll + jj] by {
                assert(r < i);
            }
            assert(w == old(render_buffer).width);
        }
    }

    /// Draws the line numbers and sets the pane's left offset to fit them.
    pub fn draw_line_numbers(&mut self, render_buffer: &mut RenderBuffer, editor: &Editor)
        requires
            editor.wf(),
            old(render_buffer).wf(),
        ensures
            final(self).left_offset == decimal(editor.lines().len() as nat).len() + 3,
            final(render_buffer).wf(),
            final(render_buffer).width == old(render_buffer).width,
            final(render_buffer).height == old(render_buffer).height,
            final(self).top_index == old(self).top_index,
            final(self).side_scroll == old(self).side_scroll,
            final(self).viewport == old(self).viewport,
            final(self).waiting_input == old(self).waiting_input,
            final(self).waiting_action == old(self).waiting_action,
            final(self).repeater == old(self).repeater,
    {
        let count = decimal_chars(editor.buffer.lines.len());
        proof {
            lemma_decimal_len(editor.lines().len() as nat);
        }
        self.left_offset = count.len() + 3;
        let len = editor.buffer.lines.len();
        let mut i: usize = 0;
        while i < self.viewport.height && self.top_index < len && i < len - self.top_index
            invariant
                editor.wf(),
                render_buffer.wf(),
                render_buffer.width == old(render_buffer).width,
                render_buffer.height == old(render_buffer).height,
                len == editor.lines().len() <= CAPACITY,
                self.left_offset == count@.len() + 3,
                count@.len() <= CAPACITY + 1,
                self.top_index == old(self).top_index,
                self.side_scroll == old(self).side_scroll,
                self.viewport == old(self).viewport,
                self.waiting_input == old(self).waiting_input,
                self.waiting_action == old(self).waiting_action,
                self.repeater == old(self).repeater,
            decreases self.viewport.height - i,
        {
            let n = decimal_chars(self.top_index + i + 1);
            let width = self.left_offset - 3;
            let mut padded: Vec<char> = Vec::new();
            let mut k: usize = n.len();
            while k < width
                invariant
                    k <= width || k == n@.len(),
                decreases width - k,
            {
                padded.push(' ');
                k += 1;
            }
            append_chars(&mut padded, &n);
            append_str(&mut padded, " \u{2502} ");
            let style = default_line_number_style(self.top_index + i == editor.cursor_pos.1);
            let cells = styled(&padded, style);
            render_buffer.put_cells(&cells, (0, i), &self.viewport);
            i += 1;
        }
    }

    /// Scrolls so the cursor stays in the middle band of the pane and returns where the
    /// cursor shows inside the pane, counting tab widths.
    pub fn update_cursor(&mut self, editor: &Editor) -> (r: (u16, u16))
        requires
            editor.wf(),
        ensures
            final(self).top_index == scrolled_top(old(self).top_index as nat, editor.cursor_pos.1 as nat,
                old(self).viewport.height as nat),
            final(self).side_scroll == scrolled_side(old(self).side_scroll as nat, editor.cursor_pos.0 as nat,
                old(self).viewport.width as nat, old(self).left_offset as nat),
            final(self).top_index <= editor.cursor_pos.1,
            final(self).side_scroll <= editor.cursor_pos.0,
            r == cursor_view(*final(self), *editor),
            final(self).left_offset == old(self).left_offset,
            final(self).elapsed_frames == old(self).elapsed_frames,
            final(self).highlighted_selection == old(self).highlighted_selection,
            final(self).waiting_input == old(self).waiting_input,
            final(self).waiting_action == old(self).waiting_action,
            final(self).repeater == old(self).repeater,
            final(self).viewport == old(self).viewport,
    {
        let (editor_x, editor_y) = editor.cursor_pos;
        self.scroll_to(editor_x, editor_y);
        let line = &editor.buffer.lines[editor_y];
        proof {
            assert(editor.lines()[editor_y as int].len() <= CAPACITY);
            assert(line@ == editor.cur_line());
        }
        let take_amount = if editor.mode == Mode::Normal { editor_x + 1 } else { editor_x };
        let side = self.side_scroll;
        let shift = shown_shift(line, side, take_amount);
        let x = if self.left_offset <= CAPACITY { self.left_offset + editor_x + shift - side } else { 0xffff };
        let y = editor_y - self.top_index;
        (if x <= 0xffff { x as u16 } else { 0xffff }, if y <= 0xffff { y as u16 } else { 0xffff })
    }

    /// Scrolls so `(x, y)` lies in the pane's middle band and between its line numbers
    /// and right edge.
    fn scroll_to(&mut self, x: usize, y: usize)
        ensures
            final(self).top_index == scrolled_top(old(self).top_index as nat, y as nat, old(self).viewport.height as nat),
            final(self).side_scroll == scrolled_side(old(self).side_scroll as nat, x as nat,
                old(self).viewport.width as nat, old(self).left_offset as nat),
            final(self).top_index <= y,
            final(self).side_scroll <= x,
            final(self).left_offset == old(self).left_offset,
            final(self).elapsed_frames == old(self).elapsed_frames,
            final(self).highlighted_selection == old(self).highlighted_selection,
            final(self).waiting_input == old(self).waiting_input,
            final(self).waiting_action == old(self).waiting_action,
            final(self).repeater == old(self).repeater,
            final(self).viewport == old(self).viewport,
    {
        let vh = if self.viewport.height >= 1 { self.viewport.height - 1 } else { 0 };
        let vw = if self.viewport.width >= 1 { self.viewport.width - 1 } else { 0 };
        let lower = vh / 4;
        proof {
            assert((vh / 4) * 3 <= vh) by (nonlinear_arith);
        }
        let upper = (vh / 4) * 3 + (vh % 4) * 3 / 4;
        if y >= self.top_index && y - self.top_index >= upper {
            self.top_index = y - upper;
        }
        if y < self.top_index || y - self.top_index < lower {
            self.top_index = if y >= lower { y - lower } else { 0 };
        }
        let room = if vw >= self.left_offset { vw - self.left_offset } else { 0 };
        if x >= self.side_scroll && x - self.side_scroll >= room {
            self.side_scroll = x - room;
        }
        if x < self.side_scroll {
            self.side_scroll = x;
        }
    }

    /// Draws the line numbers and the lines, and counts the frame: row `i` of the pane
    /// shows line `top_index + i` after the line numbers.
    pub fn draw(&mut self, buffer: &mut RenderBuffer, editor: &mut Editor)
        requires
            old(editor).wf(),
            old(buffer).wf(),
        ensures
            *final(editor) == *old(editor),
            final(buffer).wf(),
            final(buffer).width == old(buffer).width,
            final(buffer).height == old(buffer).height,
            final(self).waiting_input == old(self).waiting_input,
            final(self).waiting_action == old(self).waiting_action,
            final(self).repeater == old(self).repeater,
            final(self).viewport == old(self).viewport,
            final(self).top_index == old(self).top_index,
            final(self).left_offset == decimal(old(editor).lines().len() as nat).len() + 3,
            final(self).side_scroll == old(self).side_scroll,
            pane_shows(final(buffer).data@, old(buffer).width as int, old(buffer).height as int,
                old(self).viewport, old(self).top_index as nat, old(self).side_scroll as nat, final(self).left_offset as nat,
                *old(editor)),
    {
        self.draw_line_numbers(buffer, editor);
        self.draw_lines(buffer, editor);
        self.elapsed_frames = if self.elapsed_frames < usize::MAX { self.elapsed_frames + 1 } else { usize::MAX };
    }
}

pub proof fn lemma_decimal_len(n: nat)
    ensures
        decimal(n).len() <= n + 1,
    decreases n,
{
    if n >= 10 {
        lemma_decimal_len(n / 10);
    }
}

/// The index of column `x0 + j` of pane row `i`, in a grid `w` wide whose pane starts at row `vy`.
pub open spec fn grid_index(w: int, vy: int, x0: int, i: int, j: int) -> int {
    (i + vy) * w + x0 + j
}

/// The first line shown after scrolling so line `y` lies in the middle band of a pane
/// `height` rows high: from a quarter down to three quarters down.
pub open spec fn scrolled_top(top: nat, y: nat, height: nat) -> nat {
    let vh: nat = if height >= 1 { (height - 1) as nat } else { 0 };
    let lower = vh / 4;
    let upper = (vh / 4) * 3 + (vh % 4) * 3 / 4;
    let t1: nat = if y >= top && y - top >= upper { (y - upper) as nat } else { top };
    if y < t1 || y - t1 < lower {
        if y >= lower { (y - lower) as nat } else { 0 }
    } else {
        t1
    }
}

/// The first column shown after scrolling sideways so column `x` fits between the line
/// numbers (`left` wide) and the right edge of a pane `width` wide.
pub open spec fn scrolled_side(side: nat, x: nat, width: nat, left: nat) -> nat {
    let vw: nat = if width >= 1 { (width - 1) as nat } else { 0 };
    let room: nat = if vw >= left { (vw - left) as nat } else { 0 };
    let s1: nat = if x >= side && x - side >= room { (x - room) as nat } else { side };
    if x < s1 { x } else { s1 }
}

/// The extra columns that tabs add among the `k` characters of `s` from `side` on, as
/// shown from column `side`.
pub open spec fn view_shift(s: Seq<char>, side: nat, k: nat) -> nat
    decreases k,
{
    if k == 0 {
        0
    } else {
        let a = view_shift(s, side, (k - 1) as nat);
        if s[side + k - 1] == '\t' {
            (a + spaces_till_next_tab((a + k - 1 + side) as nat, TABSTOP as nat) - 1) as nat
        } else {
            a
        }
    }
}

/// `v` as a terminal coordinate, at most 0xffff.
pub open spec fn coord(v: int) -> u16 {
    if v <= 0xffff { v as u16 } else { 0xffff }
}

/// Where the cursor shows inside pane `p`: after the line numbers, counting tab widths,
/// less what is scrolled away.
pub open spec fn cursor_view(p: EditorBuffer, e: Editor) -> (u16, u16) {
    let x = e.cursor_pos.0;
    let y = e.cursor_pos.1;
    let line = e.cur_line();
    let take: nat = if e.mode == Mode::Normal { (x + 1) as nat } else { x as nat };
    let k: nat = if p.side_scroll <= line.len() {
        if take <= line.len() - p.side_scroll { take } else { (line.len() - p.side_scroll) as nat }
    } else {
        0
    };
    let shift = view_shift(line, p.side_scroll as nat, k);
    let vx: int = if p.left_offset <= CAPACITY { p.left_offset + x + shift - p.side_scroll } else { 0xffff };
    (coord(vx), coord(y - p.top_index))
}

/// Grid `data` (`w` by `h`) shows, in pane `vp`, row `i` as line `top + i` of `e` as
/// expanded on screen, from column `side` on, after `left` columns of line numbers.
pub open spec fn pane_shows(data: Seq<Cell>, w: int, h: int, vp: Viewport, top: nat, side: nat, left: nat, e: Editor) -> bool {
    forall|i: int, j: int|
        #![trigger data[grid_index(w, vp.pos.1 as int, left + vp.pos.0, i, j)]]
        0 <= i < vp.height && top + i < e.lines().len() && 0 <= j && left + j < vp.width && side + j < shown(
            e,
            top + i,
        ).len() && left + vp.pos.0 + j < w && i + vp.pos.1 < h ==> data[grid_index(w, vp.pos.1 as int, left
            + vp.pos.0, i, j)].character == shown(e, top + i)[side + j]
}

/// The characters that line `y` of the editor shows; an empty line shows one space.
pub open spec fn shown(e: Editor, y: int) -> Seq<char> {
    expand(if e.lines()[y].len() == 0 {
        seq![' ']
    } else {
        e.lines()[y]
    })
}

pub proof fn lemma_cell_chars_index(cells: Seq<Cell>, k: int)
    requires
        0 <= k < cells.len(),
    ensures
        cell_chars(cells)[k] == cells[k].character,
    decreases cells.len(),
{
    lemma_cell_chars_len(cells.drop_last());
    if k < cells.len() - 1 {
        lemma_cell_chars_index(cells.drop_last(), k);
    }
}

pub proof fn lemma_cell_chars_len(cells: Seq<Cell>)
    ensures
        cell_chars(cells).len() == cells.len(),
    decreases cells.len(),
{
    if cells.len() > 0 {
        lemma_cell_chars_len(cells.drop_last());
    }
}

} // verus!
