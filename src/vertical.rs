//! Tab-aware column arithmetic and the vertical motions that rely on it.
use vstd::prelude::*;
use crate::editor::{Editor, Mode, max_x};
use crate::moves::MoveInfo;
use crate::text::CAPACITY;

verus! {

/// The column width of a tab stop.
pub const TABSTOP: usize = 2;

/// Columns from visual column `i` to the next tab stop.
pub open spec fn spaces_till_next_tab(i: nat, t: nat) -> nat
    recommends
        t > 0,
{
    ((i / t + 1) * t - i) as nat
}

/// The extra columns that the tabs among the first `k` characters of `s` add.
pub open spec fn shift_acc(s: Seq<char>, k: nat) -> nat
    decreases k,
{
    if k == 0 {
        0
    } else {
        let a = shift_acc(s, (k - 1) as nat);
        if s[k - 1] == '\t' {
            (a + spaces_till_next_tab((a + k - 1) as nat, TABSTOP as nat) - 1) as nat
        } else {
            a
        }
    }
}

/// The extra columns that tabs add to `s` up to and including index `k`.
pub open spec fn shiftwidth(s: Seq<char>, k: nat) -> nat {
    shift_acc(s, if k + 1 <= s.len() { k + 1 } else { s.len() })
}

/// The first index of `s` from `i` on whose visual end column reaches `target`,
/// or the length of `s` when none does.
pub open spec fn column_search(s: Seq<char>, target: nat, i: nat) -> nat
    decreases s.len() - i,
{
    if i >= s.len() {
        s.len()
    } else if i + shift_acc(s, i + 1) >= target {
        i
    } else {
        column_search(s, target, i + 1)
    }
}

/// The index on line `new_y` that matches column `x` of line `prev_y`, clamped to the mode.
pub open spec fn next_index(ls: Seq<Seq<char>>, mode: Mode, x: nat, new_y: int, prev_y: int) -> nat {
    let target = shiftwidth(ls[prev_y], x) + x;
    let i = column_search(ls[new_y], target, 0);
    let m = max_x(ls[new_y].len(), mode);
    if i <= m {
        i
    } else {
        m
    }
}

/// Where a vertical motion from `cursor` to line `new_y` lands.
pub open spec fn vertical_target(
    ls: Seq<Seq<char>>,
    mode: Mode,
    cursor: (usize, usize),
    latest: Option<usize>,
    new_y: usize,
) -> (usize, usize) {
    if new_y == cursor.1 {
        cursor
    } else {
        let px = match latest {
            Some(v) => v,
            None => cursor.0,
        };
        let n = next_index(ls, mode, px as nat, new_y as int, cursor.1 as int);
        ((if px <= n { px } else { n as usize }), new_y)
    }
}

pub proof fn lemma_spaces_bounds(i: nat)
    ensures
        1 <= spaces_till_next_tab(i, TABSTOP as nat) <= TABSTOP,
{
    let t = TABSTOP as nat;
    assert((i / t) * t <= i < (i / t) * t + t) by (nonlinear_arith)
        requires
            t == 2,
    ;
    assert((i / t + 1) * t == (i / t) * t + t) by (nonlinear_arith);
}

/// A tab at a tab stop spans a whole tab stop.
pub proof fn lemma_tab_at_stop(k: nat)
    ensures
        spaces_till_next_tab(k * TABSTOP as nat, TABSTOP as nat) == TABSTOP,
{
    let t = TABSTOP as nat;
    vstd::arithmetic::div_mod::lemma_div_multiples_vanish(k as int, t as int);
    assert(k * t == t * k) by (nonlinear_arith);
    assert((k + 1) * t - k * t == t) by (nonlinear_arith);
}

impl Editor {
    /// Columns from visual column `index` to the next multiple of `tabstop`.
    pub fn get_spaces_till_next_tab(index: usize, tabstop: usize) -> (r: usize)
        requires
            tabstop > 0,
            index as int + tabstop as int <= usize::MAX,
        ensures
            r == spaces_till_next_tab(index as nat, tabstop as nat),
    {
        let tab_stop_index = index / tabstop;
        proof {
            assert((index / tabstop) * tabstop <= index < (index / tabstop) * tabstop + tabstop)
                by (nonlinear_arith)
                requires
                    tabstop > 0,
            ;
            assert((index / tabstop + 1) * tabstop == (index / tabstop) * tabstop + tabstop)
                by (nonlinear_arith);
        }
        ((tab_stop_index * tabstop) + tabstop) - index
    }

    /// The extra columns that tabs add to `s` up to and including index `index`.
    pub fn get_shiftwidth(s: &Vec<char>, index: usize) -> (r: usize)
        requires
            s@.len() <= CAPACITY,
        ensures
            r == shiftwidth(s@, index as nat),
            r <= s@.len(),
    {
        let n = if index < s.len() { index + 1 } else { s.len() };
        let mut acc: usize = 0;
        let mut i: usize = 0;
        while i < n
            invariant
                n <= s@.len() <= CAPACITY,
                i <= n,
                acc == shift_acc(s@, i as nat),
                acc <= i,
            decreases n - i,
        {
            proof {
                lemma_spaces_bounds((acc + i) as nat);
            }
            if s[i] == '\t' {
                acc = acc + Self::get_spaces_till_next_tab(acc + i, TABSTOP) - 1;
            }
            i += 1;
        }
        acc
    }

    /// The visual length of `s` through index `index`.
    pub fn length_with_tabs_at(s: &Vec<char>, index: usize) -> (r: usize)
        requires
            s@.len() <= CAPACITY,
            index <= CAPACITY,
        ensures
            r == shiftwidth(s@, index as nat) + index + 1,
    {
        Self::get_shiftwidth(s, index) + index + 1
    }

    /// The index on line `current_y` whose visual column matches index `x` of line
    /// `previous_y`, clamped to what the mode allows.
    pub fn next_line_cursor_index(&self, x: usize, current_y: usize, previous_y: usize) -> (r: usize)
        requires
            self.buffer.wf(),
            current_y < self.lines().len(),
            previous_y < self.lines().len(),
            x <= CAPACITY,
        ensures
            r == next_index(self.lines(), self.mode, x as nat, current_y as int, previous_y as int),
    {
        proof {
            assert(self.lines()[previous_y as int].len() <= CAPACITY);
        }
        let target = Self::length_with_tabs_at(&self.buffer.lines[previous_y], x) - 1;
        let line = &self.buffer.lines[current_y];
        let len = line.len();
        proof {
            assert(self.lines()[current_y as int].len() <= CAPACITY);
            assert(line@ == self.lines()[current_y as int]);
        }
        let mut shift: usize = 0;
        let mut i: usize = 0;
        while i < len
            invariant
                len == line@.len() <= CAPACITY,
                i <= len,
                shift == shift_acc(line@, i as nat),
                shift <= i,
                column_search(line@, target as nat, 0) == column_search(line@, target as nat, i as nat),
            ensures
                column_search(line@, target as nat, 0) == i,
                i <= len,
            decreases len - i,
        {
            proof {
                lemma_spaces_bounds((shift + i) as nat);
            }
            let next = if line[i] == '\t' {
                shift + Self::get_spaces_till_next_tab(i + shift, TABSTOP) - 1
            } else {
                shift
            };
            if i + next >= target {
                break;
            }
            shift = next;
            i += 1;
        }
        let m = self.max_cursor_x(current_y);
        if i <= m { i } else { m }
    }

    /// Moves down by `amount` lines, stopping at the last line; aims for the remembered column.
    pub fn move_cursor_down(&mut self, amount: usize) -> (r: MoveInfo)
        requires
            old(self).wf(),
        ensures
            final(self).wf(),
            final(self).cursor_pos == vertical_target(
                old(self).lines(),
                old(self).mode,
                old(self).cursor_pos,
                old(self).latest_x,
                (if old(self).cursor_pos.1 + amount < old(self).lines().len() {
                    old(self).cursor_pos.1 + amount
                } else {
                    old(self).lines().len() - 1
                }) as usize,
            ),
            final(self).cursor_pos.1 == (if old(self).cursor_pos.1 + amount < old(self).lines().len() {
                old(self).cursor_pos.1 + amount
            } else {
                old(self).lines().len() - 1
            }),
            final(self).latest_x == old(self).latest_x,
            Editor::moved(&*old(self), &*final(self)),
            r == (MoveInfo { start_pos: old(self).cursor_pos, end_pos: final(self).cursor_pos }),
    {
        let start = self.cursor_pos;
        let last = self.buffer.lines.len() - 1;
        let new_y = if last - self.cursor_pos.1 > amount { self.cursor_pos.1 + amount } else { last };
        self.move_vertically(new_y);
        MoveInfo { start_pos: start, end_pos: self.cursor_pos }
    }

    /// Moves up by `amount` lines, stopping at the first line; aims for the remembered column.
    pub fn move_cursor_up(&mut self, amount: usize) -> (r: MoveInfo)
        requires
            old(self).wf(),
        ensures
            final(self).wf(),
            final(self).cursor_pos == vertical_target(
                old(self).lines(),
                old(self).mode,
                old(self).cursor_pos,
                old(self).latest_x,
                (if old(self).cursor_pos.1 >= amount {
                    old(self).cursor_pos.1 - amount
                } else {
                    0
                }) as usize,
            ),
            Editor::moved(&*old(self), &*final(self)),
            r == (MoveInfo { start_pos: old(self).cursor_pos, end_pos: final(self).cursor_pos }),
    {
        let start = self.cursor_pos;
        let new_y = if self.cursor_pos.1 >= amount { self.cursor_pos.1 - amount } else { 0 };
        self.move_vertically(new_y);
        MoveInfo { start_pos: start, end_pos: self.cursor_pos }
    }

    fn move_vertically(&mut self, new_y: usize)
        requires
            old(self).wf(),
            new_y < old(self).lines().len(),
        ensures
            final(self).wf(),
            final(self).cursor_pos == vertical_target(
                old(self).lines(),
                old(self).mode,
                old(self).cursor_pos,
                old(self).latest_x,
                new_y,
            ),
            Editor::moved(&*old(self), &*final(self)),
    {
        let previous_y = self.cursor_pos.1;
        if new_y != previous_y {
            let px = match self.latest_x {
                Some(v) => v,
                None => self.cursor_pos.0,
            };
            proof {
                assert(self.cursor_pos.0 <= CAPACITY) by {
                    assert(self.cur_line().len() <= CAPACITY);
                }
            }
            let n = self.next_line_cursor_index(px, new_y, previous_y);
            let x = if px <= n { px } else { n };
            self.move_cursor_to(x, new_y);
        }
    }
}

} // verus!
