//! Operations that change the text of the document.
use vstd::prelude::*;
use crate::editor::{Editor, Mode, max_x};
use crate::moves::{Pos, MoveInfo};
use crate::text::{CAPACITY, sub_chars, append_chars, lines_ok, lemma_view_insert, lemma_view_remove};

verus! {

/// `s` without its leading spaces.
pub open spec fn drop_spaces(s: Seq<char>) -> Seq<char>
    decreases s.len(),
{
    if s.len() > 0 && s[0] == ' ' {
        drop_spaces(s.skip(1))
    } else {
        s
    }
}

/// The line above `y`, or the first line.
pub open spec fn up(y: usize) -> usize {
    if y > 0 {
        (y - 1) as usize
    } else {
        0
    }
}

/// `p` moved into the document: onto its last line at most, and onto a column the mode allows.
pub open spec fn clamp_pos(ls: Seq<Seq<char>>, mode: Mode, p: Pos) -> Pos {
    let y: usize = if p.1 < ls.len() {
        p.1
    } else {
        (ls.len() - 1) as usize
    };
    let m = max_x(ls[y as int].len(), mode);
    ((if p.0 <= m {
        p.0
    } else {
        m as usize
    }), y)
}

/// Lines and cursor after removing the character under the cursor; a line left empty
/// goes, unless it is the only one.
pub open spec fn pop_char_spec(ls: Seq<Seq<char>>, mode: Mode, p: Pos) -> (Seq<Seq<char>>, Pos) {
    let x = p.0;
    let y = p.1;
    let line = ls[y as int];
    if x < line.len() {
        let nl = line.remove(x as int);
        if nl.len() == 0 && ls.len() > 1 {
            (ls.remove(y as int), (0usize, up(y)))
        } else {
            (ls.update(y as int, nl), ((if x > max_x(nl.len(), mode) {
                (x - 1) as usize
            } else {
                x
            }), y))
        }
    } else if line.len() == 0 && ls.len() > 1 {
        (ls.remove(y as int), (0usize, up(y)))
    } else {
        (ls, p)
    }
}

/// Whether removing the character under the cursor changes the lines.
pub open spec fn pop_char_changes(ls: Seq<Seq<char>>, p: Pos) -> bool {
    p.0 < ls[p.1 as int].len() || (ls[p.1 as int].len() == 0 && ls.len() > 1)
}

/// Lines and cursor after a backspace: the character left of the cursor goes, or at
/// column 0 the line joins the one above, with the cursor where that line ended.
pub open spec fn backspace_spec(ls: Seq<Seq<char>>, mode: Mode, p: Pos) -> (Seq<Seq<char>>, Pos) {
    if p.0 > 0 {
        pop_char_spec(ls, mode, ((p.0 - 1) as usize, p.1))
    } else if p.1 > 0 {
        let prev = ls[p.1 - 1];
        let j = prev + ls[p.1 as int];
        let m = max_x(j.len(), mode);
        (ls.update(p.1 - 1, j).remove(p.1 as int), ((if prev.len() <= m {
            prev.len()
        } else {
            m
        }) as usize, (p.1 - 1) as usize))
    } else {
        (ls, p)
    }
}

/// `line` without the characters from `sx` through `ex`.
pub open spec fn line_cut(line: Seq<char>, sx: nat, ex: nat) -> Seq<char> {
    let a = if sx <= line.len() {
        sx
    } else {
        line.len()
    };
    let b = if ex + 1 <= line.len() {
        ex + 1
    } else {
        line.len()
    };
    line.take(a as int) + line.skip(b as int)
}

/// What is left of the first and last lines of a selection over several lines, joined.
pub open spec fn joined_cut(ls: Seq<Seq<char>>, o: MoveInfo) -> Seq<char> {
    let first = ls[o.start_pos.1 as int];
    let last = ls[o.end_pos.1 as int];
    let a = if o.start_pos.0 <= first.len() {
        o.start_pos.0 as nat
    } else {
        first.len()
    };
    let b = if o.end_pos.0 + 1 <= last.len() {
        (o.end_pos.0 + 1) as nat
    } else {
        last.len()
    };
    first.take(a as int) + last.skip(b as int)
}

/// The lines after deleting the characters of the ordered selection `o`, both ends included.
pub open spec fn delete_selection_spec(ls: Seq<Seq<char>>, o: MoveInfo) -> Seq<Seq<char>> {
    let sy = o.start_pos.1 as int;
    let ey = o.end_pos.1 as int;
    if sy == ey {
        let nl = line_cut(ls[sy], o.start_pos.0 as nat, o.end_pos.0 as nat);
        if nl.len() == 0 && ls.len() > 1 {
            ls.remove(sy)
        } else {
            ls.update(sy, nl)
        }
    } else {
        let j = joined_cut(ls, o);
        let r = ls.subrange(0, sy).push(j) + ls.subrange(ey + 1, ls.len() as int);
        if j.len() == 0 && r.len() > 1 {
            r.remove(sy)
        } else {
            r
        }
    }
}

/// The lines after deleting lines `sy` through `ey`; one empty line stays when all go.
pub open spec fn delete_lines_spec(ls: Seq<Seq<char>>, sy: int, ey: int) -> Seq<Seq<char>> {
    if sy == 0 && ey + 1 == ls.len() {
        seq![Seq::<char>::empty()]
    } else {
        ls.subrange(0, sy) + ls.subrange(ey + 1, ls.len() as int)
    }
}

/// The position of the character that a find (`offset` 1) or an until (`offset` 0)
/// search for the `n`-th `c` from `i` on settles on: the last match met while fewer
/// than `n` were met.
pub open spec fn find_char(s: Seq<char>, c: char, i: nat, n: nat, last: Option<nat>) -> Option<nat>
    decreases s.len() - i,
{
    if n == 0 || i >= s.len() {
        last
    } else if s[i as int] == c {
        find_char(s, c, i + 1, (n - 1) as nat, Some(i))
    } else {
        find_char(s, c, i + 1, n, last)
    }
}

/// Where a find or until motion lands on `s` from `x`.
pub open spec fn find_target(s: Seq<char>, c: char, x: nat, n: nat, offset: nat) -> nat {
    match find_char(s, c, x + 1, n, None) {
        Some(j) => if j - 1 + offset <= s.len() {
            (j - 1 + offset) as nat
        } else {
            s.len()
        },
        None => x,
    }
}

pub proof fn lemma_find_char_range(s: Seq<char>, c: char, i: nat, n: nat, last: Option<nat>, lo: nat)
    requires
        match last {
            Some(j) => lo <= j < s.len(),
            None => true,
        },
        lo <= i,
    ensures
        match find_char(s, c, i, n, last) {
            Some(j) => lo <= j < s.len(),
            None => last.is_none(),
        },
    decreases s.len() - i,
{
    if n == 0 || i >= s.len() {
    } else if s[i as int] == c {
        lemma_find_char_range(s, c, i + 1, (n - 1) as nat, Some(i), lo);
    } else {
        lemma_find_char_range(s, c, i + 1, n, last, lo);
    }
}

/// Typing a character and then a backspace gives back the text and the cursor, when
/// the cursor was not at column 0.
pub proof fn lemma_put_char_backspace(ls: Seq<Seq<char>>, mode: Mode, p: Pos, c: char)
    requires
        p.1 < ls.len(),
        0 < p.0 <= max_x(ls[p.1 as int].len(), mode),
        p.0 < usize::MAX,
    ensures
        backspace_spec(
            ls.update(p.1 as int, ls[p.1 as int].insert(p.0 as int, c)),
            mode,
            ((p.0 + 1) as usize, p.1),
        ) == (ls, p),
{
    let line = ls[p.1 as int];
    let ins = line.insert(p.0 as int, c);
    let ls2 = ls.update(p.1 as int, ins);
    assert(ins.remove(p.0 as int) =~= line);
    assert(ls2.update(p.1 as int, line) =~= ls);
}

impl Editor {
    /// Puts the cursor at `p` moved into the document.
    pub fn clamp_cursor(&mut self, p: Pos)
        requires
            old(self).buffer.wf(),
            (old(self).mode == Mode::Visual) == old(self).curr_selection.is_some(),
            old(self).latest_x matches Some(v) ==> v <= CAPACITY,
        ensures
            final(self).cursor_pos == clamp_pos(old(self).lines(), old(self).mode, p),
            Editor::moved(&*old(self), &*final(self)),
            final(self).wf(),
    {
        let len = self.buffer.lines.len();
        let y = if p.1 < len { p.1 } else { len - 1 };
        let m = self.max_cursor_x(y);
        let x = if p.0 <= m { p.0 } else { m };
        self.move_cursor_to(x, y);
    }

    /// Inserts `c` at the cursor and moves past it.
    pub fn put_char(&mut self, c: char)
        requires
            old(self).wf(),
            old(self).cur_line().len() < CAPACITY,
        ensures
            final(self).wf(),
            final(self).lines() == old(self).lines().update(
                old(self).cursor_pos.1 as int,
                old(self).cur_line().insert(old(self).cursor_pos.0 as int, c),
            ),
            final(self).cursor_pos == ((if old(self).cursor_pos.0 + 1 <= max_x(
                old(self).cur_line().len() + 1,
                old(self).mode,
            ) {
                old(self).cursor_pos.0 + 1
            } else {
                old(self).cursor_pos.0 as int
            }) as usize, old(self).cursor_pos.1),
            final(self).buffer.has_changes,
            final(self).latest_x == old(self).latest_x,
            Editor::kept(&*old(self), &*final(self)),
    {
        let x = self.cursor_pos.0;
        let y = self.cursor_pos.1;
        let ghost ls = self.lines();
        self.buffer.lines[y].insert(x, c);
        self.buffer.has_changes = true;
        proof {
            assert(self.lines() =~= ls.update(y as int, ls[y as int].insert(x as int, c)));
            assert(lines_ok(self.lines())) by {
                assert forall|k: int| 0 <= k < self.lines().len() implies #[trigger] self.lines()[k].len()
                    <= CAPACITY by {
                    if k != y {
                        assert(self.lines()[k] == ls[k]);
                    }
                }
            }
        }
        let m = self.max_cursor_x(y);
        let nx = if x + 1 <= m { x + 1 } else { x };
        self.move_cursor_to(nx, y);
    }

    /// Splits the line at the cursor; the rest, without its leading spaces, becomes the
    /// next line, and the cursor goes to its start.
    pub fn put_newline(&mut self)
        requires
            old(self).wf(),
            old(self).lines().len() < CAPACITY,
        ensures
            final(self).wf(),
            final(self).lines() == old(self).lines().update(
                old(self).cursor_pos.1 as int,
                old(self).cur_line().take(old(self).cursor_pos.0 as int),
            ).insert(
                old(self).cursor_pos.1 + 1,
                drop_spaces(old(self).cur_line().skip(old(self).cursor_pos.0 as int)),
            ),
            final(self).cursor_pos == (0usize, (old(self).cursor_pos.1 + 1) as usize),
            final(self).buffer.has_changes,
            final(self).latest_x == old(self).latest_x,
            Editor::kept(&*old(self), &*final(self)),
    {
        let x = self.cursor_pos.0;
        let y = self.cursor_pos.1;
        let ghost ls = self.lines();
        let line = &self.buffer.lines[y];
        let len = line.len();
        let mut k: usize = x;
        while k < len && line[k] == ' '
            invariant
                x <= k <= len,
                len == line@.len(),
                drop_spaces(line@.skip(x as int)) == drop_spaces(line@.skip(k as int)),
            decreases len - k,
        {
            proof {
                assert(line@.skip(k as int).skip(1) == line@.skip(k + 1));
            }
            k += 1;
        }
        proof {
            assert(drop_spaces(line@.skip(k as int)) == line@.skip(k as int));
        }
        let rest = sub_chars(line, k, len);
        let head = sub_chars(line, 0, x);
        proof {
            assert(rest@ == line@.skip(k as int));
            assert(head@ == line@.take(x as int));
        }
        self.buffer.lines[y] = head;
        self.buffer.lines.insert(y + 1, rest);
        self.buffer.has_changes = true;
        proof {
            let want = ls.update(y as int, ls[y as int].take(x as int)).insert(
                y + 1,
                drop_spaces(ls[y as int].skip(x as int)),
            );
            assert(self.lines() =~= want);
            assert forall|i: int| 0 <= i < self.lines().len() implies #[trigger] self.lines()[i].len()
                <= CAPACITY by {
                if i < y {
                    assert(self.lines()[i] == ls[i]);
                } else if i > y + 1 {
                    assert(self.lines()[i] == ls[i - 1]);
                }
            }
        }
        self.move_cursor_to(0, y + 1);
    }

    /// Removes the empty line `index` unless it is the only line; the cursor goes to the
    /// start of the line above.
    fn remove_empty_line(&mut self, index: usize)
        requires
            old(self).wf(),
            index == old(self).cursor_pos.1,
            old(self).cur_line().len() == 0,
        ensures
            final(self).wf(),
            old(self).lines().len() == 1 ==> *final(self) == *old(self),
            old(self).lines().len() > 1 ==> {
                &&& final(self).lines() == old(self).lines().remove(index as int)
                &&& final(self).cursor_pos == (0usize, up(index))
                &&& final(self).buffer.has_changes
            },
            final(self).latest_x == old(self).latest_x,
            Editor::kept(&*old(self), &*final(self)),
    {
        if self.buffer.lines.len() == 1 {
            return;
        }
        let ghost ls = self.lines();
        self.buffer.lines.remove(index);
        self.buffer.has_changes = true;
        proof {
            assert(self.lines() =~= ls.remove(index as int));
            assert forall|i: int| 0 <= i < self.lines().len() implies #[trigger] self.lines()[i].len()
                <= CAPACITY by {
                if i < index {
                    assert(self.lines()[i] == ls[i]);
                } else {
                    assert(self.lines()[i] == ls[i + 1]);
                }
            }
        }
        let ny = if index > 0 { index - 1 } else { 0 };
        self.move_cursor_to(0, ny);
    }

    /// Removes the character under the cursor.
    pub fn pop_char(&mut self)
        requires
            old(self).wf(),
        ensures
            final(self).wf(),
            (final(self).lines(), final(self).cursor_pos) == pop_char_spec(
                old(self).lines(),
                old(self).mode,
                old(self).cursor_pos,
            ),
            final(self).buffer.has_changes == (old(self).buffer.has_changes || pop_char_changes(
                old(self).lines(),
                old(self).cursor_pos,
            )),
            final(self).latest_x == old(self).latest_x,
            Editor::kept(&*old(self), &*final(self)),
    {
        let x = self.cursor_pos.0;
        let y = self.cursor_pos.1;
        let len = self.buffer.lines[y].len();
        if len == 0 {
            self.remove_empty_line(y);
            return;
        }
        if x < len {
            let ghost ls = self.lines();
            self.buffer.lines[y].remove(x);
            self.buffer.has_changes = true;
            proof {
                assert(self.lines() =~= ls.update(y as int, ls[y as int].remove(x as int)));
                assert forall|i: int| 0 <= i < self.lines().len() implies #[trigger] self.lines()[i].len()
                    <= CAPACITY by {
                    if i != y {
                        assert(self.lines()[i] == ls[i]);
                    }
                }
            }
            if self.buffer.lines[y].len() == 0 {
                self.remove_empty_line(y);
                proof {
                    assert(ls.update(y as int, Seq::<char>::empty()).remove(y as int) =~= ls.remove(
                        y as int,
                    ));
                }
            } else {
                let m = self.max_cursor_x(y);
                if x > m {
                    self.move_cursor_to(x - 1, y);
                }
            }
        }
    }

    /// Removes the character left of the cursor, or at column 0 joins the line onto the
    /// one above; a no-op at the start of the document.
    pub fn pop_backspace(&mut self)
        requires
            old(self).wf(),
            old(self).cursor_pos.0 == 0 && old(self).cursor_pos.1 > 0 ==> old(self).lines()[old(
                self,
            ).cursor_pos.1 - 1].len() + old(self).cur_line().len() <= CAPACITY,
        ensures
            final(self).wf(),
            (final(self).lines(), final(self).cursor_pos) == backspace_spec(
                old(self).lines(),
                old(self).mode,
                old(self).cursor_pos,
            ),
            final(self).buffer.has_changes == (old(self).buffer.has_changes || old(self).cursor_pos
                != (0usize, 0usize)),
            old(self).cursor_pos == (0usize, 0usize) ==> final(self).lines() == old(self).lines()
                && final(self).cursor_pos == old(self).cursor_pos,
            final(self).latest_x == (if old(self).cursor_pos.0 > 0 {
                Some((old(self).cursor_pos.0 - 1) as usize)
            } else {
                old(self).latest_x
            }),
            Editor::kept(&*old(self), &*final(self)),
    {
        let x = self.cursor_pos.0;
        let y = self.cursor_pos.1;
        if x > 0 {
            self.move_cursor_left(1);
            self.pop_char();
        } else if y > 0 {
            let prev_len = self.buffer.lines[y - 1].len();
            self.join_lines(y - 1, y);
            let m = self.max_cursor_x(y - 1);
            let nx = if prev_len <= m { prev_len } else { m };
            self.move_cursor_to(nx, y - 1);
        }
    }

    /// Appends line `second_line` to line `first_line` and removes it.
    fn join_lines(&mut self, first_line: usize, second_line: usize)
        requires
            old(self).buffer.wf(),
            first_line < old(self).lines().len(),
            second_line < old(self).lines().len(),
            first_line != second_line ==> old(self).lines()[first_line as int].len() + old(
                self,
            ).lines()[second_line as int].len() <= CAPACITY,
        ensures
            final(self).buffer.wf(),
            first_line == second_line ==> *final(self) == *old(self),
            first_line != second_line ==> {
                &&& final(self).lines() == old(self).lines().update(
                    first_line as int,
                    old(self).lines()[first_line as int] + old(self).lines()[second_line as int],
                ).remove(second_line as int)
                &&& final(self).buffer.has_changes
            },
            final(self).cursor_pos == old(self).cursor_pos,
            final(self).latest_x == old(self).latest_x,
            final(self).curr_selection == old(self).curr_selection,
            final(self).mode == old(self).mode,
            final(self).message == old(self).message,
            final(self).clipboard == old(self).clipboard,
            final(self).buffer.path == old(self).buffer.path,
            final(self).buffer.bytes_len == old(self).buffer.bytes_len,
    {
        if first_line == second_line {
            return;
        }
        let ghost ls = self.lines();
        let second = sub_chars(&self.buffer.lines[second_line], 0, self.buffer.lines[second_line].len());
        proof {
            assert(second@ == ls[second_line as int]);
        }
        append_chars(&mut self.buffer.lines[first_line], &second);
        self.buffer.lines.remove(second_line);
        self.buffer.has_changes = true;
        proof {
            let u = ls.update(first_line as int, ls[first_line as int] + ls[second_line as int]);
            assert(self.lines() =~= u.remove(second_line as int));
            assert forall|i: int| 0 <= i < self.lines().len() implies #[trigger] self.lines()[i].len()
                <= CAPACITY by {
                if i < second_line {
                    assert(self.lines()[i] == u[i]);
                } else {
                    assert(self.lines()[i] == u[i + 1]);
                }
            }
        }
    }
}

} // verus!

verus! {

impl Editor {
    /// Deletes whole lines over the ordered extent of `movement`; an empty line stays
    /// when every line goes. The cursor goes to the start of the extent.
    pub fn delete_lines(&mut self, movement: MoveInfo)
        requires
            old(self).wf(),
            movement.start_pos.1 < old(self).lines().len(),
            movement.end_pos.1 < old(self).lines().len(),
        ensures
            final(self).wf(),
            final(self).lines() == delete_lines_spec(
                old(self).lines(),
                movement.spec_ordered().start_pos.1 as int,
                movement.spec_ordered().end_pos.1 as int,
            ),
            movement.spec_ordered().start_pos.1 == 0 && movement.spec_ordered().end_pos.1 + 1 == old(
                self,
            ).lines().len() ==> final(self).lines() == seq![Seq::<char>::empty()],
            final(self).cursor_pos == clamp_pos(
                final(self).lines(),
                old(self).mode,
                movement.spec_ordered().start_pos,
            ),
            final(self).buffer.has_changes,
            final(self).latest_x == old(self).latest_x,
            Editor::kept(&*old(self), &*final(self)),
    {
        let m = movement.get_ordered();
        let start_y = m.start_pos.1;
        let end_y = m.end_pos.1;
        let ghost ls = self.lines();
        let len = self.buffer.lines.len();
        if start_y == 0 && end_y + 1 == len {
            let mut fresh: Vec<Vec<char>> = Vec::new();
            fresh.push(Vec::new());
            self.buffer.lines = fresh;
            proof {
                assert(self.lines() =~= seq![Seq::<char>::empty()]);
            }
        } else {
            let num_lines = end_y - start_y + 1;
            let mut k: usize = 0;
            while k < num_lines
                invariant
                    num_lines == end_y - start_y + 1,
                    start_y <= end_y < len == ls.len(),
                    k <= num_lines,
                    self.lines() == ls.subrange(0, start_y as int) + ls.subrange(
                        start_y + k,
                        len as int,
                    ),
                    Editor::same_but_lines(&*old(self), &*self),
                decreases num_lines - k,
            {
                let ghost bv = self.buffer.lines@;
                proof {
                    assert(bv.len() == self.lines().len());
                    assert(self.lines().len() == len - k);
                }
                self.buffer.lines.remove(start_y);
                k += 1;
                proof {
                    lemma_view_remove(bv, start_y as int);
                    assert(self.lines() =~= ls.subrange(0, start_y as int) + ls.subrange(
                        start_y + k,
                        len as int,
                    ));
                }
            }
        }
        self.buffer.has_changes = true;
        proof {
            let r = self.lines();
            assert forall|i: int| 0 <= i < r.len() implies #[trigger] r[i].len() <= CAPACITY by {
                if !(start_y == 0 && end_y + 1 == len) {
                    if i < start_y {
                        assert(r[i] == ls[i]);
                    } else {
                        assert(r[i] == ls[i + end_y - start_y + 1]);
                    }
                }
            }
        }
        self.clamp_cursor(m.start_pos);
    }

    /// Deletes the characters of the ordered extent of `movement`, both ends included;
    /// a line left empty goes unless it is the only one. The cursor goes to the start.
    pub fn delete_selection(&mut self, movement: MoveInfo)
        requires
            old(self).wf(),
            movement.start_pos.1 < old(self).lines().len(),
            movement.end_pos.1 < old(self).lines().len(),
            movement.start_pos.1 != movement.end_pos.1 ==> joined_cut(
                old(self).lines(),
                movement.spec_ordered(),
            ).len() <= CAPACITY,
        ensures
            final(self).wf(),
            final(self).lines() == delete_selection_spec(old(self).lines(), movement.spec_ordered()),
            final(self).cursor_pos == clamp_pos(
                final(self).lines(),
                old(self).mode,
                movement.spec_ordered().start_pos,
            ),
            final(self).buffer.has_changes,
            final(self).latest_x == old(self).latest_x,
            Editor::kept(&*old(self), &*final(self)),
    {
        let m = movement.get_ordered();
        let (start_x, start_y) = m.start_pos;
        let (end_x, end_y) = m.end_pos;
        let ghost ls = self.lines();
        if start_y == end_y {
            let line = &self.buffer.lines[start_y];
            let len = line.len();
            let a = if start_x <= len { start_x } else { len };
            let b = if end_x < len { end_x + 1 } else { len };
            let mut s = sub_chars(line, 0, a);
            let tail = sub_chars(line, b, len);
            append_chars(&mut s, &tail);
            proof {
                assert(s@ == line_cut(ls[start_y as int], start_x as nat, end_x as nat));
            }
            if s.len() == 0 && self.buffer.lines.len() > 1 {
                self.buffer.lines.remove(start_y);
                proof {
                    assert(self.lines() =~= ls.remove(start_y as int));
                }
            } else {
                self.buffer.lines[start_y] = s;
                proof {
                    assert(self.lines() =~= ls.update(start_y as int, s@));
                }
            }
            proof {
                let r = self.lines();
                assert forall|i: int| 0 <= i < r.len() implies #[trigger] r[i].len() <= CAPACITY by {
                    if i < start_y {
                        assert(r[i] == ls[i]);
                    } else if i > start_y || r.len() < ls.len() {
                        if r.len() < ls.len() {
                            assert(r[i] == ls[i + 1]);
                        } else {
                            assert(r[i] == ls[i]);
                        }
                    }
                }
            }
        } else {
            let first = &self.buffer.lines[start_y];
            let a = if start_x <= first.len() { start_x } else { first.len() };
            let mut joined = sub_chars(first, 0, a);
            let last = &self.buffer.lines[end_y];
            let b = if end_x < last.len() { end_x + 1 } else { last.len() };
            let tail = sub_chars(last, b, last.len());
            append_chars(&mut joined, &tail);
            proof {
                assert(joined@ == joined_cut(ls, m));
            }
            let len = self.buffer.lines.len();
            let num_lines = end_y - start_y + 1;
            let mut k: usize = 0;
            while k < num_lines
                invariant
                    num_lines == end_y - start_y + 1,
                    start_y < end_y < len == ls.len(),
                    k <= num_lines,
                    self.lines() == ls.subrange(0, start_y as int) + ls.subrange(
                        start_y + k,
                        len as int,
                    ),
                    Editor::same_but_lines(&*old(self), &*self),
                decreases num_lines - k,
            {
                let ghost bv = self.buffer.lines@;
                proof {
                    assert(bv.len() == self.lines().len());
                    assert(self.lines().len() == len - k);
                }
                self.buffer.lines.remove(start_y);
                k += 1;
                proof {
                    lemma_view_remove(bv, start_y as int);
                    assert(self.lines() =~= ls.subrange(0, start_y as int) + ls.subrange(
                        start_y + k,
                        len as int,
                    ));
                }
            }
            let ghost bv = self.buffer.lines@;
            let jl = joined.len();
            self.buffer.lines.insert(start_y, joined);
            proof {
                lemma_view_insert(bv, start_y as int, joined);
            }
            let ghost r0 = ls.subrange(0, start_y as int).push(joined@) + ls.subrange(
                end_y + 1,
                len as int,
            );
            proof {
                assert(self.lines() =~= r0);
            }
            if jl == 0 && self.buffer.lines.len() > 1 {
                let ghost bv2 = self.buffer.lines@;
                self.buffer.lines.remove(start_y);
                proof {
                    lemma_view_remove(bv2, start_y as int);
                    assert(self.lines() =~= r0.remove(start_y as int));
                }
            }
            proof {
                let r = self.lines();
                assert forall|i: int| 0 <= i < r.len() implies #[trigger] r[i].len() <= CAPACITY by {
                    if i < start_y {
                        assert(r[i] == ls[i]);
                    } else if r.len() == r0.len() {
                        if i > start_y {
                            assert(r[i] == ls[i + end_y - start_y]);
                        }
                    } else {
                        assert(r[i] == ls[i + end_y - start_y + 1]);
                    }
                }
            }
        }
        self.buffer.has_changes = true;
        self.clamp_cursor(m.start_pos);
    }

    /// Moves to the last character of the line.
    pub fn move_to_end(&mut self) -> (r: MoveInfo)
        requires
            old(self).wf(),
        ensures
            final(self).wf(),
            final(self).cursor_pos == ((if old(self).cur_line().len() > 0 {
                old(self).cur_line().len() - 1
            } else {
                0
            }) as usize, old(self).cursor_pos.1),
            final(self).latest_x == Some(final(self).cursor_pos.0),
            final(self).buffer == old(self).buffer,
            Editor::kept(&*old(self), &*final(self)),
            r == (MoveInfo { start_pos: old(self).cursor_pos, end_pos: final(self).cursor_pos }),
    {
        let start_pos = self.cursor_pos;
        let len = self.buffer.lines[self.cursor_pos.1].len();
        let new_x = if len > 0 { len - 1 } else { 0 };
        self.move_cursor_to(new_x, self.cursor_pos.1);
        self.latest_x = Some(new_x);
        MoveInfo { start_pos, end_pos: self.cursor_pos }
    }

    /// The character under the cursor, or a space past the end of the line.
    pub fn character_at_cursor(&self) -> (r: char)
        requires
            self.wf(),
        ensures
            r == (if self.cursor_pos.0 < self.cur_line().len() {
                self.cur_line()[self.cursor_pos.0 as int]
            } else {
                ' '
            }),
    {
        let line = &self.buffer.lines[self.cursor_pos.1];
        if self.cursor_pos.0 < line.len() {
            line[self.cursor_pos.0]
        } else {
            ' '
        }
    }

    /// Changes mode. Leaving Insert for Normal puts the cursor on the last character
    /// typed; entering Visual, with the cursor on a character, anchors a selection at the
    /// cursor; leaving Visual drops it.
    pub fn switch_mode(&mut self, new_mode: Mode)
        requires
            old(self).wf(),
            new_mode == Mode::Visual ==> old(self).cursor_pos.0 <= max_x(old(self).cur_line().len(), Mode::Visual),
        ensures
            final(self).wf(),
            final(self).mode == new_mode,
            final(self).buffer == old(self).buffer,
            final(self).message == old(self).message,
            final(self).clipboard == old(self).clipboard,
            final(self).cursor_pos.1 == old(self).cursor_pos.1,
            new_mode == Mode::Normal && old(self).mode == Mode::Insert ==> {
                let x1: nat = if old(self).cursor_pos.0 >= 2 {
                    (old(self).cursor_pos.0 - 2) as nat
                } else {
                    0
                };
                let m = max_x(old(self).cur_line().len(), Mode::Normal);
                &&& final(self).cursor_pos.0 == (if x1 + 1 <= m {
                    x1 + 1
                } else {
                    m
                })
                &&& final(self).latest_x == Some(final(self).cursor_pos.0)
            },
            !(new_mode == Mode::Normal && old(self).mode == Mode::Insert) ==> final(self).latest_x
                == old(self).latest_x,
            new_mode == Mode::Normal && old(self).mode != Mode::Insert ==> final(self).cursor_pos
                == old(self).cursor_pos,
            new_mode == Mode::Insert ==> final(self).cursor_pos == old(self).cursor_pos,
            new_mode == Mode::Visual ==> {
                &&& final(self).cursor_pos == old(self).cursor_pos
                &&& final(self).curr_selection == Some(
                    (old(self).cursor_pos, MoveInfo { start_pos: old(self).cursor_pos, end_pos: old(self).cursor_pos }),
                )
            },
            new_mode != Mode::Visual ==> final(self).curr_selection.is_none(),
    {
        match new_mode {
            Mode::Normal => {
                if self.mode == Mode::Insert {
                    self.move_cursor_left(1);
                    self.move_cursor_left(1);
                    self.mode = Mode::Normal;
                    self.move_cursor_right(1);
                } else {
                    self.curr_selection = None;
                    self.mode = Mode::Normal;
                }
                self.curr_selection = None;
            },
            Mode::Insert => {
                self.mode = Mode::Insert;
                self.curr_selection = None;
            },
            Mode::Visual => {
                self.mode = Mode::Visual;
                self.curr_selection = Some(
                    (self.cursor_pos, MoveInfo { start_pos: self.cursor_pos, end_pos: self.cursor_pos }),
                );
            },
        }
    }

    /// Moves onto (`offset` 1) or just before (`offset` 0) the `amount`-th `c` after the
    /// cursor on its line; stays where there is none.
    pub fn move_to(&mut self, c: char, amount: usize, offset: usize) -> (r: MoveInfo)
        requires
            old(self).wf(),
            offset <= 1,
        ensures
            final(self).wf(),
            final(self).cursor_pos == (
                find_target(
                    old(self).cur_line(),
                    c,
                    old(self).cursor_pos.0 as nat,
                    amount as nat,
                    offset as nat,
                ) as usize,
                old(self).cursor_pos.1,
            ),
            final(self).latest_x == Some(final(self).cursor_pos.0),
            final(self).buffer == old(self).buffer,
            Editor::kept(&*old(self), &*final(self)),
            r == (MoveInfo { start_pos: old(self).cursor_pos, end_pos: final(self).cursor_pos }),
    {
        let start = self.cursor_pos;
        let x = self.cursor_pos.0;
        let line = &self.buffer.lines[self.cursor_pos.1];
        let len = line.len();
        let mut n = amount;
        let mut found: Option<usize> = None;
        let mut i: usize = x + 1;
        proof {
            assert(len <= CAPACITY) by {
                assert(self.lines()[self.cursor_pos.1 as int].len() <= CAPACITY);
            }
        }
        while i < len && n > 0
            invariant
                len == line@.len() <= CAPACITY,
                x + 1 <= i,
                i <= len || n == amount && found.is_none(),
                find_char(line@, c, (x + 1) as nat, amount as nat, None) == find_char(
                    line@,
                    c,
                    i as nat,
                    n as nat,
                    match found {
                        Some(j) => Some(j as nat),
                        None => None,
                    },
                ),
                match found {
                    Some(j) => x + 1 <= j < len,
                    None => true,
                },
            decreases len - i,
        {
            if line[i] == c {
                found = Some(i);
                n = n - 1;
            }
            i += 1;
        }
        let nx = match found {
            Some(j) => {
                if j - 1 + offset <= len { j - 1 + offset } else { len }
            },
            None => x,
        };
        proof {
            lemma_find_char_range(line@, c, i as nat, n as nat, match found {
                Some(j) => Some(j as nat),
                None => None,
            }, (x + 1) as nat);
        }
        self.move_cursor_to(nx, self.cursor_pos.1);
        self.latest_x = Some(nx);
        MoveInfo { start_pos: start, end_pos: self.cursor_pos }
    }
}

} // verus!
