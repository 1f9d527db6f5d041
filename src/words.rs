//! Word motions: forward to word starts and word ends, backward to word starts.
use vstd::prelude::*;
use crate::editor::Editor;
use crate::moves::{Pos, MoveInfo};
use crate::text::{separator, is_seperator, CAPACITY, lines_ok};

verus! {

/// A character at `(x, y)` that begins a word (`end` false) or ends one (`end` true).
pub open spec fn word_edge(ls: Seq<Seq<char>>, x: int, y: int, end: bool) -> bool {
    let line = ls[y];
    &&& 0 <= y < ls.len()
    &&& 0 <= x < line.len()
    &&& !separator(line[x])
    &&& if end {
        x + 1 == line.len() || separator(line[x + 1])
    } else {
        x == 0 || separator(line[x - 1])
    }
}

/// The first word edge at or after `(x, y)` in document order.
pub open spec fn scan_forward(ls: Seq<Seq<char>>, x: int, y: int, end: bool) -> Option<Pos>
    decreases ls.len() - y, ls[y].len() + 1 - x,
{
    if y < 0 || y >= ls.len() || x < 0 {
        None
    } else if x >= ls[y].len() {
        scan_forward(ls, 0, y + 1, end)
    } else if word_edge(ls, x, y, end) {
        Some((x as usize, y as usize))
    } else {
        scan_forward(ls, x + 1, y, end)
    }
}

/// Where a backward word motion may stop: a word start, or the start of a non-empty line.
pub open spec fn back_stop(ls: Seq<Seq<char>>, x: int, y: int) -> bool {
    &&& 0 <= y < ls.len()
    &&& 0 <= x < ls[y].len()
    &&& (x == 0 || word_edge(ls, x, y, false))
}

/// The last backward stop at or before `(x, y)`; `x` of -1 stands for the end of the
/// line above.
pub open spec fn scan_backward(ls: Seq<Seq<char>>, x: int, y: int) -> Option<Pos>
    decreases y, x + 1,
{
    if y < 0 || y >= ls.len() || x < -1 {
        None
    } else if x == -1 {
        if y == 0 {
            None
        } else {
            scan_backward(ls, ls[y - 1].len() - 1, y - 1)
        }
    } else if back_stop(ls, x, y) {
        Some((x as usize, y as usize))
    } else {
        scan_backward(ls, x - 1, y)
    }
}

/// The last character of the document.
pub open spec fn last_char_pos(ls: Seq<Seq<char>>) -> Pos {
    let last = ls[ls.len() - 1];
    ((if last.len() > 0 {
        last.len() - 1
    } else {
        0
    }) as usize, (ls.len() - 1) as usize)
}

/// Where `n` forward word-start motions from `p` land; past the last word, on the last
/// character of the document.
pub open spec fn word_target(ls: Seq<Seq<char>>, p: Pos, n: nat) -> Pos
    decreases n,
{
    if n == 0 {
        p
    } else {
        match scan_forward(ls, p.0 + 1, p.1 as int, false) {
            Some(q) => word_target(ls, q, (n - 1) as nat),
            None => last_char_pos(ls),
        }
    }
}

/// Where `n` forward word-end motions from `p` land; they stop at the last word end.
pub open spec fn end_target(ls: Seq<Seq<char>>, p: Pos, n: nat) -> Pos
    decreases n,
{
    if n == 0 {
        p
    } else {
        match scan_forward(ls, p.0 + 1, p.1 as int, true) {
            Some(q) => end_target(ls, q, (n - 1) as nat),
            None => p,
        }
    }
}

/// Where `n` backward word motions from `p` land; they stop at the first stop.
pub open spec fn back_target(ls: Seq<Seq<char>>, p: Pos, n: nat) -> Pos
    decreases n,
{
    if n == 0 {
        p
    } else {
        match scan_backward(ls, p.0 - 1, p.1 as int) {
            Some(q) => back_target(ls, q, (n - 1) as nat),
            None => p,
        }
    }
}

pub proof fn lemma_scan_forward_found(ls: Seq<Seq<char>>, x: int, y: int, end: bool)
    requires
        lines_ok(ls),
    ensures
        scan_forward(ls, x, y, end) matches Some(q) ==> word_edge(ls, q.0 as int, q.1 as int, end),
    decreases ls.len() - y, ls[y].len() + 1 - x,
{
    if y < 0 || y >= ls.len() || x < 0 {
    } else if x >= ls[y].len() {
        lemma_scan_forward_found(ls, 0, y + 1, end);
    } else if word_edge(ls, x, y, end) {
        assert(ls[y].len() <= CAPACITY);
    } else {
        lemma_scan_forward_found(ls, x + 1, y, end);
    }
}

pub proof fn lemma_scan_backward_found(ls: Seq<Seq<char>>, x: int, y: int)
    requires
        lines_ok(ls),
    ensures
        scan_backward(ls, x, y) matches Some(q) ==> back_stop(ls, q.0 as int, q.1 as int),
    decreases y, x + 1,
{
    if y < 0 || y >= ls.len() || x < -1 {
    } else if x == -1 {
        if y > 0 {
            lemma_scan_backward_found(ls, ls[y - 1].len() - 1, y - 1);
        }
    } else if back_stop(ls, x, y) {
        assert(ls[y].len() <= CAPACITY);
    } else {
        lemma_scan_backward_found(ls, x - 1, y);
    }
}

impl Editor {
    /// Whether the character at `(x, y)` begins (`end` false) or ends a word.
    fn is_word_edge(&self, x: usize, y: usize, end: bool) -> (r: bool)
        requires
            self.buffer.wf(),
            y < self.lines().len(),
            x < self.lines()[y as int].len(),
        ensures
            r == word_edge(self.lines(), x as int, y as int, end),
    {
        let line = &self.buffer.lines[y];
        if is_seperator(line[x]) {
            return false;
        }
        if end {
            x + 1 == line.len() || is_seperator(line[x + 1])
        } else {
            x == 0 || is_seperator(line[x - 1])
        }
    }

    /// The first word edge at or after `(x, y)`.
    fn find_forward(&self, x: usize, y: usize, end: bool) -> (r: Option<Pos>)
        requires
            self.buffer.wf(),
            y < self.lines().len(),
            x <= self.lines()[y as int].len() + 1,
        ensures
            r == scan_forward(self.lines(), x as int, y as int, end),
    {
        let ghost ls = self.lines();
        let len = self.buffer.lines.len();
        let mut cx = x;
        let mut cy = y;
        while cy < len
            invariant
                self.buffer.wf(),
                ls == self.lines(),
                len == ls.len(),
                cy <= len,
                cy < len ==> cx <= ls[cy as int].len() + 1,
                cy == len ==> cx == 0,
                scan_forward(ls, x as int, y as int, end) == scan_forward(ls, cx as int, cy as int, end),
            decreases len - cy, (if cy < len { ls[cy as int].len() + 1 - cx } else { 0 }),
        {
            proof {
                assert(ls[cy as int].len() <= CAPACITY);
            }
            if cx >= self.buffer.lines[cy].len() {
                cy += 1;
                cx = 0;
            } else if self.is_word_edge(cx, cy, end) {
                return Some((cx, cy));
            } else {
                cx += 1;
            }
        }
        None
    }

    /// The last backward stop strictly before `(x, y)`.
    fn find_backward(&self, x: usize, y: usize) -> (r: Option<Pos>)
        requires
            self.buffer.wf(),
            y < self.lines().len(),
        ensures
            r == scan_backward(self.lines(), x - 1, y as int),
    {
        let ghost ls = self.lines();
        let mut xp = x;
        let mut cy = y;
        loop
            invariant
                self.buffer.wf(),
                ls == self.lines(),
                cy < ls.len(),
                scan_backward(ls, x - 1, y as int) == scan_backward(ls, xp - 1, cy as int),
            decreases cy, xp,
        {
            if xp == 0 {
                if cy == 0 {
                    return None;
                }
                cy -= 1;
                xp = self.buffer.lines[cy].len();
            } else {
                let cx = xp - 1;
                if cx < self.buffer.lines[cy].len() && (cx == 0 || self.is_word_edge(cx, cy, false)) {
                    return Some((cx, cy));
                }
                xp = cx;
            }
        }
    }

    /// Moves forward `amount` word starts; past the last word, onto the last character.
    pub fn move_word(&mut self, amount: usize) -> (r: MoveInfo)
        requires
            old(self).wf(),
        ensures
            final(self).wf(),
            final(self).cursor_pos == word_target(old(self).lines(), old(self).cursor_pos, amount as nat),
            final(self).latest_x == Some(final(self).cursor_pos.0),
            final(self).buffer == old(self).buffer,
            Editor::kept(&*old(self), &*final(self)),
            r == (MoveInfo { start_pos: old(self).cursor_pos, end_pos: final(self).cursor_pos }),
    {
        let start = self.cursor_pos;
        let ghost ls = self.lines();
        let mut p = self.cursor_pos;
        let mut k: usize = 0;
        let mut done = false;
        while k < amount && !done
            invariant
                self.wf(),
                ls == self.lines(),
                *self == *old(self),
                k <= amount,
                p.1 < ls.len(),
                p.0 < ls[p.1 as int].len() || p == old(self).cursor_pos || p == last_char_pos(ls),
                !done ==> word_target(ls, start, amount as nat) == word_target(ls, p, (amount - k) as nat),
                done ==> word_target(ls, start, amount as nat) == p,
            decreases amount - k,
        {
            proof {
                assert(p.0 <= CAPACITY) by {
                    assert(ls[p.1 as int].len() <= CAPACITY);
                    assert(ls[old(self).cursor_pos.1 as int].len() <= CAPACITY);
                    assert(ls[ls.len() - 1].len() <= CAPACITY);
                }
            }
            let ghost prev = p;
            match self.find_forward(p.0 + 1, p.1, false) {
                Some(q) => {
                    proof {
                        lemma_scan_forward_found(ls, prev.0 + 1, prev.1 as int, false);
                    }
                    p = q;
                },
                None => {
                    let last_y = self.buffer.lines.len() - 1;
                    let ll = self.buffer.lines[last_y].len();
                    p = (if ll > 0 { ll - 1 } else { 0 }, last_y);
                    done = true;
                },
            }
            k += 1;
        }
        proof {
            if !done {
                assert(amount - k == 0);
            }
            assert(ls[ls.len() - 1].len() <= CAPACITY);
        }
        self.move_cursor_to(p.0, p.1);
        self.latest_x = Some(p.0);
        MoveInfo { start_pos: start, end_pos: self.cursor_pos }
    }

    /// Moves forward `amount` word ends, stopping at the last one.
    pub fn move_end_word(&mut self, amount: usize) -> (r: MoveInfo)
        requires
            old(self).wf(),
        ensures
            final(self).wf(),
            final(self).cursor_pos == end_target(old(self).lines(), old(self).cursor_pos, amount as nat),
            final(self).latest_x == Some(final(self).cursor_pos.0),
            final(self).buffer == old(self).buffer,
            Editor::kept(&*old(self), &*final(self)),
            r == (MoveInfo { start_pos: old(self).cursor_pos, end_pos: final(self).cursor_pos }),
    {
        let start = self.cursor_pos;
        let ghost ls = self.lines();
        let mut p = self.cursor_pos;
        let mut k: usize = 0;
        let mut done = false;
        while k < amount && !done
            invariant
                self.wf(),
                ls == self.lines(),
                *self == *old(self),
                k <= amount,
                p.1 < ls.len(),
                p.0 < ls[p.1 as int].len() || p == old(self).cursor_pos,
                !done ==> end_target(ls, start, amount as nat) == end_target(ls, p, (amount - k) as nat),
                done ==> end_target(ls, start, amount as nat) == p,
            decreases amount - k,
        {
            proof {
                assert(p.0 <= CAPACITY) by {
                    assert(ls[p.1 as int].len() <= CAPACITY);
                    assert(ls[old(self).cursor_pos.1 as int].len() <= CAPACITY);
                }
            }
            let ghost prev = p;
            match self.find_forward(p.0 + 1, p.1, true) {
                Some(q) => {
                    proof {
                        lemma_scan_forward_found(ls, prev.0 + 1, prev.1 as int, true);
                    }
                    p = q;
                },
                None => {
                    done = true;
                },
            }
            k += 1;
        }
        proof {
            if !done {
                assert(amount - k == 0);
            }
        }
        self.move_cursor_to(p.0, p.1);
        self.latest_x = Some(p.0);
        MoveInfo { start_pos: start, end_pos: self.cursor_pos }
    }

    /// Moves back `amount` word starts; reaching a line start counts as one.
    pub fn move_end_word_backwards(&mut self, amount: usize) -> (r: MoveInfo)
        requires
            old(self).wf(),
        ensures
            final(self).wf(),
            final(self).cursor_pos == back_target(old(self).lines(), old(self).cursor_pos, amount as nat),
            final(self).latest_x == Some(final(self).cursor_pos.0),
            final(self).buffer == old(self).buffer,
            Editor::kept(&*old(self), &*final(self)),
            r == (MoveInfo { start_pos: old(self).cursor_pos, end_pos: final(self).cursor_pos }),
    {
        let start = self.cursor_pos;
        let ghost ls = self.lines();
        let mut p = self.cursor_pos;
        let mut k: usize = 0;
        let mut done = false;
        while k < amount && !done
            invariant
                self.wf(),
                ls == self.lines(),
                *self == *old(self),
                k <= amount,
                p.1 < ls.len(),
                p.0 < ls[p.1 as int].len() || p == old(self).cursor_pos,
                !done ==> back_target(ls, start, amount as nat) == back_target(ls, p, (amount - k) as nat),
                done ==> back_target(ls, start, amount as nat) == p,
            decreases amount - k,
        {
            let ghost prev = p;
            match self.find_backward(p.0, p.1) {
                Some(q) => {
                    proof {
                        lemma_scan_backward_found(ls, prev.0 - 1, prev.1 as int);
                    }
                    p = q;
                },
                None => {
                    done = true;
                },
            }
            k += 1;
        }
        proof {
            if !done {
                assert(amount - k == 0);
            }
        }
        self.move_cursor_to(p.0, p.1);
        self.latest_x = Some(p.0);
        MoveInfo { start_pos: start, end_pos: self.cursor_pos }
    }
}

} // verus!
