//! Copying into the clipboard and pasting from it.
use vstd::prelude::*;
use crate::editor::Editor;
use crate::edits::clamp_pos;
use crate::moves::{Pos, MoveInfo};
use crate::text::{sub_chars, append_chars, view_lines, lines_ok, split_on, join_with, split_pieces, join_pieces, within_capacity, lemma_view_push, lemma_split_nonempty};

verus! {

/// `n` clamped to `len`.
pub open spec fn at_most(n: nat, len: nat) -> nat {
    if n <= len {
        n
    } else {
        len
    }
}

/// The pieces that copying the ordered extent `o` collects, before they are joined.
pub open spec fn copy_parts(ls: Seq<Seq<char>>, o: MoveInfo) -> Seq<Seq<char>> {
    let sy = o.start_pos.1 as int;
    let ey = o.end_pos.1 as int;
    let first = ls[sy];
    if sy == ey {
        let a = at_most(o.start_pos.0 as nat, first.len());
        let b = at_most(o.end_pos.0 as nat, first.len());
        seq![first.subrange(a as int, if a <= b { b as int } else { a as int })]
    } else {
        let last = ls[ey];
        seq![first.skip(at_most(o.start_pos.0 as nat, first.len()) as int)] + ls.subrange(sy + 1, ey)
            + seq![last.take(at_most(o.end_pos.0 as nat, last.len()) as int)]
    }
}

/// The text that copying the ordered extent `o` puts in the clipboard: on one line the
/// characters from the start up to the end; over several lines the rest of the first
/// line, the lines between and the first line's head up to the end column, joined by newlines.
pub open spec fn copy_text(ls: Seq<Seq<char>>, o: MoveInfo) -> Seq<char> {
    join_with(copy_parts(ls, o), '\n')
}

/// The text that copying lines `sy` through `ey` puts in the clipboard.
pub open spec fn copy_lines_text(ls: Seq<Seq<char>>, sy: int, ey: int) -> Seq<char> {
    join_with(ls.subrange(sy, ey + 1), '\n').push('\n')
}

/// Whether a clipboard text holds whole lines.
pub open spec fn line_wise(clip: Seq<char>) -> bool {
    clip.len() > 0 && clip.last() == '\n'
}

/// The lines after pasting `clip` with the cursor at `(x, y)`: whole lines go below line
/// `y`; other text goes in after the cursor, its newlines splitting the line.
pub open spec fn paste_spec(ls: Seq<Seq<char>>, x: nat, y: int, clip: Seq<char>) -> Seq<Seq<char>> {
    if line_wise(clip) {
        ls.subrange(0, y + 1) + split_on(clip, '\n').drop_last() + ls.subrange(y + 1, ls.len() as int)
    } else {
        let line = ls[y];
        let at = at_most(x + 1, line.len()) as int;
        ls.subrange(0, y) + split_on(line.take(at) + clip + line.skip(at), '\n') + ls.subrange(
            y + 1,
            ls.len() as int,
        )
    }
}

/// Where the cursor goes after a paste, before it is moved into the document.
pub open spec fn paste_cursor(p: Pos, clip: Seq<char>) -> (nat, nat) {
    if line_wise(clip) {
        (p.0 as nat, (p.1 + 1) as nat)
    } else if !clip.contains('\n') {
        ((p.0 + clip.len()) as nat, p.1 as nat)
    } else {
        (p.0 as nat, p.1 as nat)
    }
}

pub proof fn lemma_split_no_sep(s: Seq<char>, sep: char)
    requires
        !s.contains(sep),
    ensures
        split_on(s, sep) == seq![s],
    decreases s.len(),
{
    if s.len() > 0 {
        assert(!s.drop_last().contains(sep)) by {
            if s.drop_last().contains(sep) {
                let k = choose|k: int| 0 <= k < s.drop_last().len() && s.drop_last()[k] == sep;
                assert(s[k] == sep);
            }
        }
        lemma_split_no_sep(s.drop_last(), sep);
        assert(s.last() != sep) by {
            assert(s[s.len() - 1] == s.last());
        }
        assert(s.drop_last().push(s.last()) =~= s);
        assert(seq![s.drop_last()].update(0, s.drop_last().push(s.last())) =~= seq![s]);
    } else {
        assert(s =~= Seq::<char>::empty());
    }
}

/// Copying a non-empty stretch of one line and pasting it with the cursor on a line's
/// last character puts that stretch right after the cursor.
pub proof fn lemma_copy_then_paste(ls: Seq<Seq<char>>, m: MoveInfo, x: nat, y: int)
    requires
        lines_ok(ls),
        m.start_pos.1 == m.end_pos.1,
        m.start_pos.1 < ls.len(),
        m.start_pos.0 < m.end_pos.0 <= ls[m.start_pos.1 as int].len(),
        !ls[m.start_pos.1 as int].subrange(m.start_pos.0 as int, m.end_pos.0 as int).contains('\n'),
        0 <= y < ls.len(),
        x + 1 == ls[y].len(),
        !ls[y].contains('\n'),
    ensures
        ({
            let clip = copy_text(ls, m.spec_ordered());
            let r = paste_spec(ls, x, y, clip);
            &&& clip == ls[m.start_pos.1 as int].subrange(m.start_pos.0 as int, m.end_pos.0 as int)
            &&& r[y].subrange(x + 1 as int, x + 1 + clip.len() as int) == clip
        }),
{
    let o = m.spec_ordered();
    assert(o == m);
    let span = ls[m.start_pos.1 as int].subrange(m.start_pos.0 as int, m.end_pos.0 as int);
    assert(copy_parts(ls, o) == seq![span]);
    assert(copy_text(ls, o) == span);
    assert(!line_wise(span)) by {
        if line_wise(span) {
            assert(span[span.len() - 1] == '\n');
        }
    }
    let line = ls[y];
    let merged = line.take((x + 1) as int) + span + line.skip((x + 1) as int);
    assert(line.take((x + 1) as int) == line);
    assert(line.skip((x + 1) as int) =~= Seq::<char>::empty());
    assert(merged =~= line + span);
    assert(!merged.contains('\n')) by {
        if merged.contains('\n') {
            let k = choose|k: int| 0 <= k < merged.len() && merged[k] == '\n';
            if k < line.len() {
                assert(line[k] == '\n');
            } else {
                assert(span[k - line.len()] == '\n');
            }
        }
    }
    lemma_split_no_sep(merged, '\n');
    let r = paste_spec(ls, x, y, span);
    assert(r[y] == merged);
    assert(merged.subrange(x + 1 as int, x + 1 + span.len() as int) =~= span);
}

/// Pasting whole lines keeps the lines through the cursor's line and those after it as
/// they were, with the pasted lines between them.
pub proof fn lemma_line_paste_between(ls: Seq<Seq<char>>, x: nat, y: int, clip: Seq<char>)
    requires
        0 <= y < ls.len(),
        line_wise(clip),
    ensures
        ({
            let r = paste_spec(ls, x, y, clip);
            let pasted = split_on(clip, '\n').drop_last();
            &&& r.subrange(0, y + 1) == ls.subrange(0, y + 1)
            &&& r.subrange(y + 1, y + 1 + pasted.len()) == pasted
            &&& r.subrange(y + 1 + pasted.len(), r.len() as int) == ls.subrange(y + 1, ls.len() as int)
        }),
{
    lemma_split_nonempty(clip, '\n');
    let r = paste_spec(ls, x, y, clip);
    let pasted = split_on(clip, '\n').drop_last();
    assert(r.subrange(0, y + 1) =~= ls.subrange(0, y + 1));
    assert(r.subrange(y + 1, y + 1 + pasted.len()) =~= pasted);
    assert(r.subrange(y + 1 + pasted.len(), r.len() as int) =~= ls.subrange(y + 1, ls.len() as int));
}

impl Editor {
    /// Copies of lines `from` up to `to`.
    fn lines_between(&self, from: usize, to: usize) -> (r: Vec<Vec<char>>)
        requires
            self.buffer.wf(),
            from <= to <= self.lines().len(),
        ensures
            view_lines(r@) == self.lines().subrange(from as int, to as int),
    {
        let mut out: Vec<Vec<char>> = Vec::new();
        let mut i: usize = from;
        while i < to
            invariant
                from <= i <= to <= self.lines().len(),
                view_lines(out@) == self.lines().subrange(from as int, i as int),
            decreases to - i,
        {
            let line = sub_chars(&self.buffer.lines[i], 0, self.buffer.lines[i].len());
            let ghost before = out@;
            out.push(line);
            proof {
                lemma_view_push(before, line);
                assert(line@ == self.lines()[i as int]);
                assert(self.lines().subrange(from as int, i + 1) =~= self.lines().subrange(
                    from as int,
                    i as int,
                ).push(self.lines()[i as int]));
            }
            i += 1;
        }
        out
    }

    /// Copies the text of the ordered extent of `selection` into the clipboard and
    /// returns that extent.
    pub fn copy(&mut self, selection: MoveInfo) -> (r: MoveInfo)
        requires
            old(self).wf(),
            selection.start_pos.1 < old(self).lines().len(),
            selection.end_pos.1 < old(self).lines().len(),
        ensures
            final(self).wf(),
            final(self).clipboard.view() == copy_text(old(self).lines(), selection.spec_ordered()),
            final(self).buffer == old(self).buffer,
            final(self).cursor_pos == old(self).cursor_pos,
            final(self).mode == old(self).mode,
            final(self).curr_selection == old(self).curr_selection,
            final(self).latest_x == old(self).latest_x,
            final(self).message == old(self).message,
            r == selection.spec_ordered(),
    {
        let o = selection.get_ordered();
        let (start_x, start_y) = o.start_pos;
        let (end_x, end_y) = o.end_pos;
        let first = &self.buffer.lines[start_y];
        let a = if start_x <= first.len() { start_x } else { first.len() };
        let mut parts: Vec<Vec<char>> = Vec::new();
        if start_y == end_y {
            let b = if end_x <= first.len() { end_x } else { first.len() };
            let piece = sub_chars(first, a, if a <= b { b } else { a });
            parts.push(piece);
            proof {
                assert(view_lines(parts@) =~= copy_parts(self.lines(), o));
            }
        } else {
            let head = sub_chars(first, a, first.len());
            parts.push(head);
            let middle = self.lines_between(start_y + 1, end_y);
            let mut k: usize = 0;
            let ghost p0 = view_lines(parts@);
            while k < middle.len()
                invariant
                    k <= middle@.len(),
                    view_lines(parts@) == p0 + view_lines(middle@).take(k as int),
                decreases middle@.len() - k,
            {
                let piece = sub_chars(&middle[k], 0, middle[k].len());
                let ghost before = parts@;
                parts.push(piece);
                proof {
                    lemma_view_push(before, piece);
                    assert(piece@ == view_lines(middle@)[k as int]);
                    assert(view_lines(middle@).take(k + 1) =~= view_lines(middle@).take(k as int).push(
                        middle@[k as int]@,
                    ));
                    assert(view_lines(parts@) =~= p0 + view_lines(middle@).take(k + 1));
                }
                k += 1;
            }
            let last = &self.buffer.lines[end_y];
            let b = if end_x <= last.len() { end_x } else { last.len() };
            let tail = sub_chars(last, 0, b);
            let ghost before = parts@;
            parts.push(tail);
            proof {
                lemma_view_push(before, tail);
                assert(view_lines(middle@).take(middle@.len() as int) == view_lines(middle@));
                assert(view_lines(parts@) =~= copy_parts(self.lines(), o));
            }
        }
        let payload = join_pieces(&parts);
        self.clipboard.set_contents(&payload);
        o
    }

    /// Copies the whole lines of the ordered extent of `movement`, with a newline after
    /// the last, and returns the extent of those lines.
    pub fn copy_lines(&mut self, movement: MoveInfo) -> (r: MoveInfo)
        requires
            old(self).wf(),
            movement.start_pos.1 < old(self).lines().len(),
            movement.end_pos.1 < old(self).lines().len(),
        ensures
            final(self).wf(),
            final(self).clipboard.view() == copy_lines_text(
                old(self).lines(),
                movement.spec_ordered().start_pos.1 as int,
                movement.spec_ordered().end_pos.1 as int,
            ),
            final(self).buffer == old(self).buffer,
            final(self).cursor_pos == old(self).cursor_pos,
            final(self).mode == old(self).mode,
            final(self).curr_selection == old(self).curr_selection,
            final(self).latest_x == old(self).latest_x,
            final(self).message == old(self).message,
            r == (MoveInfo {
                start_pos: (0usize, movement.spec_ordered().start_pos.1),
                end_pos: (
                    old(self).lines()[movement.spec_ordered().end_pos.1 as int].len() as usize,
                    movement.spec_ordered().end_pos.1,
                ),
            }),
    {
        let m = movement.get_ordered();
        let start_y = m.start_pos.1;
        let end_y = m.end_pos.1;
        let contents = self.lines_between(start_y, end_y + 1);
        let mut payload = join_pieces(&contents);
        payload.push('\n');
        self.clipboard.set_contents(&payload);
        MoveInfo { start_pos: (0, start_y), end_pos: (self.buffer.lines[end_y].len(), end_y) }
    }

    /// Pastes the clipboard: whole lines go below the cursor's line and the cursor
    /// follows them; other text goes in after the cursor, and the cursor moves onto
    /// its last character when it holds no newline. Nothing happens when the result
    /// would not fit within capacity.
    pub fn paste(&mut self)
        requires
            old(self).wf(),
        ensures
            final(self).wf(),
            ({
                let r = paste_spec(
                    old(self).lines(),
                    old(self).cursor_pos.0 as nat,
                    old(self).cursor_pos.1 as int,
                    old(self).clipboard.view(),
                );
                let c = paste_cursor(old(self).cursor_pos, old(self).clipboard.view());
                if lines_ok(r) {
                    &&& final(self).lines() == r
                    &&& final(self).cursor_pos == clamp_pos(
                        r,
                        old(self).mode,
                        (
                            (if c.0 <= usize::MAX { c.0 } else { usize::MAX as nat }) as usize,
                            (if c.1 <= usize::MAX { c.1 } else { usize::MAX as nat }) as usize,
                        ),
                    )
                    &&& final(self).buffer.has_changes
                    &&& Editor::kept(&*old(self), &*final(self))
                } else {
                    *final(self) == *old(self)
                }
            }),
            final(self).latest_x == old(self).latest_x,
            final(self).clipboard == old(self).clipboard,
    {
        let clip = self.clipboard.get_contents();
        let x = self.cursor_pos.0;
        let y = self.cursor_pos.1;
        let len = self.buffer.lines.len();
        let mut fresh = self.lines_between(0, y);
        let ghost ls = self.lines();
        let ghost mid: Seq<Seq<char>>;
        let cx: usize;
        let cy: usize;
        let n = clip.len();
        if n > 0 && clip[n - 1] == '\n' {
            let own = sub_chars(&self.buffer.lines[y], 0, self.buffer.lines[y].len());
            let ghost b0 = fresh@;
            fresh.push(own);
            let mut pieces = split_pieces(&clip);
            proof {
                lemma_view_push(b0, own);
                lemma_split_nonempty(clip@, '\n');
                assert(own@ =~= ls[y as int]);
            }
            let ghost pv = view_lines(pieces@);
            pieces.pop();
            proof {
                assert(view_lines(pieces@) =~= pv.drop_last());
                mid = pv.drop_last();
                assert(view_lines(fresh@) =~= ls.subrange(0, y + 1));
            }
            append_lines(&mut fresh, &pieces);
            cx = x;
            cy = y + 1;
        } else {
            let line = &self.buffer.lines[y];
            let at = if x + 1 <= line.len() { x + 1 } else { line.len() };
            let mut merged = sub_chars(line, 0, at);
            append_chars(&mut merged, &clip);
            let rest = sub_chars(line, at, line.len());
            append_chars(&mut merged, &rest);
            let pieces = split_pieces(&merged);
            proof {
                mid = split_on(merged@, '\n');
            }
            append_lines(&mut fresh, &pieces);
            let mut has_newline = false;
            let mut k: usize = 0;
            while k < n
                invariant
                    k <= n == clip@.len(),
                    has_newline <==> (exists|j: int| 0 <= j < k && clip@[j] == '\n'),
                decreases n - k,
            {
                if clip[k] == '\n' {
                    has_newline = true;
                }
                k += 1;
            }
            proof {
                assert(has_newline == clip@.contains('\n'));
            }
            if !has_newline {
                cx = if n <= usize::MAX - x { x + n } else { usize::MAX };
            } else {
                cx = x;
            }
            cy = y;
        }
        let ghost before_tail = view_lines(fresh@);
        let tail = self.lines_between(y + 1, len);
        append_lines(&mut fresh, &tail);
        proof {
            assert(view_lines(fresh@) =~= paste_spec(ls, x as nat, y as int, clip@));
        }
        if within_capacity(&fresh) {
            self.buffer.lines = fresh;
            self.buffer.has_changes = true;
            self.clamp_cursor((cx, cy));
        }
    }
}

/// Appends copies of the lines of `b` to `a`.
fn append_lines(a: &mut Vec<Vec<char>>, b: &Vec<Vec<char>>)
    ensures
        view_lines(final(a)@) == view_lines(old(a)@) + view_lines(b@),
{
    let mut k: usize = 0;
    while k < b.len()
        invariant
            k <= b@.len(),
            view_lines(a@) == view_lines(old(a)@) + view_lines(b@).take(k as int),
        decreases b@.len() - k,
    {
        let piece = sub_chars(&b[k], 0, b[k].len());
        let ghost before = a@;
        a.push(piece);
        proof {
            lemma_view_push(before, piece);
            assert(piece@ == view_lines(b@)[k as int]);
            assert(view_lines(b@).take(k + 1) =~= view_lines(b@).take(k as int).push(b@[k as int]@));
            assert(view_lines(a@) =~= view_lines(old(a)@) + view_lines(b@).take(k + 1));
        }
        k += 1;
    }
    proof {
        assert(view_lines(b@).take(b@.len() as int) == view_lines(b@));
    }
}

} // verus!
