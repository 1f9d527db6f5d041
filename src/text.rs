//! Characters, lines, and the line buffer of a document.
use vstd::prelude::*;

verus! {

/// The most characters a line holds, and the most lines a document holds.
pub const CAPACITY: usize = 100_000_000;

/// Unicode's White_Space property.
pub open spec fn white_space(c: char) -> bool {
    let u = c as u32;
    (0x09 <= u && u <= 0x0d) || u == 0x20 || u == 0x85 || u == 0xa0 || u == 0x1680 || (0x2000
        <= u && u <= 0x200a) || u == 0x2028 || u == 0x2029 || u == 0x202f || u == 0x205f || u
        == 0x3000
}

/// Whether `char::is_alphanumeric` holds of `c` (Unicode Alphabetic or Numeric).
pub uninterp spec fn alphanumeric(c: char) -> bool;

/// Whether `c` is a White_Space character, as `char::is_whitespace` decides.
pub fn char_is_whitespace(c: char) -> (r: bool)
    ensures
        r == white_space(c),
{
    let u = c as u32;
    (0x09 <= u && u <= 0x0d) || u == 0x20 || u == 0x85 || u == 0xa0 || u == 0x1680 || (0x2000 <= u && u
        <= 0x200a) || u == 0x2028 || u == 0x2029 || u == 0x202f || u == 0x205f || u == 0x3000
}

/// Relies on `char::is_alphanumeric`, whose result depends on the character alone.
#[verifier::external_body]
fn char_is_alphanumeric(c: char) -> (r: bool)
    ensures
        r == alphanumeric(c),
{
    c.is_alphanumeric()
}

/// A character that ends a word.
pub open spec fn separator(c: char) -> bool {
    !alphanumeric(c) || white_space(c)
}

pub fn is_seperator(c: char) -> (r: bool)
    ensures
        r == separator(c),
{
    !char_is_alphanumeric(c) || char_is_whitespace(c)
}

/// `s` without its trailing white space.
pub open spec fn trim_end(s: Seq<char>) -> Seq<char>
    decreases s.len(),
{
    if s.len() > 0 && white_space(s.last()) {
        trim_end(s.drop_last())
    } else {
        s
    }
}

/// The number of bytes that UTF-8 takes for `c`.
pub open spec fn utf8_len(c: char) -> nat {
    let u = c as u32;
    if u < 0x80 {
        1
    } else if u < 0x800 {
        2
    } else if u < 0x10000 {
        3
    } else {
        4
    }
}

pub fn char_utf8_len(c: char) -> (r: usize)
    ensures
        r == utf8_len(c),
{
    let u = c as u32;
    if u < 0x80 {
        1
    } else if u < 0x800 {
        2
    } else if u < 0x10000 {
        3
    } else {
        4
    }
}

/// The number of UTF-8 bytes of a character sequence.
pub open spec fn utf8_bytes(s: Seq<char>) -> nat
    decreases s.len(),
{
    if s.len() == 0 {
        0
    } else {
        utf8_bytes(s.drop_last()) + utf8_len(s.last())
    }
}

/// `s` cut at each `sep`; always at least one piece.
pub open spec fn split_on(s: Seq<char>, sep: char) -> Seq<Seq<char>>
    decreases s.len(),
{
    if s.len() == 0 {
        seq![Seq::empty()]
    } else {
        let prev = split_on(s.drop_last(), sep);
        if s.last() == sep {
            prev.push(Seq::empty())
        } else {
            prev.update(prev.len() - 1, prev.last().push(s.last()))
        }
    }
}

/// The pieces of `ls` with `sep` between each two.
pub open spec fn join_with(ls: Seq<Seq<char>>, sep: char) -> Seq<char>
    decreases ls.len(),
{
    if ls.len() == 0 {
        Seq::empty()
    } else if ls.len() == 1 {
        ls[0]
    } else {
        join_with(ls.drop_last(), sep).push(sep) + ls.last()
    }
}

pub proof fn lemma_split_nonempty(s: Seq<char>, sep: char)
    ensures
        split_on(s, sep).len() >= 1,
        split_on(s, sep).len() <= s.len() + 1,
    decreases s.len(),
{
    if s.len() > 0 {
        lemma_split_nonempty(s.drop_last(), sep);
    }
}

/// Joining the pieces of a split gives back the text.
pub proof fn lemma_join_split(s: Seq<char>, sep: char)
    ensures
        join_with(split_on(s, sep), sep) == s,
    decreases s.len(),
{
    if s.len() > 0 {
        let t = s.drop_last();
        lemma_join_split(t, sep);
        lemma_split_nonempty(t, sep);
        let prev = split_on(t, sep);
        if s.last() == sep {
            let cur = prev.push(Seq::empty());
            assert(cur.drop_last() == prev);
            assert(join_with(cur, sep) == join_with(prev, sep).push(sep) + Seq::<char>::empty());
            assert(s == t.push(sep));
        } else {
            let cur = prev.update(prev.len() - 1, prev.last().push(s.last()));
            if prev.len() == 1 {
                assert(join_with(prev, sep) == prev[0]);
                assert(s == t.push(s.last()));
            } else {
                assert(cur.drop_last() == prev.drop_last());
                assert(join_with(prev, sep) == join_with(prev.drop_last(), sep).push(sep)
                    + prev.last());
                assert(join_with(cur, sep) == join_with(prev.drop_last(), sep).push(sep)
                    + prev.last().push(s.last()));
                assert(s == t.push(s.last()));
                assert(join_with(cur, sep) =~= s);
            }
        }
    }
}

} // verus!

verus! {

pub proof fn lemma_utf8_bytes_concat(a: Seq<char>, b: Seq<char>)
    ensures
        utf8_bytes(a + b) == utf8_bytes(a) + utf8_bytes(b),
    decreases b.len(),
{
    if b.len() > 0 {
        lemma_utf8_bytes_concat(a, b.drop_last());
        assert((a + b).drop_last() == a + b.drop_last());
    } else {
        assert(a + b == a);
    }
}

pub proof fn lemma_utf8_bytes_bound(s: Seq<char>)
    ensures
        utf8_bytes(s) <= 4 * s.len(),
    decreases s.len(),
{
    if s.len() > 0 {
        lemma_utf8_bytes_bound(s.drop_last());
    }
}

/// The lines of a document, as character sequences.
pub open spec fn view_lines(v: Seq<Vec<char>>) -> Seq<Seq<char>> {
    v.map_values(|l: Vec<char>| l@)
}

/// A document's lines: at least one, each within capacity, and no more than capacity of them.
pub open spec fn lines_ok(ls: Seq<Seq<char>>) -> bool {
    1 <= ls.len() <= CAPACITY && forall|i: int| 0 <= i < ls.len() ==> #[trigger] ls[i].len()
        <= CAPACITY
}

/// The bytes of a document on disk: its lines joined by newlines.
pub open spec fn document_bytes(ls: Seq<Seq<char>>) -> nat {
    utf8_bytes(join_with(ls, '\n'))
}

/// An ordered sequence of lines, with the path it belongs to.
pub struct TextBuffer {
    pub lines: Vec<Vec<char>>,
    pub path: String,
    pub bytes_len: usize,
    pub has_changes: bool,
}

impl TextBuffer {
    pub open spec fn view(&self) -> Seq<Seq<char>> {
        view_lines(self.lines@)
    }

    pub open spec fn wf(&self) -> bool {
        lines_ok(self.view())
    }

    /// An empty document at `path`.
    pub fn new(path: &str) -> (r: TextBuffer)
        ensures
            r.wf(),
            r.view() == seq![Seq::<char>::empty()],
            r.path@ == path@,
            r.bytes_len == 0,
            !r.has_changes,
    {
        let mut lines: Vec<Vec<char>> = Vec::new();
        lines.push(Vec::new());
        let r = TextBuffer { lines, path: String::from_str(path), bytes_len: 0, has_changes: false };
        assert(r.view() =~= seq![Seq::<char>::empty()]);
        r
    }

    /// A document read from `text`: split at each newline, trailing white space
    /// trimmed from every line.
    pub fn from_text(path: &str, text: &Vec<char>) -> (r: TextBuffer)
        requires
            text@.len() < CAPACITY,
        ensures
            r.wf(),
            r.view() == split_on(text@, '\n').map_values(|l: Seq<char>| trim_end(l)),
            r.path@ == path@,
            r.bytes_len == document_bytes(r.view()),
            !r.has_changes,
    {
        let mut lines: Vec<Vec<char>> = Vec::new();
        let mut cur: Vec<char> = Vec::new();
        let mut i: usize = 0;
        while i < text.len()
            invariant
                i <= text@.len() < CAPACITY,
                ({
                    let sp = split_on(text@.take(i as int), '\n');
                    &&& view_lines(lines@) == sp.drop_last().map_values(
                        |l: Seq<char>| trim_end(l),
                    )
                    &&& cur@ == sp.last()
                    &&& sp.len() == lines@.len() + 1
                }),
                cur@.len() <= i,
                lines@.len() <= i,
            decreases text@.len() - i,
        {
            let ghost t = text@.take(i as int);
            let ghost sp = split_on(t, '\n');
            proof {
                lemma_split_nonempty(t, '\n');
                assert(text@.take(i + 1).drop_last() == t);
            }
            let c = text[i];
            if c == '\n' {
                let mut done = cur;
                trim_trailing(&mut done);
                let ghost old_lines = lines@;
                lines.push(done);
                cur = Vec::new();
                proof {
                    lemma_view_push(old_lines, done);
                    lemma_trim_push(sp.drop_last(), sp.last());
                    let sp2 = split_on(text@.take(i + 1), '\n');
                    assert(sp2 == sp.push(Seq::empty()));
                    assert(sp2.drop_last() == sp);
                    assert(sp == sp.drop_last().push(sp.last()));
                    assert(view_lines(lines@) =~= sp2.drop_last().map_values(
                        |l: Seq<char>| trim_end(l),
                    ));
                }
            } else {
                cur.push(c);
                proof {
                    let sp2 = split_on(text@.take(i + 1), '\n');
                    assert(sp2 == sp.update(sp.len() - 1, sp.last().push(c)));
                    assert(sp2.drop_last() =~= sp.drop_last());
                }
            }
            i += 1;
        }
        let ghost sp = split_on(text@, '\n');
        proof {
            assert(text@.take(text@.len() as int) == text@);
            lemma_split_nonempty(text@, '\n');
        }
        trim_trailing(&mut cur);
        let ghost old_lines = lines@;
        lines.push(cur);
        proof {
            lemma_view_push(old_lines, cur);
            lemma_trim_push(sp.drop_last(), sp.last());
            assert(sp == sp.drop_last().push(sp.last()));
            assert(view_lines(lines@) =~= sp.map_values(|l: Seq<char>| trim_end(l)));
            assert forall|k: int| 0 <= k < view_lines(lines@).len() implies #[trigger] view_lines(
                lines@,
            )[k].len() <= CAPACITY by {
                lemma_trim_len(sp[k]);
                lemma_split_piece_len(text@, '\n', k);
            }
        }
        let mut r = TextBuffer { lines, path: String::from_str(path), bytes_len: 0, has_changes: false };
        proof {
            let pieces = split_on(text@, '\n');
            let trimmed = pieces.map_values(|l: Seq<char>| trim_end(l));
            assert forall|k: int| 0 <= k < trimmed.len() implies #[trigger] trimmed[k].len()
                <= pieces[k].len() by {
                lemma_trim_len(pieces[k]);
            }
            lemma_join_len_mono(trimmed, pieces);
            lemma_join_split(text@, '\n');
            lemma_utf8_bytes_bound(join_with(trimmed, '\n'));
            assert(r.view() == trimmed);
        }
        r.bytes_len = r.count_bytes();
        r
    }

    /// The text that saving writes: the lines joined by newlines.
    pub fn contents(&self) -> (r: Vec<char>)
        requires
            self.wf(),
        ensures
            r@ == join_with(self.view(), '\n'),
    {
        let mut out: Vec<char> = Vec::new();
        let mut i: usize = 0;
        while i < self.lines.len()
            invariant
                self.wf(),
                i <= self.lines@.len(),
                i == 0 ==> out@.len() == 0,
                i > 0 ==> out@ == join_with(self.view().take(i as int), '\n'),
            decreases self.lines@.len() - i,
        {
            let ghost before = out@;
            if i > 0 {
                out.push('\n');
            }
            let line = &self.lines[i];
            let mut j: usize = 0;
            let ghost base = out@;
            while j < line.len()
                invariant
                    j <= line@.len(),
                    out@ == base + line@.take(j as int),
                decreases line@.len() - j,
            {
                out.push(line[j]);
                j += 1;
                proof {
                    assert(line@.take(j as int) == line@.take(j - 1).push(line@[j - 1]));
                }
            }
            proof {
                assert(line@.take(j as int) == line@);
                let tk = self.view().take(i + 1);
                assert(tk.last() == line@);
                if i > 0 {
                    assert(tk.drop_last() == self.view().take(i as int));
                } else {
                    assert(tk.len() == 1);
                }
            }
            i += 1;
        }
        proof {
            assert(self.view().take(self.lines@.len() as int) == self.view());
        }
        out
    }

    /// The number of bytes that saving writes.
    pub fn count_bytes(&self) -> (r: usize)
        requires
            self.wf(),
            document_bytes(self.view()) <= usize::MAX,
        ensures
            r == document_bytes(self.view()),
    {
        let mut total: usize = 0;
        let mut i: usize = 0;
        while i < self.lines.len()
            invariant
                self.wf(),
                document_bytes(self.view()) <= usize::MAX,
                i <= self.lines@.len(),
                i == 0 ==> total == 0,
                i > 0 ==> total == utf8_bytes(join_with(self.view().take(i as int), '\n')),
            decreases self.lines@.len() - i,
        {
            let line = &self.lines[i];
            let ghost head = if i > 0 {
                join_with(self.view().take(i as int), '\n').push('\n')
            } else {
                Seq::<char>::empty()
            };
            proof {
                let tk = self.view().take(i + 1);
                assert(tk.last() == line@);
                if i > 0 {
                    assert(tk.drop_last() == self.view().take(i as int));
                    assert(join_with(tk, '\n') == head + line@);
                } else {
                    assert(tk.len() == 1);
                    assert(head + line@ == line@);
                }
                lemma_join_take_bytes(self.view(), i + 1);
                lemma_utf8_bytes_concat(join_with(self.view().take(i as int), '\n'), seq!['\n']);
                assert(join_with(self.view().take(i as int), '\n').push('\n') == join_with(
                    self.view().take(i as int),
                    '\n',
                ) + seq!['\n']);
                lemma_newline_bytes();
                lemma_utf8_bytes_concat(head, line@);
            }
            if i > 0 {
                total = total + 1;
            }
            let mut j: usize = 0;
            while j < line.len()
                invariant
                    j <= line@.len(),
                    utf8_bytes(head + line@) <= usize::MAX,
                    total == utf8_bytes(head) + utf8_bytes(line@.take(j as int)),
                decreases line@.len() - j,
            {
                proof {
                    assert(line@.take(j + 1).drop_last() == line@.take(j as int));
                    assert(line@ == line@.take(j + 1) + line@.skip(j + 1));
                    lemma_utf8_bytes_concat(head, line@);
                    lemma_utf8_bytes_concat(line@.take(j + 1), line@.skip(j + 1));
                }
                total = total + char_utf8_len(line[j]);
                j += 1;
            }
            proof {
                assert(line@.take(j as int) == line@);
                lemma_utf8_bytes_concat(head, line@);
            }
            i += 1;
        }
        proof {
            assert(self.view().take(self.lines@.len() as int) == self.view());
        }
        total
    }

    /// Records that `written` bytes were saved: the byte count is what was written,
    /// and no change is pending. Returns the bytes and the number of lines.
    pub fn record_write(&mut self, written: usize) -> (r: (usize, usize))
        ensures
            final(self).bytes_len == written,
            !final(self).has_changes,
            final(self).lines == old(self).lines,
            final(self).path == old(self).path,
            r.0 == written,
            r.1 == old(self).lines@.len(),
    {
        self.bytes_len = written;
        self.has_changes = false;
        (written, self.lines.len())
    }
}

/// Removes the trailing white space of `v`.
fn trim_trailing(v: &mut Vec<char>)
    ensures
        final(v)@ == trim_end(old(v)@),
{
    while v.len() > 0 && char_is_whitespace(v[v.len() - 1])
        invariant
            trim_end(v@) == trim_end(old(v)@),
        decreases v@.len(),
    {
        v.pop();
    }
}

/// The bytes of the first `i` lines joined are no more than those of all of them.
pub proof fn lemma_join_take_bytes(ls: Seq<Seq<char>>, i: int)
    requires
        1 <= i <= ls.len(),
    ensures
        utf8_bytes(join_with(ls.take(i), '\n')) <= utf8_bytes(join_with(ls, '\n')),
    decreases ls.len(),
{
    if i == ls.len() {
        assert(ls.take(i) == ls);
    } else {
        let d = ls.drop_last();
        assert(d.take(i) == ls.take(i));
        lemma_join_take_bytes(d, i);
        lemma_utf8_bytes_concat(join_with(d, '\n').push('\n'), ls.last());
        lemma_utf8_bytes_concat(join_with(d, '\n'), seq!['\n']);
        assert(join_with(d, '\n').push('\n') == join_with(d, '\n') + seq!['\n']);
    }
}

/// Joining shorter pieces gives a shorter text.
pub proof fn lemma_join_len_mono(a: Seq<Seq<char>>, b: Seq<Seq<char>>)
    requires
        a.len() == b.len(),
        forall|k: int| 0 <= k < a.len() ==> #[trigger] a[k].len() <= b[k].len(),
    ensures
        join_with(a, '\n').len() <= join_with(b, '\n').len(),
    decreases a.len(),
{
    if a.len() > 1 {
        lemma_join_len_mono(a.drop_last(), b.drop_last());
        assert(a.last().len() <= b.last().len());
    } else if a.len() == 1 {
        assert(a[0].len() <= b[0].len());
    }
}

pub proof fn lemma_view_push(v: Seq<Vec<char>>, x: Vec<char>)
    ensures
        view_lines(v.push(x)) == view_lines(v).push(x@),
{
    assert(view_lines(v.push(x)) =~= view_lines(v).push(x@));
}

pub proof fn lemma_view_insert(v: Seq<Vec<char>>, i: int, x: Vec<char>)
    requires
        0 <= i <= v.len(),
    ensures
        view_lines(v.insert(i, x)) == view_lines(v).insert(i, x@),
{
    assert(view_lines(v.insert(i, x)) =~= view_lines(v).insert(i, x@));
}

pub proof fn lemma_view_remove(v: Seq<Vec<char>>, i: int)
    requires
        0 <= i < v.len(),
    ensures
        view_lines(v.remove(i)) == view_lines(v).remove(i),
{
    assert(view_lines(v.remove(i)) =~= view_lines(v).remove(i));
}

pub proof fn lemma_trim_push(s: Seq<Seq<char>>, x: Seq<char>)
    ensures
        s.push(x).map_values(|l: Seq<char>| trim_end(l)) == s.map_values(
            |l: Seq<char>| trim_end(l),
        ).push(trim_end(x)),
{
    assert(s.push(x).map_values(|l: Seq<char>| trim_end(l)) =~= s.map_values(
        |l: Seq<char>| trim_end(l),
    ).push(trim_end(x)));
}

pub proof fn lemma_newline_bytes()
    ensures
        utf8_bytes(seq!['\n']) == 1,
{
    let s = seq!['\n'];
    assert(s.drop_last() =~= Seq::<char>::empty());
    assert(utf8_bytes(Seq::<char>::empty()) == 0);
    assert(s.last() == '\n');
    assert(utf8_len('\n') == 1);
}

pub proof fn lemma_trim_len(s: Seq<char>)
    ensures
        trim_end(s).len() <= s.len(),
    decreases s.len(),
{
    if s.len() > 0 && white_space(s.last()) {
        lemma_trim_len(s.drop_last());
    }
}

pub proof fn lemma_split_piece_len(s: Seq<char>, sep: char, k: int)
    requires
        0 <= k < split_on(s, sep).len(),
    ensures
        split_on(s, sep)[k].len() <= s.len(),
    decreases s.len(),
{
    if s.len() > 0 {
        let prev = split_on(s.drop_last(), sep);
        lemma_split_nonempty(s.drop_last(), sep);
        if k < prev.len() {
            lemma_split_piece_len(s.drop_last(), sep, k);
        }
        if k == prev.len() - 1 {
            lemma_split_piece_len(s.drop_last(), sep, k);
        }
    }
}

} // verus!

verus! {

/// The characters of `v` from `from` up to `to`.
pub fn sub_chars(v: &Vec<char>, from: usize, to: usize) -> (r: Vec<char>)
    requires
        from <= to <= v@.len(),
    ensures
        r@ == v@.subrange(from as int, to as int),
{
    let mut r: Vec<char> = Vec::new();
    let mut i: usize = from;
    while i < to
        invariant
            from <= i <= to <= v@.len(),
            r@ == v@.subrange(from as int, i as int),
        decreases to - i,
    {
        r.push(v[i]);
        i += 1;
        proof {
            assert(v@.subrange(from as int, i as int) == v@.subrange(from as int, i - 1).push(
                v@[i - 1],
            ));
        }
    }
    r
}

/// Appends the characters of `b` to `a`.
pub fn append_chars(a: &mut Vec<char>, b: &Vec<char>)
    ensures
        final(a)@ == old(a)@ + b@,
{
    let mut i: usize = 0;
    while i < b.len()
        invariant
            i <= b@.len(),
            a@ == old(a)@ + b@.take(i as int),
        decreases b@.len() - i,
    {
        a.push(b[i]);
        i += 1;
        proof {
            assert(b@.take(i as int) == b@.take(i - 1).push(b@[i - 1]));
        }
    }
    proof {
        assert(b@.take(b@.len() as int) == b@);
    }
}

} // verus!

verus! {

/// The pieces of `text` between newlines.
pub fn split_pieces(text: &Vec<char>) -> (r: Vec<Vec<char>>)
    ensures
        view_lines(r@) == split_on(text@, '\n'),
{
    let mut data: Vec<Vec<char>> = Vec::new();
    let mut cur: Vec<char> = Vec::new();
    let mut i: usize = 0;
    while i < text.len()
        invariant
            i <= text@.len(),
            view_lines(data@).push(cur@) == split_on(text@.take(i as int), '\n'),
        decreases text@.len() - i,
    {
        let ghost t = text@.take(i as int);
        let ghost sp = split_on(t, '\n');
        proof {
            lemma_split_nonempty(t, '\n');
            assert(text@.take(i + 1).drop_last() == t);
        }
        let c = text[i];
        if c == '\n' {
            let ghost old_data = data@;
            data.push(cur);
            cur = Vec::new();
            proof {
                lemma_view_push(old_data, cur);
                assert(view_lines(data@).push(cur@) =~= sp.push(Seq::empty()));
            }
        } else {
            cur.push(c);
            proof {
                assert(view_lines(data@).push(cur@) =~= sp.update(sp.len() - 1, sp.last().push(c)));
            }
        }
        i += 1;
    }
    let ghost old_data = data@;
    data.push(cur);
    proof {
        lemma_view_push(old_data, cur);
        assert(text@.take(text@.len() as int) == text@);
    }
    data
}

/// The pieces joined, with a newline between each two.
pub fn join_pieces(parts: &Vec<Vec<char>>) -> (r: Vec<char>)
    ensures
        r@ == join_with(view_lines(parts@), '\n'),
{
    let mut out: Vec<char> = Vec::new();
    let mut i: usize = 0;
    while i < parts.len()
        invariant
            i <= parts@.len(),
            i == 0 ==> out@.len() == 0,
            i > 0 ==> out@ == join_with(view_lines(parts@).take(i as int), '\n'),
        decreases parts@.len() - i,
    {
        if i > 0 {
            out.push('\n');
        }
        append_chars(&mut out, &parts[i]);
        proof {
            let tk = view_lines(parts@).take(i + 1);
            assert(tk.last() == parts@[i as int]@);
            if i > 0 {
                assert(tk.drop_last() == view_lines(parts@).take(i as int));
            } else {
                assert(tk.len() == 1);
                assert(out@ =~= parts@[0]@);
            }
        }
        i += 1;
    }
    proof {
        assert(view_lines(parts@).take(parts@.len() as int) == view_lines(parts@));
    }
    out
}

/// Whether `v` holds at least one line, no more than capacity of them, each within capacity.
pub fn within_capacity(v: &Vec<Vec<char>>) -> (r: bool)
    ensures
        r == lines_ok(view_lines(v@)),
{
    if v.len() == 0 || v.len() > CAPACITY {
        return false;
    }
    let mut i: usize = 0;
    while i < v.len()
        invariant
            i <= v@.len(),
            forall|k: int| 0 <= k < i ==> #[trigger] view_lines(v@)[k].len() <= CAPACITY,
        decreases v@.len() - i,
    {
        if v[i].len() > CAPACITY {
            proof {
                assert(view_lines(v@)[i as int].len() > CAPACITY);
            }
            return false;
        }
        i += 1;
    }
    true
}

/// Relies on `String`'s `FromIterator<char>`: the string of exactly these characters.
#[verifier::external_body]
pub fn string_from_chars(v: &Vec<char>) -> (r: String)
    ensures
        r@ == v@,
{
    v.iter().collect()
}

/// Relies on `str::chars`: the characters of `s` in order.
#[verifier::external_body]
pub fn chars_of(s: &str) -> (r: Vec<char>)
    ensures
        r@ == s@,
{
    s.chars().collect()
}

} // verus!

verus! {

/// The character of decimal digit `d`.
pub open spec fn digit_char(d: nat) -> char {
    seq!['0', '1', '2', '3', '4', '5', '6', '7', '8', '9'][d as int]
}

/// The decimal digits of `n`, most significant first.
pub open spec fn decimal(n: nat) -> Seq<char>
    decreases n,
{
    if n < 10 {
        seq![digit_char(n)]
    } else {
        decimal(n / 10).push(digit_char(n % 10))
    }
}

fn digit(d: usize) -> (r: char)
    requires
        d < 10,
    ensures
        r == digit_char(d as nat),
{
    let ds: [char; 10] = ['0', '1', '2', '3', '4', '5', '6', '7', '8', '9'];
    proof {
        assert(ds@ =~= seq!['0', '1', '2', '3', '4', '5', '6', '7', '8', '9']);
    }
    ds[d]
}

/// The decimal digits of `n`.
pub fn decimal_chars(n: usize) -> (r: Vec<char>)
    ensures
        r@ == decimal(n as nat),
    decreases n,
{
    if n < 10 {
        let mut v: Vec<char> = Vec::new();
        v.push(digit(n));
        assert(v@ =~= seq![digit_char(n as nat)]);
        v
    } else {
        let mut v = decimal_chars(n / 10);
        v.push(digit(n % 10));
        v
    }
}

/// Appends the characters of a string literal or slice.
pub fn append_str(a: &mut Vec<char>, s: &str)
    ensures
        final(a)@ == old(a)@ + s@,
{
    let cs = chars_of(s);
    append_chars(a, &cs);
}

} // verus!
