//! Character spans of the lines of a text.
use vstd::prelude::*;
use crate::text::{chars_of, split_on, lemma_split_nonempty};

verus! {

/// The characters `start` up to `end` of a text; `size` is one more than their count.
#[derive(Debug)]
pub struct Line {
    pub start: usize,
    pub end: usize,
    pub size: usize,
}

/// Where piece `k` of a text cut into pieces `ls` at single separators starts.
pub open spec fn offset(ls: Seq<Seq<char>>, k: int) -> int
    decreases k,
{
    if k <= 0 {
        0
    } else {
        offset(ls, k - 1) + ls[k - 1].len() + 1
    }
}

/// `r` gives the span of each piece of `ls`.
pub open spec fn spans_ok(r: Seq<Line>, ls: Seq<Seq<char>>) -> bool {
    &&& r.len() == ls.len()
    &&& forall|k: int|
        #![trigger r[k]]
        0 <= k < r.len() ==> {
            &&& r[k].start == offset(ls, k)
            &&& r[k].end == r[k].start + ls[k].len()
            &&& r[k].size == ls[k].len() + 1
        }
}

pub proof fn lemma_offset_push(ls: Seq<Seq<char>>, x: Seq<char>, k: int)
    requires
        0 <= k <= ls.len(),
    ensures
        offset(ls.push(x), k) == offset(ls, k),
    decreases k,
{
    if k > 0 {
        lemma_offset_push(ls, x, k - 1);
    }
}

pub proof fn lemma_spans_push(before: Seq<Line>, ls: Seq<Seq<char>>, l: Line, piece: Seq<char>)
    requires
        spans_ok(before, ls),
        l.start == offset(ls, ls.len() as int),
        l.end == l.start + piece.len(),
        l.size == piece.len() + 1,
    ensures
        spans_ok(before.push(l), ls.push(piece)),
{
    let r = before.push(l);
    let p = ls.push(piece);
    assert forall|k: int| #![trigger r[k]] 0 <= k < r.len() implies {
        &&& r[k].start == offset(p, k)
        &&& r[k].end == r[k].start + p[k].len()
        &&& r[k].size == p[k].len() + 1
    } by {
        lemma_offset_push(ls, piece, k);
        if k < before.len() {
            assert(r[k] == before[k]);
        }
    }
}

impl Line {
    pub fn new(start_index: usize, end_index: usize) -> (r: Line)
        requires
            start_index <= end_index,
            end_index - start_index < usize::MAX,
        ensures
            r.start == start_index,
            r.end == end_index,
            r.size == end_index - start_index + 1,
    {
        Line { start: start_index, end: end_index, size: (end_index - start_index) + 1 }
    }

    /// The span of each line of `buffer`, lines ending at each newline.
    pub fn compute_lines(buffer: &str) -> (r: Vec<Line>)
        requires
            buffer@.len() < usize::MAX,
        ensures
            spans_ok(r@, split_on(buffer@, '\n')),
    {
        let chars = chars_of(buffer);
        let mut result: Vec<Line> = Vec::new();
        let mut start: usize = 0;
        let mut end: usize = 0;
        let mut i: usize = 0;
        while i < chars.len()
            invariant
                chars@ == buffer@,
                chars@.len() < usize::MAX,
                i <= chars@.len(),
                start <= end == i,
                ({
                    let sp = split_on(chars@.take(i as int), '\n');
                    &&& spans_ok(result@, sp.drop_last())
                    &&& sp.last().len() == end - start
                    &&& start == offset(sp.drop_last(), result@.len() as int)
                }),
            decreases chars@.len() - i,
        {
            let ghost t = chars@.take(i as int);
            let ghost sp = split_on(t, '\n');
            proof {
                lemma_split_nonempty(t, '\n');
                assert(chars@.take(i + 1).drop_last() == t);
            }
            if chars[i] == '\n' {
                let ghost before = result@;
                let l = Line::new(start, end);
                result.push(l);
                proof {
                    let sp2 = split_on(chars@.take(i + 1), '\n');
                    assert(sp2.drop_last() == sp);
                    assert(sp == sp.drop_last().push(sp.last()));
                    lemma_spans_push(before, sp.drop_last(), l, sp.last());
                    assert(sp2.last().len() == 0);
                    lemma_offset_push(sp.drop_last(), sp.last(), before.len() as int);
                    assert(offset(sp, before.len() + 1 as int) == offset(sp, before.len() as int) + sp[before.len() as int].len() + 1);
                }
                start = end + 1;
                end = start;
            } else {
                end += 1;
                proof {
                    let sp2 = split_on(chars@.take(i + 1), '\n');
                    assert(sp2.drop_last() =~= sp.drop_last());
                }
            }
            i += 1;
        }
        let ghost sp = split_on(chars@, '\n');
        proof {
            assert(chars@.take(chars@.len() as int) == chars@);
            lemma_split_nonempty(chars@, '\n');
        }
        let ghost before = result@;
        let l = Line::new(start, end);
        result.push(l);
        proof {
            assert(sp == sp.drop_last().push(sp.last()));
            lemma_spans_push(before, sp.drop_last(), l, sp.last());
        }
        result
    }
}

} // verus!
