//! A grid of styled cells, clipped writes into it, and the runs that differ between two grids.
use vstd::prelude::*;
use crate::text::{chars_of, string_from_chars};

verus! {

/// A terminal color.
#[derive(Debug, Clone, Copy, PartialEq, Eq, Structural)]
pub enum Color {
    Reset,
    Black,
    DarkGrey,
    Red,
    DarkRed,
    Green,
    DarkGreen,
    Yellow,
    DarkYellow,
    Blue,
    DarkBlue,
    Magenta,
    DarkMagenta,
    Cyan,
    DarkCyan,
    White,
    Grey,
    Rgb { r: u8, g: u8, b: u8 },
    AnsiValue(u8),
}

/// Colors and attributes of a cell; `attributes` is a set of attribute bits.
#[derive(Debug, Clone, Copy, PartialEq, Eq, Structural)]
pub struct Style {
    pub foreground_color: Option<Color>,
    pub background_color: Option<Color>,
    pub underline_color: Option<Color>,
    pub attributes: u32,
}

/// One styled character of the grid.
#[derive(Debug, Clone, Copy, PartialEq, Eq, Structural)]
pub struct Cell {
    pub character: char,
    pub style: Style,
}

/// A cell of `character` in plain `fg` on `bg`.
pub open spec fn plain_cell(character: char, fg: Color, bg: Color) -> Cell {
    Cell {
        character,
        style: Style {
            foreground_color: Some(fg),
            background_color: Some(bg),
            underline_color: None,
            attributes: 0,
        },
    }
}

impl Cell {
    pub fn new(character: char, fg: Color, bg: Color) -> (r: Cell)
        ensures
            r == plain_cell(character, fg, bg),
    {
        Cell {
            character,
            style: Style {
                foreground_color: Some(fg),
                background_color: Some(bg),
                underline_color: None,
                attributes: 0,
            },
        }
    }

    pub fn with_style(character: char, style: Style) -> (r: Cell)
        ensures
            r == (Cell { character, style }),
    {
        Cell { character, style }
    }
}

/// A rectangle of the grid that a component draws into.
#[derive(Debug, Clone, Copy)]
pub struct Viewport {
    pub pos: (usize, usize),
    pub width: usize,
    pub height: usize,
}

/// Cells that differ between two grids and follow each other with one style.
pub struct BufferDiff {
    pub content: String,
    pub pos: (usize, usize),
    pub style: Style,
}

/// `data` with `cells` written along row `y` from column `x`, no further than `limit`
/// cells and no further than the row's end.
pub open spec fn write_row(data: Seq<Cell>, w: int, h: int, cells: Seq<Cell>, x: int, y: int, limit: int) -> Seq<Cell> {
    Seq::new(
        data.len(),
        |k: int|
            {
                let i = k - y * w - x;
                if 0 <= y < h && x < w && y * w <= k < y * w + w && 0 <= i < cells.len() && i < limit {
                    cells[i]
                } else {
                    data[k]
                }
            },
    )
}

/// How many cells a write at `pos` inside `vp` may cover: none when `pos` lies outside
/// the viewport, else up to the viewport's right edge.
pub open spec fn clip_limit(pos: (usize, usize), vp: Viewport) -> int {
    if pos.1 < vp.height && pos.0 < vp.width {
        vp.width - pos.0
    } else {
        0
    }
}

/// A fixed grid of `width` by `height` cells, row by row.
pub struct RenderBuffer {
    pub data: Vec<Cell>,
    pub width: usize,
    pub height: usize,
}

impl RenderBuffer {
    pub open spec fn wf(&self) -> bool {
        &&& self.data@.len() == self.width * self.height
        &&& self.width * self.height <= usize::MAX
    }

    /// A grid filled with blank cells.
    pub fn new(width: usize, height: usize) -> (r: RenderBuffer)
        requires
            width * height <= usize::MAX,
        ensures
            r.wf(),
            r.width == width,
            r.height == height,
            forall|k: int| 0 <= k < r.data@.len() ==> #[trigger] r.data@[k] == plain_cell(' ', Color::Red, Color::Red),
    {
        let n = width * height;
        let blank = Cell::new(' ', Color::Red, Color::Red);
        let mut data: Vec<Cell> = Vec::new();
        let mut i: usize = 0;
        while i < n
            invariant
                i <= n,
                data@.len() == i,
                forall|k: int| 0 <= k < i ==> #[trigger] data@[k] == blank,
            decreases n - i,
        {
            data.push(blank);
            i += 1;
        }
        RenderBuffer { data, width, height }
    }

    /// Writes `c` at `pos` when `pos` lies inside the grid.
    pub fn put_cell(&mut self, c: Cell, pos: (usize, usize))
        requires
            old(self).wf(),
        ensures
            final(self).wf(),
            final(self).width == old(self).width,
            final(self).height == old(self).height,
            final(self).data@ == (if pos.0 < old(self).width && pos.1 < old(self).height {
                old(self).data@.update(pos.1 * old(self).width + pos.0, c)
            } else {
                old(self).data@
            }),
    {
        if pos.0 < self.width && pos.1 < self.height {
            proof {
                assert(pos.1 * self.width + pos.0 < self.width * self.height) by (nonlinear_arith)
                    requires
                        pos.0 < self.width,
                        pos.1 < self.height,
                ;
            }
            self.data.set(pos.1 * self.width + pos.0, c);
        }
    }

    /// Writes `cells` at `pos`, relative to `viewport`, clipped to the viewport and to the
    /// grid.
    pub fn put_cells(&mut self, cells: &Vec<Cell>, pos: (usize, usize), viewport: &Viewport)
        requires
            old(self).wf(),
        ensures
            final(self).wf(),
            final(self).width == old(self).width,
            final(self).height == old(self).height,
            final(self).data@ == write_row(
                old(self).data@,
                old(self).width as int,
                old(self).height as int,
                cells@,
                pos.0 + viewport.pos.0,
                pos.1 + viewport.pos.1,
                clip_limit(pos, *viewport),
            ),
    {
        let ghost d0 = self.data@;
        let w = self.width;
        let h = self.height;
        if pos.0 >= w || viewport.pos.0 >= w - pos.0 || pos.1 >= h || viewport.pos.1 >= h - pos.1
            || pos.1 >= viewport.height || pos.0 >= viewport.width {
            proof {
                assert(self.data@ =~= write_row(d0, w as int, h as int, cells@, pos.0 + viewport.pos.0,
                    pos.1 + viewport.pos.1, clip_limit(pos, *viewport)));
            }
            return;
        }
        let x = pos.0 + viewport.pos.0;
        let y = pos.1 + viewport.pos.1;
        proof {
            assert(y * w + w <= w * h) by (nonlinear_arith)
                requires
                    y < h,
            ;
        }
        let base = y * w;
        let mut i: usize = 0;
        let limit = viewport.width - pos.0;
        while i < cells.len() && i < limit && i < w - x
            invariant
                self.wf(),
                self.width == w,
                self.height == h,
                x < w,
                y < h,
                base == y * w,
                base + w <= w * h,
                i <= cells@.len(),
                i <= w - x,
                i <= limit,
                limit == viewport.width - pos.0,
                self.data@.len() == d0.len(),
                forall|k: int|
                    0 <= k < d0.len() ==> #[trigger] self.data@[k] == (if base + x <= k < base + x + i {
                        cells@[k - base - x]
                    } else {
                        d0[k]
                    }),
            decreases cells@.len() - i,
        {
            self.data.set(base + x + i, cells[i]);
            i += 1;
        }
        proof {
            let want = write_row(d0, w as int, h as int, cells@, x as int, y as int, clip_limit(pos, *viewport));
            assert forall|k: int| 0 <= k < d0.len() implies #[trigger] self.data@[k] == want[k] by {
                assert(y * w == base);
                let j = k - base - x;
                if base + x <= k < base + x + i {
                    assert(j < cells@.len() && j < limit && k < base + w);
                    assert(want[k] == cells@[j]);
                } else {
                    assert(!(y * w <= k < y * w + w && 0 <= j < cells@.len() && j < limit));
                    assert(want[k] == d0[k]);
                }
            }
            assert(self.data@ =~= want);
        }
    }

    /// Writes the characters of `data` with `style`, as `put_cells` does.
    pub fn put_str(&mut self, data: &str, pos: (usize, usize), style: Style, viewport: &Viewport)
        requires
            old(self).wf(),
        ensures
            final(self).wf(),
            final(self).width == old(self).width,
            final(self).height == old(self).height,
            final(self).data@ == write_row(
                old(self).data@,
                old(self).width as int,
                old(self).height as int,
                styled_seq(data@, style),
                pos.0 + viewport.pos.0,
                pos.1 + viewport.pos.1,
                clip_limit(pos, *viewport),
            ),
    {
        let chars = chars_of(data);
        let cells = styled(&chars, style);
        self.put_cells(&cells, pos, viewport);
    }

    /// Copies every cell into `other`.
    pub fn copy_into(&self, other: &mut RenderBuffer)
        requires
            self.wf(),
            old(other).wf(),
            old(other).data@.len() == self.data@.len(),
        ensures
            final(other).data@ == self.data@,
            final(other).width == old(other).width,
            final(other).height == old(other).height,
    {
        let mut i: usize = 0;
        while i < self.data.len()
            invariant
                i <= self.data@.len() == other.data@.len(),
                other.width == old(other).width,
                other.height == old(other).height,
                forall|k: int| 0 <= k < i ==> #[trigger] other.data@[k] == self.data@[k],
            decreases self.data@.len() - i,
        {
            other.data.set(i, self.data[i]);
            i += 1;
        }
        assert(other.data@ =~= self.data@);
    }

    /// Fills the grid with blank cells on `bg`.
    pub fn clear_buffer(&mut self, bg: Color)
        requires
            old(self).wf(),
        ensures
            final(self).wf(),
            final(self).width == old(self).width,
            final(self).height == old(self).height,
            final(self).data@.len() == old(self).data@.len(),
            forall|k: int| 0 <= k < final(self).data@.len() ==> #[trigger] final(self).data@[k] == plain_cell(' ', bg, bg),
    {
        let blank = Cell::new(' ', bg, bg);
        let mut i: usize = 0;
        while i < self.data.len()
            invariant
                self.wf(),
                self.width == old(self).width,
                self.height == old(self).height,
                i <= self.data@.len() == old(self).data@.len(),
                forall|k: int| 0 <= k < i ==> #[trigger] self.data@[k] == blank,
            decreases self.data@.len() - i,
        {
            self.data.set(i, blank);
            i += 1;
        }
    }
}

/// The characters of `chars`, each with `style`.
pub open spec fn styled_seq(chars: Seq<char>, style: Style) -> Seq<Cell>
    decreases chars.len(),
{
    if chars.len() == 0 {
        Seq::empty()
    } else {
        styled_seq(chars.drop_last(), style).push(Cell { character: chars.last(), style })
    }
}

/// The characters of `chars`, each with `style`.
pub fn styled(chars: &Vec<char>, style: Style) -> (r: Vec<Cell>)
    ensures
        r@ == styled_seq(chars@, style),
{
    let mut out: Vec<Cell> = Vec::new();
    let mut i: usize = 0;
    while i < chars.len()
        invariant
            i <= chars@.len(),
            out@ == styled_seq(chars@.take(i as int), style),
        decreases chars@.len() - i,
    {
        proof {
            assert(chars@.take(i + 1).drop_last() == chars@.take(i as int));
        }
        let c = chars[i];
        out.push(Cell::with_style(c, style));
        i += 1;
    }
    proof {
        assert(chars@.take(chars@.len() as int) == chars@);
    }
    out
}

} // verus!

verus! {

/// The index of the first cell of a run in a grid `w` cells wide.
pub open spec fn run_start(r: BufferDiff, w: int) -> int {
    r.pos.1 * w + r.pos.0
}

/// The index just after the last cell of a run.
pub open spec fn run_end(r: BufferDiff, w: int) -> int {
    run_start(r, w) + r.content@.len()
}

/// A run holds cells that differ from `a` to `b`, with `b`'s characters and style.
pub open spec fn run_ok(a: Seq<Cell>, b: Seq<Cell>, w: int, r: BufferDiff) -> bool {
    let s = run_start(r, w);
    &&& r.content@.len() > 0
    &&& r.pos.0 < w
    &&& 0 <= s
    &&& run_end(r, w) <= b.len()
    &&& forall|k: int|
        0 <= k < r.content@.len() ==> a[s + k] != b[s + k] && b[s + k].character
            == #[trigger] r.content@[k] && b[s + k].style == r.style
}

/// Cell `k` lies in one of the runs.
pub open spec fn covered(runs: Seq<BufferDiff>, w: int, k: int) -> bool {
    exists|j: int| 0 <= j < runs.len() && run_start(#[trigger] runs[j], w) <= k < run_end(runs[j], w)
}

/// `runs` are the maximal same-style stretches of cells that differ from `a` to `b`, in order.
pub open spec fn diff_ok(a: Seq<Cell>, b: Seq<Cell>, w: int, runs: Seq<BufferDiff>) -> bool {
    &&& forall|j: int| 0 <= j < runs.len() ==> run_ok(a, b, w, #[trigger] runs[j])
    &&& forall|j: int|
        0 <= j < runs.len() - 1 ==> run_end(#[trigger] runs[j], w) <= run_start(runs[j + 1], w)
    &&& forall|k: int| 0 <= k < a.len() && a[k] != b[k] ==> #[trigger] covered(runs, w, k)
    &&& forall|j: int|
        0 <= j < runs.len() ==> {
            let s = run_start(#[trigger] runs[j], w);
            s > 0 && a[s - 1] != b[s - 1] ==> b[s - 1].style != runs[j].style
        }
    &&& forall|j: int|
        0 <= j < runs.len() ==> {
            let e = run_end(#[trigger] runs[j], w);
            e < b.len() && a[e] != b[e] ==> b[e].style != runs[j].style
        }
}

/// `cells` with the run written over them.
pub open spec fn apply_run(cells: Seq<Cell>, r: BufferDiff, w: int) -> Seq<Cell> {
    let s = run_start(r, w);
    Seq::new(
        cells.len(),
        |k: int|
            if s <= k < run_end(r, w) {
                Cell { character: r.content@[k - s], style: r.style }
            } else {
                cells[k]
            },
    )
}

/// `cells` with every run written over them in order.
pub open spec fn apply_runs(cells: Seq<Cell>, runs: Seq<BufferDiff>, w: int) -> Seq<Cell>
    decreases runs.len(),
{
    if runs.len() == 0 {
        cells
    } else {
        apply_run(apply_runs(cells, runs.drop_last(), w), runs.last(), w)
    }
}

proof fn lemma_apply_prefix(a: Seq<Cell>, b: Seq<Cell>, w: int, runs: Seq<BufferDiff>, m: int)
    requires
        a.len() == b.len(),
        forall|j: int| 0 <= j < runs.len() ==> run_ok(a, b, w, #[trigger] runs[j]),
        0 <= m <= runs.len(),
    ensures
        apply_runs(a, runs.take(m), w).len() == a.len(),
        forall|k: int|
            0 <= k < a.len() ==> #[trigger] apply_runs(a, runs.take(m), w)[k] == (if covered(
                runs.take(m),
                w,
                k,
            ) {
                b[k]
            } else {
                a[k]
            }),
    decreases m,
{
    if m > 0 {
        lemma_apply_prefix(a, b, w, runs, m - 1);
        let t = runs.take(m);
        assert(t.drop_last() == runs.take(m - 1));
        let prev = apply_runs(a, runs.take(m - 1), w);
        let r = runs[m - 1];
        assert(run_ok(a, b, w, r));
        assert forall|k: int| 0 <= k < a.len() implies #[trigger] apply_runs(a, t, w)[k] == (if covered(
            t,
            w,
            k,
        ) {
            b[k]
        } else {
            a[k]
        }) by {
            let s = run_start(r, w);
            if s <= k < run_end(r, w) {
                assert(b[s + (k - s)].character == r.content@[k - s]);
                assert(t[m - 1] == r);
                assert(covered(t, w, k));
            } else {
                if covered(t, w, k) {
                    let j = choose|j: int| 0 <= j < t.len() && run_start(#[trigger] t[j], w) <= k < run_end(t[j], w);
                    assert(j != m - 1);
                    assert(runs.take(m - 1)[j] == t[j]);
                    assert(covered(runs.take(m - 1), w, k));
                } else {
                    if covered(runs.take(m - 1), w, k) {
                        let j = choose|j: int| 0 <= j < m - 1 && run_start(#[trigger] runs.take(m - 1)[j], w) <= k < run_end(runs.take(m - 1)[j], w);
                        assert(t[j] == runs.take(m - 1)[j]);
                    }
                }
            }
        }
    } else {
        assert(runs.take(0).len() == 0);
        assert forall|k: int| 0 <= k < a.len() implies !covered(runs.take(0), w, k) by {}
    }
}

/// Diffing a grid against itself gives no runs, and writing the runs of a diff over
/// the first grid gives the second.
pub proof fn lemma_diff_applies(a: Seq<Cell>, b: Seq<Cell>, w: int, runs: Seq<BufferDiff>)
    requires
        a.len() == b.len(),
        diff_ok(a, b, w, runs),
    ensures
        a == b ==> runs.len() == 0,
        apply_runs(a, runs, w) == b,
{
    if a == b && runs.len() > 0 {
        let r = runs[0];
        assert(run_ok(a, b, w, r));
        let s = run_start(r, w);
        assert(r.content@.len() > 0);
        assert(b[s + 0].character == r.content@[0]);
        assert(a[s + 0] != b[s + 0]);
    }
    lemma_apply_prefix(a, b, w, runs, runs.len() as int);
    assert(runs.take(runs.len() as int) == runs);
    assert forall|k: int| 0 <= k < a.len() implies #[trigger] apply_runs(a, runs, w)[k] == b[k] by {
        if !covered(runs, w, k) {
            assert(!(a[k] != b[k]));
        }
    }
    assert(apply_runs(a, runs, w) =~= b);
}

impl RenderBuffer {
    /// The runs of cells that differ from this grid to `other`: each a maximal stretch of
    /// following cells with one style, in order, with `other`'s characters.
    pub fn diff(&self, other: &RenderBuffer) -> (r: Vec<BufferDiff>)
        requires
            self.wf(),
            other.wf(),
            self.width == other.width,
            self.height == other.height,
        ensures
            diff_ok(self.data@, other.data@, self.width as int, r@),
    {
        let ghost a = self.data@;
        let ghost b = other.data@;
        let w = self.width;
        let n = self.data.len();
        let mut result: Vec<BufferDiff> = Vec::new();
        let mut i: usize = 0;
        proof {
            if w == 0 {
                assert(w * self.height == 0) by (nonlinear_arith)
                    requires
                        w == 0,
                ;
            }
        }
        while i < n
            invariant
                n == a.len() == b.len(),
                a == self.data@,
                b == other.data@,
                w == self.width,
                n > 0 ==> w > 0,
                i <= n,
                forall|j: int| 0 <= j < result@.len() ==> run_ok(a, b, w as int, #[trigger] result@[j]),
                forall|j: int| 0 <= j < result@.len() ==> run_end(#[trigger] result@[j], w as int) <= i,
                forall|j: int|
                    0 <= j < result@.len() - 1 ==> run_end(#[trigger] result@[j], w as int) <= run_start(
                        result@[j + 1],
                        w as int,
                    ),
                forall|k: int| 0 <= k < i && a[k] != b[k] ==> #[trigger] covered(result@, w as int, k),
                forall|j: int|
                    0 <= j < result@.len() ==> {
                        let s = run_start(#[trigger] result@[j], w as int);
                        s > 0 && a[s - 1] != b[s - 1] ==> b[s - 1].style != result@[j].style
                    },
                forall|j: int|
                    0 <= j < result@.len() ==> {
                        let e = run_end(#[trigger] result@[j], w as int);
                        e < b.len() && a[e] != b[e] ==> b[e].style != result@[j].style
                    },
                i > 0 && a[i - 1] != b[i - 1] ==> result@.len() > 0 && run_end(result@.last(), w as int)
                    == i && result@.last().style == b[i - 1].style,
            decreases n - i,
        {
            if self.data[i] != other.data[i] {
                let start = i;
                let style = other.data[i].style;
                let mut content: Vec<char> = Vec::new();
                content.push(other.data[i].character);
                proof {
                    assert(content@[0] == b[start as int].character);
                }
                i += 1;
                while i < n && self.data[i] != other.data[i] && other.data[i].style == style
                    invariant
                        n == a.len() == b.len(),
                        a == self.data@,
                        b == other.data@,
                        start < i <= n,
                        content@.len() == i - start,
                        forall|k: int| #![trigger a[k]] start <= k < i ==> a[k] != b[k] && b[k].style == style,
                        forall|k: int| 0 <= k < content@.len() ==> #[trigger] content@[k] == b[start + k].character,
                    decreases n - i,
                {
                    let ch = other.data[i].character;
                    assert(a[i as int] != b[i as int]);
                    assert(b[i as int].style == style);
                    let ghost old_c = content@;
                    content.push(ch);
                    proof {
                        assert(content@ == old_c.push(ch));
                    }
                    let ghost at = i as int;
                    i += 1;
                    proof {
                        assert forall|k: int| #![trigger a[k]] start <= k < i implies a[k] != b[k] && b[k].style == style by {
                            if k == at {
                                assert(a[at] != b[at]);
                                assert(b[at].style == style);
                            } else {
                                assert(start <= k < at);
                                assert(a[k] != b[k]);
                                assert(b[k].style == style);
                            }
                        }
                    }
                }
                proof {
                    vstd::arithmetic::div_mod::lemma_fundamental_div_mod(start as int, w as int);
                    vstd::arithmetic::div_mod::lemma_mod_bound(start as int, w as int);
                }
                let run = BufferDiff { content: string_from_chars(&content), pos: (start % w, start / w), style };
                proof {
                    assert(run_start(run, w as int) == start) by (nonlinear_arith)
                        requires
                            run.pos.1 == start / w,
                            run.pos.0 == start % w,
                            start == w * (start / w) + start % w,
                    ;
                }
                let ghost old_result = result@;
                result.push(run);
                proof {
                    let last = result@.len() - 1;
                    assert(result@[last] == run);
                    assert forall|k: int| 0 <= k < i && a[k] != b[k] implies #[trigger] covered(result@, w as int, k) by {
                        if k >= start {
                            assert(run_start(result@[last], w as int) <= k < run_end(result@[last], w as int));
                        } else {
                            assert(covered(old_result, w as int, k));
                            let j = choose|j: int| 0 <= j < old_result.len() && run_start(#[trigger] old_result[j], w as int) <= k < run_end(old_result[j], w as int);
                            assert(result@[j] == old_result[j]);
                        }
                    }
                    assert(run_ok(a, b, w as int, run)) by {
                        assert(run.content@.len() > 0);
                        assert(run.pos.0 < w);
                        assert(run_start(run, w as int) == start);
                        assert(run_end(run, w as int) == i);
                        assert forall|k: int| 0 <= k < run.content@.len() implies a[start + k] != b[start + k]
                            && b[start + k].character == #[trigger] run.content@[k] && b[start + k].style == run.style by {
                            assert(content@[k] == run.content@[k]);
                            assert(a[start + k] != b[start + k]);
                            assert(b[start + k].style == style);
                        }
                    }
                    if start > 0 && a[start - 1] != b[start - 1] {
                        assert(old_result.len() > 0);
                    }
                    if old_result.len() > 0 {
                        assert(result@[last - 1] == old_result.last());
                    }
                    assert(a[i - 1] != b[i - 1]);
                }
            } else {
                i += 1;
            }
        }
        result
    }
}

} // verus!
