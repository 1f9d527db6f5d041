//! The status line and the message line.
use vstd::prelude::*;
use crate::draw::{mode_text, name_text, position_text, spaces};
use crate::editor::Editor;
use crate::pane::{Layout, viewport_for, layout_viewport};
use crate::render::{Cell, RenderBuffer, Viewport, write_row, styled, styled_seq, clip_limit};
use crate::status::EditorStatus;
use crate::styles::{default_text_style, mode_style, text_style_of, mode_style_of};
use crate::text::{decimal, decimal_chars, append_chars, append_str, chars_of};

verus! {

/// Ten to the power `k`.
pub open spec fn pow10(k: nat) -> nat
    decreases k,
{
    if k == 0 {
        1
    } else {
        10 * pow10((k - 1) as nat)
    }
}

pub proof fn lemma_decimal_digits(n: nat, k: nat)
    requires
        k >= 1,
        n < pow10(k),
    ensures
        decimal(n).len() <= k,
    decreases k,
{
    if n >= 10 {
        if k == 1 {
            assert(pow10(1) == 10 * pow10(0));
            assert(pow10(0) == 1);
        }
        assert(k >= 2);
        assert(n / 10 < pow10((k - 1) as nat)) by (nonlinear_arith)
            requires
                n < pow10(k),
                pow10(k) == 10 * pow10((k - 1) as nat),
        ;
        lemma_decimal_digits(n / 10, (k - 1) as nat);
    }
}

pub proof fn lemma_usize_digits(n: usize)
    ensures
        decimal(n as nat).len() <= 20,
{
    reveal_with_fuel(pow10, 21);
    assert(pow10(20) == 100000000000000000000);
    lemma_decimal_digits(n as nat, 20);
}

/// Grid `data` (`w` by `h`) with the status line of `e` drawn in `vp`: the mode box at the
/// left, the file name after it, the byte count and position at the right edge.
pub open spec fn gutter_drawn(data: Seq<Cell>, w: int, h: int, vp: Viewport, e: Editor) -> Seq<Cell> {
    let mt = mode_text(e.mode);
    let nt = name_text(e.buffer.path@, e.buffer.has_changes);
    let pt = position_text(e.buffer.bytes_len as nat, e.cursor_pos.0 as nat, e.cursor_pos.1 as nat, w as nat);
    let d1 = write_row(data, w, h, styled_seq(mt, mode_style_of(e.mode)), vp.pos.0 as int, vp.pos.1 as int,
        clip_limit((0, 0), vp));
    let d2 = write_row(d1, w, h, styled_seq(nt, text_style_of(false)), mt.len() + 1 + vp.pos.0, vp.pos.1 as int,
        clip_limit(((mt.len() + 1) as usize, 0), vp));
    let px = if w >= pt.len() { w - pt.len() } else { 0 };
    write_row(d2, w, h, styled_seq(pt, mode_style_of(e.mode)), px + vp.pos.0, vp.pos.1 as int, clip_limit(
        (px as usize, 0),
        vp,
    ))
}

/// Grid `data` (`w` by `h`) with the message of `e` drawn from the left edge of `vp`.
pub open spec fn message_drawn(data: Seq<Cell>, w: int, h: int, vp: Viewport, e: Editor) -> Seq<Cell> {
    write_row(data, w, h, styled_seq(e.message@, text_style_of(false)), vp.pos.0 as int, vp.pos.1 as int,
        clip_limit((0, 0), vp))
}

/// The status line: mode, file name and position.
pub struct Gutter {
    pub gutter_viewport: Viewport,
    pub layout: Layout,
}

impl Gutter {
    pub fn new(gutter_viewport: Viewport, layout: Layout) -> (r: Gutter)
        ensures
            r.gutter_viewport == gutter_viewport,
            r.layout == layout,
    {
        Gutter { gutter_viewport, layout }
    }

    /// Takes the viewport that the layout gives on a `w` by `h` screen.
    pub fn resize(&mut self, w: usize, h: usize)
        ensures
            (final(self).gutter_viewport.pos.0, final(self).gutter_viewport.pos.1,
                final(self).gutter_viewport.width, final(self).gutter_viewport.height)
                == layout_viewport(old(self).layout, w, h),
            final(self).layout == old(self).layout,
    {
        self.gutter_viewport = viewport_for(self.layout, w, h);
    }

    /// The status line shows no cursor.
    pub fn update_cursor(&self) -> (r: (u16, u16))
        ensures
            r == (0u16, 0u16),
    {
        (0, 0)
    }

    /// Draws the mode box at the left, the file name after it, and the byte count and
    /// position at the right edge.
    pub fn draw(&self, buffer: &mut RenderBuffer, editor: &Editor)
        requires
            old(buffer).wf(),
        ensures
            final(buffer).wf(),
            final(buffer).width == old(buffer).width,
            final(buffer).height == old(buffer).height,
            final(buffer).data@ == gutter_drawn(old(buffer).data@, old(buffer).width as int, old(buffer).height as int,
                self.gutter_viewport, *editor),
    {
        let status = EditorStatus::from_editor(editor);
        let mut mode: Vec<char> = Vec::new();
        mode.push(' ');
        let name_str = status.mode.to_string();
        let mode_name = chars_of(name_str.as_str());
        append_chars(&mut mode, &mode_name);
        mode.push(' ');
        proof {
            assert(mode@ =~= mode_text(editor.mode));
        }
        let mut name = chars_of(status.curr_buffer.as_str());
        if status.has_changes {
            append_str(&mut name, " [+]");
        }
        let mut positions = decimal_chars(status.bytes);
        append_str(&mut positions, " B | ");
        let ys = decimal_chars(status.cursor_pos.1);
        append_chars(&mut positions, &ys);
        positions.push(':');
        let xs = decimal_chars(status.cursor_pos.0);
        append_chars(&mut positions, &xs);
        positions.push(' ');
        proof {
            lemma_usize_digits(status.bytes);
            lemma_usize_digits(status.cursor_pos.0);
            lemma_usize_digits(status.cursor_pos.1);
            reveal_strlit(" B | ");
            assert(positions@ =~= decimal(status.bytes as nat) + " B | "@ + decimal(status.cursor_pos.1 as nat)
                + seq![':'] + decimal(status.cursor_pos.0 as nat) + seq![' ']);
            assert(positions@.len() <= 100);
        }
        let pl = positions.len();
        let pad = if pl + 3 >= buffer.width / 20 { pl + 3 } else { buffer.width / 20 };
        let mut position: Vec<char> = Vec::new();
        let mut k: usize = 0;
        while k < pad - pl
            invariant
                k <= pad - pl,
                position@ == spaces(k as nat),
            decreases pad - pl - k,
        {
            position.push(' ');
            k += 1;
            proof {
                assert(position@ =~= spaces(k as nat));
            }
        }
        append_chars(&mut position, &positions);
        let ml = mode.len();
        let mode_cells = styled(&mode, mode_style(&status.mode));
        buffer.put_cells(&mode_cells, (0, 0), &self.gutter_viewport);
        let name_cells = styled(&name, default_text_style(false));
        buffer.put_cells(&name_cells, (ml + 1, 0), &self.gutter_viewport);
        let px = if buffer.width >= position.len() { buffer.width - position.len() } else { 0 };
        let pos_cells = styled(&position, mode_style(&status.mode));
        buffer.put_cells(&pos_cells, (px, 0), &self.gutter_viewport);
    }
}

/// The message line: the editor's last message.
pub struct MessagesComponent {
    pub viewport: Viewport,
    pub layout: Layout,
}

impl MessagesComponent {
    pub fn new(viewport: Viewport, layout: Layout) -> (r: MessagesComponent)
        ensures
            r.viewport == viewport,
            r.layout == layout,
    {
        MessagesComponent { viewport, layout }
    }

    /// Takes the viewport that the layout gives on a `w` by `h` screen.
    pub fn resize(&mut self, w: usize, h: usize)
        ensures
            (final(self).viewport.pos.0, final(self).viewport.pos.1, final(self).viewport.width,
                final(self).viewport.height) == layout_viewport(old(self).layout, w, h),
            final(self).layout == old(self).layout,
    {
        self.viewport = viewport_for(self.layout, w, h);
    }

    /// The message line shows no cursor.
    pub fn update_cursor(&self) -> (r: (u16, u16))
        ensures
            r == (0u16, 0u16),
    {
        (0, 0)
    }

    /// Draws the message from the left edge.
    pub fn draw(&self, buffer: &mut RenderBuffer, editor: &Editor)
        requires
            old(buffer).wf(),
        ensures
            final(buffer).wf(),
            final(buffer).width == old(buffer).width,
            final(buffer).height == old(buffer).height,
            final(buffer).data@ == message_drawn(old(buffer).data@, old(buffer).width as int, old(buffer).height as int,
                self.viewport, *editor),
    {
        buffer.put_str(editor.message.as_str(), (0, 0), default_text_style(false), &self.viewport);
    }
}

} // verus!
