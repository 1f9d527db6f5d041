//! One editor session: the editor, its components and the two frames it renders between.
use vstd::prelude::*;
use crate::components::{Gutter, MessagesComponent, gutter_drawn, message_drawn};
use crate::draw::{pane_shows, cursor_view, coord, scrolled_top, scrolled_side};
use crate::editor::{Editor, Mode};
use crate::keys::{Effect, InputEvent};
use crate::pane::{EditorBuffer, Layout, viewport_for, layout_viewport, insert_key_ok, normal_key_ok};
use crate::render::{BufferDiff, Cell, RenderBuffer, diff_ok, plain_cell};
use crate::styles::{background, black};
use crate::text::decimal;

verus! {

/// `data` (`w` by `h`) is the frame drawn for session `c`: the pane's lines (with `left`
/// columns of line numbers), then the status line and the message line over them.
pub open spec fn frame_drawn(data: Seq<Cell>, w: int, h: int, c: Client, left: nat) -> bool {
    exists|d: Seq<Cell>|
        pane_shows(d, w, h, c.pane.viewport, c.pane.top_index as nat, c.pane.side_scroll as nat, left, c.editor)
            && data == message_drawn(gutter_drawn(d, w, h, c.gutter.gutter_viewport, c.editor), w, h,
            c.messages.viewport, c.editor)
}

/// Where session `c` puts the terminal cursor: the pane's origin plus where the cursor
/// shows inside the pane.
pub open spec fn screen_cursor(c: Client) -> (u16, u16) {
    let r = cursor_view(c.pane, c.editor);
    (coord(c.pane.viewport.pos.0 + r.0), coord(c.pane.viewport.pos.1 + r.1))
}

/// The editor with its pane, status line and message line, and the frame on screen
/// and the one being drawn.
pub struct Client {
    pub curr_buffer: RenderBuffer,
    pub next_buffer: RenderBuffer,
    pub cursor_pos: (u16, u16),
    pub editor: Editor,
    pub pane: EditorBuffer,
    pub gutter: Gutter,
    pub messages: MessagesComponent,
}

impl Client {
    pub open spec fn wf(&self) -> bool {
        &&& self.curr_buffer.wf()
        &&& self.next_buffer.wf()
        &&& self.curr_buffer.width == self.next_buffer.width
        &&& self.curr_buffer.height == self.next_buffer.height
        &&& self.editor.wf()
        &&& self.pane.wf()
    }

    /// A session on an empty document for a `w` by `h` screen.
    pub fn new(w: usize, h: usize) -> (r: Client)
        requires
            w * h <= usize::MAX,
        ensures
            r.wf(),
            r.curr_buffer.width == w,
            r.curr_buffer.height == h,
            r.cursor_pos == (0u16, 0u16),
    {
        Client {
            curr_buffer: RenderBuffer::new(w, h),
            next_buffer: RenderBuffer::new(w, h),
            cursor_pos: (0, 0),
            editor: Editor::new(),
            pane: EditorBuffer::new(viewport_for(Layout::EditArea, w, h), Layout::EditArea),
            gutter: Gutter::new(viewport_for(Layout::StatusLine, w, h), Layout::StatusLine),
            messages: MessagesComponent::new(viewport_for(Layout::MessageLine, w, h), Layout::MessageLine),
        }
    }

    /// Starts over with blank frames of the new size and lays the components out again.
    pub fn resize(&mut self, w: usize, h: usize)
        requires
            old(self).wf(),
            w * h <= usize::MAX,
        ensures
            final(self).wf(),
            final(self).curr_buffer.width == w,
            final(self).curr_buffer.height == h,
            final(self).next_buffer.width == w,
            final(self).next_buffer.height == h,
            final(self).cursor_pos == (0u16, 0u16),
            final(self).editor == old(self).editor,
            (final(self).pane.viewport.pos.0, final(self).pane.viewport.pos.1, final(self).pane.viewport.width,
                final(self).pane.viewport.height) == layout_viewport(old(self).pane.layout, w, h),
    {
        self.next_buffer = RenderBuffer::new(w, h);
        self.curr_buffer = RenderBuffer::new(w, h);
        self.cursor_pos = (0, 0);
        self.pane.resize(w, h);
        self.gutter.resize(w, h);
        self.messages.resize(w, h);
    }

    /// Handles one event; returns what the terminal and the disk should do. A resize
    /// starts frames of the new size; a key goes to the pane by the editor's mode.
    pub fn handle_events(&mut self, event: InputEvent) -> (r: Vec<Effect>)
        requires
            old(self).wf(),
            event matches InputEvent::Resize(w, h) ==> w * h <= usize::MAX,
        ensures
            final(self).wf(),
            match event {
                InputEvent::Resize(w, h) => {
                    &&& final(self).curr_buffer.width == w
                    &&& final(self).curr_buffer.height == h
                    &&& final(self).next_buffer.width == w
                    &&& final(self).next_buffer.height == h
                    &&& final(self).editor == old(self).editor
                    &&& (final(self).pane.viewport.pos.0, final(self).pane.viewport.pos.1, final(self).pane.viewport.width,
                        final(self).pane.viewport.height) == layout_viewport(old(self).pane.layout, w, h)
                    &&& r@ == Seq::<Effect>::empty()
                },
                InputEvent::Key(ev) => if old(self).editor.mode == Mode::Insert {
                    insert_key_ok(ev, old(self).editor, final(self).editor, old(self).pane, final(self).pane, Seq::empty(), r@)
                } else {
                    normal_key_ok(ev, old(self).editor, final(self).editor, old(self).pane, final(self).pane, Seq::empty(), r@)
                },
                InputEvent::Other => *final(self) == *old(self) && r@ == Seq::<Effect>::empty(),
            },
    {
        match event {
            InputEvent::Resize(w, h) => {
                self.resize(w, h);
                Vec::new()
            },
            _ => self.pane.handle_events(&mut self.editor, event),
        }
    }

    /// Draws every component into the next frame, scrolls the pane to the cursor and
    /// places the terminal cursor.
    pub fn update_components(&mut self)
        requires
            old(self).wf(),
        ensures
            final(self).wf(),
            final(self).editor == old(self).editor,
            final(self).curr_buffer == old(self).curr_buffer,
            final(self).next_buffer.width == old(self).next_buffer.width,
            final(self).next_buffer.height == old(self).next_buffer.height,
            final(self).pane.left_offset == decimal(old(self).editor.lines().len() as nat).len() + 3,
            frame_drawn(final(self).next_buffer.data@, old(self).next_buffer.width as int,
                old(self).next_buffer.height as int, *old(self), final(self).pane.left_offset as nat),
            final(self).pane.top_index == scrolled_top(old(self).pane.top_index as nat,
                old(self).editor.cursor_pos.1 as nat, old(self).pane.viewport.height as nat),
            final(self).pane.side_scroll == scrolled_side(old(self).pane.side_scroll as nat,
                old(self).editor.cursor_pos.0 as nat, old(self).pane.viewport.width as nat,
                final(self).pane.left_offset as nat),
            final(self).cursor_pos == screen_cursor(*final(self)),
    {
        self.pane.draw(&mut self.next_buffer, &mut self.editor);
        let ghost d = self.next_buffer.data@;
        self.gutter.draw(&mut self.next_buffer, &self.editor);
        self.messages.draw(&mut self.next_buffer, &self.editor);
        proof {
            let w = old(self).next_buffer.width as int;
            let h = old(self).next_buffer.height as int;
            assert(self.next_buffer.data@ == message_drawn(gutter_drawn(d, w, h, self.gutter.gutter_viewport,
                self.editor), w, h, self.messages.viewport, self.editor));
        }
        let (vx, vy) = self.pane.viewport.pos;
        let (x, y) = self.pane.update_cursor(&self.editor);
        let cx = if vx <= 0xffff && vx as u16 <= 0xffff - x { vx as u16 + x } else { 0xffff };
        let cy = if vy <= 0xffff && vy as u16 <= 0xffff - y { vy as u16 + y } else { 0xffff };
        self.cursor_pos = (cx, cy);
    }

    /// The runs that change the screen from the frame on it to the one drawn; the drawn
    /// frame goes on screen and a blank one is started.
    pub fn render_to_screen(&mut self) -> (r: Vec<BufferDiff>)
        requires
            old(self).wf(),
        ensures
            final(self).wf(),
            diff_ok(old(self).curr_buffer.data@, old(self).next_buffer.data@, old(self).curr_buffer.width as int, r@),
            final(self).curr_buffer == old(self).next_buffer,
            final(self).editor == old(self).editor,
            final(self).pane == old(self).pane,
            final(self).cursor_pos == old(self).cursor_pos,
            final(self).next_buffer.width == old(self).curr_buffer.width,
            forall|k: int| 0 <= k < final(self).next_buffer.data@.len() ==> #[trigger] final(self).next_buffer.data@[k]
                == plain_cell(' ', black(), black()),
    {
        let diff = self.curr_buffer.diff(&self.next_buffer);
        std::mem::swap(&mut self.next_buffer, &mut self.curr_buffer);
        self.next_buffer.clear_buffer(background());
        diff
    }

    /// One frame: draw everything, then return the runs that turn the frame on screen
    /// into the new one, which is then on screen.
    pub fn update(&mut self) -> (r: Vec<BufferDiff>)
        requires
            old(self).wf(),
        ensures
            final(self).wf(),
            diff_ok(old(self).curr_buffer.data@, final(self).curr_buffer.data@, old(self).curr_buffer.width as int, r@),
            final(self).editor == old(self).editor,
            frame_drawn(final(self).curr_buffer.data@, old(self).curr_buffer.width as int,
                old(self).curr_buffer.height as int, *old(self), final(self).pane.left_offset as nat),
            final(self).cursor_pos == screen_cursor(*final(self)),
            forall|k: int| 0 <= k < final(self).next_buffer.data@.len() ==> #[trigger] final(self).next_buffer.data@[k]
                == plain_cell(' ', black(), black()),
    {
        self.update_components();
        self.render_to_screen()
    }
}

} // verus!
