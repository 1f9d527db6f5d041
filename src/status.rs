//! Saving bookkeeping and the status that the status line shows.
use vstd::prelude::*;
use crate::editor::{Editor, Mode};
use crate::moves::Pos;
use crate::text::{decimal, decimal_chars, append_chars, append_str, chars_of, string_from_chars};

verus! {

/// The message after saving `lines` lines and `bytes` bytes to `path`.
pub open spec fn save_message(lines: nat, bytes: nat, path: Seq<char>) -> Seq<char> {
    "Wrote "@ + decimal(lines) + " lines and "@ + decimal(bytes) + " bytes into \""@ + path + "\""@
}

/// What the status line reports of an editor.
pub struct EditorStatus {
    pub cursor_pos: Pos,
    pub curr_buffer: String,
    pub mode: Mode,
    pub bytes: usize,
    pub has_changes: bool,
}

impl EditorStatus {
    pub fn from_editor(editor: &Editor) -> (r: EditorStatus)
        ensures
            r.cursor_pos == editor.cursor_pos,
            r.curr_buffer@ == editor.buffer.path@,
            r.mode == editor.mode,
            r.bytes == editor.buffer.bytes_len,
            r.has_changes == editor.buffer.has_changes,
    {
        EditorStatus {
            cursor_pos: editor.cursor_pos,
            curr_buffer: editor.buffer.path.clone(),
            mode: editor.mode,
            bytes: editor.buffer.bytes_len,
            has_changes: editor.buffer.has_changes,
        }
    }
}

impl Editor {
    /// Records that saving wrote `written` bytes: the byte count becomes what was
    /// written, no change is pending, and the message reports the save.
    pub fn record_save(&mut self, written: usize)
        requires
            old(self).wf(),
        ensures
            final(self).wf(),
            final(self).buffer.bytes_len == written,
            !final(self).buffer.has_changes,
            final(self).message@ == save_message(
                old(self).lines().len(),
                written as nat,
                old(self).buffer.path@,
            ),
            final(self).lines() == old(self).lines(),
            final(self).cursor_pos == old(self).cursor_pos,
            final(self).mode == old(self).mode,
            final(self).curr_selection == old(self).curr_selection,
            final(self).latest_x == old(self).latest_x,
            final(self).clipboard == old(self).clipboard,
    {
        let (bytes, n) = self.buffer.record_write(written);
        let mut m: Vec<char> = Vec::new();
        append_str(&mut m, "Wrote ");
        let d = decimal_chars(n);
        append_chars(&mut m, &d);
        append_str(&mut m, " lines and ");
        let b = decimal_chars(bytes);
        append_chars(&mut m, &b);
        append_str(&mut m, " bytes into \"");
        let p = chars_of(self.buffer.path.as_str());
        append_chars(&mut m, &p);
        append_str(&mut m, "\"");
        self.message = string_from_chars(&m);
        assert(m@ =~= save_message(n as nat, bytes as nat, old(self).buffer.path@));
    }
}

} // verus!
