use modal_editor::client::Client;
use modal_editor::editor::{DefaultClipboard, Editor, Mode};
use modal_editor::line::Line;
use modal_editor::moves::MoveInfo;
use modal_editor::pane::{resize_viewport, EditorBuffer, Layout};
use modal_editor::render::{Cell, Color, RenderBuffer, Viewport};
use modal_editor::status::EditorStatus;
use modal_editor::styles::{default_text_style, highlighted_text};
use modal_editor::text::{is_seperator, TextBuffer};

fn editor_with(text: &str) -> Editor {
    let chars: Vec<char> = text.chars().collect();
    Editor::with_buffer(TextBuffer::from_text("test.txt", &chars))
}

fn lines(e: &Editor) -> Vec<String> {
    e.buffer.lines.iter().map(|l| l.iter().collect()).collect()
}

fn chars(s: &str) -> Vec<char> {
    s.chars().collect()
}

#[test]
fn put_char_then_backspace_restores() {
    let mut e = editor_with("abc");
    e.switch_mode(Mode::Insert);
    e.cursor_pos = (2, 0);
    e.put_char('z');
    assert_eq!(lines(&e), vec!["abzc".to_string()]);
    assert_eq!(e.cursor_pos, (3, 0));
    e.pop_backspace();
    assert_eq!(lines(&e), vec!["abc".to_string()]);
    assert_eq!(e.cursor_pos, (2, 0));
}

#[test]
fn ordering_twice_is_ordering_once() {
    let m = MoveInfo { start_pos: (5, 2), end_pos: (1, 0) };
    let o = m.get_ordered();
    assert_eq!(o, MoveInfo { start_pos: (1, 0), end_pos: (5, 2) });
    assert_eq!(o.get_ordered(), o);
    assert!(m.is_backwards());
    assert!(!o.is_backwards());
    let same = MoveInfo { start_pos: (3, 3), end_pos: (3, 3) };
    assert_eq!(same.get_ordered().get_ordered(), same.get_ordered());
}

#[test]
fn copy_then_paste_at_line_end() {
    let mut e = editor_with("hello world");
    let copied = e.copy(MoveInfo { start_pos: (0, 0), end_pos: (5, 0) });
    assert_eq!(copied, MoveInfo { start_pos: (0, 0), end_pos: (5, 0) });
    assert_eq!(e.clipboard.get_contents(), chars("hello"));
    e.move_to_end();
    assert_eq!(e.cursor_pos, (10, 0));
    e.paste();
    assert_eq!(lines(&e), vec!["hello worldhello".to_string()]);
    assert_eq!(e.cursor_pos, (15, 0));
}

#[test]
fn diff_of_equal_frames_is_empty() {
    let a = RenderBuffer::new(4, 2);
    let b = RenderBuffer::new(4, 2);
    assert!(a.diff(&b).is_empty());
}

#[test]
fn diff_runs_rebuild_the_new_frame() {
    let a = RenderBuffer::new(4, 2);
    let mut b = RenderBuffer::new(4, 2);
    let vp = Viewport { pos: (0, 0), width: 4, height: 2 };
    b.put_str("ab", (1, 0), default_text_style(false), &vp);
    b.put_str("c", (3, 0), highlighted_text(), &vp);
    b.put_str("d", (0, 1), highlighted_text(), &vp);
    let runs = a.diff(&b);
    assert_eq!(runs.len(), 2);
    assert_eq!(runs[0].content, "ab");
    assert_eq!(runs[0].pos, (1, 0));
    assert_eq!(runs[1].content, "cd");
    assert_eq!(runs[1].pos, (3, 0));
    let mut c = RenderBuffer::new(4, 2);
    for run in &runs {
        let start = run.pos.1 * 4 + run.pos.0;
        for (k, ch) in run.content.chars().enumerate() {
            c.data[start + k] = Cell::with_style(ch, run.style);
        }
    }
    assert!(c.data == b.data);
}

#[test]
fn tab_stop_spans_whole_stop() {
    for k in 0..50usize {
        assert_eq!(Editor::get_spaces_till_next_tab(k * 2, 2), 2);
    }
    assert_eq!(Editor::get_spaces_till_next_tab(3, 2), 1);
    assert_eq!(Editor::get_spaces_till_next_tab(5, 4), 3);
}

#[test]
fn backspace_at_origin_is_noop() {
    let mut e = editor_with("abc\ndef");
    e.switch_mode(Mode::Insert);
    e.pop_backspace();
    assert_eq!(lines(&e), vec!["abc".to_string(), "def".to_string()]);
    assert_eq!(e.cursor_pos, (0, 0));
    assert!(!e.buffer.has_changes);
}

#[test]
fn move_down_clamps_and_keeps_column() {
    let mut e = editor_with("abcdef\nab\nabcdef");
    e.move_cursor_right(4);
    assert_eq!(e.latest_x, Some(4));
    let m = e.move_cursor_down(10);
    assert_eq!(e.cursor_pos, (4, 2));
    assert_eq!(e.latest_x, Some(4));
    assert_eq!(m, MoveInfo { start_pos: (4, 0), end_pos: (4, 2) });
    e.move_cursor_up(1);
    assert_eq!(e.cursor_pos, (1, 1));
    assert_eq!(e.latest_x, Some(4));
    e.move_cursor_up(1);
    assert_eq!(e.cursor_pos, (4, 0));
}

#[test]
fn vertical_motion_counts_tab_width() {
    let mut e = editor_with("\tb\nabcd");
    e.cursor_pos = (1, 0);
    e.latest_x = Some(1);
    e.move_cursor_down(1);
    assert_eq!(e.cursor_pos, (1, 1));
    assert_eq!(e.next_line_cursor_index(1, 1, 0), 2);
}

#[test]
fn deleting_every_line_leaves_one_empty() {
    let mut e = editor_with("a\nb\nc");
    e.delete_lines(MoveInfo { start_pos: (0, 2), end_pos: (0, 0) });
    assert_eq!(lines(&e), vec![String::new()]);
    assert_eq!(e.cursor_pos, (0, 0));
    assert!(e.buffer.has_changes);
}

#[test]
fn line_paste_goes_below_current_line() {
    let mut e = editor_with("first\nsecond");
    e.cursor_pos = (3, 0);
    let mut clip = DefaultClipboard::new();
    clip.set_contents(&chars("x\ny\n"));
    e.clipboard = clip;
    e.paste();
    assert_eq!(
        lines(&e),
        vec!["first".to_string(), "x".to_string(), "y".to_string(), "second".to_string()]
    );
    assert_eq!(e.cursor_pos.1, 1);
}

#[test]
fn invariants_hold_after_edits() {
    let mut e = editor_with("ab");
    e.pop_char();
    e.pop_char();
    assert_eq!(lines(&e), vec![String::new()]);
    e.pop_char();
    assert_eq!(e.buffer.lines.len(), 1);
    assert_eq!(e.cursor_pos, (0, 0));
    e.switch_mode(Mode::Visual);
    assert!(e.curr_selection.is_some());
    e.switch_mode(Mode::Normal);
    assert!(e.curr_selection.is_none());
}

#[test]
fn saving_records_bytes_and_message() {
    let mut e = editor_with("héllo\nab");
    assert_eq!(e.buffer.bytes_len, 9);
    assert_eq!(e.buffer.count_bytes(), 9);
    assert_eq!(e.buffer.contents(), chars("héllo\nab"));
    e.put_char('x');
    assert!(e.buffer.has_changes);
    e.record_save(10);
    assert_eq!(e.buffer.bytes_len, 10);
    assert!(!e.buffer.has_changes);
    assert_eq!(e.message, "Wrote 2 lines and 10 bytes into \"test.txt\"");
}

#[test]
fn loading_trims_trailing_white_space() {
    let t = TextBuffer::from_text("f", &chars("ab  \ncd\t\n\u{3000}"));
    let got: Vec<String> = t.lines.iter().map(|l| l.iter().collect()).collect();
    assert_eq!(got, vec!["ab".to_string(), "cd".to_string(), String::new()]);
    assert_eq!(t.bytes_len, 6);
    let empty = TextBuffer::new("g");
    assert_eq!(empty.lines.len(), 1);
    assert_eq!(empty.bytes_len, 0);
}

#[test]
fn separators() {
    assert!(!is_seperator('a'));
    assert!(!is_seperator('7'));
    assert!(!is_seperator('é'));
    assert!(is_seperator(' '));
    assert!(is_seperator('.'));
    assert!(is_seperator('\t'));
}

#[test]
fn word_motions() {
    let mut e = editor_with("foo bar.baz\n  qux");
    e.move_word(1);
    assert_eq!(e.cursor_pos, (4, 0));
    e.move_word(1);
    assert_eq!(e.cursor_pos, (8, 0));
    e.move_word(1);
    assert_eq!(e.cursor_pos, (2, 1));
    e.move_word(5);
    assert_eq!(e.cursor_pos, (4, 1));
    e.move_end_word_backwards(1);
    assert_eq!(e.cursor_pos, (2, 1));
    e.move_end_word_backwards(1);
    assert_eq!(e.cursor_pos, (0, 1));
    e.move_end_word_backwards(1);
    assert_eq!(e.cursor_pos, (8, 0));
    e.cursor_pos = (0, 0);
    e.move_end_word(2);
    assert_eq!(e.cursor_pos, (6, 0));
}

#[test]
fn delete_selection_over_lines() {
    let mut e = editor_with("abc\nmid\ndef");
    e.delete_selection(MoveInfo { start_pos: (1, 2), end_pos: (1, 0) });
    assert_eq!(lines(&e), vec!["af".to_string()]);
    assert_eq!(e.cursor_pos, (1, 0));
    let mut f = editor_with("abc\nx");
    f.delete_selection(MoveInfo { start_pos: (0, 0), end_pos: (2, 0) });
    assert_eq!(lines(&f), vec!["x".to_string()]);
}

#[test]
fn clipboard_round_trip() {
    let mut c = DefaultClipboard::new();
    assert!(c.get_contents().is_empty());
    c.set_contents(&chars("a\n\nb"));
    assert_eq!(c.data.len(), 3);
    assert_eq!(c.get_contents(), chars("a\n\nb"));
}

#[test]
fn mode_names() {
    assert_eq!(Mode::Normal.to_string(), "NORMAL");
    assert_eq!(Mode::Insert.to_string(), "INSERT");
    assert_eq!(Mode::Visual.to_string(), "VISUAL");
}

#[test]
fn line_spans() {
    let spans = Line::compute_lines("ab\n\ncde");
    let got: Vec<(usize, usize, usize)> = spans.iter().map(|l| (l.start, l.end, l.size)).collect();
    assert_eq!(got, vec![(0, 2, 3), (3, 3, 1), (4, 7, 4)]);
    let l = Line::new(2, 5);
    assert_eq!(l.size, 4);
}

#[test]
fn status_reports_editor() {
    let mut e = editor_with("abc");
    e.cursor_pos = (2, 0);
    let s = EditorStatus::from_editor(&e);
    assert_eq!(s.cursor_pos, (2, 0));
    assert_eq!(s.curr_buffer, "test.txt");
    assert_eq!(s.mode, Mode::Normal);
    assert_eq!(s.bytes, 3);
    assert!(!s.has_changes);
    assert_eq!(e.character_at_cursor(), 'c');
}

#[test]
fn writes_clip_to_viewport_and_grid() {
    let mut b = RenderBuffer::new(5, 2);
    let vp = Viewport { pos: (1, 1), width: 2, height: 1 };
    b.put_str("xyz", (0, 0), default_text_style(false), &vp);
    let row: String = b.data[5..10].iter().map(|c| c.character).collect();
    assert_eq!(row, " xy  ");
    b.put_cell(Cell::new('q', Color::Red, Color::Blue), (9, 9));
    b.put_cell(Cell::new('q', Color::Red, Color::Blue), (4, 0));
    assert_eq!(b.data[4].character, 'q');
    b.clear_buffer(Color::Black);
    assert!(b.data.iter().all(|c| *c == Cell::new(' ', Color::Black, Color::Black)));
    let r = resize_viewport(&vp, 7, 3);
    assert_eq!((r.pos, r.width, r.height), ((1, 1), 7, 3));
}

#[test]
fn pane_expands_tabs_and_scrolls() {
    let e = editor_with("a\tb\n\n");
    let mut p = EditorBuffer::new(Viewport { pos: (0, 0), width: 20, height: 10 }, Layout::EditArea);
    let cells = p.line_cells(&e, 0);
    let shown: String = cells.iter().map(|c| c.character).collect();
    assert_eq!(shown, "a b");
    let blank: String = p.line_cells(&e, 1).iter().map(|c| c.character).collect();
    assert_eq!(blank, " ");
    let (x, y) = p.update_cursor(&e);
    assert_eq!((x, y), (3, 0));
    assert!(EditorBuffer::is_in_selection(1, 0, &MoveInfo { start_pos: (0, 0), end_pos: (2, 0) }));
    assert!(!EditorBuffer::is_in_selection(3, 0, &MoveInfo { start_pos: (0, 0), end_pos: (2, 0) }));
}

#[test]
fn client_frame_shows_status() {
    let mut c = Client::new(60, 4);
    let runs = c.update();
    assert!(!runs.is_empty());
    let status: String = c.curr_buffer.data[120..180].iter().map(|cell| cell.character).collect();
    assert!(status.starts_with(" NORMAL  default.txt"));
    assert!(status.contains("0 B | 0:0"));
    assert_eq!(c.cursor_pos, (4, 0));
}

#[test]
fn client_frame_shows_numbered_lines() {
    let mut c = Client::new(40, 5);
    c.editor = editor_with("ab\tc\nx");
    c.editor.cursor_pos = (3, 0);
    let runs = c.update();
    assert!(!runs.is_empty());
    let row0: String = c.curr_buffer.data[0..12].iter().map(|cell| cell.character).collect();
    assert_eq!(row0, "1 \u{2502} ab  c   ");
    let row1: String = c.curr_buffer.data[40..46].iter().map(|cell| cell.character).collect();
    assert_eq!(row1, "2 \u{2502} x ");
    assert_eq!(c.cursor_pos, (8, 0));
    c.update();
    assert!(c.update().is_empty());
}

#[test]
fn equal_ends_are_not_backwards() {
    let m = MoveInfo { start_pos: (2, 0), end_pos: (2, 0) };
    assert!(!m.is_backwards());
    assert_eq!(m.get_ordered(), m);
}

#[test]
fn writes_stop_at_viewport_edges() {
    let mut b = RenderBuffer::new(6, 2);
    let vp = Viewport { pos: (0, 0), width: 3, height: 1 };
    b.put_str("abc", (2, 0), default_text_style(false), &vp);
    let row: String = b.data[0..6].iter().map(|c| c.character).collect();
    assert_eq!(row, "  a   ");
    b.put_str("zz", (0, 1), default_text_style(false), &vp);
    let below: String = b.data[6..12].iter().map(|c| c.character).collect();
    assert_eq!(below, "      ");
}

#[test]
fn visual_mode_anchors_at_cursor() {
    let mut e = editor_with("abc");
    e.cursor_pos = (1, 0);
    e.switch_mode(Mode::Visual);
    assert_eq!(e.cursor_pos, (1, 0));
    assert_eq!(e.curr_selection, Some(((1, 0), MoveInfo { start_pos: (1, 0), end_pos: (1, 0) })));
}

#[test]
fn whitespace_matches_std() {
    for u in 0u32..0x4000 {
        if let Some(c) = char::from_u32(u) {
            assert_eq!(modal_editor::text::char_is_whitespace(c), c.is_whitespace());
        }
    }
}
