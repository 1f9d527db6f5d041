use modal_editor::editor::{Editor, Mode};
use modal_editor::keys::{InputEvent, KeyCode, KeyEvent, Modifiers};
use modal_editor::moves::MoveInfo;
use modal_editor::pane::{EditorBuffer, Layout};
use modal_editor::render::Viewport;
use modal_editor::text::TextBuffer;

fn press(code: KeyCode, modifiers: Modifiers) -> InputEvent {
    InputEvent::Key(KeyEvent { code, modifiers, press: true })
}

fn ch(c: char) -> InputEvent {
    press(KeyCode::Char(c), Modifiers::Plain)
}

fn pane() -> EditorBuffer {
    EditorBuffer::new(Viewport { pos: (0, 0), width: 80, height: 22 }, Layout::EditArea)
}

fn editor_with(text: &str) -> Editor {
    let chars: Vec<char> = text.chars().collect();
    Editor::with_buffer(TextBuffer::from_text("test.txt", &chars))
}

fn lines(e: &Editor) -> Vec<String> {
    e.buffer.lines.iter().map(|l| l.iter().collect()).collect()
}

fn clipboard(e: &Editor) -> String {
    e.clipboard.get_contents().iter().collect()
}

#[test]
fn typing_hello_then_escape() {
    let mut e = Editor::new();
    let mut p = pane();
    for c in "ihello".chars() {
        p.handle_events(&mut e, ch(c));
    }
    p.handle_events(&mut e, press(KeyCode::Esc, Modifiers::Plain));
    assert_eq!(lines(&e), vec!["hello".to_string()]);
    assert_eq!(e.cursor_pos, (4, 0));
    assert_eq!(e.mode, Mode::Normal);
}

#[test]
fn down_then_up_keeps_column() {
    let mut e = editor_with("abc\ndef");
    e.cursor_pos = (1, 0);
    let mut p = pane();
    p.handle_events(&mut e, ch('j'));
    assert_eq!(e.cursor_pos, (1, 1));
    p.handle_events(&mut e, ch('k'));
    assert_eq!(e.cursor_pos, (1, 0));
}

#[test]
fn delete_word() {
    let mut e = editor_with("hello world");
    let mut p = pane();
    p.handle_events(&mut e, ch('d'));
    p.handle_events(&mut e, ch('w'));
    assert_eq!(lines(&e), vec!["world".to_string()]);
    assert_eq!(e.cursor_pos, (0, 0));
}

#[test]
fn delete_two_lines_with_count() {
    let mut e = editor_with("abc\ndef\nghi");
    let mut p = pane();
    for c in "2dd".chars() {
        p.handle_events(&mut e, ch(c));
    }
    assert_eq!(lines(&e), vec!["ghi".to_string()]);
    assert_eq!(e.cursor_pos, (0, 0));
}

#[test]
fn visual_yank() {
    let mut e = editor_with("hello");
    let mut p = pane();
    for c in "vllly".chars() {
        p.handle_events(&mut e, ch(c));
    }
    assert_eq!(clipboard(&e), "hell");
    assert_eq!(e.mode, Mode::Normal);
    assert!(e.curr_selection.is_none());
    assert_eq!(p.highlighted_selection, Some(MoveInfo { start_pos: (0, 0), end_pos: (3, 0) }));
}

#[test]
fn find_without_match() {
    let mut e = editor_with("abc");
    e.cursor_pos = (2, 0);
    let mut p = pane();
    p.handle_events(&mut e, ch('f'));
    assert!(p.waiting_input.is_some());
    p.handle_events(&mut e, ch('z'));
    assert_eq!(e.cursor_pos, (2, 0));
    assert!(p.waiting_input.is_none());
    assert!(p.waiting_action.is_none());
    assert!(p.repeater.is_none());
}

#[test]
fn find_and_until_land_on_and_before() {
    let mut e = editor_with("a,b,c");
    let mut p = pane();
    p.handle_events(&mut e, ch('f'));
    p.handle_events(&mut e, ch(','));
    assert_eq!(e.cursor_pos, (1, 0));
    e.cursor_pos = (0, 0);
    p.handle_events(&mut e, ch('2'));
    p.handle_events(&mut e, ch('t'));
    p.handle_events(&mut e, ch(','));
    assert_eq!(e.cursor_pos, (2, 0));
}

#[test]
fn count_digits_accumulate() {
    let mut e = editor_with("abc");
    let mut p = pane();
    p.handle_events(&mut e, ch('1'));
    p.handle_events(&mut e, ch('2'));
    assert_eq!(p.repeater, Some(12));
    p.handle_events(&mut e, ch('#'));
    assert_eq!(p.repeater, None);
}

#[test]
fn escape_cancels_operator() {
    let mut e = editor_with("abc def");
    let mut p = pane();
    p.handle_events(&mut e, ch('3'));
    p.handle_events(&mut e, ch('d'));
    assert!(p.waiting_action.is_some());
    assert!(p.repeater.is_none());
    p.handle_events(&mut e, press(KeyCode::Esc, Modifiers::Plain));
    assert!(p.waiting_action.is_none());
    assert_eq!(lines(&e), vec!["abc def".to_string()]);
}

#[test]
fn yank_line_and_paste_below() {
    let mut e = editor_with("one\ntwo");
    let mut p = pane();
    p.handle_events(&mut e, ch('y'));
    p.handle_events(&mut e, ch('y'));
    assert_eq!(clipboard(&e), "one\n");
    p.handle_events(&mut e, ch('p'));
    assert_eq!(lines(&e), vec!["one".to_string(), "one".to_string(), "two".to_string()]);
    assert_eq!(e.cursor_pos.1, 1);
}

#[test]
fn change_word_enters_insert() {
    let mut e = editor_with("foo bar");
    let mut p = pane();
    p.handle_events(&mut e, ch('c'));
    p.handle_events(&mut e, ch('w'));
    assert_eq!(e.mode, Mode::Insert);
    assert_eq!(lines(&e), vec!["bar".to_string()]);
    p.handle_events(&mut e, ch('x'));
    assert_eq!(lines(&e), vec!["xbar".to_string()]);
}

#[test]
fn insert_enter_and_backspace() {
    let mut e = editor_with("abcd");
    e.cursor_pos = (2, 0);
    let mut p = pane();
    p.handle_events(&mut e, ch('i'));
    p.handle_events(&mut e, press(KeyCode::Enter, Modifiers::Plain));
    assert_eq!(lines(&e), vec!["ab".to_string(), "cd".to_string()]);
    assert_eq!(e.cursor_pos, (0, 1));
    p.handle_events(&mut e, press(KeyCode::Backspace, Modifiers::Plain));
    assert_eq!(lines(&e), vec!["abcd".to_string()]);
    assert_eq!(e.cursor_pos, (2, 0));
}

#[test]
fn visual_delete_across_lines() {
    let mut e = editor_with("abc\ndef");
    e.cursor_pos = (1, 0);
    let mut p = pane();
    p.handle_events(&mut e, ch('v'));
    p.handle_events(&mut e, ch('j'));
    p.handle_events(&mut e, ch('d'));
    assert_eq!(lines(&e), vec!["af".to_string()]);
    assert_eq!(e.mode, Mode::Normal);
    assert_eq!(e.cursor_pos, (1, 0));
}

#[test]
fn save_key_asks_for_save() {
    let mut e = editor_with("abc");
    let mut p = pane();
    let effects = p.handle_events(&mut e, press(KeyCode::Char('s'), Modifiers::Control));
    assert_eq!(effects, vec![modal_editor::keys::Effect::Save]);
}

#[test]
fn count_before_doubled_yank_copies_lines() {
    let mut e = editor_with("one\ntwo\nthree");
    let mut p = pane();
    for c in "2yy".chars() {
        p.handle_events(&mut e, ch(c));
    }
    assert_eq!(clipboard(&e), "one\ntwo\n");
    assert_eq!(p.highlighted_selection, Some(MoveInfo { start_pos: (0, 0), end_pos: (3, 1) }));
}

#[test]
fn count_after_operator_counts_motion() {
    let mut e = editor_with("aa bb cc");
    let mut p = pane();
    for c in "d2w".chars() {
        p.handle_events(&mut e, ch(c));
    }
    assert_eq!(lines(&e), vec!["cc".to_string()]);
    assert!(p.repeater.is_none());
    assert!(p.waiting_action.is_none());
}
