use perseus::buffer::{Buffer, Motion};
use perseus::vim::{Operator, Scroll, Transition, Vim, VimMode};
use tui_textarea::{Input, Key};

fn key(c: char) -> Input {
    Input { key: Key::Char(c), ctrl: false, alt: false, shift: false }
}

fn ctrl(c: char) -> Input {
    Input { key: Key::Char(c), ctrl: true, alt: false, shift: false }
}

fn special(k: Key) -> Input {
    Input { key: k, ctrl: false, alt: false, shift: false }
}

fn buffer(lines: &[&str]) -> Buffer {
    Buffer::new(lines.iter().map(|l| l.to_string()).collect())
}

fn lines(b: &Buffer) -> Vec<String> {
    b.lines()
}

/// Feeds the keys as the host loop does and returns the engine at the end.
fn feed(mut vim: Vim, b: &mut Buffer, keys: &[Input], single_line: bool) -> Vim {
    for k in keys {
        let t = vim.transition(k.clone(), b, single_line);
        vim = vim.apply_transition(t);
    }
    vim
}

#[test]
fn escape_in_normal_exits_the_field() {
    for content in [vec![""], vec!["abc"], vec!["a", "b", "c"]] {
        let mut b = buffer(&content);
        let before = lines(&b);
        let vim = Vim::new(VimMode::Normal);
        let t = vim.transition(special(Key::Esc), &mut b, false);
        assert_eq!(t, Transition::ExitField);
        assert_eq!(lines(&b), before);
        assert_eq!(b.cursor(), (0, 0));
    }
}

#[test]
fn escape_in_visual_and_operator_cancels() {
    let mut b = buffer(&["abc"]);
    let vim = feed(Vim::new(VimMode::Normal), &mut b, &[key('v'), key('l')], false);
    assert_eq!(vim.mode, VimMode::Visual);
    assert!(b.is_selecting());
    let t = vim.transition(special(Key::Esc), &mut b, false);
    assert_eq!(t, Transition::Mode(VimMode::Normal));
    assert!(!b.is_selecting());

    let vim = feed(Vim::new(VimMode::Normal), &mut b, &[key('d')], false);
    assert_eq!(vim.mode, VimMode::Operator(Operator::Delete));
    let t = vim.transition(special(Key::Esc), &mut b, false);
    assert_eq!(t, Transition::Mode(VimMode::Normal));
    assert!(!b.is_selecting());
    assert_eq!(lines(&b), vec!["abc"]);
}

#[test]
fn null_key_is_ignored() {
    let mut b = buffer(&["abc"]);
    for mode in [VimMode::Normal, VimMode::Insert, VimMode::Visual] {
        let t = Vim::new(mode).transition(special(Key::Null), &mut b, false);
        assert_eq!(t, Transition::Nop);
    }
    assert_eq!(lines(&b), vec!["abc"]);
}

#[test]
fn scenario_word_motion() {
    let mut b = buffer(&["hello world"]);
    let vim = Vim::new(VimMode::Normal);
    let t = vim.transition(key('w'), &mut b, false);
    assert_eq!(t, Transition::Nop);
    assert_eq!(b.cursor(), (0, 6));
}

#[test]
fn scenario_delete_word() {
    let mut b = buffer(&["hello world"]);
    let vim = Vim::new(VimMode::Normal);
    let t = vim.transition(key('d'), &mut b, false);
    assert_eq!(t, Transition::Mode(VimMode::Operator(Operator::Delete)));
    let vim = vim.apply_transition(t);
    let t = vim.transition(key('w'), &mut b, false);
    assert_eq!(t, Transition::Mode(VimMode::Normal));
    let vim = vim.apply_transition(t);
    assert_eq!(vim.mode, VimMode::Normal);
    assert_eq!(lines(&b), vec!["world"]);
    assert_eq!(b.cursor(), (0, 0));
    assert_eq!(b.yank_text(), "hello ");
}

#[test]
fn scenario_visual_yank_four_characters() {
    let mut b = buffer(&["hello world"]);
    let vim = feed(
        Vim::new(VimMode::Normal),
        &mut b,
        &[key('v'), key('l'), key('l'), key('l'), key('y')],
        false,
    );
    assert_eq!(vim.mode, VimMode::Normal);
    assert_eq!(b.yank_text(), "hell");
    assert_eq!(b.yank_text().chars().count(), 4);
    assert_eq!(lines(&b), vec!["hello world"]);
    assert!(!b.is_selecting());
}

#[test]
fn boundary_x_at_last_character_of_last_line() {
    let mut b = buffer(&["ab", "cd"]);
    let vim = feed(Vim::new(VimMode::Normal), &mut b, &[key('G'), key('$'), key('h')], false);
    assert_eq!(b.cursor(), (1, 1));
    let t = vim.transition(key('x'), &mut b, false);
    assert_eq!(t, Transition::Mode(VimMode::Normal));
    assert_eq!(lines(&b), vec!["ab", "c"]);
    assert_eq!(b.cursor(), (1, 1));
    assert!(!b.is_selecting());
    // behind the last character there is nothing to delete
    let t = vim.transition(key('x'), &mut b, false);
    assert_eq!(t, Transition::Mode(VimMode::Normal));
    assert_eq!(lines(&b), vec!["ab", "c"]);
}

#[test]
fn capital_x_deletes_before_the_cursor() {
    let mut b = buffer(&["abc"]);
    let vim = feed(Vim::new(VimMode::Normal), &mut b, &[key('l'), key('l'), key('X')], false);
    assert_eq!(vim.mode, VimMode::Normal);
    assert_eq!(lines(&b), vec!["ac"]);
    assert_eq!(b.cursor(), (0, 1));
}

#[test]
fn dd_deletes_the_current_line() {
    let mut b = buffer(&["one", "two", "three"]);
    let vim = feed(Vim::new(VimMode::Normal), &mut b, &[key('j'), key('d'), key('d')], false);
    assert_eq!(vim.mode, VimMode::Normal);
    assert_eq!(lines(&b), vec!["one", "three"]);
    assert_eq!(b.cursor(), (1, 0));
    assert_eq!(b.yank_text(), "two\n");
}

#[test]
fn dd_on_the_last_line_empties_it() {
    let mut b = buffer(&["one", "two"]);
    let vim = feed(Vim::new(VimMode::Normal), &mut b, &[key('G'), key('d'), key('d')], false);
    assert_eq!(vim.mode, VimMode::Normal);
    assert_eq!(lines(&b), vec!["one", ""]);
    assert_eq!(b.cursor(), (1, 0));
}

#[test]
fn dd_as_often_as_there_are_lines_empties_the_buffer() {
    let content = ["a", "bb", "ccc", "dddd"];
    let mut b = buffer(&content);
    let mut vim = Vim::new(VimMode::Normal);
    for _ in 0..content.len() {
        vim = feed(vim, &mut b, &[key('d'), key('d')], false);
        assert_eq!(vim.mode, VimMode::Normal);
    }
    assert_eq!(lines(&b), vec![""]);
    assert_eq!(b.cursor(), (0, 0));
}

#[test]
fn yy_and_cc_work_on_the_line() {
    let mut b = buffer(&["one", "two"]);
    let vim = feed(Vim::new(VimMode::Normal), &mut b, &[key('y'), key('y')], false);
    assert_eq!(vim.mode, VimMode::Normal);
    assert_eq!(b.yank_text(), "one\n");
    assert_eq!(lines(&b), vec!["one", "two"]);
    // the yank leaves the cursor where the selection ended
    assert_eq!(b.cursor(), (1, 0));

    let vim = feed(vim, &mut b, &[key('g'), key('g'), key('c'), key('c')], false);
    assert_eq!(vim.mode, VimMode::Insert);
    assert_eq!(lines(&b), vec!["two"]);
    assert_eq!(b.yank_text(), "one\n");
}

#[test]
fn gg_then_capital_g() {
    let mut b = buffer(&["only line"]);
    let start = feed(Vim::new(VimMode::Normal), &mut b, &[key('l'), key('l')], false);
    assert_eq!(b.cursor(), (0, 2));
    let vim = feed(start, &mut b, &[key('g'), key('g'), key('G')], false);
    assert_eq!(vim.mode, VimMode::Normal);
    assert_eq!(b.cursor(), (0, 2));

    let mut b = buffer(&["one", "two", "three"]);
    let vim = feed(Vim::new(VimMode::Normal), &mut b, &[key('j')], false);
    assert_eq!(b.cursor(), (1, 0));
    let _ = feed(vim, &mut b, &[key('g'), key('g')], false);
    assert_eq!(b.cursor(), (0, 0));
    let _ = feed(Vim::new(VimMode::Normal), &mut b, &[key('G')], false);
    assert_eq!(b.cursor(), (2, 0));
}

#[test]
fn lone_g_becomes_pending_and_is_forgotten() {
    let mut b = buffer(&["one", "two"]);
    let vim = feed(Vim::new(VimMode::Normal), &mut b, &[key('j')], false);
    let t = vim.transition(key('g'), &mut b, false);
    assert_eq!(t, Transition::Pending(key('g')));
    let vim = vim.apply_transition(t);
    assert_eq!(vim.pending, key('g'));
    // another key in between clears the slot
    let vim = feed(vim, &mut b, &[key('l')], false);
    assert_eq!(vim.pending, Input::default());
    let t = vim.transition(key('g'), &mut b, false);
    assert_eq!(t, Transition::Pending(key('g')));
    assert_eq!(b.cursor(), (1, 1));
}

#[test]
fn unmatched_key_is_held() {
    let mut b = buffer(&["abc"]);
    let vim = Vim::new(VimMode::Normal);
    let t = vim.transition(key('z'), &mut b, false);
    assert_eq!(t, Transition::Pending(key('z')));
    let t = vim.transition(special(Key::Tab), &mut b, false);
    assert_eq!(t, Transition::Pending(special(Key::Tab)));
    assert_eq!(lines(&b), vec!["abc"]);
}

#[test]
fn yank_then_paste_puts_the_text_back_in() {
    let mut b = buffer(&["hello world"]);
    let vim = feed(
        Vim::new(VimMode::Normal),
        &mut b,
        &[key('v'), key('l'), key('l'), key('l'), key('l'), key('y')],
        false,
    );
    assert_eq!(b.yank_text(), "hello");
    assert_eq!(b.cursor(), (0, 5));
    let vim = feed(vim, &mut b, &[key('p')], false);
    assert_eq!(vim.mode, VimMode::Normal);
    assert_eq!(lines(&b), vec!["hellohello world"]);
    assert_eq!(b.cursor(), (0, 10));
}

#[test]
fn paste_of_an_empty_yank_changes_nothing() {
    let mut b = buffer(&["abc"]);
    let vim = feed(Vim::new(VimMode::Normal), &mut b, &[key('l'), key('y'), key('p')], false);
    assert_eq!(vim.mode, VimMode::Normal);
    assert_eq!(lines(&b), vec!["abc"]);
    assert_eq!(b.cursor(), (0, 1));
}

#[test]
fn paste_of_several_lines_splits_the_row() {
    let mut b = buffer(&["one", "two", "end"]);
    let vim = feed(Vim::new(VimMode::Normal), &mut b, &[key('y'), key('y')], false);
    assert_eq!(b.yank_text(), "one\n");
    let _ = feed(vim, &mut b, &[key('G'), key('l'), key('p')], false);
    assert_eq!(lines(&b), vec!["one", "two", "eone", "nd"]);
    assert_eq!(b.cursor(), (3, 0));
}

#[test]
fn insert_mode_types_and_leaves() {
    let mut b = buffer(&["ac"]);
    let vim = feed(Vim::new(VimMode::Normal), &mut b, &[key('a')], false);
    assert_eq!(vim.mode, VimMode::Insert);
    assert_eq!(b.cursor(), (0, 1));
    let vim = feed(vim, &mut b, &[key('b')], false);
    assert_eq!(vim.mode, VimMode::Insert);
    assert_eq!(lines(&b), vec!["abc"]);
    assert_eq!(b.cursor(), (0, 2));
    let t = vim.transition(special(Key::Esc), &mut b, false);
    assert_eq!(t, Transition::Mode(VimMode::Normal));
}

#[test]
fn enter_in_insert_respects_single_line() {
    let mut b = buffer(&["ab"]);
    let vim = Vim::new(VimMode::Insert);
    let t = vim.transition(special(Key::Enter), &mut b, true);
    assert_eq!(t, Transition::Nop);
    assert_eq!(lines(&b), vec!["ab"]);
    let vim = feed(Vim::new(VimMode::Normal), &mut b, &[key('l'), key('i')], false);
    let t = vim.transition(special(Key::Enter), &mut b, false);
    assert_eq!(t, Transition::Mode(VimMode::Insert));
    assert_eq!(lines(&b), vec!["a", "b"]);
    assert_eq!(b.cursor(), (1, 0));
}

#[test]
fn open_line_below_and_above() {
    let mut b = buffer(&["one", "two"]);
    let vim = feed(Vim::new(VimMode::Normal), &mut b, &[key('o')], false);
    assert_eq!(vim.mode, VimMode::Insert);
    assert_eq!(lines(&b), vec!["one", "", "two"]);
    assert_eq!(b.cursor(), (1, 0));

    let mut b = buffer(&["one", "two"]);
    let vim = feed(Vim::new(VimMode::Normal), &mut b, &[key('j'), key('O')], false);
    assert_eq!(vim.mode, VimMode::Insert);
    assert_eq!(lines(&b), vec!["one", "", "two"]);
    assert_eq!(b.cursor(), (1, 0));
}

#[test]
fn open_line_is_disabled_in_single_line_fields() {
    let mut b = buffer(&["one"]);
    let vim = Vim::new(VimMode::Normal);
    let t = vim.transition(key('o'), &mut b, true);
    assert_eq!(t, Transition::Pending(key('o')));
    let t = vim.transition(key('O'), &mut b, true);
    assert_eq!(t, Transition::Pending(key('O')));
    assert_eq!(lines(&b), vec!["one"]);
}

#[test]
fn insert_entries_place_the_cursor() {
    let mut b = buffer(&["hello"]);
    let vim = feed(Vim::new(VimMode::Normal), &mut b, &[key('l'), key('A')], false);
    assert_eq!(vim.mode, VimMode::Insert);
    assert_eq!(b.cursor(), (0, 5));
    let vim = feed(Vim::new(VimMode::Normal), &mut b, &[key('I')], false);
    assert_eq!(vim.mode, VimMode::Insert);
    assert_eq!(b.cursor(), (0, 0));
    let vim = feed(Vim::new(VimMode::Normal), &mut b, &[key('i')], false);
    assert_eq!(vim.mode, VimMode::Insert);
    assert_eq!(b.cursor(), (0, 0));
}

#[test]
fn capital_d_and_c_cut_to_the_end_of_the_line() {
    let mut b = buffer(&["hello world", "next"]);
    let vim = feed(
        Vim::new(VimMode::Normal),
        &mut b,
        &[key('w'), key('D')],
        false,
    );
    assert_eq!(vim.mode, VimMode::Normal);
    assert_eq!(lines(&b), vec!["hello ", "next"]);
    assert_eq!(b.yank_text(), "world");
    // at the end of the line the line break goes
    let vim = feed(vim, &mut b, &[key('D')], false);
    assert_eq!(vim.mode, VimMode::Normal);
    assert_eq!(lines(&b), vec!["hello next"]);

    let mut b = buffer(&["hello world"]);
    let vim = feed(Vim::new(VimMode::Normal), &mut b, &[key('w'), key('C')], false);
    assert_eq!(vim.mode, VimMode::Insert);
    assert_eq!(lines(&b), vec!["hello "]);
}

#[test]
fn visual_line_and_delete() {
    let mut b = buffer(&["hello", "world"]);
    let vim = feed(Vim::new(VimMode::Normal), &mut b, &[key('l'), key('V')], false);
    assert_eq!(vim.mode, VimMode::Visual);
    assert_eq!(b.selection_range(), Some(((0, 0), (0, 5))));
    let vim = feed(vim, &mut b, &[key('d')], false);
    assert_eq!(vim.mode, VimMode::Normal);
    assert_eq!(lines(&b), vec!["world"]);
}

#[test]
fn visual_change_and_leaving_visual() {
    let mut b = buffer(&["hello"]);
    let vim = feed(Vim::new(VimMode::Normal), &mut b, &[key('v'), key('l'), key('c')], false);
    assert_eq!(vim.mode, VimMode::Insert);
    assert_eq!(lines(&b), vec!["llo"]);

    let mut b = buffer(&["hello"]);
    let vim = feed(Vim::new(VimMode::Normal), &mut b, &[key('v'), key('l'), key('v')], false);
    assert_eq!(vim.mode, VimMode::Normal);
    assert!(!b.is_selecting());
    assert_eq!(lines(&b), vec!["hello"]);
}

#[test]
fn operator_with_end_of_word_takes_the_last_character() {
    let mut b = buffer(&["hello world"]);
    let vim = feed(Vim::new(VimMode::Normal), &mut b, &[key('d'), key('e')], false);
    assert_eq!(vim.mode, VimMode::Normal);
    assert_eq!(lines(&b), vec![" world"]);
    // without an operator `e` stops on the last character
    let mut b = buffer(&["hello world"]);
    let _ = feed(Vim::new(VimMode::Normal), &mut b, &[key('e')], false);
    assert_eq!(b.cursor(), (0, 4));
}

#[test]
fn change_with_motion_ends_in_insert() {
    let mut b = buffer(&["hello world"]);
    let vim = feed(Vim::new(VimMode::Normal), &mut b, &[key('c'), key('w')], false);
    assert_eq!(vim.mode, VimMode::Insert);
    assert_eq!(lines(&b), vec!["world"]);
    let mut b = buffer(&["hello world"]);
    let vim = feed(Vim::new(VimMode::Normal), &mut b, &[key('y'), key('$')], false);
    assert_eq!(vim.mode, VimMode::Normal);
    assert_eq!(b.yank_text(), "hello world");
    assert_eq!(lines(&b), vec!["hello world"]);
}

#[test]
fn undo_and_redo() {
    let mut b = buffer(&["hello"]);
    let vim = feed(Vim::new(VimMode::Normal), &mut b, &[key('x')], false);
    assert_eq!(lines(&b), vec!["ello"]);
    let vim = feed(vim, &mut b, &[key('u')], false);
    assert_eq!(vim.mode, VimMode::Normal);
    assert_eq!(lines(&b), vec!["hello"]);
    let vim = feed(vim, &mut b, &[ctrl('r')], false);
    assert_eq!(vim.mode, VimMode::Normal);
    assert_eq!(lines(&b), vec!["ello"]);
}

#[test]
fn scroll_keys_leave_the_buffer_alone() {
    let mut b = buffer(&["one", "two", "three"]);
    let vim = feed(Vim::new(VimMode::Normal), &mut b, &[key('j'), key('l')], false);
    assert_eq!(vim.scroll_hint(&ctrl('d'), false), Some(Scroll::PageDown));
    assert_eq!(vim.scroll_hint(&ctrl('u'), false), Some(Scroll::PageUp));
    assert_eq!(vim.scroll_hint(&key('d'), false), None);
    assert_eq!(vim.scroll_hint(&key('u'), false), None);
    assert_eq!(Vim::new(VimMode::Insert).scroll_hint(&ctrl('d'), false), None);
    assert_eq!(Vim::new(VimMode::Visual).scroll_hint(&ctrl('u'), true), Some(Scroll::PageUp));
    let t = vim.transition(ctrl('d'), &mut b, false);
    assert_eq!(t, Transition::Nop);
    let t = vim.transition(ctrl('u'), &mut b, false);
    assert_eq!(t, Transition::Nop);
    assert_eq!(lines(&b), vec!["one", "two", "three"]);
    assert_eq!(b.cursor(), (1, 1));
    assert!(!b.is_selecting());
}

#[test]
fn motions_are_clamped_to_the_buffer() {
    let mut b = buffer(&["ab", "c"]);
    let vim = Vim::new(VimMode::Normal);
    for k in ['h', 'k'] {
        assert_eq!(vim.transition(key(k), &mut b, false), Transition::Nop);
        assert_eq!(b.cursor(), (0, 0));
    }
    let _ = feed(Vim::new(VimMode::Normal), &mut b, &[key('$'), key('j')], false);
    assert_eq!(b.cursor(), (1, 1));
    for k in ['l', 'j'] {
        assert_eq!(vim.transition(key(k), &mut b, false), Transition::Nop);
        assert_eq!(b.cursor(), (1, 1));
    }
    let _ = feed(Vim::new(VimMode::Normal), &mut b, &[key('0')], false);
    assert_eq!(b.cursor(), (1, 0));
    // there is no word before the head of the row: back to the end of the row above
    let _ = feed(Vim::new(VimMode::Normal), &mut b, &[key('b')], false);
    assert_eq!(b.cursor(), (0, 2));
}

#[test]
fn buffer_primitives() {
    let mut b = Buffer::new(Vec::new());
    assert_eq!(b.lines(), vec![""]);
    assert_eq!(b.cursor(), (0, 0));
    assert_eq!(b.yank_text(), "");
    assert_eq!(b.selection_range(), None);

    let mut b2 = buffer(&["abc", "def"]);
    b2.move_cursor(Motion::Forward);
    b2.start_selection();
    b2.move_cursor(Motion::Down);
    assert_eq!(b2.selection_range(), Some(((0, 1), (1, 1))));
    b2.copy();
    assert_eq!(b2.yank_text(), "bc\nd");
    assert!(!b2.is_selecting());
    b2.start_selection();
    b2.move_cursor(Motion::Up);
    assert!(b2.cut());
    assert_eq!(b2.lines(), vec!["aef"]);
    assert_eq!(b2.cursor(), (0, 1));
    b2.paste();
    assert_eq!(b2.lines(), vec!["abc", "def"]);
    assert_eq!(b2.cursor(), (1, 1));
    b2.cancel_selection();
    b2.insert_newline();
    assert_eq!(b2.lines(), vec!["abc", "d", "ef"]);
    assert!(b2.undo());
    assert_eq!(b2.lines(), vec!["abc", "def"]);
    assert!(b2.redo());
    assert!(!b2.redo());
    assert!(b2.input(key('x')));
    assert_eq!(b2.lines(), vec!["abc", "d", "xef"]);
    b.paste();
    assert_eq!(b.lines(), vec![""]);
}

#[test]
fn mode_labels() {
    assert_eq!(VimMode::Normal.label(), "NORMAL");
    assert_eq!(VimMode::Insert.label(), "INSERT");
    assert_eq!(VimMode::Visual.label(), "VISUAL");
    assert_eq!(VimMode::Operator(Operator::Delete).label(), "OPERATOR(d)");
    assert_eq!(Operator::from_key('y'), Some(Operator::Yank));
    assert_eq!(Operator::from_key('c'), Some(Operator::Change));
    assert_eq!(Operator::from_key('x'), None);
    assert_eq!(Operator::Change.rest(), VimMode::Insert);
    assert_eq!(Operator::Yank.key(), 'y');
}

#[test]
fn insert_mode_erases() {
    let mut b = buffer(&["ab", "cd"]);
    let vim = feed(Vim::new(VimMode::Normal), &mut b, &[key('j'), key('i')], false);
    let vim = feed(vim, &mut b, &[special(Key::Backspace)], false);
    assert_eq!(vim.mode, VimMode::Insert);
    assert_eq!(lines(&b), vec!["abcd"]);
    assert_eq!(b.cursor(), (0, 2));
    let vim = feed(vim, &mut b, &[special(Key::Backspace)], false);
    assert_eq!(lines(&b), vec!["acd"]);
    assert_eq!(b.cursor(), (0, 1));
    let vim = feed(vim, &mut b, &[special(Key::Delete)], false);
    assert_eq!(lines(&b), vec!["ad"]);
    assert_eq!(b.cursor(), (0, 1));
    let vim = feed(vim, &mut b, &[special(Key::Delete), special(Key::Delete)], false);
    assert_eq!(lines(&b), vec!["a"]);
    let _ = feed(vim, &mut b, &[special(Key::Backspace), special(Key::Backspace)], false);
    assert_eq!(lines(&b), vec![""]);
    assert_eq!(b.cursor(), (0, 0));
    assert_eq!(b.yank_text(), "");
    // with a selection both erase the selection
    let mut b = buffer(&["hello"]);
    b.start_selection();
    b.move_cursor(Motion::End);
    assert!(b.input(special(Key::Backspace)));
    assert_eq!(lines(&b), vec![""]);
    let mut b = buffer(&["hello", "x"]);
    b.move_cursor(Motion::End);
    b.start_selection();
    b.move_cursor(Motion::Head);
    b.move_cursor(Motion::Forward);
    assert!(b.input(special(Key::Delete)));
    assert_eq!(lines(&b), vec!["h", "x"]);
    assert_eq!(b.cursor(), (0, 1));
    assert!(!b.is_selecting());
}

#[test]
fn insert_mode_arrows_move_the_cursor() {
    let mut b = buffer(&["ab", "cde"]);
    let vim = feed(Vim::new(VimMode::Normal), &mut b, &[key('i')], false);
    let vim = feed(vim, &mut b, &[special(Key::Left)], false);
    assert_eq!(b.cursor(), (0, 0));
    let vim = feed(vim, &mut b, &[special(Key::End), special(Key::Right)], false);
    assert_eq!(b.cursor(), (1, 0));
    let vim = feed(vim, &mut b, &[special(Key::End), special(Key::Up)], false);
    assert_eq!(b.cursor(), (0, 2));
    let vim = feed(vim, &mut b, &[special(Key::Home), special(Key::Down), special(Key::Down)], false);
    assert_eq!(b.cursor(), (1, 0));
    assert_eq!(vim.mode, VimMode::Insert);
    assert_eq!(lines(&b), vec!["ab", "cde"]);
    assert!(!b.is_selecting());
    // with Shift a selection starts and goes on; without it the selection ends
    let shifted = Input { key: Key::Right, ctrl: false, alt: false, shift: true };
    assert!(!b.input(shifted.clone()));
    assert!(!b.input(shifted));
    assert_eq!(b.selection_range(), Some(((1, 0), (1, 2))));
    assert!(!b.input(special(Key::Left)));
    assert!(!b.is_selecting());
    assert_eq!(b.cursor(), (1, 1));
    // at the end of the text the cursor stays, and so does the selection
    b.move_cursor(Motion::End);
    b.start_selection();
    assert!(!b.input(special(Key::Right)));
    assert!(b.is_selecting());
    assert_eq!(b.cursor(), (1, 3));
}

#[test]
fn undo_takes_back_the_latest_edit() {
    let mut b = buffer(&["hello world"]);
    assert!(!b.undo());
    assert!(!b.redo());
    for _ in 0..5 {
        b.move_cursor(Motion::Forward);
    }
    b.insert_str("XY");
    assert_eq!(lines(&b), vec!["helloXY world"]);
    assert_eq!(b.cursor(), (0, 7));
    b.move_cursor(Motion::Head);
    b.start_selection();
    assert!(b.undo());
    assert_eq!(lines(&b), vec!["hello world"]);
    assert_eq!(b.cursor(), (0, 5));
    assert!(!b.is_selecting());
    assert!(!b.undo());
    assert_eq!(lines(&b), vec!["hello world"]);
    b.move_cursor(Motion::End);
    assert!(b.redo());
    assert_eq!(lines(&b), vec!["helloXY world"]);
    assert_eq!(b.cursor(), (0, 7));
    assert!(!b.redo());
    assert_eq!(b.cursor(), (0, 7));
    assert_eq!(b.yank_text(), "");
}

#[test]
fn undo_of_a_cut_puts_the_cursor_at_its_end() {
    let mut b = buffer(&["hello", "world"]);
    b.start_selection();
    b.move_cursor(Motion::Down);
    b.move_cursor(Motion::Forward);
    assert!(b.cut());
    assert_eq!(lines(&b), vec!["orld"]);
    assert_eq!(b.cursor(), (0, 0));
    assert!(b.undo());
    assert_eq!(lines(&b), vec!["hello", "world"]);
    assert_eq!(b.cursor(), (1, 1));
    assert_eq!(b.yank_text(), "hello\nw");
    // the same selection made backwards
    b.start_selection();
    b.move_cursor(Motion::Top);
    b.move_cursor(Motion::Head);
    assert!(b.cut());
    assert_eq!(b.cursor(), (0, 0));
    assert!(b.undo());
    assert_eq!(b.cursor(), (1, 1));
    assert!(b.redo());
    assert_eq!(lines(&b), vec!["orld"]);
    assert_eq!(b.cursor(), (0, 0));
}

#[test]
fn undo_of_erasing_puts_the_cursor_back() {
    let mut b = buffer(&["ab", "cd"]);
    b.move_cursor(Motion::Down);
    assert!(b.input(special(Key::Backspace)));
    assert_eq!(lines(&b), vec!["abcd"]);
    assert_eq!(b.cursor(), (0, 2));
    assert!(b.undo());
    assert_eq!(lines(&b), vec!["ab", "cd"]);
    assert_eq!(b.cursor(), (1, 0));
    b.move_cursor(Motion::Top);
    b.move_cursor(Motion::End);
    assert!(b.input(special(Key::Delete)));
    assert_eq!(lines(&b), vec!["abcd"]);
    assert!(b.undo());
    assert_eq!(b.cursor(), (1, 0));
    b.move_cursor(Motion::Forward);
    assert!(b.input(special(Key::Delete)));
    assert_eq!(lines(&b), vec!["ab", "c"]);
    assert_eq!(b.cursor(), (1, 1));
    assert!(b.undo());
    assert_eq!(lines(&b), vec!["ab", "cd"]);
    assert_eq!(b.cursor(), (1, 2));
    b.insert_newline();
    assert_eq!(lines(&b), vec!["ab", "cd", ""]);
    assert!(b.undo());
    assert_eq!(lines(&b), vec!["ab", "cd"]);
    assert_eq!(b.cursor(), (1, 2));
}

#[test]
fn paste_over_a_selection_is_two_edits() {
    let mut b = buffer(&["hello world"]);
    b.set_yank_text("ab");
    b.start_selection();
    for _ in 0..5 {
        b.move_cursor(Motion::Forward);
    }
    b.paste();
    assert_eq!(lines(&b), vec!["ab world"]);
    assert!(b.undo());
    assert_eq!(lines(&b), vec![" world"]);
    assert_eq!(b.cursor(), (0, 0));
    assert!(b.undo());
    assert_eq!(lines(&b), vec!["hello world"]);
    assert_eq!(b.cursor(), (0, 5));
    assert!(!b.undo());
    assert!(b.redo());
    assert!(b.redo());
    assert!(!b.redo());
    assert_eq!(lines(&b), vec!["ab world"]);
    assert_eq!(b.cursor(), (0, 2));
    // an empty yank slot pastes nothing and is no edit
    let mut b = buffer(&["x"]);
    b.insert_str("y");
    b.paste();
    b.insert_str("");
    assert!(b.undo());
    assert_eq!(lines(&b), vec!["x"]);
    assert!(!b.undo());
}

#[test]
fn an_edit_ends_what_could_be_done_again() {
    let mut b = buffer(&[""]);
    b.insert_str("a");
    b.insert_str("b");
    assert!(b.undo());
    b.insert_str("c");
    assert!(!b.redo());
    assert_eq!(lines(&b), vec!["ac"]);
    assert!(b.undo());
    assert!(b.undo());
    assert!(!b.undo());
    assert_eq!(lines(&b), vec![""]);
}

#[test]
fn the_history_keeps_fifty_edits() {
    let mut b = buffer(&[""]);
    for _ in 0..51 {
        b.insert_str("a");
    }
    for _ in 0..50 {
        assert!(b.undo());
    }
    assert!(!b.undo());
    assert_eq!(lines(&b), vec!["a"]);
    // full, with three edits taken back: the next edit drops the oldest too
    let mut b = buffer(&[""]);
    for _ in 0..50 {
        b.insert_str("a");
    }
    for _ in 0..3 {
        assert!(b.undo());
    }
    b.insert_str("b");
    assert!(!b.redo());
    for _ in 0..47 {
        assert!(b.undo());
    }
    assert!(!b.undo());
    assert_eq!(lines(&b), vec!["a"]);
    // full, with every edit taken back: the next edit is the only one
    let mut b = buffer(&[""]);
    for _ in 0..50 {
        b.insert_str("a");
    }
    for _ in 0..50 {
        assert!(b.undo());
    }
    b.insert_str("b");
    assert!(b.undo());
    assert!(!b.undo());
    assert_eq!(lines(&b), vec![""]);
}

#[test]
fn tab_goes_to_the_next_tab_stop() {
    let mut b = buffer(&["ab"]);
    assert!(b.input(special(Key::Tab)));
    assert_eq!(lines(&b), vec!["    ab"]);
    assert_eq!(b.cursor(), (0, 4));
    b.move_cursor(Motion::End);
    assert!(b.input(special(Key::Tab)));
    assert_eq!(lines(&b), vec!["    ab  "]);
    assert!(b.undo());
    assert_eq!(lines(&b), vec!["    ab"]);
    assert_eq!(b.cursor(), (0, 6));
    b.set_tab_length(3);
    assert!(b.input(special(Key::Tab)));
    assert_eq!(lines(&b), vec!["    ab   "]);
    b.set_tab_length(2);
    let mut wide = buffer(&["\u{4e2d}a"]);
    wide.move_cursor(Motion::End);
    assert!(wide.input(special(Key::Tab)));
    assert_eq!(lines(&wide), vec!["\u{4e2d}a "]);
    wide.set_tab_length(0);
    assert!(!wide.input(special(Key::Tab)));
    assert_eq!(lines(&wide), vec!["\u{4e2d}a "]);
    wide.start_selection();
    wide.move_cursor(Motion::Head);
    assert!(wide.input(special(Key::Tab)));
    assert_eq!(lines(&wide), vec![""]);
    // in place of the selection
    let mut b = buffer(&["abcdef"]);
    b.move_cursor(Motion::Forward);
    b.start_selection();
    b.move_cursor(Motion::End);
    assert!(b.input(special(Key::Tab)));
    assert_eq!(lines(&b), vec!["a   "]);
}

#[test]
fn u_and_ctrl_r_step_through_the_history() {
    let mut b = buffer(&["one two"]);
    let vim = feed(Vim::new(VimMode::Normal), &mut b, &[key('d'), key('w')], false);
    assert_eq!(lines(&b), vec!["two"]);
    let vim = feed(vim, &mut b, &[key('x')], false);
    assert_eq!(lines(&b), vec!["wo"]);
    let vim = feed(vim, &mut b, &[key('u')], false);
    assert_eq!(lines(&b), vec!["two"]);
    assert_eq!(b.cursor(), (0, 1));
    let vim = feed(vim, &mut b, &[key('u')], false);
    assert_eq!(lines(&b), vec!["one two"]);
    assert_eq!(b.cursor(), (0, 4));
    let vim = feed(vim, &mut b, &[key('u')], false);
    assert_eq!(lines(&b), vec!["one two"]);
    assert_eq!(b.cursor(), (0, 4));
    let vim = feed(vim, &mut b, &[ctrl('r')], false);
    assert_eq!(lines(&b), vec!["two"]);
    assert_eq!(b.cursor(), (0, 0));
    let vim = feed(vim, &mut b, &[ctrl('r'), ctrl('r')], false);
    assert_eq!(lines(&b), vec!["wo"]);
    assert_eq!(b.cursor(), (0, 0));
    assert_eq!(vim.mode, VimMode::Normal);
    assert_eq!(b.yank_text(), "t");
}

#[test]
fn scroll_keys_in_insert_leave_the_buffer_alone() {
    let mut b = buffer(&["one", "two", "three"]);
    let vim = feed(Vim::new(VimMode::Normal), &mut b, &[key('j'), key('l'), key('i')], false);
    assert_eq!(vim.mode, VimMode::Insert);
    let alt_v = Input { key: Key::Char('v'), ctrl: false, alt: true, shift: false };
    let shifted = Input { key: Key::PageDown, ctrl: false, alt: false, shift: true };
    let cases = [
        (special(Key::PageDown), Scroll::PageDown),
        (special(Key::PageUp), Scroll::PageUp),
        (special(Key::MouseScrollDown), Scroll::LineDown),
        (special(Key::MouseScrollUp), Scroll::LineUp),
        (ctrl('v'), Scroll::PageDown),
        (alt_v, Scroll::PageUp),
        (shifted, Scroll::PageDown),
    ];
    for (input, by) in cases {
        assert_eq!(vim.scroll_hint(&input, false), Some(by));
        assert_eq!(vim.scroll_hint(&input, true), Some(by));
        assert_eq!(vim.transition(input.clone(), &mut b, false), Transition::Mode(VimMode::Insert));
        assert_eq!(vim.transition_read_only(input, &mut b, false), Transition::Mode(VimMode::Insert));
        assert_eq!(lines(&b), vec!["one", "two", "three"]);
        assert_eq!(b.cursor(), (1, 1));
        assert!(!b.is_selecting());
    }
    let vim = feed(vim, &mut b, &[special(Key::PageDown)], false);
    assert_eq!(vim.mode, VimMode::Insert);
    // other keys are typed
    assert_eq!(vim.scroll_hint(&key('v'), false), None);
    assert_eq!(vim.scroll_hint(&special(Key::Esc), false), None);
    assert_eq!(vim.scroll_hint(&special(Key::Enter), true), None);
    assert_eq!(vim.scroll_hint(&special(Key::Down), false), None);
    let both = Input { key: Key::Char('v'), ctrl: true, alt: true, shift: false };
    assert_eq!(vim.scroll_hint(&both, false), None);
    let vim = feed(vim, &mut b, &[key('v')], false);
    assert_eq!(lines(&b), vec!["one", "tvwo", "three"]);
    assert_eq!(vim.mode, VimMode::Insert);
    // outside Insert the page keys are held like any unmatched key
    let normal = Vim::new(VimMode::Normal);
    assert_eq!(normal.scroll_hint(&special(Key::PageDown), false), None);
    assert_eq!(
        normal.transition(special(Key::PageDown), &mut b, false),
        Transition::Pending(special(Key::PageDown))
    );
    assert_eq!(b.cursor(), (1, 2));
}

#[test]
fn a_raw_key_says_whether_the_text_changed() {
    let mut b = buffer(&["ab"]);
    assert!(!b.input(special(Key::Backspace)));
    assert!(!b.input(special(Key::Left)));
    assert!(!b.input(special(Key::Up)));
    assert!(!b.input(special(Key::Down)));
    assert!(!b.input(special(Key::Home)));
    assert!(b.input(special(Key::Delete)));
    assert!(!b.input(special(Key::Right)));
    assert!(!b.input(special(Key::End)));
    assert!(!b.input(special(Key::Delete)));
    assert!(!b.input(special(Key::Right)));
    assert!(b.input(special(Key::Backspace)));
    assert_eq!(lines(&b), vec![""]);
    assert!(b.input(key('x')));
    assert!(b.input(key('\n')));
    assert!(b.input(special(Key::Enter)));
    assert_eq!(lines(&b), vec!["x", "", ""]);
    assert!(b.input(special(Key::Backspace)));
    b.move_cursor(Motion::Top);
    b.move_cursor(Motion::End);
    assert!(b.input(special(Key::Delete)));
    assert_eq!(lines(&b), vec!["x"]);
    assert!(b.input(special(Key::Tab)));
    b.set_tab_length(0);
    assert!(!b.input(special(Key::Tab)));
    b.start_selection();
    b.move_cursor(Motion::Head);
    assert!(b.input(special(Key::Tab)));
    assert_eq!(lines(&b), vec![""]);
    b.insert_str("abc");
    b.start_selection();
    b.move_cursor(Motion::Back);
    assert!(b.input(special(Key::Backspace)));
    assert_eq!(lines(&b), vec!["ab"]);
    b.start_selection();
    b.move_cursor(Motion::Head);
    assert!(b.input(special(Key::Delete)));
    assert_eq!(lines(&b), vec![""]);
}

#[test]
fn a_word_motion_lands_in_the_buffer() {
    let mut b = buffer(&["a b", "", " c"]);
    for m in [Motion::WordForward, Motion::WordEnd, Motion::WordBack] {
        for _ in 0..6 {
            b.move_cursor(m);
            let (row, col) = b.cursor();
            let text = lines(&b);
            assert!(row < text.len() && col <= text[row].chars().count());
        }
    }
}
