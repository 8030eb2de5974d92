//! What holds of the modal engine over whole key sequences, proved from the
//! key table and the buffer model.
use crate::buffer::{position_in, text_between, text_end, with_text, BufferView, Motion};
use crate::vim::{
    command_for, no_input, plain_key, run, whole_line, Command, Operator, Transition, VimMode,
};
use tui_textarea::Input;
use vstd::prelude::*;

verus! {

/// What the key `input` does in `mode` with `pending` in the pending slot,
/// for the keys whose outcome the buffer fixes.
pub open spec fn press(
    mode: VimMode,
    pending: Input,
    input: Input,
    single_line: bool,
    v: BufferView,
) -> (BufferView, Transition) {
    run(command_for(mode, pending, input, single_line), mode, input, v)
}

/// `lines` without row `row`; the last row is emptied instead, as a buffer
/// always keeps a line.
pub open spec fn delete_line(lines: Seq<Seq<char>>, row: nat) -> Seq<Seq<char>> {
    if row + 1 < lines.len() {
        lines.remove(row as int)
    } else {
        lines.update(row as int, Seq::empty())
    }
}

/// The buffer after `d` `d`, pressed in Normal.
pub open spec fn dd(v: BufferView, single_line: bool) -> BufferView {
    let d = plain_key('d');
    let first = press(VimMode::Normal, no_input(), d, single_line, v);
    press(VimMode::Operator(Operator::Delete), no_input(), d, single_line, first.0).0
}

/// The buffer after `d` `d` was pressed `n` times.
pub open spec fn dd_times(v: BufferView, single_line: bool, n: nat) -> BufferView
    decreases n,
{
    if n == 0 {
        v
    } else {
        dd_times(dd(v, single_line), single_line, (n - 1) as nat)
    }
}

/// What `d`, `g`, `G`, `y` and `p` stand for in the key table.
proof fn lemma_keys(pending: Input, single_line: bool)
    ensures
        command_for(VimMode::Normal, pending, plain_key('d'), single_line)
            == Command::EnterOperator(Operator::Delete),
        command_for(VimMode::Operator(Operator::Delete), pending, plain_key('d'), single_line)
            == Command::OperateLine(Operator::Delete),
        command_for(VimMode::Normal, no_input(), plain_key('g'), single_line) == Command::Hold,
        command_for(VimMode::Normal, plain_key('g'), plain_key('g'), single_line)
            == Command::Move(Motion::Top),
        command_for(VimMode::Normal, pending, plain_key('G'), single_line) == Command::Move(
            Motion::Bottom,
        ),
        command_for(VimMode::Visual, pending, plain_key('y'), single_line)
            == Command::VisualOperate(Operator::Yank),
        command_for(VimMode::Normal, pending, plain_key('p'), single_line) == Command::Paste,
{
}

/// Cutting the cursor's line, selected as `whole_line` selects it.
proof fn lemma_cut_whole_line(v: BufferView)
    requires
        v.well_formed(),
    ensures
        ({
            let after = whole_line(v).cut();
            &&& after.lines == delete_line(v.lines, v.cursor.0)
            &&& after.cursor == (v.cursor.0, 0nat)
            &&& after.anchor is None
            &&& after.well_formed()
        }),
{
    let row = v.cursor.0;
    let h = v.moved(Motion::Head).started();
    assert(h.cursor == (row, 0nat));
    assert(h.anchor == Some((row, 0nat)));
    let after = whole_line(v).cut();
    if row + 1 < v.lines.len() {
        let below = h.moved(Motion::Down);
        assert(below.cursor == ((row + 1) as nat, 0nat));
        assert(whole_line(v) == below);
        assert(below.selection() == Some(((row, 0nat), ((row + 1) as nat, 0nat))));
        assert(after.lines =~~= v.lines.remove(row as int));
        assert(after.yank.len() >= 1);
    } else {
        let end = h.moved(Motion::Down).moved(Motion::End);
        assert(end.cursor == (row, v.lines[row as int].len()));
        assert(whole_line(v) == end);
        assert(after.lines =~~= v.lines.update(row as int, Seq::empty()));
    }
}

/// `d` in Normal starts a selection and waits for a motion.
proof fn lemma_press_d(v: BufferView, pending: Input, single_line: bool)
    ensures
        press(VimMode::Normal, pending, plain_key('d'), single_line, v) == (
            v.started(),
            Transition::Mode(VimMode::Operator(Operator::Delete)),
        ),
{
    lemma_keys(pending, single_line);
}

/// `d` while `d` waits for a motion cuts the cursor's line.
proof fn lemma_press_d_again(v: BufferView, pending: Input, single_line: bool)
    ensures
        press(VimMode::Operator(Operator::Delete), pending, plain_key('d'), single_line, v) == (
            whole_line(v).cut(),
            Transition::Mode(VimMode::Normal),
        ),
{
    lemma_keys(pending, single_line);
}

/// `d` in Normal enters Operator-Pending; a second `d` deletes the cursor's
/// line (of the last line, its text), leaves the cursor at the head of the row
/// and returns to Normal. Whatever is pending does not matter.
pub proof fn lemma_dd_deletes_line(
    v: BufferView,
    pending: Input,
    pending_then: Input,
    single_line: bool,
)
    requires
        v.well_formed(),
    ensures
        ({
            let d = plain_key('d');
            let first = press(VimMode::Normal, pending, d, single_line, v);
            let second = press(
                VimMode::Operator(Operator::Delete),
                pending_then,
                d,
                single_line,
                first.0,
            );
            &&& first.1 == Transition::Mode(VimMode::Operator(Operator::Delete))
            &&& second.1 == Transition::Mode(VimMode::Normal)
            &&& second.0 == dd(v, single_line)
            &&& second.0.lines == delete_line(v.lines, v.cursor.0)
            &&& second.0.cursor == (v.cursor.0, 0nat)
            &&& second.0.anchor is None
            &&& second.0.well_formed()
        }),
{
    let s = v.started();
    lemma_press_d(v, pending, single_line);
    lemma_press_d(v, no_input(), single_line);
    lemma_press_d_again(s, pending_then, single_line);
    lemma_press_d_again(s, no_input(), single_line);
    lemma_cut_whole_line(s);
    assert(delete_line(s.lines, s.cursor.0) == delete_line(v.lines, v.cursor.0));
}

/// `d` `d` pressed as many times as the buffer has lines, with the cursor on
/// the first line, leaves the empty buffer: one empty line.
pub proof fn lemma_dd_empties_buffer(v: BufferView, single_line: bool)
    requires
        v.well_formed(),
        v.cursor.0 == 0,
    ensures
        dd_times(v, single_line, v.lines.len()).lines == seq![Seq::<char>::empty()],
    decreases v.lines.len(),
{
    lemma_dd_deletes_line(v, no_input(), no_input(), single_line);
    let next = dd(v, single_line);
    if v.lines.len() == 1 {
        assert(next.lines =~~= seq![Seq::<char>::empty()]);
        assert(dd_times(next, single_line, 0) == next);
    } else {
        assert(next.lines.len() == v.lines.len() - 1);
        lemma_dd_empties_buffer(next, single_line);
    }
}

/// `g` `g` and then `G` in Normal: the first `g` only goes to the pending
/// slot, the second moves to the first line, `G` to the last. The text stays;
/// on a buffer of one line the cursor ends where it was.
pub proof fn lemma_top_then_bottom(v: BufferView, single_line: bool)
    requires
        v.well_formed(),
    ensures
        ({
            let g = plain_key('g');
            let first = press(VimMode::Normal, no_input(), g, single_line, v);
            let second = press(VimMode::Normal, g, g, single_line, first.0);
            let third = press(VimMode::Normal, no_input(), plain_key('G'), single_line, second.0);
            &&& first == (v, Transition::Pending(g))
            &&& second.1 == Transition::Nop
            &&& second.0.cursor.0 == 0
            &&& third.1 == Transition::Nop
            &&& third.0.cursor.0 == v.lines.len() - 1
            &&& third.0 == BufferView { cursor: third.0.cursor, ..v }
            &&& (v.lines.len() == 1 ==> third.0 == v)
        }),
{
    lemma_keys(no_input(), single_line);
}

/// A text put in at a place of the buffer reads back between that place and
/// the place where it ends.
pub proof fn lemma_inserted_text_reads_back(
    lines: Seq<Seq<char>>,
    p: (nat, nat),
    text: Seq<Seq<char>>,
)
    requires
        position_in(lines, p),
        text.len() >= 1,
    ensures
        text_between(with_text(lines, p, text), p, text_end(p, text)) == text,
        position_in(with_text(lines, p, text), text_end(p, text)),
{
    let after = with_text(lines, p, text);
    let e = text_end(p, text);
    let row = lines[p.0 as int];
    let head = row.subrange(0, p.1 as int);
    let tail = row.subrange(p.1 as int, row.len() as int);
    if text.len() == 1 {
        assert(after[p.0 as int] == head + text[0] + tail);
        assert(after[p.0 as int].subrange(p.1 as int, e.1 as int) =~= text[0]);
        assert(text_between(after, p, e) =~~= text);
    } else {
        let k = text.len() as int;
        assert(after[p.0 as int] == head + text[0]);
        assert(after[e.0 as int] == text.last() + tail);
        assert(after[p.0 as int].subrange(p.1 as int, after[p.0 as int].len() as int)
            =~= text[0]);
        assert(after[e.0 as int].subrange(0, e.1 as int) =~= text.last());
        assert(after.subrange(p.0 as int + 1, e.0 as int) =~= text.subrange(1, k - 1));
        assert(text_between(after, p, e) =~~= text);
    }
}

/// Copying the selection and pasting at once: the copy leaves the text
/// alone; a selection is put in again at the cursor, which ends behind it;
/// without one the yank slot keeps its text, and an empty slot pastes nothing.
proof fn lemma_copy_then_paste(w: BufferView)
    requires
        w.lines.len() >= 1,
        position_in(w.lines, w.cursor),
        w.yank.len() >= 1,
    ensures
        ({
            let copied = w.copied();
            let pasted = copied.pasted();
            let selected = w.selection();
            let range = selected->0;
            &&& copied.lines == w.lines
            &&& copied.cursor == w.cursor
            &&& copied.anchor is None
            &&& selected is Some ==> {
                &&& copied.yank == text_between(w.lines, range.0, range.1)
                &&& pasted.lines == with_text(w.lines, w.cursor, copied.yank)
                &&& text_between(pasted.lines, w.cursor, pasted.cursor) == copied.yank
            }
            &&& selected is None ==> copied.yank == w.yank
            &&& selected is None && w.yank == seq![Seq::<char>::empty()] ==> pasted.lines == w.lines
                && pasted.cursor == w.cursor
        }),
{
    let copied = w.copied();
    assert(copied.removed(false) == copied);
    let pasted = copied.pasted();
    let text = copied.yank;
    if text.len() <= 1 && text[0].len() == 0 {
        // nothing is put in: the text stays as it is
        let row = w.lines[w.cursor.0 as int];
        assert(row.subrange(0, w.cursor.1 as int) + text[0] + row.subrange(
            w.cursor.1 as int,
            row.len() as int,
        ) =~= row);
        assert(with_text(w.lines, w.cursor, text) =~~= w.lines);
    }
    assert(pasted.lines == with_text(w.lines, w.cursor, copied.yank));
    assert(pasted.cursor == text_end(w.cursor, copied.yank));
    if w.selection() is Some {
        assert(copied.yank.len() >= 1);
        lemma_inserted_text_reads_back(w.lines, w.cursor, copied.yank);
    }
}

/// `y` in Visual and then `p`: the yank leaves the text alone and returns to
/// Normal. Where something was selected, the paste puts exactly the yanked
/// text in at the cursor, and the cursor ends just behind it. Where nothing
/// was selected the yank slot keeps what it held, and with an empty yank slot
/// the paste changes neither the text nor the cursor.
pub proof fn lemma_yank_then_paste(v: BufferView, pending: Input, single_line: bool)
    requires
        v.well_formed(),
    ensures
        ({
            let yanked = press(VimMode::Visual, pending, plain_key('y'), single_line, v);
            let pasted = press(VimMode::Normal, no_input(), plain_key('p'), single_line, yanked.0);
            let selected = v.moved(Motion::Forward).selection();
            let range = selected->0;
            &&& yanked.1 == Transition::Mode(VimMode::Normal)
            &&& pasted.1 == Transition::Mode(VimMode::Normal)
            &&& yanked.0.lines == v.lines
            &&& yanked.0.anchor is None
            &&& selected is Some ==> {
                &&& yanked.0.yank == text_between(v.lines, range.0, range.1)
                &&& pasted.0.lines == with_text(v.lines, yanked.0.cursor, yanked.0.yank)
                &&& text_between(pasted.0.lines, yanked.0.cursor, pasted.0.cursor)
                    == yanked.0.yank
            }
            &&& selected is None ==> yanked.0.yank == v.yank
            &&& selected is None && v.yank == seq![Seq::<char>::empty()] ==> pasted.0.lines
                == v.lines && pasted.0.cursor == yanked.0.cursor
        }),
{
    lemma_keys(pending, single_line);
    lemma_keys(no_input(), single_line);
    let w = v.moved(Motion::Forward);
    assert(w.lines == v.lines && w.yank == v.yank);
    assert(position_in(w.lines, w.cursor));
    let y = plain_key('y');
    let p = plain_key('p');
    assert(run(Command::VisualOperate(Operator::Yank), VimMode::Visual, y, v) == (
        w.copied(),
        Transition::Mode(VimMode::Normal),
    ));
    assert(run(Command::Paste, VimMode::Normal, p, w.copied()) == (
        w.copied().pasted(),
        Transition::Mode(VimMode::Normal),
    ));
    lemma_copy_then_paste(w);
}

/// An edit that is taken back leaves the lines from before it and the
/// cursor where the edit recorded it; done again, it leaves the lines and
/// the cursor from after it, and the history as the edit left it. Either
/// way the selection ends.
pub proof fn lemma_undo_then_redo(v: BufferView, lines: Seq<Seq<char>>, cursor: (nat, nat))
    ensures
        ({
            let edited = v.recorded(lines, cursor);
            let back = edited.undone();
            let again = back.redone();
            &&& back.lines == lines
            &&& back.cursor == cursor
            &&& back.anchor is None
            &&& back.yank == v.yank
            &&& again == BufferView { anchor: None, ..edited }
        }),
{
    let edited = v.recorded(lines, cursor);
    let back = edited.undone();
    let again = back.redone();
    let edit = edited.done.last();
    assert(edited.done.drop_last().push(edit) =~= edited.done);
    assert(back.undone.drop_last() =~= Seq::<crate::buffer::Edit>::empty());
    assert(again.done =~= edited.done);
    assert(again.undone =~= edited.undone);
}

} // verus!
