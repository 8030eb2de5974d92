//! The text buffer that the modal engine edits.
//!
//! The buffer is a `tui_textarea::TextArea`. Verus sees it through a few names
//! (its lines, its cursor, its selection anchor, its yank slot, the width of
//! its tab stop and its edit history) and through the contracts of the
//! wrappers at the end of this file, which are believed, not proved. Everything above them is a mathematical model of the widget's
//! editing primitives over sequences of characters.
use crate::ui::wrap::cell_width;
use tui_textarea::{CursorMove, Input, Key, TextArea};
use vstd::prelude::*;

verus! {

#[verifier::external_type_specification]
pub struct ExKey(Key);

#[verifier::external_type_specification]
pub struct ExInput(Input);

/// A multi-line text buffer with a cursor, an optional selection anchor, a
/// yank slot and an edit history.
#[verifier::external_body]
pub struct Buffer {
    inner: TextArea<'static>,
}

/// The lines of the buffer, each as its characters.
pub uninterp spec fn buffer_lines(b: Buffer) -> Seq<Seq<char>>;

/// The cursor of the buffer: row and column, both counted in characters from 0.
pub uninterp spec fn buffer_cursor(b: Buffer) -> (nat, nat);

/// Where the selection started, while one is going on.
pub uninterp spec fn buffer_anchor(b: Buffer) -> Option<(nat, nat)>;

/// The yanked text, as the lines it is made of (an empty yank is one empty line).
pub uninterp spec fn buffer_yank(b: Buffer) -> Seq<Seq<char>>;

/// The width of the buffer's tab stop, in columns.
pub uninterp spec fn buffer_tab(b: Buffer) -> nat;

/// The edits that can be taken back, the latest last.
pub uninterp spec fn buffer_done(b: Buffer) -> Seq<Edit>;

/// The edits that were taken back and can be done again, the next one last.
pub uninterp spec fn buffer_undone(b: Buffer) -> Seq<Edit>;

/// Where a word motion from `(row, col)` lands. The widget classifies
/// characters as blank, punctuation or other and looks for the next change of
/// class; that search is not restated here.
pub uninterp spec fn word_target(lines: Seq<Seq<char>>, row: nat, col: nat, m: Motion) -> (
    nat,
    nat,
);

/// One edit in the history of a buffer: the lines and the cursor as the
/// buffer restores them when the edit is taken back, and as it restores them
/// when the edit is done again.
pub struct Edit {
    pub before_lines: Seq<Seq<char>>,
    pub before_cursor: (nat, nat),
    pub after_lines: Seq<Seq<char>>,
    pub after_cursor: (nat, nat),
}

/// What the contracts say of a buffer.
pub struct BufferView {
    pub lines: Seq<Seq<char>>,
    pub cursor: (nat, nat),
    pub anchor: Option<(nat, nat)>,
    pub yank: Seq<Seq<char>>,
    pub tab: nat,
    pub done: Seq<Edit>,
    pub undone: Seq<Edit>,
}

/// The edits that a buffer keeps in its history.
pub open spec fn history_limit() -> nat {
    50
}

/// The columns that a text takes on a terminal.
pub open spec fn text_columns(s: Seq<char>) -> nat
    decreases s.len(),
{
    if s.len() == 0 {
        0
    } else {
        text_columns(s.drop_last()) + cell_width(s.last())
    }
}

/// `n` blanks.
pub open spec fn blanks(n: nat) -> Seq<char> {
    Seq::new(n, |i: int| ' ')
}

impl View for Buffer {
    type V = BufferView;

    open spec fn view(&self) -> BufferView {
        BufferView {
            lines: buffer_lines(*self),
            cursor: buffer_cursor(*self),
            anchor: buffer_anchor(*self),
            yank: buffer_yank(*self),
            tab: buffer_tab(*self),
            done: buffer_done(*self),
            undone: buffer_undone(*self),
        }
    }
}

/// The cursor motions that the engine asks of the buffer.
#[derive(Clone, Copy, Debug, PartialEq, Eq, Structural)]
pub enum Motion {
    Back,
    Forward,
    Up,
    Down,
    Head,
    End,
    Top,
    Bottom,
    WordForward,
    WordEnd,
    WordBack,
}

/// `p` names a place in `lines`: an existing row, and a column on it or just
/// behind its last character.
pub open spec fn position_in(lines: Seq<Seq<char>>, p: (nat, nat)) -> bool {
    p.0 < lines.len() && p.1 <= lines[p.0 as int].len()
}

/// `a` comes strictly before `b` in reading order.
pub open spec fn comes_before(a: (nat, nat), b: (nat, nat)) -> bool {
    a.0 < b.0 || (a.0 == b.0 && a.1 < b.1)
}

/// `col`, or the end of row `row` where the row is shorter.
pub open spec fn fit_col(lines: Seq<Seq<char>>, row: nat, col: nat) -> nat {
    if col <= lines[row as int].len() {
        col
    } else {
        lines[row as int].len()
    }
}

/// Where motion `m` takes a cursor at `at`; `None` where the cursor stays
/// because there is nowhere to go.
pub open spec fn motion_target(lines: Seq<Seq<char>>, at: (nat, nat), m: Motion) -> Option<
    (nat, nat),
> {
    let row = at.0;
    let col = at.1;
    match m {
        Motion::Forward => if col >= lines[row as int].len() {
            if row + 1 < lines.len() {
                Some((row + 1, 0nat))
            } else {
                None
            }
        } else {
            Some((row, col + 1))
        },
        Motion::Back => if col == 0 {
            if row == 0 {
                None
            } else {
                Some(((row - 1) as nat, lines[row - 1].len()))
            }
        } else {
            Some((row, (col - 1) as nat))
        },
        Motion::Up => if row == 0 {
            None
        } else {
            Some(((row - 1) as nat, fit_col(lines, (row - 1) as nat, col)))
        },
        Motion::Down => if row + 1 < lines.len() {
            Some((row + 1, fit_col(lines, row + 1, col)))
        } else {
            None
        },
        Motion::Head => Some((row, 0nat)),
        Motion::End => Some((row, lines[row as int].len())),
        Motion::Top => Some((0nat, fit_col(lines, 0, col))),
        Motion::Bottom => Some(
            ((lines.len() - 1) as nat, fit_col(lines, (lines.len() - 1) as nat, col)),
        ),
        Motion::WordForward | Motion::WordEnd | Motion::WordBack => Some(
            word_target(lines, row, col, m),
        ),
    }
}

/// The text from `s` up to, not including, `e`, as lines.
pub open spec fn text_between(lines: Seq<Seq<char>>, s: (nat, nat), e: (nat, nat)) -> Seq<
    Seq<char>,
> {
    if s.0 == e.0 {
        seq![lines[s.0 as int].subrange(s.1 as int, e.1 as int)]
    } else {
        seq![lines[s.0 as int].subrange(s.1 as int, lines[s.0 as int].len() as int)]
            + lines.subrange(s.0 as int + 1, e.0 as int) + seq![lines[e.0 as int].subrange(0, e.1 as int)]
    }
}

/// `lines` with the text from `s` up to `e` taken out: what stood before `s`
/// on its row is joined to what stood from `e` on.
pub open spec fn without_range(lines: Seq<Seq<char>>, s: (nat, nat), e: (nat, nat)) -> Seq<
    Seq<char>,
> {
    lines.subrange(0, s.0 as int) + seq![
        lines[s.0 as int].subrange(0, s.1 as int) + lines[e.0 as int].subrange(
            e.1 as int,
            lines[e.0 as int].len() as int,
        ),
    ] + lines.subrange(e.0 as int + 1, lines.len() as int)
}

/// `lines` with `text` put in at `p`. A text of one line goes into the row; a
/// text of several lines splits the row at `p`.
pub open spec fn with_text(lines: Seq<Seq<char>>, p: (nat, nat), text: Seq<Seq<char>>) -> Seq<
    Seq<char>,
> {
    let row = lines[p.0 as int];
    let head = row.subrange(0, p.1 as int);
    let tail = row.subrange(p.1 as int, row.len() as int);
    if text.len() <= 1 {
        lines.update(p.0 as int, head + text[0] + tail)
    } else {
        lines.subrange(0, p.0 as int) + seq![head + text[0]] + text.subrange(1, text.len() - 1)
            + seq![text.last() + tail] + lines.subrange(p.0 as int + 1, lines.len() as int)
    }
}

/// Where a text put in at `p` ends.
pub open spec fn text_end(p: (nat, nat), text: Seq<Seq<char>>) -> (nat, nat) {
    if text.len() <= 1 {
        (p.0, p.1 + text[0].len())
    } else {
        ((p.0 + text.len() - 1) as nat, text.last().len())
    }
}

/// The lines of `text` with a line feed between each two.
pub open spec fn join_lines(text: Seq<Seq<char>>) -> Seq<char>
    decreases text.len(),
{
    if text.len() == 0 {
        Seq::empty()
    } else if text.len() == 1 {
        text[0]
    } else {
        join_lines(text.drop_last()) + seq!['\n'] + text.last()
    }
}

/// `s` without one carriage return at its end, if it has one.
pub open spec fn strip_cr(s: Seq<char>) -> Seq<char> {
    if s.len() > 0 && s.last() == '\r' {
        s.drop_last()
    } else {
        s
    }
}

/// The lines of a text that is handed to the buffer: its parts between
/// line feeds, each without a carriage return at its end. There is always
/// one.
pub open spec fn handed_lines(text: Seq<char>) -> Seq<Seq<char>> {
    let parts = crate::text::split_on(text, '\n');
    Seq::new(parts.len(), |i: int| strip_cr(parts[i]))
}

impl BufferView {
    /// What holds of every buffer: it has a line, its cursor and anchor name
    /// places in it, and its yank has a line.
    pub open spec fn well_formed(self) -> bool {
        &&& self.lines.len() >= 1
        &&& position_in(self.lines, self.cursor)
        &&& (self.anchor is Some ==> position_in(self.lines, self.anchor->0))
        &&& self.yank.len() >= 1
    }

    /// The buffer is well formed and its cursor is at `cursor`.
    pub open spec fn well_formed_at(self, cursor: (nat, nat)) -> bool {
        self.cursor == cursor && self.well_formed()
    }

    /// The selected range, start before end; `None` where nothing is selected.
    pub open spec fn selection(self) -> Option<((nat, nat), (nat, nat))> {
        match self.anchor {
            None => None,
            Some(a) => if a == self.cursor {
                None
            } else if comes_before(a, self.cursor) {
                Some((a, self.cursor))
            } else {
                Some((self.cursor, a))
            },
        }
    }

    /// The anchor and the cursor in reading order, also where they coincide.
    pub open spec fn selection_span(self) -> Option<((nat, nat), (nat, nat))> {
        match self.anchor {
            None => None,
            Some(a) => if comes_before(self.cursor, a) {
                Some((self.cursor, a))
            } else {
                Some((a, self.cursor))
            },
        }
    }

    /// The buffer after motion `m`: only the cursor changes.
    pub open spec fn moved(self, m: Motion) -> BufferView {
        match motion_target(self.lines, self.cursor, m) {
            Some(p) => BufferView { cursor: p, ..self },
            None => self,
        }
    }

    /// The buffer with a selection started at the cursor.
    pub open spec fn started(self) -> BufferView {
        BufferView { anchor: Some(self.cursor), ..self }
    }

    /// The buffer with no selection.
    pub open spec fn cancelled(self) -> BufferView {
        BufferView { anchor: None, ..self }
    }

    /// The buffer after copying the selection to the yank slot.
    pub open spec fn copied(self) -> BufferView {
        match self.selection() {
            Some((s, e)) => BufferView {
                anchor: None,
                yank: text_between(self.lines, s, e),
                ..self
            },
            None => self.cancelled(),
        }
    }

    /// The buffer, which an edit has just brought from `lines` to what it
    /// holds now, with that edit in its history. To take the edit back will
    /// put the cursor at `cursor`. The history keeps so many edits as
    /// `history_limit` says: where it is full the oldest goes. What was
    /// taken back before can no longer be done again.
    pub open spec fn recorded(self, lines: Seq<Seq<char>>, cursor: (nat, nat)) -> BufferView {
        let edit = Edit {
            before_lines: lines,
            before_cursor: cursor,
            after_lines: self.lines,
            after_cursor: self.cursor,
        };
        let kept = if self.done.len() + self.undone.len() == history_limit() && self.done.len() > 0 {
            self.done.drop_first()
        } else {
            self.done
        };
        BufferView { done: kept.push(edit), undone: Seq::empty(), ..self }
    }

    /// The buffer with the selection deleted; the deleted text goes to the
    /// yank slot where `yank` is set. To take this back puts the cursor at
    /// the end of what was deleted.
    pub open spec fn removed(self, yank: bool) -> BufferView {
        match self.selection() {
            Some((s, e)) => (BufferView {
                lines: without_range(self.lines, s, e),
                cursor: s,
                anchor: None,
                yank: if yank {
                    text_between(self.lines, s, e)
                } else {
                    self.yank
                },
                ..self
            }).recorded(self.lines, e),
            None => self.cancelled(),
        }
    }

    /// The buffer after cutting the selection.
    pub open spec fn cut(self) -> BufferView {
        self.removed(true)
    }

    /// The buffer with `text` typed at the cursor, in place of the
    /// selection. The deletion and the insertion are two edits; a text
    /// without a character is no edit.
    pub open spec fn typed(self, text: Seq<Seq<char>>) -> BufferView {
        let d = self.removed(false);
        if text.len() <= 1 && text[0].len() == 0 {
            d
        } else {
            (BufferView {
                lines: with_text(d.lines, d.cursor, text),
                cursor: text_end(d.cursor, text),
                ..d
            }).recorded(d.lines, d.cursor)
        }
    }

    /// The buffer after pasting the yank slot at the cursor.
    pub open spec fn pasted(self) -> BufferView {
        self.typed(self.yank)
    }

    /// The buffer after a line break at the cursor.
    pub open spec fn broken(self) -> BufferView {
        self.typed(seq![Seq::<char>::empty(), Seq::<char>::empty()])
    }

    /// The buffer with its latest edit taken back: the lines are those
    /// from before the edit, the selection ends, and the edit can be done
    /// again. Without an edit in the history nothing changes.
    pub open spec fn undone(self) -> BufferView {
        if self.done.len() == 0 {
            self
        } else {
            let edit = self.done.last();
            BufferView {
                lines: edit.before_lines,
                cursor: edit.before_cursor,
                anchor: None,
                done: self.done.drop_last(),
                undone: self.undone.push(edit),
                ..self
            }
        }
    }

    /// The buffer with the edit that was taken back last done again.
    /// Where none was taken back since the last edit nothing changes.
    pub open spec fn redone(self) -> BufferView {
        if self.undone.len() == 0 {
            self
        } else {
            let edit = self.undone.last();
            BufferView {
                lines: edit.after_lines,
                cursor: edit.after_cursor,
                anchor: None,
                done: self.done.push(edit),
                undone: self.undone.drop_last(),
                ..self
            }
        }
    }

    /// The buffer after the Tab key: blanks up to the next tab stop, counted
    /// in columns from the head of the row, in place of the selection. With
    /// a tab stop of width 0 only the selection goes.
    pub open spec fn tabbed(self) -> BufferView {
        let d = self.removed(false);
        if d.tab == 0 {
            d
        } else {
            let columns = text_columns(d.lines[d.cursor.0 as int].take(d.cursor.1 as int));
            d.typed(seq![blanks((d.tab - columns % d.tab) as nat)])
        }
    }

    /// The buffer after Backspace (`m` is `Back`) or Delete (`m` is
    /// `Forward`): the selection goes where there is one, else what lies
    /// between the cursor and one step in direction `m`. Nothing is yanked.
    pub open spec fn erased(self, m: Motion) -> BufferView {
        if self.selection() is Some {
            self.removed(false)
        } else {
            self.started().moved(m).removed(false)
        }
    }

    /// The buffer after a key that moves the cursor by `m`. With Shift held
    /// a selection starts, or goes on; without it the selection ends. Where
    /// the cursor has nowhere to go nothing changes.
    pub open spec fn stepped(self, m: Motion, shift: bool) -> BufferView {
        match motion_target(self.lines, self.cursor, m) {
            Some(p) => BufferView {
                cursor: p,
                anchor: if !shift {
                    None
                } else if self.anchor is None {
                    Some(self.cursor)
                } else {
                    self.anchor
                },
                ..self
            },
            None => self,
        }
    }

    /// `post` is the buffer after it was handed the raw key `input`.
    /// A character typed without Ctrl or Alt is inserted, Enter and a typed
    /// line feed or carriage return break the line, Backspace and Delete
    /// without Ctrl or Alt erase, Tab without Ctrl or Alt goes to the next
    /// tab stop, the arrow keys without Ctrl or Alt and Home and End move
    /// the cursor; of the other keys, which the buffer maps to its own
    /// editing shortcuts, nothing is said.
    pub open spec fn keyed(self, input: Input, post: BufferView) -> bool {
        let plain = !input.ctrl && !input.alt;
        match input.key {
            Key::Enter => post == self.broken(),
            Key::Char(c) => plain ==> post == if c == '\n' || c == '\r' {
                self.broken()
            } else {
                self.typed(seq![seq![c]])
            },
            Key::Backspace => plain ==> post == self.erased(Motion::Back),
            Key::Delete => plain ==> post == self.erased(Motion::Forward),
            Key::Tab => plain ==> post == self.tabbed(),
            Key::Left => plain ==> post == self.stepped(Motion::Back, input.shift),
            Key::Right => plain ==> post == self.stepped(Motion::Forward, input.shift),
            Key::Up => plain ==> post == self.stepped(Motion::Up, input.shift),
            Key::Down => plain ==> post == self.stepped(Motion::Down, input.shift),
            Key::Home => post == self.stepped(Motion::Head, input.shift),
            Key::End => post == self.stepped(Motion::End, input.shift),
            _ => true,
        }
    }
}

impl BufferView {
    /// `changed` is what the buffer answers to the raw key `input`: whether
    /// the key changed the text. Enter and a typed character do; Backspace
    /// and Delete do where there is a selection or a character to erase;
    /// Tab does unless the tab stop has no width and nothing is selected;
    /// the keys that only move the cursor do not. Of the other keys nothing
    /// is said.
    pub open spec fn answered(self, input: Input, changed: bool) -> bool {
        let plain = !input.ctrl && !input.alt;
        let selected = self.selection() is Some;
        match input.key {
            Key::Enter => changed,
            Key::Char(_) => plain ==> changed,
            Key::Backspace => plain ==> changed == (selected || motion_target(
                self.lines,
                self.cursor,
                Motion::Back,
            ) is Some),
            Key::Delete => plain ==> changed == (selected || motion_target(
                self.lines,
                self.cursor,
                Motion::Forward,
            ) is Some),
            Key::Tab => plain ==> changed == (selected || self.tab > 0),
            Key::Left | Key::Right | Key::Up | Key::Down => plain ==> !changed,
            Key::Home | Key::End => !changed,
            _ => true,
        }
    }
}

impl Buffer {
    /// A buffer holding `lines`, or one empty line where `lines` is empty,
    /// with the cursor at the top left, nothing selected and nothing yanked.
    /// No line holds a line feed: a buffer keeps one row for each line.
    pub fn new(lines: Vec<String>) -> (b: Buffer)
        requires
            single_rows(lines@),
        ensures
            b@.lines == if lines@.len() == 0 {
                seq![Seq::<char>::empty()]
            } else {
                crate::text::strings_view(lines@)
            },
            b@.cursor == (0nat, 0nat),
            b@.anchor is None,
            b@.yank == seq![Seq::<char>::empty()],
            b@.tab == 4,
            b@.done == Seq::<Edit>::empty(),
            b@.undone == Seq::<Edit>::empty(),
    {
        raw_new(lines)
    }

    /// A copy of the lines.
    pub fn lines(&self) -> (r: Vec<String>)
        ensures
            crate::text::strings_view(r@) == self@.lines,
            r@.len() >= 1,
    {
        raw_lines(self)
    }

    /// The cursor: row and column, in characters. Every buffer is well
    /// formed: this is where a caller learns it.
    pub fn cursor(&self) -> (r: (usize, usize))
        ensures
            (r.0 as nat, r.1 as nat) == self@.cursor,
            self@.well_formed(),
    {
        raw_cursor(self)
    }

    /// Whether a selection is going on.
    pub fn is_selecting(&self) -> (r: bool)
        ensures
            r == self@.anchor is Some,
    {
        raw_is_selecting(self)
    }

    /// The anchor and the cursor in reading order, while a selection is going on.
    pub fn selection_range(&self) -> (r: Option<((usize, usize), (usize, usize))>)
        ensures
            span_view(r) == self@.selection_span(),
    {
        raw_selection_range(self)
    }

    /// The yanked text, its lines joined by line feeds.
    pub fn yank_text(&self) -> (r: String)
        ensures
            r@ == join_lines(self@.yank),
    {
        raw_yank_text(self)
    }

    /// Moves the cursor by `m`. A word motion lands on a place in the
    /// lines.
    pub fn move_cursor(&mut self, m: Motion)
        ensures
            final(self)@ == old(self)@.moved(m),
            m is WordForward || m is WordEnd || m is WordBack ==> position_in(
                final(self)@.lines,
                final(self)@.cursor,
            ),
    {
        raw_move_cursor(self, m)
    }

    /// Starts a selection at the cursor.
    pub fn start_selection(&mut self)
        ensures
            final(self)@ == old(self)@.started(),
    {
        raw_start_selection(self)
    }

    /// Ends the selection, if there is one.
    pub fn cancel_selection(&mut self)
        ensures
            final(self)@ == old(self)@.cancelled(),
    {
        raw_cancel_selection(self)
    }

    /// Copies the selection to the yank slot and ends it.
    pub fn copy(&mut self)
        ensures
            final(self)@ == old(self)@.copied(),
    {
        raw_copy(self)
    }

    /// Cuts the selection to the yank slot; says whether there was one.
    pub fn cut(&mut self) -> (r: bool)
        ensures
            final(self)@ == old(self)@.cut(),
            r == old(self)@.selection() is Some,
    {
        raw_cut(self)
    }

    /// Pastes the yank slot at the cursor, in place of the selection.
    pub fn paste(&mut self)
        ensures
            final(self)@ == old(self)@.pasted(),
    {
        raw_paste(self)
    }

    /// Breaks the line at the cursor.
    pub fn insert_newline(&mut self)
        ensures
            final(self)@ == old(self)@.broken(),
    {
        raw_insert_newline(self)
    }

    /// Takes back the last edit; says whether there was one.
    pub fn undo(&mut self) -> (r: bool)
        ensures
            final(self)@ == old(self)@.undone(),
            r == (old(self)@.done.len() > 0),
    {
        raw_undo(self)
    }

    /// Does the last edit that was taken back again; says whether there was one.
    pub fn redo(&mut self) -> (r: bool)
        ensures
            final(self)@ == old(self)@.redone(),
            r == (old(self)@.undone.len() > 0),
    {
        raw_redo(self)
    }

    /// Puts `text` into the yank slot.
    pub fn set_yank_text(&mut self, text: &str)
        ensures
            final(self)@ == (BufferView { yank: handed_lines(text@), ..old(self)@ }),
    {
        raw_set_yank_text(self, text)
    }

    /// Types `text` at the cursor, in place of the selection.
    pub fn insert_str(&mut self, text: &str)
        ensures
            final(self)@ == old(self)@.typed(handed_lines(text@)),
    {
        raw_insert_str(self, text)
    }

    /// Sets the width of a tab stop, in columns; nothing else changes.
    pub fn set_tab_length(&mut self, len: u8)
        ensures
            final(self)@ == (BufferView { tab: len as nat, ..old(self)@ }),
    {
        raw_set_tab_length(self, len)
    }

    /// Hands the buffer a raw key; says whether the text changed.
    pub fn input(&mut self, input: Input) -> (r: bool)
        ensures
            old(self)@.keyed(input, final(self)@),
            old(self)@.answered(input, r),
    {
        raw_input(self, input)
    }
}

/// No line holds a line feed.
pub open spec fn single_rows(lines: Seq<String>) -> bool {
    forall|i: int| 0 <= i < lines.len() ==> !(#[trigger] lines[i])@.contains('\n')
}

/// A range of `usize` positions as a range of naturals.
pub open spec fn span_view(r: Option<((usize, usize), (usize, usize))>) -> Option<
    ((nat, nat), (nat, nat)),
> {
    match r {
        None => None,
        Some((s, e)) => Some(((s.0 as nat, s.1 as nat), (e.0 as nat, e.1 as nat))),
    }
}

/// `TextArea::new`: the buffer holds the given lines (one empty line where
/// none is given), the cursor is at (0, 0), nothing is selected, the yank
/// slot is empty, a tab stop is 4 columns wide and the history is empty. The
/// widget takes the lines as they are and, when it later
/// pastes a yanked piece of one, asserts that the piece holds no line feed;
/// so none is handed to it.
#[verifier::external_body]
fn raw_new(lines: Vec<String>) -> (b: Buffer)
    requires
        single_rows(lines@),
    ensures
        buffer_lines(b) == if lines@.len() == 0 {
            seq![Seq::<char>::empty()]
        } else {
            crate::text::strings_view(lines@)
        },
        buffer_cursor(b) == (0nat, 0nat),
        buffer_anchor(b) is None,
        buffer_yank(b) == seq![Seq::<char>::empty()],
        buffer_tab(b) == 4,
        buffer_done(b) == Seq::<Edit>::empty(),
        buffer_undone(b) == Seq::<Edit>::empty(),
{
    Buffer { inner: TextArea::new(lines) }
}

/// `TextArea::lines`: the lines, of which there is always at least one.
#[verifier::external_body]
fn raw_lines(b: &Buffer) -> (r: Vec<String>)
    ensures
        crate::text::strings_view(r@) == buffer_lines(*b),
        r@.len() >= 1,
{
    b.inner.lines().to_vec()
}

/// `TextArea::cursor`: the cursor. The widget keeps itself well formed:
/// there is always a line, the cursor and the selection anchor name places
/// in the lines, and the yank slot holds at least one line.
#[verifier::external_body]
fn raw_cursor(b: &Buffer) -> (r: (usize, usize))
    ensures
        b@.well_formed_at((r.0 as nat, r.1 as nat)),
{
    b.inner.cursor()
}

/// `TextArea::is_selecting`: whether the selection anchor is set.
#[verifier::external_body]
fn raw_is_selecting(b: &Buffer) -> (r: bool)
    ensures
        r == buffer_anchor(*b) is Some,
{
    b.inner.is_selecting()
}

/// `TextArea::selection_range`: the anchor and the cursor, the smaller first
/// (compared as pairs), or `None` without an anchor.
#[verifier::external_body]
fn raw_selection_range(b: &Buffer) -> (r: Option<((usize, usize), (usize, usize))>)
    ensures
        span_view(r) == b@.selection_span(),
{
    b.inner.selection_range()
}

/// `TextArea::yank_text`: the yanked lines joined with `\n`.
#[verifier::external_body]
fn raw_yank_text(b: &Buffer) -> (r: String)
    ensures
        r@ == join_lines(buffer_yank(*b)),
{
    b.inner.yank_text()
}

/// `TextArea::move_cursor`: the cursor goes where `CursorMove::next_cursor`
/// says, or stays where that gives nothing; lines, anchor, yank, tab stop
/// and history stay. A word motion always lands somewhere, on a place in
/// the lines.
#[verifier::external_body]
fn raw_move_cursor(b: &mut Buffer, m: Motion)
    ensures
        final(b)@ == old(b)@.moved(m),
        m is WordForward || m is WordEnd || m is WordBack ==> buffer_cursor(*final(b))
            == word_target(buffer_lines(*old(b)), buffer_cursor(*old(b)).0, buffer_cursor(*old(b)).1, m)
            && position_in(buffer_lines(*final(b)), buffer_cursor(*final(b))),
{
    let target = match m {
        Motion::Back => CursorMove::Back,
        Motion::Forward => CursorMove::Forward,
        Motion::Up => CursorMove::Up,
        Motion::Down => CursorMove::Down,
        Motion::Head => CursorMove::Head,
        Motion::End => CursorMove::End,
        Motion::Top => CursorMove::Top,
        Motion::Bottom => CursorMove::Bottom,
        Motion::WordForward => CursorMove::WordForward,
        Motion::WordEnd => CursorMove::WordEnd,
        Motion::WordBack => CursorMove::WordBack,
    };
    b.inner.move_cursor(target);
}

/// `TextArea::start_selection`: the anchor is set to the cursor; nothing
/// else changes.
#[verifier::external_body]
fn raw_start_selection(b: &mut Buffer)
    ensures
        final(b)@ == old(b)@.started(),
{
    b.inner.start_selection();
}

/// `TextArea::cancel_selection`: the anchor is cleared; nothing else
/// changes.
#[verifier::external_body]
fn raw_cancel_selection(b: &mut Buffer)
    ensures
        final(b)@ == old(b)@.cancelled(),
{
    b.inner.cancel_selection();
}

/// `TextArea::copy`: a non-empty selection goes to the yank slot; the anchor
/// is cleared either way. The text and the history stay.
#[verifier::external_body]
fn raw_copy(b: &mut Buffer)
    ensures
        final(b)@ == old(b)@.copied(),
{
    b.inner.copy();
}

/// `TextArea::cut`: a non-empty selection is deleted and goes to the yank
/// slot, the cursor goes to its start; the anchor is cleared either way. The
/// deletion enters the history with the selection's end as the place of the
/// cursor before it. The result says whether anything was deleted.
#[verifier::external_body]
fn raw_cut(b: &mut Buffer) -> (r: bool)
    ensures
        final(b)@ == old(b)@.cut(),
        r == old(b)@.selection() is Some,
{
    b.inner.cut()
}

/// `TextArea::paste`: the selection is deleted without yanking it, then the
/// yank slot is inserted at the cursor, which ends behind it. The deletion
/// and the insertion enter the history one after the other; an empty yank
/// slot inserts nothing and enters nothing.
#[verifier::external_body]
fn raw_paste(b: &mut Buffer)
    ensures
        final(b)@ == old(b)@.pasted(),
{
    b.inner.paste();
}

/// `TextArea::insert_newline`: the selection is deleted without yanking it,
/// then the row is split at the cursor, which goes to the head of the new
/// row. The deletion and the split enter the history one after the other.
#[verifier::external_body]
fn raw_insert_newline(b: &mut Buffer)
    ensures
        final(b)@ == old(b)@.broken(),
{
    b.inner.insert_newline();
}

/// `TextArea::undo`: with an empty history the buffer stays as it is and
/// the result is false. Else the latest edit is taken back: the lines are
/// again what they were before it, the cursor goes where the edit recorded
/// it, the anchor is cleared, and the edit can be done again. The yank slot
/// stays.
#[verifier::external_body]
fn raw_undo(b: &mut Buffer) -> (r: bool)
    ensures
        final(b)@ == old(b)@.undone(),
        r == (buffer_done(*old(b)).len() > 0),
{
    b.inner.undo()
}

/// `TextArea::redo`: with nothing taken back since the last edit the buffer
/// stays as it is and the result is false. Else the edit taken back last is
/// done again: lines and cursor are what they were after it, the anchor is
/// cleared, and the edit can be taken back again.
#[verifier::external_body]
fn raw_redo(b: &mut Buffer) -> (r: bool)
    ensures
        final(b)@ == old(b)@.redone(),
        r == (buffer_undone(*old(b)).len() > 0),
{
    b.inner.redo()
}

/// `TextArea::set_yank_text`: the yank slot holds the text, split at line
/// feeds, each part without a carriage return at its end; nothing else
/// changes.
#[verifier::external_body]
fn raw_set_yank_text(b: &mut Buffer, text: &str)
    ensures
        final(b)@ == (BufferView { yank: handed_lines(text@), ..old(b)@ }),
{
    b.inner.set_yank_text(text);
}

/// `TextArea::insert_str`: the selection is deleted without yanking it,
/// then the text, split as for the yank slot, is inserted at the cursor,
/// which ends behind it. The deletion and the insertion enter the history
/// one after the other; a text without a character inserts nothing and
/// enters nothing.
#[verifier::external_body]
fn raw_insert_str(b: &mut Buffer, text: &str)
    ensures
        final(b)@ == old(b)@.typed(handed_lines(text@)),
{
    b.inner.insert_str(text);
}

/// `TextArea::set_tab_length`: the width of a tab stop is `len`; nothing
/// else changes.
#[verifier::external_body]
fn raw_set_tab_length(b: &mut Buffer, len: u8)
    ensures
        final(b)@ == (BufferView { tab: len as nat, ..old(b)@ }),
        buffer_tab(*final(b)) == len,
{
    b.inner.set_tab_length(len);
}

/// `TextArea::input`: the key goes through the widget's default key map.
/// Enter breaks the line; a character without Ctrl or Alt is inserted (a
/// line feed or carriage return breaks the line); Backspace and Delete
/// without Ctrl or Alt delete the selection or, without one, the character
/// before or under the cursor (joining two lines at a line's edge); Tab
/// without Ctrl or Alt inserts blanks up to the next tab stop; the
/// arrow keys without Ctrl or Alt move the cursor by one step, Home and End
/// to the line's head and end, each selecting with Shift and ending the
/// selection without. What changes the text enters the history as the
/// deletion and the insertion that it is made of. The result says whether
/// the text changed: it is true after Enter and a typed character, after
/// Backspace, Delete and Tab where they found something to delete or put
/// in, and false after a key that only moves the cursor.
#[verifier::external_body]
fn raw_input(b: &mut Buffer, input: Input) -> (r: bool)
    ensures
        old(b)@.keyed(input, final(b)@),
        old(b)@.answered(input, r),
{
    b.inner.input(input)
}

} // verus!
