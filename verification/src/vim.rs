//! The modal command engine: a state machine over Normal, Insert, Visual and
//! Operator-Pending that turns one key at a time into an edit of the focused
//! buffer and a transition for the host.
use crate::buffer::{Buffer, BufferView, Motion};
use tui_textarea::{Input, Key};
use vstd::prelude::*;
use vstd::string::StringExecFns;

verus! {

/// An operator: a command that acts on the range that a motion selects.
#[derive(Debug, Clone, Copy, PartialEq, Eq, Structural)]
pub enum Operator {
    Yank,
    Delete,
    Change,
}

/// The mode of the engine. Operator-Pending holds the operator that waits
/// for its motion.
#[derive(Debug, Clone, Copy, PartialEq, Eq, Structural)]
pub enum VimMode {
    Normal,
    Insert,
    Visual,
    Operator(Operator),
}

/// A request to scroll the view, by one page or by one row.
#[derive(Clone, Copy, Debug, PartialEq, Eq, Structural)]
pub enum Scroll {
    PageDown,
    PageUp,
    LineDown,
    LineUp,
}

/// What one key did, for the host.
#[derive(Debug, PartialEq, Eq)]
pub enum Transition {
    /// Nothing for the host to do.
    Nop,
    /// The engine is now in this mode.
    Mode(VimMode),
    /// The key matched no rule; it is to be kept as the pending key.
    Pending(Input),
    /// Editing of the field has ended.
    ExitField,
}

/// The engine's state between keys: the mode, and at most one pending key.
#[derive(Debug, PartialEq, Eq)]
pub struct Vim {
    pub mode: VimMode,
    /// The pending key; `no_input()` when there is none.
    pub pending: Input,
}

/// What the engine decides to do on a key.
#[derive(Debug, Clone, Copy, PartialEq, Eq, Structural)]
pub enum Command {
    /// Do nothing.
    Ignore,
    /// Leave Insert for Normal.
    LeaveInsert,
    /// Hand the key to the buffer as it is.
    Type,
    /// Leave the field.
    Exit,
    /// Drop the selection and go back to Normal.
    Cancel,
    /// Move the cursor; in Operator-Pending this completes the operator.
    Move(Motion),
    DeleteChar,
    DeleteCharBefore,
    DeleteToEnd,
    ChangeToEnd,
    Paste,
    Undo,
    Redo,
    Insert,
    Append,
    AppendAtEnd,
    InsertAtHead,
    OpenBelow,
    OpenAbove,
    Visual,
    VisualLine,
    LeaveVisual,
    /// The operator key was doubled: operate on the current line.
    OperateLine(Operator),
    EnterOperator(Operator),
    /// An operator key in Visual: operate on the selection.
    VisualOperate(Operator),
    /// Scroll the view; the buffer and its cursor stay as they are. In
    /// Insert the host is handed the mode, as for every key there but
    /// Escape; elsewhere nothing.
    Scroll(Scroll),
    /// Keep the key as the pending key.
    Hold,
}

/// No key: what the pending slot holds when it is empty.
pub open spec fn no_input() -> Input {
    Input { key: Key::Null, ctrl: false, alt: false, shift: false }
}

/// The key `c` with no modifier.
pub open spec fn plain_key(c: char) -> Input {
    Input { key: Key::Char(c), ctrl: false, alt: false, shift: false }
}

impl Operator {
    /// The key that stands for the operator.
    pub open spec fn key_spec(self) -> char {
        match self {
            Operator::Yank => 'y',
            Operator::Delete => 'd',
            Operator::Change => 'c',
        }
    }

    /// The mode in which the operator leaves the engine.
    pub open spec fn rest_spec(self) -> VimMode {
        match self {
            Operator::Yank => VimMode::Normal,
            Operator::Delete => VimMode::Normal,
            Operator::Change => VimMode::Insert,
        }
    }

    /// The buffer after the operator acted on its selection.
    pub open spec fn applied(self, v: BufferView) -> BufferView {
        match self {
            Operator::Yank => v.copied(),
            Operator::Delete => v.cut(),
            Operator::Change => v.cut(),
        }
    }

    /// The operator of key `c`, if it is one.
    pub open spec fn of_key(c: char) -> Option<Operator> {
        if c == 'y' {
            Some(Operator::Yank)
        } else if c == 'd' {
            Some(Operator::Delete)
        } else if c == 'c' {
            Some(Operator::Change)
        } else {
            None
        }
    }

    #[verifier::when_used_as_spec(key_spec)]
    pub fn key(self) -> (c: char)
        ensures
            c == self.key_spec(),
    {
        match self {
            Operator::Yank => 'y',
            Operator::Delete => 'd',
            Operator::Change => 'c',
        }
    }

    pub fn from_key(c: char) -> (r: Option<Operator>)
        ensures
            r == Operator::of_key(c),
    {
        if c == 'y' {
            Some(Operator::Yank)
        } else if c == 'd' {
            Some(Operator::Delete)
        } else if c == 'c' {
            Some(Operator::Change)
        } else {
            None
        }
    }

    #[verifier::when_used_as_spec(rest_spec)]
    pub fn rest(self) -> (m: VimMode)
        ensures
            m == self.rest_spec(),
    {
        match self {
            Operator::Yank => VimMode::Normal,
            Operator::Delete => VimMode::Normal,
            Operator::Change => VimMode::Insert,
        }
    }
}

impl VimMode {
    /// The name of the mode as the status bar shows it.
    pub open spec fn label_spec(self) -> Seq<char> {
        match self {
            VimMode::Normal => "NORMAL"@,
            VimMode::Insert => "INSERT"@,
            VimMode::Visual => "VISUAL"@,
            VimMode::Operator(op) => "OPERATOR("@.push(op.key_spec()).push(')'),
        }
    }

    pub fn label(&self) -> (s: String)
        ensures
            s@ == self.label_spec(),
    {
        match self {
            VimMode::Normal => String::from_str("NORMAL"),
            VimMode::Insert => String::from_str("INSERT"),
            VimMode::Visual => String::from_str("VISUAL"),
            VimMode::Operator(op) => {
                let mut s = String::from_str("OPERATOR(");
                s.push(op.key());
                s.push(')');
                s
            },
        }
    }
}

/// The command of the character key `c` outside Insert.
pub open spec fn char_command(
    mode: VimMode,
    pending: Input,
    c: char,
    ctrl: bool,
    single_line: bool,
) -> Command {
    if c == 'h' && !ctrl {
        Command::Move(Motion::Back)
    } else if c == 'j' && !ctrl {
        Command::Move(Motion::Down)
    } else if c == 'k' && !ctrl {
        Command::Move(Motion::Up)
    } else if c == 'l' && !ctrl {
        Command::Move(Motion::Forward)
    } else if c == 'w' && !ctrl {
        Command::Move(Motion::WordForward)
    } else if c == 'e' && !ctrl {
        Command::Move(Motion::WordEnd)
    } else if c == 'b' && !ctrl {
        Command::Move(Motion::WordBack)
    } else if c == '0' || c == '^' {
        Command::Move(Motion::Head)
    } else if c == '$' {
        Command::Move(Motion::End)
    } else if c == 'g' && !ctrl && pending.key == Key::Char('g') && !pending.ctrl {
        Command::Move(Motion::Top)
    } else if c == 'G' && !ctrl {
        Command::Move(Motion::Bottom)
    } else if c == 'x' && !ctrl {
        Command::DeleteChar
    } else if c == 'X' && !ctrl {
        Command::DeleteCharBefore
    } else if c == 'D' {
        Command::DeleteToEnd
    } else if c == 'C' {
        Command::ChangeToEnd
    } else if c == 'p' && !ctrl {
        Command::Paste
    } else if c == 'u' && !ctrl {
        Command::Undo
    } else if c == 'r' && ctrl {
        Command::Redo
    } else if c == 'i' && !ctrl && mode is Normal {
        Command::Insert
    } else if c == 'a' && !ctrl && mode is Normal {
        Command::Append
    } else if c == 'A' && mode is Normal {
        Command::AppendAtEnd
    } else if c == 'I' && mode is Normal {
        Command::InsertAtHead
    } else if c == 'o' && !ctrl && mode is Normal && !single_line {
        Command::OpenBelow
    } else if c == 'O' && mode is Normal && !single_line {
        Command::OpenAbove
    } else if c == 'v' && !ctrl && mode is Normal {
        Command::Visual
    } else if c == 'V' && !ctrl && mode is Normal {
        Command::VisualLine
    } else if c == 'v' && !ctrl && mode is Visual {
        Command::LeaveVisual
    } else if !ctrl && mode is Operator && mode->Operator_0.key_spec() == c {
        Command::OperateLine(mode->Operator_0)
    } else if !ctrl && mode is Normal && Operator::of_key(c) is Some {
        Command::EnterOperator(Operator::of_key(c)->0)
    } else if !ctrl && mode is Visual && Operator::of_key(c) is Some {
        Command::VisualOperate(Operator::of_key(c)->0)
    } else if c == 'd' && ctrl {
        Command::Scroll(Scroll::PageDown)
    } else if c == 'u' && ctrl {
        Command::Scroll(Scroll::PageUp)
    } else {
        Command::Hold
    }
}

/// The scroll that a key asks for in Insert: the keys that a text buffer
/// would answer by scrolling a view of its own, which it has none of here.
/// These are the page keys, the mouse wheel, and `v` with Ctrl (a page down)
/// or with Alt (a page up).
pub open spec fn insert_scroll(input: Input) -> Option<Scroll> {
    match input.key {
        Key::PageDown => Some(Scroll::PageDown),
        Key::PageUp => Some(Scroll::PageUp),
        Key::MouseScrollDown => Some(Scroll::LineDown),
        Key::MouseScrollUp => Some(Scroll::LineUp),
        Key::Char(c) => if c == 'v' && input.ctrl && !input.alt {
            Some(Scroll::PageDown)
        } else if c == 'v' && !input.ctrl && input.alt {
            Some(Scroll::PageUp)
        } else {
            None
        },
        _ => None,
    }
}

/// The engine's key table: what it does in `mode`, with `pending` in the
/// pending slot, on the key `input`.
pub open spec fn command_for(mode: VimMode, pending: Input, input: Input, single_line: bool) -> Command {
    if input.key == Key::Null {
        Command::Ignore
    } else if mode is Insert {
        if input.key == Key::Esc {
            Command::LeaveInsert
        } else if input.key == Key::Enter && single_line {
            Command::Ignore
        } else if insert_scroll(input) is Some {
            Command::Scroll(insert_scroll(input)->0)
        } else {
            Command::Type
        }
    } else {
        match input.key {
            Key::Esc => if mode is Normal {
                Command::Exit
            } else {
                Command::Cancel
            },
            Key::Char(c) => char_command(mode, pending, c, input.ctrl, single_line),
            _ => Command::Hold,
        }
    }
}

/// The buffer after the motion of command `Move(m)` in `mode`. In
/// Operator-Pending the end of a word is taken in: the cursor goes one
/// further.
pub open spec fn after_move(mode: VimMode, m: Motion, v: BufferView) -> BufferView {
    if m is WordEnd && mode is Operator {
        v.moved(Motion::WordEnd).moved(Motion::Forward)
    } else {
        v.moved(m)
    }
}

/// The buffer with the text from the cursor to the end of its row selected;
/// at the end of the row, with one step forward selected instead.
pub open spec fn to_line_end(v: BufferView) -> BufferView {
    let e = v.started().moved(Motion::End);
    if e.cursor == v.cursor {
        e.moved(Motion::Forward)
    } else {
        e
    }
}

/// The buffer with the cursor's row selected, up to the head of the next
/// row, or up to its own end where it is the last.
pub open spec fn whole_line(v: BufferView) -> BufferView {
    let h = v.moved(Motion::Head).started();
    let d = h.moved(Motion::Down);
    if d.cursor == h.cursor {
        d.moved(Motion::End)
    } else {
        d
    }
}

/// What a command does to the buffer and hands the host, for the commands
/// whose outcome the buffer before it fixes.
pub open spec fn run(c: Command, mode: VimMode, input: Input, v: BufferView) -> (
    BufferView,
    Transition,
) {
    match c {
        Command::Ignore => (v, Transition::Nop),
        Command::LeaveInsert => (v, Transition::Mode(VimMode::Normal)),
        Command::Exit => (v, Transition::ExitField),
        Command::Cancel => (v.cancelled(), Transition::Mode(VimMode::Normal)),
        Command::Move(m) => {
            let w = after_move(mode, m, v);
            match mode {
                VimMode::Operator(op) => (op.applied(w), Transition::Mode(op.rest_spec())),
                _ => (w, Transition::Nop),
            }
        },
        Command::DeleteChar => (
            v.started().moved(Motion::Forward).cut(),
            Transition::Mode(VimMode::Normal),
        ),
        Command::DeleteCharBefore => (
            v.started().moved(Motion::Back).cut(),
            Transition::Mode(VimMode::Normal),
        ),
        Command::DeleteToEnd => (to_line_end(v).cut(), Transition::Mode(VimMode::Normal)),
        Command::ChangeToEnd => (to_line_end(v).cut(), Transition::Mode(VimMode::Insert)),
        Command::Paste => (v.pasted(), Transition::Mode(VimMode::Normal)),
        Command::Insert => (v.cancelled(), Transition::Mode(VimMode::Insert)),
        Command::Append => (
            v.cancelled().moved(Motion::Forward),
            Transition::Mode(VimMode::Insert),
        ),
        Command::AppendAtEnd => (
            v.cancelled().moved(Motion::End),
            Transition::Mode(VimMode::Insert),
        ),
        Command::InsertAtHead => (
            v.cancelled().moved(Motion::Head),
            Transition::Mode(VimMode::Insert),
        ),
        Command::OpenBelow => (v.moved(Motion::End).broken(), Transition::Mode(VimMode::Insert)),
        Command::OpenAbove => (
            v.moved(Motion::Head).broken().moved(Motion::Up),
            Transition::Mode(VimMode::Insert),
        ),
        Command::Visual => (v.started(), Transition::Mode(VimMode::Visual)),
        Command::VisualLine => (
            v.moved(Motion::Head).started().moved(Motion::End),
            Transition::Mode(VimMode::Visual),
        ),
        Command::LeaveVisual => (v.cancelled(), Transition::Mode(VimMode::Normal)),
        Command::OperateLine(op) => (
            op.applied(whole_line(v)),
            Transition::Mode(op.rest_spec()),
        ),
        Command::EnterOperator(op) => (v.started(), Transition::Mode(VimMode::Operator(op))),
        Command::VisualOperate(op) => (
            op.applied(v.moved(Motion::Forward)),
            Transition::Mode(op.rest_spec()),
        ),
        Command::Hold => (v, Transition::Pending(input)),
        Command::Scroll(_) => (v, if mode is Insert {
            Transition::Mode(VimMode::Insert)
        } else {
            Transition::Nop
        }),
        Command::Undo => (v.undone(), Transition::Mode(VimMode::Normal)),
        Command::Redo => (v.redone(), Transition::Mode(VimMode::Normal)),
        // a raw key: what it does to the buffer is said in `ran`
        Command::Type => (v, Transition::Mode(VimMode::Insert)),
    }
}

/// Command `c` took the buffer from `pre` to `post` and handed the host `t`.
/// Of a raw key that the buffer maps to a shortcut of its own this says
/// only what `keyed` says.
pub open spec fn ran(
    c: Command,
    mode: VimMode,
    input: Input,
    pre: BufferView,
    post: BufferView,
    t: Transition,
) -> bool {
    &&& t == run(c, mode, input, pre).1
    &&& match c {
        Command::Type => pre.keyed(input, post),
        _ => post == run(c, mode, input, pre).0,
    }
}

/// The mode after the host took note of a transition.
pub open spec fn next_mode(mode: VimMode, t: Transition) -> VimMode {
    match t {
        Transition::Mode(m) => m,
        _ => mode,
    }
}

/// The pending key after the host took note of a transition.
pub open spec fn next_pending(t: Transition) -> Input {
    match t {
        Transition::Pending(input) => input,
        _ => no_input(),
    }
}

/// The key table leaves the field on Escape in Normal and on nothing else.
pub proof fn lemma_exit_only_on_escape(mode: VimMode, pending: Input, input: Input, single_line: bool)
    ensures
        command_for(mode, pending, input, single_line) is Exit <==> mode is Normal && input.key
            == Key::Esc,
        forall|c: Command, v: BufferView| #[trigger]
            run(c, mode, input, v).1 is ExitField <==> c is Exit,
{
    assert forall|c: Command, v: BufferView| #[trigger]
        run(c, mode, input, v).1 is ExitField <==> c is Exit by {
        lemma_run_exits(c, mode, input, v);
    }
}

/// Only the command to leave hands the host the end of the editing.
pub proof fn lemma_run_exits(c: Command, mode: VimMode, input: Input, v: BufferView)
    ensures
        run(c, mode, input, v).1 is ExitField <==> c is Exit,
{
}

impl Vim {
    /// An engine in `mode` with nothing pending.
    pub fn new(mode: VimMode) -> (v: Vim)
        ensures
            v.mode == mode,
            v.pending == no_input(),
    {
        Vim { mode, pending: Input { key: Key::Null, ctrl: false, alt: false, shift: false } }
    }

    /// The same mode with `pending` as the pending key.
    pub fn with_pending(self, pending: Input) -> (v: Vim)
        ensures
            v.mode == self.mode,
            v.pending == pending,
    {
        Vim { mode: self.mode, pending }
    }

    /// Handles one key: edits `textarea` as the key table says and returns
    /// the transition for the host. `single_line` forbids what would add a
    /// line. Escape in Normal always ends the editing and leaves the buffer
    /// alone.
    pub fn transition(&self, input: Input, textarea: &mut Buffer, single_line: bool) -> (t:
        Transition)
        ensures
            ran(
                command_for(self.mode, self.pending, input, single_line),
                self.mode,
                input,
                old(textarea)@,
                final(textarea)@,
                t,
            ),
            self.mode is Normal && input.key == Key::Esc ==> t is ExitField && final(textarea)@
                == old(textarea)@,
            t is ExitField ==> self.mode is Normal && input.key == Key::Esc,
    {
        proof {
            lemma_exit_only_on_escape(self.mode, self.pending, input, single_line);
        }
        match input.key {
            Key::Null => Transition::Nop,
            _ => match self.mode {
                VimMode::Insert => self.handle_insert(input, textarea, single_line),
                _ => self.handle_normal_visual_operator(input, textarea, single_line),
            },
        }
    }

    fn handle_insert(&self, input: Input, textarea: &mut Buffer, single_line: bool) -> (t:
        Transition)
        requires
            self.mode is Insert,
            input.key != Key::Null,
        ensures
            ran(
                command_for(self.mode, self.pending, input, single_line),
                self.mode,
                input,
                old(textarea)@,
                final(textarea)@,
                t,
            ),
    {
        match input.key {
            Key::Esc => Transition::Mode(VimMode::Normal),
            Key::Enter => {
                if single_line {
                    Transition::Nop
                } else {
                    textarea.input(input);
                    Transition::Mode(VimMode::Insert)
                }
            },
            _ => match Self::scroll_in_insert(&input) {
                Some(_) => Transition::Mode(VimMode::Insert),
                None => {
                    textarea.input(input);
                    Transition::Mode(VimMode::Insert)
                },
            },
        }
    }

    /// The scroll that a key asks for in Insert.
    fn scroll_in_insert(input: &Input) -> (r: Option<Scroll>)
        ensures
            r == insert_scroll(*input),
    {
        match input.key {
            Key::PageDown => Some(Scroll::PageDown),
            Key::PageUp => Some(Scroll::PageUp),
            Key::MouseScrollDown => Some(Scroll::LineDown),
            Key::MouseScrollUp => Some(Scroll::LineUp),
            Key::Char(c) => if c == 'v' && input.ctrl && !input.alt {
                Some(Scroll::PageDown)
            } else if c == 'v' && !input.ctrl && input.alt {
                Some(Scroll::PageUp)
            } else {
                None
            },
            _ => None,
        }
    }

    /// The key table outside Insert, as executable code.
    fn command(&self, input: &Input, single_line: bool) -> (c: Command)
        requires
            !(self.mode is Insert),
            input.key != Key::Null,
        ensures
            c == command_for(self.mode, self.pending, *input, single_line),
    {
        let normal = matches!(self.mode, VimMode::Normal);
        let visual = matches!(self.mode, VimMode::Visual);
        let ctrl = input.ctrl;
        match input.key {
            Key::Esc => if normal {
                Command::Exit
            } else {
                Command::Cancel
            },
            Key::Char(c) => {
                let after_g = match self.pending.key {
                    Key::Char(p) => p == 'g' && !self.pending.ctrl,
                    _ => false,
                };
                let doubled = match self.mode {
                    VimMode::Operator(op) => op.key() == c,
                    _ => false,
                };
                if c == 'h' && !ctrl {
                    Command::Move(Motion::Back)
                } else if c == 'j' && !ctrl {
                    Command::Move(Motion::Down)
                } else if c == 'k' && !ctrl {
                    Command::Move(Motion::Up)
                } else if c == 'l' && !ctrl {
                    Command::Move(Motion::Forward)
                } else if c == 'w' && !ctrl {
                    Command::Move(Motion::WordForward)
                } else if c == 'e' && !ctrl {
                    Command::Move(Motion::WordEnd)
                } else if c == 'b' && !ctrl {
                    Command::Move(Motion::WordBack)
                } else if c == '0' || c == '^' {
                    Command::Move(Motion::Head)
                } else if c == '$' {
                    Command::Move(Motion::End)
                } else if c == 'g' && !ctrl && after_g {
                    Command::Move(Motion::Top)
                } else if c == 'G' && !ctrl {
                    Command::Move(Motion::Bottom)
                } else if c == 'x' && !ctrl {
                    Command::DeleteChar
                } else if c == 'X' && !ctrl {
                    Command::DeleteCharBefore
                } else if c == 'D' {
                    Command::DeleteToEnd
                } else if c == 'C' {
                    Command::ChangeToEnd
                } else if c == 'p' && !ctrl {
                    Command::Paste
                } else if c == 'u' && !ctrl {
                    Command::Undo
                } else if c == 'r' && ctrl {
                    Command::Redo
                } else if c == 'i' && !ctrl && normal {
                    Command::Insert
                } else if c == 'a' && !ctrl && normal {
                    Command::Append
                } else if c == 'A' && normal {
                    Command::AppendAtEnd
                } else if c == 'I' && normal {
                    Command::InsertAtHead
                } else if c == 'o' && !ctrl && normal && !single_line {
                    Command::OpenBelow
                } else if c == 'O' && normal && !single_line {
                    Command::OpenAbove
                } else if c == 'v' && !ctrl && normal {
                    Command::Visual
                } else if c == 'V' && !ctrl && normal {
                    Command::VisualLine
                } else if c == 'v' && !ctrl && visual {
                    Command::LeaveVisual
                } else if !ctrl && doubled {
                    match self.mode {
                        VimMode::Operator(op) => Command::OperateLine(op),
                        _ => Command::Hold,
                    }
                } else {
                    match Operator::from_key(c) {
                        Some(op) if !ctrl && normal => Command::EnterOperator(op),
                        Some(op) if !ctrl && visual => Command::VisualOperate(op),
                        _ => if c == 'd' && ctrl {
                            Command::Scroll(Scroll::PageDown)
                        } else if c == 'u' && ctrl {
                            Command::Scroll(Scroll::PageUp)
                        } else {
                            Command::Hold
                        },
                    }
                }
            },
            _ => Command::Hold,
        }
    }

    fn handle_normal_visual_operator(
        &self,
        input: Input,
        textarea: &mut Buffer,
        single_line: bool,
    ) -> (t: Transition)
        requires
            !(self.mode is Insert),
            input.key != Key::Null,
        ensures
            ran(
                command_for(self.mode, self.pending, input, single_line),
                self.mode,
                input,
                old(textarea)@,
                final(textarea)@,
                t,
            ),
    {
        let c = self.command(&input, single_line);
        self.perform(c, input, textarea)
    }

    /// Carries out a command of the key table outside Insert.
    fn perform(&self, c: Command, input: Input, textarea: &mut Buffer) -> (t: Transition)
        requires
            !(c is Type),
            !(self.mode is Insert),
        ensures
            ran(c, self.mode, input, old(textarea)@, final(textarea)@, t),
    {
        match c {
            Command::Exit => Transition::ExitField,
            Command::Cancel => {
                textarea.cancel_selection();
                Transition::Mode(VimMode::Normal)
            },
            Command::Move(m) => {
                textarea.move_cursor(m);
                if matches!(m, Motion::WordEnd) && matches!(self.mode, VimMode::Operator(_)) {
                    textarea.move_cursor(Motion::Forward);
                }
                self.after_motion(textarea)
            },
            Command::DeleteChar => {
                textarea.start_selection();
                textarea.move_cursor(Motion::Forward);
                textarea.cut();
                Transition::Mode(VimMode::Normal)
            },
            Command::DeleteCharBefore => {
                textarea.start_selection();
                textarea.move_cursor(Motion::Back);
                textarea.cut();
                Transition::Mode(VimMode::Normal)
            },
            Command::DeleteToEnd => {
                Self::select_to_line_end(textarea);
                textarea.cut();
                Transition::Mode(VimMode::Normal)
            },
            Command::ChangeToEnd => {
                Self::select_to_line_end(textarea);
                textarea.cut();
                Transition::Mode(VimMode::Insert)
            },
            Command::Paste => {
                textarea.paste();
                Transition::Mode(VimMode::Normal)
            },
            Command::Undo => {
                textarea.undo();
                Transition::Mode(VimMode::Normal)
            },
            Command::Redo => {
                textarea.redo();
                Transition::Mode(VimMode::Normal)
            },
            Command::Insert => {
                textarea.cancel_selection();
                Transition::Mode(VimMode::Insert)
            },
            Command::Append => {
                textarea.cancel_selection();
                textarea.move_cursor(Motion::Forward);
                Transition::Mode(VimMode::Insert)
            },
            Command::AppendAtEnd => {
                textarea.cancel_selection();
                textarea.move_cursor(Motion::End);
                Transition::Mode(VimMode::Insert)
            },
            Command::InsertAtHead => {
                textarea.cancel_selection();
                textarea.move_cursor(Motion::Head);
                Transition::Mode(VimMode::Insert)
            },
            Command::OpenBelow => {
                textarea.move_cursor(Motion::End);
                textarea.insert_newline();
                Transition::Mode(VimMode::Insert)
            },
            Command::OpenAbove => {
                textarea.move_cursor(Motion::Head);
                textarea.insert_newline();
                textarea.move_cursor(Motion::Up);
                Transition::Mode(VimMode::Insert)
            },
            Command::Visual => {
                textarea.start_selection();
                Transition::Mode(VimMode::Visual)
            },
            Command::VisualLine => {
                textarea.move_cursor(Motion::Head);
                textarea.start_selection();
                textarea.move_cursor(Motion::End);
                Transition::Mode(VimMode::Visual)
            },
            Command::LeaveVisual => {
                textarea.cancel_selection();
                Transition::Mode(VimMode::Normal)
            },
            Command::OperateLine(op) => {
                textarea.move_cursor(Motion::Head);
                textarea.start_selection();
                let cursor = textarea.cursor();
                textarea.move_cursor(Motion::Down);
                let below = textarea.cursor();
                if cursor.0 == below.0 && cursor.1 == below.1 {
                    textarea.move_cursor(Motion::End);
                }
                Self::complete_operator(op, textarea)
            },
            Command::EnterOperator(op) => Self::enter_operator(op, textarea),
            Command::VisualOperate(op) => {
                textarea.move_cursor(Motion::Forward);
                Self::complete_operator(op, textarea)
            },
            Command::Scroll(_) => Transition::Nop,
            Command::Hold => Transition::Pending(input),
            // the key table gives none of these outside Insert
            Command::Ignore => Transition::Nop,
            Command::LeaveInsert => Transition::Mode(VimMode::Normal),
            Command::Type => Transition::Mode(VimMode::Insert),
        }
    }

    /// Selects from the cursor to the end of its row, or one step forward
    /// where the cursor is at the end already.
    fn select_to_line_end(textarea: &mut Buffer)
        ensures
            final(textarea)@ == to_line_end(old(textarea)@),
    {
        let before = textarea.cursor();
        textarea.start_selection();
        textarea.move_cursor(Motion::End);
        let after = textarea.cursor();
        if before.0 == after.0 && before.1 == after.1 {
            textarea.move_cursor(Motion::Forward);
        }
    }

    /// After a motion: in Operator-Pending the operator acts on what the
    /// motion selected; in the other modes there is nothing more to do.
    fn after_motion(&self, textarea: &mut Buffer) -> (t: Transition)
        ensures
            match self.mode {
                VimMode::Operator(op) => final(textarea)@ == op.applied(old(textarea)@) && t
                    == Transition::Mode(op.rest_spec()),
                _ => final(textarea)@ == old(textarea)@ && t == Transition::Nop,
            },
    {
        match self.mode {
            VimMode::Operator(op) => Self::complete_operator(op, textarea),
            _ => Transition::Nop,
        }
    }

    /// Enters Operator-Pending for `op`: a selection starts at the cursor
    /// and waits for the motion that ends it.
    pub fn enter_operator(op: Operator, textarea: &mut Buffer) -> (t: Transition)
        ensures
            final(textarea)@ == old(textarea)@.started(),
            t == Transition::Mode(VimMode::Operator(op)),
    {
        textarea.start_selection();
        Transition::Mode(VimMode::Operator(op))
    }

    /// Applies `op` to the selection: yank copies, delete and change cut;
    /// change leaves the engine in Insert, the others in Normal.
    pub fn complete_operator(op: Operator, textarea: &mut Buffer) -> (t: Transition)
        ensures
            final(textarea)@ == op.applied(old(textarea)@),
            t == Transition::Mode(op.rest_spec()),
    {
        match op {
            Operator::Yank => {
                textarea.copy();
                Transition::Mode(VimMode::Normal)
            },
            Operator::Delete => {
                textarea.cut();
                Transition::Mode(VimMode::Normal)
            },
            Operator::Change => {
                textarea.cut();
                Transition::Mode(VimMode::Insert)
            },
        }
    }

    /// The engine after the host has taken note of `transition`: a new mode
    /// empties the pending slot, a pending key fills it and keeps the mode,
    /// anything else keeps the mode and empties the slot.
    pub fn apply_transition(self, transition: Transition) -> (v: Vim)
        ensures
            v.mode == next_mode(self.mode, transition),
            v.pending == next_pending(transition),
    {
        match transition {
            Transition::Mode(new_mode) => Vim::new(new_mode),
            Transition::Pending(input) => self.with_pending(input),
            Transition::Nop => Vim::new(self.mode),
            Transition::ExitField => Vim::new(self.mode),
        }
    }
}

impl Command {
    /// Whether the command, given in `mode`, changes the text or leads to
    /// a mode that does.
    pub open spec fn edits_spec(self, mode: VimMode) -> bool {
        match self {
            Command::Type
            | Command::DeleteChar
            | Command::DeleteCharBefore
            | Command::DeleteToEnd
            | Command::ChangeToEnd
            | Command::Paste
            | Command::Undo
            | Command::Redo
            | Command::Insert
            | Command::Append
            | Command::AppendAtEnd
            | Command::InsertAtHead
            | Command::OpenBelow
            | Command::OpenAbove => true,
            Command::OperateLine(op) => !(op is Yank),
            Command::EnterOperator(op) => !(op is Yank),
            Command::VisualOperate(op) => !(op is Yank),
            Command::Move(_) => mode is Operator && !(mode->Operator_0 is Yank),
            _ => false,
        }
    }

    /// Whether the command, given in `mode`, changes the text or leads to
    /// a mode that does.
    pub fn edits(&self, mode: VimMode) -> (r: bool)
        ensures
            r == self.edits_spec(mode),
    {
        match self {
            Command::Type
            | Command::DeleteChar
            | Command::DeleteCharBefore
            | Command::DeleteToEnd
            | Command::ChangeToEnd
            | Command::Paste
            | Command::Undo
            | Command::Redo
            | Command::Insert
            | Command::Append
            | Command::AppendAtEnd
            | Command::InsertAtHead
            | Command::OpenBelow
            | Command::OpenAbove => true,
            Command::OperateLine(op) => !matches!(op, Operator::Yank),
            Command::EnterOperator(op) => !matches!(op, Operator::Yank),
            Command::VisualOperate(op) => !matches!(op, Operator::Yank),
            Command::Move(_) => match mode {
                VimMode::Operator(op) => !matches!(op, Operator::Yank),
                _ => false,
            },
            _ => false,
        }
    }
}

impl Vim {
    /// Handles one key for a buffer that is only to be read: as
    /// `transition`, but a key that would change the text, or lead to a mode
    /// that changes it, does nothing. The text is never changed.
    pub fn transition_read_only(&self, input: Input, textarea: &mut Buffer, single_line: bool) -> (t:
        Transition)
        ensures
            final(textarea)@.lines == old(textarea)@.lines,
            t is ExitField <==> self.mode is Normal && input.key == Key::Esc,
            if command_for(self.mode, self.pending, input, single_line).edits_spec(self.mode) {
                t == Transition::Nop && final(textarea)@ == old(textarea)@
            } else {
                ran(
                    command_for(self.mode, self.pending, input, single_line),
                    self.mode,
                    input,
                    old(textarea)@,
                    final(textarea)@,
                    t,
                )
            },
    {
        proof {
            lemma_exit_only_on_escape(self.mode, self.pending, input, single_line);
        }
        match input.key {
            Key::Null => Transition::Nop,
            _ => match self.mode {
                VimMode::Insert => match input.key {
                    Key::Esc => Transition::Mode(VimMode::Normal),
                    Key::Enter => Transition::Nop,
                    _ => match Self::scroll_in_insert(&input) {
                        Some(_) => Transition::Mode(VimMode::Insert),
                        None => Transition::Nop,
                    },
                },
                _ => {
                    let c = self.command(&input, single_line);
                    if c.edits(self.mode) {
                        Transition::Nop
                    } else {
                        self.perform(c, input, textarea)
                    }
                },
            },
        }
    }

    /// The scroll that the key asks of the view, if it asks for one. The
    /// engine leaves the buffer and its cursor alone on such a key; the
    /// scrolling is the host's.
    pub fn scroll_hint(&self, input: &Input, single_line: bool) -> (r: Option<Scroll>)
        ensures
            r == match command_for(self.mode, self.pending, *input, single_line) {
                Command::Scroll(by) => Some(by),
                _ => None,
            },
    {
        match input.key {
            Key::Null => None,
            _ => match self.mode {
                VimMode::Insert => match input.key {
                    Key::Esc => None,
                    _ => Self::scroll_in_insert(input),
                },
                _ => match self.command(input, single_line) {
                    Command::Scroll(by) => Some(by),
                    _ => None,
                },
            },
        }
    }

    /// What `transition`, or `transition_read_only` for a buffer that is
    /// only to be read, promises of a key.
    pub open spec fn heard(
        self,
        input: Input,
        single_line: bool,
        read_only: bool,
        pre: BufferView,
        post: BufferView,
        t: Transition,
    ) -> bool {
        let c = command_for(self.mode, self.pending, input, single_line);
        if read_only && c.edits_spec(self.mode) {
            t == Transition::Nop && post == pre
        } else {
            ran(c, self.mode, input, pre, post, t)
        }
    }

    /// One turn of the host loop: handles the key and takes note of what it
    /// did. Returns the engine for the next key, and whether editing of the
    /// field has ended, which it has on Escape in Normal and on nothing else.
    pub fn handle_key(self, input: Input, textarea: &mut Buffer, single_line: bool, read_only: bool) -> (r:
        (Vim, bool))
        ensures
            r.1 == (self.mode is Normal && input.key == Key::Esc),
            r.1 ==> final(textarea)@ == old(textarea)@,
            read_only ==> final(textarea)@.lines == old(textarea)@.lines,
            exists|t: Transition|
                {
                    &&& #[trigger] self.heard(
                        input,
                        single_line,
                        read_only,
                        old(textarea)@,
                        final(textarea)@,
                        t,
                    )
                    &&& r.0.mode == next_mode(self.mode, t)
                    &&& r.0.pending == next_pending(t)
                },
    {
        let mode = self.mode;
        let t = if read_only {
            self.transition_read_only(input, textarea, single_line)
        } else {
            self.transition(input, textarea, single_line)
        };
        let exit = matches!(t, Transition::ExitField);
        proof {
            assert(self.heard(input, single_line, read_only, old(textarea)@, textarea@, t));
            if exit && read_only {
                lemma_exit_only_on_escape(mode, self.pending, input, single_line);
            }
        }
        (self.apply_transition(t), exit)
    }
}

} // verus!
