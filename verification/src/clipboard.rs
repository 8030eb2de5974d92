//! The yank slot of a buffer and the system clipboard: what goes from one
//! to the other. The clipboard itself is the host's; here are the rules.
use crate::buffer::{handed_lines, join_lines, Buffer, BufferView};
use crate::vim::VimMode;
use vstd::prelude::*;

verus! {

/// Whether pasting in `mode` ends the mode: Visual and Operator-Pending
/// give way to Normal.
pub open spec fn paste_ends_mode(mode: VimMode) -> bool {
    mode is Visual || mode is Operator
}

/// The buffer after a paste of `clipboard` in `mode`. With a clipboard the
/// yank slot takes its text first; in Insert the text is typed, in the
/// other modes the yank slot is pasted. Without a clipboard the yank slot
/// stands in; in Insert an empty slot types nothing.
pub open spec fn pasted_from(v: BufferView, mode: VimMode, clipboard: Option<Seq<char>>) -> BufferView {
    match clipboard {
        Some(text) => {
            let y = BufferView { yank: handed_lines(text), ..v };
            if mode is Insert {
                y.typed(handed_lines(text))
            } else {
                y.pasted()
            }
        },
        None => if mode is Insert {
            if join_lines(v.yank).len() == 0 {
                v
            } else {
                v.typed(handed_lines(join_lines(v.yank)))
            }
        } else {
            v.pasted()
        },
    }
}

/// Pastes from the system clipboard, whose text is `clipboard` where it
/// could be read. Says whether the mode is to give way to Normal.
pub fn paste_from_clipboard(buffer: &mut Buffer, mode: VimMode, clipboard: Option<&str>) -> (exit:
    bool)
    ensures
        final(buffer)@ == pasted_from(
            old(buffer)@,
            mode,
            match clipboard {
                Some(t) => Some(t@),
                None => None,
            },
        ),
        exit == (paste_ends_mode(mode) && !(mode is Insert)),
{
    let insert = matches!(mode, VimMode::Insert);
    let ends = matches!(mode, VimMode::Visual | VimMode::Operator(_));
    match clipboard {
        Some(text) => {
            buffer.set_yank_text(text);
            if insert {
                buffer.insert_str(text);
                false
            } else {
                buffer.paste();
                ends
            }
        },
        None => {
            if insert {
                let fallback = buffer.yank_text();
                if fallback.as_str().unicode_len() > 0 {
                    buffer.insert_str(fallback.as_str());
                }
                false
            } else {
                buffer.paste();
                ends
            }
        },
    }
}

/// Copies the selection for the system clipboard: with a selection going
/// on, it goes to the yank slot and its text is returned; without one
/// nothing happens.
pub fn copy_for_clipboard(buffer: &mut Buffer) -> (text: Option<String>)
    ensures
        old(buffer)@.anchor is Some ==> final(buffer)@ == old(buffer)@.copied() && text is Some
            && text->0@ == join_lines(final(buffer)@.yank),
        old(buffer)@.anchor is None ==> final(buffer)@ == old(buffer)@ && text is None,
{
    if buffer.is_selecting() {
        buffer.copy();
        Some(buffer.yank_text())
    } else {
        None
    }
}

/// The yank slot's text if it differs from `last`, the text that went to
/// the system clipboard before.
pub fn changed_yank(buffer: &Buffer, last: &str) -> (text: Option<String>)
    ensures
        match text {
            Some(t) => t@ == join_lines(buffer@.yank) && t@ != last@,
            None => join_lines(buffer@.yank) == last@,
        },
{
    let yank = buffer.yank_text();
    if crate::app::text_is(yank.as_str(), last) {
        None
    } else {
        Some(yank)
    }
}

} // verus!
