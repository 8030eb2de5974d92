//! Coloring a JSON text: keys in cyan, other strings and literals in green,
//! punctuation and blanks plain. The text is scanned once, character by
//! character; it need not be valid JSON.
use crate::text::{blank, is_whitespace_char, to_chars};
use crate::ui::colors::{push_styled, styled, token_style};
use crate::ui::style::{cells_of, merged, Cell, Color, Line, Span, Style};
use crate::ui::wrap::{all_merged, lines_cells};
use vstd::prelude::*;

verus! {

/// The state of the scan.
pub struct JsonScan {
    /// The finished lines.
    pub lines: Seq<Seq<Cell>>,
    /// The cells of the line being built.
    pub row: Seq<Cell>,
    /// The characters read since the last cell was made.
    pub token: Seq<char>,
    /// Whether the scan is inside a string.
    pub in_string: bool,
    /// Whether the string being read is a key.
    pub key: bool,
    /// The open containers, innermost last: true for an object, false for an
    /// array.
    pub stack: Seq<bool>,
    /// Whether the next string is a key, if it stands in an object.
    pub expecting_key: bool,
}

/// The state before the first character.
pub open spec fn scan_start() -> JsonScan {
    JsonScan {
        lines: Seq::empty(),
        row: Seq::empty(),
        token: Seq::empty(),
        in_string: false,
        key: false,
        stack: Seq::empty(),
        expecting_key: false,
    }
}

/// The innermost open container is an object.
pub open spec fn in_object(stack: Seq<bool>) -> bool {
    stack.len() > 0 && stack.last()
}

/// The innermost open container is an array.
pub open spec fn in_array(stack: Seq<bool>) -> bool {
    stack.len() > 0 && !stack.last()
}

/// The color of a string: cyan for a key, green for any other.
pub open spec fn string_style(key: bool) -> Style {
    if key {
        Style::plain().with_fg(Color::Cyan)
    } else {
        Style::plain().with_fg(Color::Green)
    }
}

/// The state with the token made into cells of `style`.
pub open spec fn flushed(st: JsonScan, style: Style) -> JsonScan {
    JsonScan { row: st.row + styled(st.token, style), token: Seq::empty(), ..st }
}

/// The state with the token made into cells as a token outside a string,
/// and `c` behind it as a plain cell.
pub open spec fn punctuated(st: JsonScan, c: char) -> JsonScan {
    let f = flushed(st, token_style(st.token));
    JsonScan { row: f.row.push((c, Style::plain())), ..f }
}

/// The state after the character `c`.
pub open spec fn scan_step(st: JsonScan, c: char) -> JsonScan {
    if c == '"' && !st.in_string {
        JsonScan {
            in_string: true,
            key: st.expecting_key && in_object(st.stack),
            token: st.token.push(c),
            ..st
        }
    } else if c == '"' {
        let closed = JsonScan { token: st.token.push(c), ..st };
        JsonScan { in_string: false, key: false, ..flushed(closed, string_style(st.key)) }
    } else if c == '\n' {
        let f = flushed(st, Style::plain());
        JsonScan { lines: f.lines.push(f.row), row: Seq::empty(), ..f }
    } else if st.in_string {
        JsonScan { token: st.token.push(c), ..st }
    } else if c == '{' {
        let p = punctuated(st, c);
        JsonScan { stack: p.stack.push(true), expecting_key: true, ..p }
    } else if c == '}' {
        let p = punctuated(st, c);
        JsonScan {
            stack: if in_object(p.stack) {
                p.stack.drop_last()
            } else {
                p.stack
            },
            expecting_key: false,
            ..p
        }
    } else if c == '[' {
        let p = punctuated(st, c);
        JsonScan { stack: p.stack.push(false), expecting_key: false, ..p }
    } else if c == ']' {
        let p = punctuated(st, c);
        JsonScan {
            stack: if in_array(p.stack) {
                p.stack.drop_last()
            } else {
                p.stack
            },
            expecting_key: false,
            ..p
        }
    } else if c == ':' {
        JsonScan { expecting_key: false, ..punctuated(st, c) }
    } else if c == ',' {
        let p = punctuated(st, c);
        JsonScan { expecting_key: in_object(p.stack), ..p }
    } else if is_whitespace_char(c) {
        punctuated(st, c)
    } else {
        JsonScan { token: st.token.push(c), ..st }
    }
}

/// The state after the characters of `text`.
pub open spec fn scanned(text: Seq<char>) -> JsonScan
    decreases text.len(),
{
    if text.len() == 0 {
        scan_start()
    } else {
        scan_step(scanned(text.drop_last()), text.last())
    }
}

/// The lines of a finished scan: what is left of the token becomes cells,
/// and what is left of the row a line, unless it is empty.
pub open spec fn scan_lines(st: JsonScan) -> Seq<Seq<Cell>> {
    let f = flushed(st, token_style(st.token));
    if f.row.len() > 0 {
        f.lines.push(f.row)
    } else {
        f.lines
    }
}

/// The colored lines of a JSON text. A string is colored when it closes; a
/// token before a line feed stays plain.
pub fn colorize_json(json: &str) -> (out: Vec<Line>)
    ensures
        lines_cells(out@) == scan_lines(scanned(json@)),
        all_merged(out@),
{
    let chars = to_chars(json);
    let mut lines: Vec<Line> = Vec::new();
    let mut current: Vec<Span> = Vec::new();
    let mut token: Vec<char> = Vec::new();
    let mut in_string = false;
    let mut key = false;
    let mut stack: Vec<bool> = Vec::new();
    let mut expecting_key = false;
    let mut i: usize = 0;
    proof {
        assert(chars@.take(0) =~= Seq::<char>::empty());
        assert(lines_cells(lines@) =~= Seq::<Seq<Cell>>::empty());
        assert(cells_of(current@) =~= Seq::<Cell>::empty());
    }
    while i < chars.len()
        invariant
            i <= chars.len(),
            chars@ == json@,
            all_merged(lines@),
            merged(current@),
            scanned(chars@.take(i as int)) == (JsonScan {
                lines: lines_cells(lines@),
                row: cells_of(current@),
                token: token@,
                in_string,
                key,
                stack: stack@,
                expecting_key,
            }),
        decreases chars.len() - i,
    {
        let c = chars[i];
        let ghost before = scanned(chars@.take(i as int));
        proof {
            assert(chars@.take(i + 1).drop_last() =~= chars@.take(i as int));
            assert(chars@.take(i + 1).last() == c);
        }
        let in_obj = stack.len() > 0 && stack[stack.len() - 1];
        let in_arr = stack.len() > 0 && !stack[stack.len() - 1];
        if c == '"' && !in_string {
            in_string = true;
            key = expecting_key && in_obj;
            token.push(c);
        } else if c == '"' {
            token.push(c);
            let style = if key {
                Style::new().fg(Color::Cyan)
            } else {
                Style::new().fg(Color::Green)
            };
            push_styled(&mut current, &token, style);
            token = Vec::new();
            in_string = false;
            key = false;
        } else if c == '\n' {
            push_styled(&mut current, &token, Style::new());
            token = Vec::new();
            let ghost held = lines_cells(lines@);
            let ghost row = cells_of(current@);
            let spans = current;
            lines.push(Line::from_spans(spans));
            current = Vec::new();
            proof {
                assert(lines_cells(lines@) =~~= held.push(row));
                assert(cells_of(current@) =~= Seq::<Cell>::empty());
            }
        } else if in_string {
            token.push(c);
        } else if c == '{' || c == '}' || c == '[' || c == ']' || c == ':' || c == ','
            || c.is_whitespace() {
            let style = if blank(&token) {
                Style::new()
            } else {
                Style::new().fg(Color::Green)
            };
            push_styled(&mut current, &token, style);
            token = Vec::new();
            let ghost held = cells_of(current@);
            let mut one: Vec<char> = Vec::new();
            one.push(c);
            push_styled(&mut current, &one, Style::new());
            proof {
                assert(styled(one@, Style::plain()) =~= seq![(c, Style::plain())]);
                assert(cells_of(current@) =~= held.push((c, Style::plain())));
            }
            if c == '{' {
                stack.push(true);
                expecting_key = true;
            } else if c == '}' {
                if in_obj {
                    stack.pop();
                }
                expecting_key = false;
            } else if c == '[' {
                stack.push(false);
                expecting_key = false;
            } else if c == ']' {
                if in_arr {
                    stack.pop();
                }
                expecting_key = false;
            } else if c == ':' {
                expecting_key = false;
            } else if c == ',' {
                expecting_key = in_obj;
            }
        } else {
            token.push(c);
        }
        i += 1;
    }
    proof {
        assert(chars@.take(i as int) =~= chars@);
    }
    let style = if blank(&token) {
        Style::new()
    } else {
        Style::new().fg(Color::Green)
    };
    push_styled(&mut current, &token, style);
    if current.len() > 0 {
        let ghost held = lines_cells(lines@);
        let ghost row = cells_of(current@);
        proof {
            lemma_cells_nonempty(current@);
        }
        lines.push(Line::from_spans(current));
        proof {
            assert(lines_cells(lines@) =~~= held.push(row));
        }
    } else {
        proof {
            assert(cells_of(current@) =~= Seq::<Cell>::empty());
        }
    }
    lines
}

/// Merged spans that are there have cells.
pub proof fn lemma_cells_nonempty(spans: Seq<Span>)
    requires
        merged(spans),
        spans.len() > 0,
    ensures
        cells_of(spans).len() > 0,
{
    assert(spans.last().content@.len() > 0);
}

} // verus!
