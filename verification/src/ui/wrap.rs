//! Wrapping styled lines to the width of the view, with the place of the
//! cursor in the wrapped result.
//!
//! The wrap is a raw column wrap: a character goes to the current display row
//! unless it would pass the width and the row already holds something. The
//! width of a character is what `unicode-width` says; that table is not
//! restated here but goes by the name `char_columns`.
use crate::text::to_chars;
use crate::ui::style::{cells_of, lemma_cells_push, merged, span_cells, Cell, Color, Line, Span, Style};
use unicode_width::UnicodeWidthChar;
use vstd::prelude::*;

verus! {

/// The number of terminal columns that `c` takes; `None` for a control character.
pub uninterp spec fn char_columns(c: char) -> Option<nat>;

/// A width as the crate hands it out, as a natural number.
pub open spec fn columns_view(w: Option<usize>) -> Option<nat> {
    match w {
        Some(n) => Some(n as nat),
        None => None,
    }
}

/// `UnicodeWidthChar::width`: the displayed width of `c` in columns, `None`
/// for a control character. The printable ASCII characters, U+0020 to
/// U+007E, take one column; the control characters are those below U+0020
/// and those from U+007F up to U+00A0; from U+00A0 on every character has a
/// width.
#[verifier::external_body]
fn raw_char_width(c: char) -> (w: Option<usize>)
    ensures
        columns_view(w) == char_columns(c),
        '\u{20}' <= c && c <= '\u{7e}' ==> w == Some(1usize),
        c < '\u{20}' || ('\u{7f}' <= c && c < '\u{a0}') ==> w is None,
        c >= '\u{a0}' ==> w is Some,
{
    UnicodeWidthChar::width(c)
}

/// The columns that `c` takes on a display row; a control character takes none.
pub open spec fn cell_width(c: char) -> nat {
    match char_columns(c) {
        Some(n) => n,
        None => 0,
    }
}

/// The columns that `c` takes on a display row: one for a printable ASCII
/// character, none for a control character.
pub fn char_width(c: char) -> (w: usize)
    ensures
        w == cell_width(c),
        '\u{20}' <= c && c <= '\u{7e}' ==> w == 1,
        c < '\u{20}' || ('\u{7f}' <= c && c < '\u{a0}') ==> w == 0,
{
    match raw_char_width(c) {
        Some(n) => n,
        None => 0,
    }
}

/// The columns that a display row takes.
pub open spec fn row_width(row: Seq<Cell>) -> nat
    decreases row.len(),
{
    if row.len() == 0 {
        0
    } else {
        row_width(row.drop_last()) + cell_width(row.last().0)
    }
}

/// The display rows of `cells` at `width`: each cell goes to the last row,
/// unless it would pass the width there and the row is not empty; then it
/// opens a new row. There is always a row, also for no cells.
pub open spec fn wrap_rows(cells: Seq<Cell>, width: nat) -> Seq<Seq<Cell>>
    decreases cells.len(),
{
    if cells.len() == 0 {
        seq![Seq::<Cell>::empty()]
    } else {
        let rows = wrap_rows(cells.drop_last(), width);
        let c = cells.last();
        let w = row_width(rows.last());
        if w + cell_width(c.0) > width && w > 0 {
            rows.push(seq![c])
        } else {
            rows.update(rows.len() - 1, rows.last().push(c))
        }
    }
}

/// A range of columns as naturals.
pub open spec fn range_view(r: Option<(usize, usize)>) -> Option<(nat, nat)> {
    match r {
        Some(p) => Some((p.0 as nat, p.1 as nat)),
        None => None,
    }
}

/// Column `i` lies in the range: from its start up to, not including, its end.
pub open spec fn in_range(range: Option<(nat, nat)>, i: int) -> bool {
    match range {
        Some(r) => r.0 <= i && i < r.1,
        None => false,
    }
}

/// `cells` with the cells in `range` painted as selected.
pub open spec fn painted(cells: Seq<Cell>, range: Option<(nat, nat)>) -> Seq<Cell> {
    Seq::new(
        cells.len(),
        |i: int|
            (
                cells[i].0,
                if in_range(range, i) {
                    cells[i].1.selected()
                } else {
                    cells[i].1
                },
            ),
    )
}

/// Where the cursor at column `col` shows among the display rows of `cells`:
/// on the cell at that column, that is on the row where the cell was placed
/// and at the columns which that row had taken before it. A column at or
/// behind the end shows behind the last cell.
pub open spec fn cursor_cell(cells: Seq<Cell>, width: nat, col: nat) -> (nat, nat) {
    if col < cells.len() {
        let rows = wrap_rows(cells.take(col as int + 1), width);
        ((rows.len() - 1) as nat, row_width(rows.last().drop_last()))
    } else {
        let rows = wrap_rows(cells, width);
        ((rows.len() - 1) as nat, row_width(rows.last()))
    }
}

/// The cells of each of `rows`.
pub open spec fn rows_cells(rows: Seq<Vec<Span>>) -> Seq<Seq<Cell>> {
    Seq::new(rows.len(), |k: int| cells_of(rows[k]@))
}

/// A place on the display as naturals.
pub open spec fn place_view(p: Option<(usize, usize)>) -> Option<(nat, nat)> {
    match p {
        Some(p) => Some((p.0 as nat, p.1 as nat)),
        None => None,
    }
}

/// The width that the wrap works with: at least one column.
pub open spec fn effective_width(width: usize) -> nat {
    if width == 0 {
        1
    } else {
        width as nat
    }
}

/// The part of `selection` that lies on row `row`, as a range of columns:
/// from the selection's start column on its first row, from 0 on the others,
/// to its end column on its last row, to `line_len` on the others. `None`
/// where the row lies outside the selection or the range is empty.
pub open spec fn selection_on_row(
    selection: Option<((usize, usize), (usize, usize))>,
    row: usize,
    line_len: usize,
) -> Option<(usize, usize)> {
    match selection {
        None => None,
        Some(((start_row, start_col), (end_row, end_col))) => {
            let start = if row == start_row {
                start_col
            } else {
                0
            };
            let end = if row == end_row {
                end_col
            } else {
                line_len
            };
            if row < start_row || row > end_row || start >= end {
                None
            } else {
                Some((start, end))
            }
        },
    }
}

pub fn selection_range_for_row(
    selection: Option<((usize, usize), (usize, usize))>,
    row: usize,
    line_len: usize,
) -> (r: Option<(usize, usize)>)
    ensures
        r == selection_on_row(selection, row, line_len),
{
    match selection {
        None => None,
        Some(((start_row, start_col), (end_row, end_col))) => {
            if row < start_row || row > end_row {
                return None;
            }
            let start = if row == start_row {
                start_col
            } else {
                0
            };
            let end = if row == end_row {
                end_col
            } else {
                line_len
            };
            if start >= end {
                None
            } else {
                Some((start, end))
            }
        },
    }
}

/// The number of characters of a line, capped at what a `usize` holds.
pub open spec fn capped_len(cells: Seq<Cell>) -> usize {
    if cells.len() <= usize::MAX {
        cells.len() as usize
    } else {
        usize::MAX
    }
}

/// `row_width` of a row with one more cell.
pub proof fn lemma_row_width_push(row: Seq<Cell>, c: Cell)
    ensures
        row_width(row.push(c)) == row_width(row) + cell_width(c.0),
{
    assert(row.push(c).drop_last() =~= row);
}

/// `wrap_rows` of cells with one more cell.
pub proof fn lemma_wrap_rows_push(cells: Seq<Cell>, c: Cell, width: nat)
    ensures
        wrap_rows(cells, width).len() >= 1,
        wrap_rows(cells.push(c), width) == ({
            let rows = wrap_rows(cells, width);
            let w = row_width(rows.last());
            if w + cell_width(c.0) > width && w > 0 {
                rows.push(seq![c])
            } else {
                rows.update(rows.len() - 1, rows.last().push(c))
            }
        }),
    decreases cells.len(),
{
    assert(cells.push(c).drop_last() =~= cells);
    if cells.len() > 0 {
        lemma_wrap_rows_push(cells.drop_last(), cells.last(), width);
        assert(cells.drop_last().push(cells.last()) =~= cells);
    }
}

/// The cells of a run of spans start with the cells of each of its prefixes;
/// behind the cells of the first `k` spans come those of span `k`.
pub proof fn lemma_cells_prefix(spans: Seq<Span>, k: int)
    requires
        0 <= k < spans.len(),
    ensures
        cells_of(spans.take(k + 1)) == cells_of(spans.take(k)) + span_cells(spans[k]),
        cells_of(spans.take(k + 1)).len() <= cells_of(spans).len(),
        cells_of(spans).take(cells_of(spans.take(k + 1)).len() as int) == cells_of(
            spans.take(k + 1),
        ),
    decreases spans.len() - k,
{
    assert(spans.take(k + 1).drop_last() =~= spans.take(k));
    if k + 1 == spans.len() {
        assert(spans.take(k + 1) =~= spans);
        assert(cells_of(spans).take(cells_of(spans).len() as int) =~= cells_of(spans));
    } else {
        lemma_cells_prefix(spans, k + 1);
        let longer = cells_of(spans.take(k + 2));
        let this = cells_of(spans.take(k + 1));
        assert(longer == this + span_cells(spans[k + 1]));
        assert(cells_of(spans).take(longer.len() as int) == longer);
        assert(cells_of(spans).take(this.len() as int) =~= longer.take(this.len() as int));
        assert(longer.take(this.len() as int) =~= this);
    }
}

/// Adds `ch` in `style` to the end of `spans`: to the last span where that
/// has the same style, as a new span otherwise.
pub fn push_span_char(spans: &mut Vec<Span>, style: Style, ch: char)
    ensures
        cells_of(final(spans)@) == cells_of(old(spans)@).push((ch, style)),
        merged(old(spans)@) ==> merged(final(spans)@),
{
    let n = spans.len();
    let ghost before = spans@;
    if n > 0 && spans[n - 1].style == style {
        let last = spans.pop();
        match last {
            Some(mut last) => {
                let ghost was = last;
                last.content.push(ch);
                spans.push(last);
                proof {
                    assert(before.drop_last().push(was) =~= before);
                    lemma_cells_push(before.drop_last(), was);
                    lemma_cells_push(before.drop_last(), last);
                    assert(span_cells(last) =~= span_cells(was).push((ch, style)));
                    assert(cells_of(spans@) =~= cells_of(before).push((ch, style)));
                    if merged(before) {
                        assert forall|i: int| 0 <= i < spans@.len() implies (
                        #[trigger] spans@[i]).content@.len() > 0 by {
                            if i < n - 1 {
                                assert(spans@[i] == before[i]);
                            }
                        }
                        assert forall|i: int| 0 <= i < spans@.len() - 1 implies (
                        #[trigger] spans@[i]).style != spans@[i + 1].style by {
                            assert(spans@[i] == before[i]);
                            assert(spans@[i + 1].style == before[i + 1].style);
                        }
                    }
                }
            },
            None => {},
        }
    } else {
        let mut content = String::new();
        content.push(ch);
        let span = Span::styled(content, style);
        spans.push(span);
        proof {
            lemma_cells_push(before, span);
            assert(span_cells(span) =~= seq![(ch, style)]);
            assert(cells_of(spans@) =~= cells_of(before).push((ch, style)));
            if merged(before) {
                assert forall|i: int| 0 <= i < spans@.len() implies (#[trigger] spans@[i]).content@.len()
                    > 0 by {
                    if i < n {
                        assert(spans@[i] == before[i]);
                    }
                }
                assert forall|i: int| 0 <= i < spans@.len() - 1 implies (#[trigger] spans@[i]).style
                    != spans@[i + 1].style by {
                    assert(spans@[i] == before[i]);
                    if i + 1 < n {
                        assert(spans@[i + 1] == before[i + 1]);
                    }
                }
            }
        }
    }
}

/// How far the scan of a line still is from the cursor column: the columns
/// still to go while the cursor lies ahead, nothing once it was placed.
pub open spec fn cursor_pending(cursor_col: Option<usize>, idx: nat) -> Option<usize> {
    match cursor_col {
        Some(c) => if idx <= c {
            Some((c - idx) as usize)
        } else {
            None
        },
        None => None,
    }
}

/// The cursor's place, once the scan has passed its column.
pub open spec fn cursor_placed(
    cells: Seq<Cell>,
    width: nat,
    cursor_col: Option<usize>,
    idx: nat,
) -> Option<(nat, nat)> {
    match cursor_col {
        Some(c) => if idx <= c {
            None
        } else {
            Some(cursor_cell(cells, width, c as nat))
        },
        None => None,
    }
}

/// The first column of a range; 0 for none.
pub open spec fn range_start(r: Option<(usize, usize)>) -> usize {
    match r {
        Some(p) => p.0,
        None => 0,
    }
}

/// The column behind a range; 0 for none.
pub open spec fn range_end(r: Option<(usize, usize)>) -> usize {
    match r {
        Some(p) => p.1,
        None => 0,
    }
}

/// `a - b`, or 0 where `b` is larger.
pub open spec fn left_of(a: usize, b: nat) -> usize {
    if b <= a {
        (a - b) as usize
    } else {
        0
    }
}

/// Wraps the spans of one logical line to `width` columns (at least one).
/// Returns the display rows, each as merged spans, and the cursor's display
/// row and column within this line where `cursor_col` is given. Characters in
/// `selection` are painted as selected.
pub fn wrap_line_spans_with_cursor(
    spans: &Vec<Span>,
    width: usize,
    cursor_col: Option<usize>,
    selection: Option<(usize, usize)>,
) -> (out: (Vec<Vec<Span>>, Option<(usize, usize)>))
    ensures
        rows_cells(out.0@) == wrap_rows(
            painted(cells_of(spans@), range_view(selection)),
            effective_width(width),
        ),
        forall|k: int| 0 <= k < out.0@.len() ==> merged((#[trigger] out.0@[k])@),
        place_view(out.1) == match cursor_col {
            Some(c) => Some(
                cursor_cell(
                    painted(cells_of(spans@), range_view(selection)),
                    effective_width(width),
                    c as nat,
                ),
            ),
            None => None,
        },
{
    let width = if width == 0 {
        1
    } else {
        width
    };
    let ghost w = width as nat;
    let ghost all = painted(cells_of(spans@), range_view(selection));
    let mut lines: Vec<Vec<Span>> = Vec::new();
    let mut current: Vec<Span> = Vec::new();
    let mut current_width: usize = 0;
    let mut cursor_pos: Option<(usize, usize)> = None;
    let mut cursor_left: Option<usize> = cursor_col;
    let mut start_left: usize = 0;
    let mut end_left: usize = 0;
    match selection {
        Some(range) => {
            start_left = range.0;
            end_left = range.1;
        },
        None => {},
    }
    let ghost mut idx: nat = 0;
    proof {
        assert(all.take(0) =~= Seq::<Cell>::empty());
        assert(rows_cells(lines@).push(cells_of(current@)) =~~= wrap_rows(all.take(0), w));
        assert(spans@.take(0) =~= Seq::<Span>::empty());
    }
    let mut si: usize = 0;
    while si < spans.len()
        invariant
            si <= spans.len(),
            w == width,
            w >= 1,
            all == painted(cells_of(spans@), range_view(selection)),
            idx == cells_of(spans@.take(si as int)).len(),
            idx <= all.len(),
            rows_cells(lines@).push(cells_of(current@)) == wrap_rows(all.take(idx as int), w),
            current_width == row_width(cells_of(current@)),
            merged(current@),
            forall|k: int| 0 <= k < lines@.len() ==> merged((#[trigger] lines@[k])@),
            cursor_left == cursor_pending(cursor_col, idx),
            place_view(cursor_pos) == cursor_placed(all, w, cursor_col, idx),
            start_left == left_of(range_start(selection), idx),
            end_left == left_of(range_end(selection), idx),
        decreases spans.len() - si,
    {
        let chars = to_chars(spans[si].content.as_str());
        let base_style = spans[si].style;
        let ghost base = idx;
        proof {
            lemma_cells_prefix(spans@, si as int);
        }
        let mut ci: usize = 0;
        while ci < chars.len()
            invariant
                si < spans.len(),
                ci <= chars.len(),
                chars@ == spans@[si as int].content@,
                base_style == spans@[si as int].style,
                w == width,
                w >= 1,
                all == painted(cells_of(spans@), range_view(selection)),
                base == cells_of(spans@.take(si as int)).len(),
                cells_of(spans@.take(si + 1)) == cells_of(spans@.take(si as int)) + span_cells(
                    spans@[si as int],
                ),
                cells_of(spans@).take(cells_of(spans@.take(si + 1)).len() as int) == cells_of(
                    spans@.take(si + 1),
                ),
                cells_of(spans@.take(si + 1)).len() <= cells_of(spans@).len(),
                idx == base + ci,
                idx <= all.len(),
                rows_cells(lines@).push(cells_of(current@)) == wrap_rows(all.take(idx as int), w),
                current_width == row_width(cells_of(current@)),
                merged(current@),
                forall|k: int| 0 <= k < lines@.len() ==> merged((#[trigger] lines@[k])@),
                cursor_left == cursor_pending(cursor_col, idx),
                place_view(cursor_pos) == cursor_placed(all, w, cursor_col, idx),
                start_left == left_of(range_start(selection), idx),
                end_left == left_of(range_end(selection), idx),
            decreases chars.len() - ci,
        {
            let ch = chars[ci];
            let ghost raw = cells_of(spans@);
            proof {
                let upto = cells_of(spans@.take(si + 1));
                assert(upto[idx as int] == span_cells(spans@[si as int])[ci as int]);
                assert(raw.take(upto.len() as int)[idx as int] == raw[idx as int]);
                assert(raw[idx as int] == (ch, base_style));
            }
            let ch_width = char_width(ch);
            let over = ch_width > width || current_width > width - ch_width;
            let ghost rows_before = rows_cells(lines@).push(cells_of(current@));
            if over && current_width > 0 {
                let row = current;
                lines.push(row);
                current = Vec::new();
                current_width = 0;
                proof {
                    assert(rows_cells(lines@) =~~= rows_before);
                    assert(cells_of(current@) =~= Seq::<Cell>::empty());
                }
            }
            let selected = start_left == 0 && end_left > 0;
            let style = if selected {
                base_style.bg(Color::LightBlue)
            } else {
                base_style
            };
            let ghost cell = (ch, style);
            proof {
                assert(in_range(range_view(selection), idx as int) == selected);
                assert(all[idx as int] == cell);
                assert(all.take(idx as int + 1) =~= all.take(idx as int).push(cell));
                lemma_wrap_rows_push(all.take(idx as int), cell, w);
                lemma_row_width_push(cells_of(current@), cell);
            }
            let ghost held = cells_of(current@);
            let ghost closed = rows_cells(lines@);
            // the cursor shows on its character: on the row where the
            // character goes, behind what the row holds before it
            match cursor_left {
                Some(left) => {
                    if left == 0 {
                        cursor_pos = Some((lines.len(), current_width));
                        cursor_left = None;
                    } else {
                        cursor_left = Some(left - 1);
                    }
                },
                None => {},
            }
            push_span_char(&mut current, style, ch);
            current_width = current_width + ch_width;
            if start_left > 0 {
                start_left = start_left - 1;
            }
            if end_left > 0 {
                end_left = end_left - 1;
            }
            ci = ci + 1;
            proof {
                assert(rows_cells(lines@) == closed);
                let rows = closed.push(held.push(cell));
                assert(rows =~~= wrap_rows(all.take(idx as int + 1), w));
                assert(rows.last().drop_last() =~= held);
                assert(rows.len() == lines@.len() + 1);
                idx = idx + 1;
            }
        }
        si = si + 1;
        proof {
            assert(chars@.len() == span_cells(spans@[si - 1]).len());
        }
    }
    proof {
        assert(spans@.take(si as int) =~= spans@);
        assert(all.take(idx as int) =~= all);
    }
    match cursor_left {
        Some(_) => {
            cursor_pos = Some((lines.len(), current_width));
            proof {
                assert(rows_cells(lines@).push(cells_of(current@)).len() == lines@.len() + 1);
                assert(rows_cells(lines@).push(cells_of(current@)).last() == cells_of(current@));
                assert(wrap_rows(all.take(idx as int), w) == wrap_rows(all, w));
            }
        },
        None => {},
    }
    let ghost closed = rows_cells(lines@);
    let ghost held = cells_of(current@);
    lines.push(current);
    proof {
        assert(rows_cells(lines@) =~~= closed.push(held));
    }
    (lines, cursor_pos)
}

/// The number of characters of `line`, capped at what a `usize` holds.
pub fn line_char_len(line: &Line) -> (n: usize)
    ensures
        n == capped_len(line.cells()),
{
    let mut total: usize = 0;
    let mut i: usize = 0;
    proof {
        assert(line.spans@.take(0) =~= Seq::<Span>::empty());
    }
    while i < line.spans.len()
        invariant
            i <= line.spans.len(),
            total == capped_len(cells_of(line.spans@.take(i as int))),
        decreases line.spans.len() - i,
    {
        let n = line.spans[i].content.as_str().unicode_len();
        proof {
            lemma_cells_prefix(line.spans@, i as int);
        }
        total = total.saturating_add(n);
        i = i + 1;
    }
    proof {
        assert(line.spans@.take(i as int) =~= line.spans@);
    }
    total
}

/// The display rows of one logical line: its cells, painted where
/// `selection` covers them, wrapped to `width`.
pub open spec fn line_rows(
    line: Line,
    row: usize,
    width: usize,
    selection: Option<((usize, usize), (usize, usize))>,
) -> Seq<Seq<Cell>> {
    wrap_rows(line_cells(line, row, selection), effective_width(width))
}

/// The cells of logical line `row`, painted where `selection` covers them.
pub open spec fn line_cells(
    line: Line,
    row: usize,
    selection: Option<((usize, usize), (usize, usize))>,
) -> Seq<Cell> {
    painted(
        line.cells(),
        range_view(selection_on_row(selection, row, capped_len(line.cells()))),
    )
}

/// The display rows of the logical lines, one after the other.
pub open spec fn wrapped_rows(
    lines: Seq<Line>,
    width: usize,
    selection: Option<((usize, usize), (usize, usize))>,
) -> Seq<Seq<Cell>>
    decreases lines.len(),
{
    if lines.len() == 0 {
        Seq::empty()
    } else {
        wrapped_rows(lines.drop_last(), width, selection) + line_rows(
            lines.last(),
            (lines.len() - 1) as usize,
            width,
            selection,
        )
    }
}

/// What the view shows of `lines`: their display rows, or a single empty
/// row where there is nothing to show.
pub open spec fn display_rows(
    lines: Seq<Line>,
    width: usize,
    selection: Option<((usize, usize), (usize, usize))>,
) -> Seq<Seq<Cell>> {
    if lines.len() == 0 {
        seq![Seq::<Cell>::empty()]
    } else {
        wrapped_rows(lines, width, selection)
    }
}

/// Where the cursor shows among the display rows, as column and row: on
/// the character at its column, where that character was placed. A cursor
/// below the last line counts as on the last line, a column at or behind
/// the end of its line shows behind the line's last character; with no
/// lines it shows at the origin.
pub open spec fn display_cursor(
    lines: Seq<Line>,
    width: usize,
    cursor: Option<(usize, usize)>,
    selection: Option<((usize, usize), (usize, usize))>,
) -> Option<(nat, nat)> {
    match cursor {
        None => None,
        Some(at) => if lines.len() == 0 {
            Some((0nat, 0nat))
        } else {
            let row = if at.0 < lines.len() {
                at.0
            } else {
                (lines.len() - 1) as usize
            };
            let within = cursor_cell(
                line_cells(lines[row as int], row, selection),
                effective_width(width),
                at.1 as nat,
            );
            Some((within.1, wrapped_rows(lines.take(row as int), width, selection).len() + within.0))
        },
    }
}

/// The cells of each of `lines`.
pub open spec fn lines_cells(lines: Seq<Line>) -> Seq<Seq<Cell>> {
    Seq::new(lines.len(), |k: int| lines[k].cells())
}

/// Every line's spans are merged.
pub open spec fn all_merged(lines: Seq<Line>) -> bool {
    forall|k: int| 0 <= k < lines.len() ==> merged((#[trigger] lines[k]).spans@)
}

/// `wrapped_rows` of the lines up to and with line `k`.
pub proof fn lemma_wrapped_rows_take(
    lines: Seq<Line>,
    k: int,
    width: usize,
    selection: Option<((usize, usize), (usize, usize))>,
)
    requires
        0 <= k < lines.len(),
    ensures
        wrapped_rows(lines.take(k + 1), width, selection) == wrapped_rows(
            lines.take(k),
            width,
            selection,
        ) + line_rows(lines[k], k as usize, width, selection),
{
    assert(lines.take(k + 1).drop_last() =~= lines.take(k));
}

/// Wraps `lines` to `width` columns. Returns the display rows, and where the
/// cursor shows among them as (column, row).
pub fn wrap_lines_with_cursor(
    lines: &Vec<Line>,
    width: usize,
    cursor: Option<(usize, usize)>,
    selection: Option<((usize, usize), (usize, usize))>,
) -> (out: (Vec<Line>, Option<(usize, usize)>))
    ensures
        lines_cells(out.0@) == display_rows(lines@, width, selection),
        all_merged(out.0@),
        place_view(out.1) == display_cursor(lines@, width, cursor, selection),
{
    let mut wrapped: Vec<Line> = Vec::new();
    let mut cursor_pos: Option<(usize, usize)> = None;
    let mut row: usize = 0;
    proof {
        assert(lines@.take(0) =~= Seq::<Line>::empty());
        assert(lines_cells(wrapped@) =~~= wrapped_rows(lines@.take(0), width, selection));
    }
    while row < lines.len()
        invariant
            row <= lines.len(),
            lines_cells(wrapped@) == wrapped_rows(lines@.take(row as int), width, selection),
            all_merged(wrapped@),
            place_view(cursor_pos) == match cursor {
                Some(at) => if at.0 < row || (row == lines.len() && row > 0) {
                    display_cursor(lines@, width, cursor, selection)
                } else {
                    None
                },
                None => None,
            },
        decreases lines.len() - row,
    {
        let line = &lines[row];
        let line_len = line_char_len(line);
        let selection_range = selection_range_for_row(selection, row, line_len);
        let last = row + 1 == lines.len();
        let cursor_col = match cursor {
            Some(at) => if at.0 == row || (last && at.0 > row) {
                Some(at.1)
            } else {
                None
            },
            None => None,
        };
        let (parts, line_cursor) = wrap_line_spans_with_cursor(
            &line.spans,
            width,
            cursor_col,
            selection_range,
        );
        let base = wrapped.len();
        let ghost before = wrapped@;
        let ghost rows = rows_cells(parts@);
        proof {
            lemma_wrapped_rows_take(lines@, row as int, width, selection);
            lemma_wrap_rows_push(Seq::empty(), (' ', Style::plain()), effective_width(width));
            lemma_rows_nonempty(line_cells(*line, row, selection), effective_width(width));
        }
        for spans in it: parts.into_iter()
            invariant
                it.seq() == parts@,
                wrapped@.len() == base + it.index(),
                lines_cells(wrapped@) == lines_cells(before) + rows_cells(parts@).take(
                    it.index() as int,
                ),
                all_merged(wrapped@),
                forall|k: int| 0 <= k < parts@.len() ==> merged((#[trigger] parts@[k])@),
        {
            let ghost held = lines_cells(wrapped@);
            wrapped.push(Line::from_spans(spans));
            proof {
                let k = it.index() as int;
                assert(spans == parts@[k]);
                assert(lines_cells(wrapped@) =~~= held.push(cells_of(spans@)));
                assert(rows_cells(parts@).take(k + 1) =~~= rows_cells(parts@).take(k).push(
                    cells_of(spans@),
                ));
                assert(lines_cells(wrapped@) =~~= lines_cells(before) + rows_cells(parts@).take(
                    k + 1,
                ));
            }
        }
        let total = wrapped.len();
        proof {
            assert(rows.take(rows.len() as int) =~= rows);
            assert(total == base + rows.len());
        }
        match line_cursor {
            Some(within) => {
                proof {
                    let cells = line_cells(*line, row, selection);
                    let col = cursor_col->0 as nat;
                    let k = if col < cells.len() {
                        col as int + 1
                    } else {
                        cells.len() as int
                    };
                    assert(cells.take(cells.len() as int) =~= cells);
                    lemma_rows_monotone(cells, k, effective_width(width));
                    assert(within.0 < rows.len());
                }
                cursor_pos = Some((within.1, base + within.0));
            },
            None => {},
        }
        row = row + 1;
    }
    proof {
        assert(lines@.take(row as int) =~= lines@);
    }
    if wrapped.len() == 0 {
        wrapped.push(Line::from_spans(Vec::new()));
        match cursor {
            Some(_) => {
                cursor_pos = Some((0, 0));
            },
            None => {},
        }
        proof {
            if lines@.len() > 0 {
                lemma_wrapped_rows_take(lines@, lines@.len() - 1, width, selection);
                lemma_rows_nonempty(
                    line_cells(lines@.last(), (lines@.len() - 1) as usize, selection),
                    effective_width(width),
                );
            }
            assert(lines_cells(wrapped@) =~~= seq![Seq::<Cell>::empty()]);
        }
    }
    (wrapped, cursor_pos)
}

/// A prefix of the cells takes no more display rows than all of them.
pub proof fn lemma_rows_monotone(cells: Seq<Cell>, k: int, width: nat)
    requires
        0 <= k <= cells.len(),
    ensures
        1 <= wrap_rows(cells.take(k), width).len() <= wrap_rows(cells, width).len(),
    decreases cells.len() - k,
{
    lemma_rows_nonempty(cells.take(k), width);
    if k == cells.len() {
        assert(cells.take(k) =~= cells);
    } else {
        lemma_rows_monotone(cells, k + 1, width);
        assert(cells.take(k + 1) =~= cells.take(k).push(cells[k]));
        lemma_wrap_rows_push(cells.take(k), cells[k], width);
    }
}

/// There is always a display row.
pub proof fn lemma_rows_nonempty(cells: Seq<Cell>, width: nat)
    ensures
        wrap_rows(cells, width).len() >= 1,
    decreases cells.len(),
{
    if cells.len() > 0 {
        lemma_rows_nonempty(cells.drop_last(), width);
    }
}

/// The cells of display rows, one row after the other.
pub open spec fn rows_flat(rows: Seq<Seq<Cell>>) -> Seq<Cell>
    decreases rows.len(),
{
    if rows.len() == 0 {
        Seq::empty()
    } else {
        rows_flat(rows.drop_last()) + rows.last()
    }
}

/// A display row fits the width, unless it takes no column before its
/// last cell: a cell wider than the view still has to go somewhere.
pub open spec fn row_fits(row: Seq<Cell>, width: nat) -> bool {
    row_width(row) <= width || (row.len() >= 1 && row_width(row.drop_last()) == 0)
}

/// The rows after the first hold something.
pub open spec fn rows_filled(rows: Seq<Seq<Cell>>) -> bool {
    forall|k: int| 1 <= k < rows.len() ==> (#[trigger] rows[k]).len() > 0
}

/// `rows_flat` of rows with one more row.
proof fn lemma_flat_push(rows: Seq<Seq<Cell>>, row: Seq<Cell>)
    ensures
        rows_flat(rows.push(row)) == rows_flat(rows) + row,
{
    assert(rows.push(row).drop_last() =~= rows);
}

/// `rows_flat` of rows whose last row has one more cell.
proof fn lemma_flat_grow(rows: Seq<Seq<Cell>>, c: Cell)
    requires
        rows.len() >= 1,
    ensures
        rows_flat(rows.update(rows.len() - 1, rows.last().push(c))) == rows_flat(rows).push(c),
{
    let grown = rows.update(rows.len() - 1, rows.last().push(c));
    assert(grown.drop_last() =~= rows.drop_last());
    assert(rows_flat(grown) =~= rows_flat(rows).push(c));
}

/// The wrap loses nothing and adds nothing: the display rows, read one
/// after the other, are the cells. Every row fits the width, but for a row
/// whose last cell alone is wider than the view; and only the first row can
/// be empty, which it is for no cells.
pub proof fn lemma_wrap_keeps_cells(cells: Seq<Cell>, width: nat)
    ensures
        rows_flat(wrap_rows(cells, width)) == cells,
        forall|k: int|
            0 <= k < wrap_rows(cells, width).len() ==> row_fits(
                #[trigger] wrap_rows(cells, width)[k],
                width,
            ),
        rows_filled(wrap_rows(cells, width)),
        wrap_rows(cells, width).len() >= 1,
        cells.len() == 0 ==> wrap_rows(cells, width) == seq![Seq::<Cell>::empty()],
        cells.len() > 0 ==> wrap_rows(cells, width)[0].len() > 0,
    decreases cells.len(),
{
    if cells.len() == 0 {
        lemma_flat_push(Seq::<Seq<Cell>>::empty(), Seq::<Cell>::empty());
        assert(Seq::<Seq<Cell>>::empty().push(Seq::<Cell>::empty()) =~= seq![Seq::<Cell>::empty()]);
        assert(rows_flat(seq![Seq::<Cell>::empty()]) =~= Seq::<Cell>::empty());
        assert(rows_flat(wrap_rows(cells, width)) =~= cells);
    } else {
        let before = cells.drop_last();
        let c = cells.last();
        lemma_wrap_keeps_cells(before, width);
        let rows = wrap_rows(before, width);
        let w = row_width(rows.last());
        assert(before.push(c) =~= cells);
        let after = wrap_rows(cells, width);
        if w + cell_width(c.0) > width && w > 0 {
            lemma_flat_push(rows, seq![c]);
            assert(rows_flat(after) =~= cells);
            assert forall|k: int| 0 <= k < after.len() implies row_fits(#[trigger] after[k], width) by {
                if k < rows.len() {
                    assert(after[k] == rows[k]);
                } else {
                    assert(after[k] == seq![c]);
                    assert(seq![c].drop_last() =~= Seq::<Cell>::empty());
                }
            }
            assert forall|k: int| 1 <= k < after.len() implies (#[trigger] after[k]).len() > 0 by {
                if k < rows.len() {
                    assert(after[k] == rows[k]);
                }
            }
            if rows[0].len() == 0 {
                // an empty first row has no width, so the cell went into it
                assert(rows.len() == 1);
                assert(row_width(rows[0]) == 0);
            }
        } else {
            lemma_flat_grow(rows, c);
            assert(rows_flat(after) =~= cells);
            lemma_row_width_push(rows.last(), c);
            assert forall|k: int| 0 <= k < after.len() implies row_fits(#[trigger] after[k], width) by {
                if k < rows.len() - 1 {
                    assert(after[k] == rows[k]);
                } else {
                    assert(after[k] == rows.last().push(c));
                    assert(rows.last().push(c).drop_last() =~= rows.last());
                }
            }
            assert forall|k: int| 1 <= k < after.len() implies (#[trigger] after[k]).len() > 0 by {
                if k < rows.len() - 1 {
                    assert(after[k] == rows[k]);
                }
            }
        }
    }
}

/// Every cell takes one column.
pub open spec fn unit_cells(cells: Seq<Cell>) -> bool {
    forall|i: int| 0 <= i < cells.len() ==> cell_width((#[trigger] cells[i]).0) == 1
}

/// A row of cells that take one column each is as wide as it is long.
proof fn lemma_unit_row_width(row: Seq<Cell>)
    requires
        unit_cells(row),
    ensures
        row_width(row) == row.len(),
    decreases row.len(),
{
    if row.len() > 0 {
        assert(unit_cells(row.drop_last())) by {
            assert forall|i: int| 0 <= i < row.drop_last().len() implies cell_width(
                (#[trigger] row.drop_last()[i]).0,
            ) == 1 by {
                assert(row.drop_last()[i] == row[i]);
            }
        }
        lemma_unit_row_width(row.drop_last());
        lemma_row_width_push(row.drop_last(), row.last());
        assert(row.drop_last().push(row.last()) =~= row);
    }
}

/// Where every cell takes one column the wrap fills its rows: every row
/// but the last holds as many cells as the view is wide, and the last holds
/// no more, and one at least unless there is no cell at all. With
/// `lemma_wrap_keeps_cells` this fixes every row.
pub proof fn lemma_wrap_unit_cells(cells: Seq<Cell>, width: nat)
    requires
        width >= 1,
        unit_cells(cells),
    ensures
        wrap_rows(cells, width).len() >= 1,
        forall|k: int|
            0 <= k < wrap_rows(cells, width).len() - 1 ==> (#[trigger] wrap_rows(
                cells,
                width,
            )[k]).len() == width,
        wrap_rows(cells, width).last().len() <= width,
        cells.len() > 0 ==> wrap_rows(cells, width).last().len() >= 1,
        forall|k: int|
            0 <= k < wrap_rows(cells, width).len() ==> unit_cells(
                #[trigger] wrap_rows(cells, width)[k],
            ),
    decreases cells.len(),
{
    if cells.len() > 0 {
        let before = cells.drop_last();
        let c = cells.last();
        assert(unit_cells(before)) by {
            assert forall|i: int| 0 <= i < before.len() implies cell_width(
                (#[trigger] before[i]).0,
            ) == 1 by {
                assert(before[i] == cells[i]);
            }
        }
        lemma_wrap_unit_cells(before, width);
        let rows = wrap_rows(before, width);
        let after = wrap_rows(cells, width);
        let last = rows.last();
        lemma_unit_row_width(last);
        assert(cell_width(c.0) == 1);
        if row_width(last) + cell_width(c.0) > width && row_width(last) > 0 {
            assert(after == rows.push(seq![c]));
            assert forall|k: int| 0 <= k < after.len() - 1 implies (#[trigger] after[k]).len()
                == width by {
                assert(after[k] == rows[k]);
            }
            assert forall|k: int| 0 <= k < after.len() implies unit_cells(#[trigger] after[k]) by {
                if k < rows.len() {
                    assert(after[k] == rows[k]);
                } else {
                    assert(after[k] == seq![c]);
                }
            }
        } else {
            let grown = last.push(c);
            assert(after == rows.update(rows.len() - 1, grown));
            assert forall|k: int| 0 <= k < after.len() - 1 implies (#[trigger] after[k]).len()
                == width by {
                assert(after[k] == rows[k]);
            }
            assert forall|k: int| 0 <= k < after.len() implies unit_cells(#[trigger] after[k]) by {
                if k < rows.len() - 1 {
                    assert(after[k] == rows[k]);
                } else {
                    assert(after[k] == grown);
                    assert forall|i: int| 0 <= i < grown.len() implies cell_width(
                        (#[trigger] grown[i]).0,
                    ) == 1 by {
                        if i < last.len() {
                            assert(grown[i] == last[i]);
                        }
                    }
                }
            }
        }
    }
}

/// `part` is the start of `whole`.
pub open spec fn starts(whole: Seq<Cell>, part: Seq<Cell>) -> bool {
    part.len() <= whole.len() && whole.take(part.len() as int) == part
}

/// The rows of the first `k` cells are where the rows of all cells begin:
/// all but the last are rows of the whole, and the last is the start of the
/// row that follows them there.
pub proof fn lemma_rows_of_prefix(cells: Seq<Cell>, k: int, width: nat)
    requires
        0 <= k <= cells.len(),
    ensures
        ({
            let part = wrap_rows(cells.take(k), width);
            let whole = wrap_rows(cells, width);
            &&& 1 <= part.len() <= whole.len()
            &&& forall|i: int| 0 <= i < part.len() - 1 ==> #[trigger] part[i] == whole[i]
            &&& starts(whole[part.len() - 1], part.last())
        }),
    decreases cells.len() - k,
{
    let part = wrap_rows(cells.take(k), width);
    let whole = wrap_rows(cells, width);
    lemma_rows_nonempty(cells.take(k), width);
    if k == cells.len() {
        assert(cells.take(k) =~= cells);
        assert(whole.last().take(whole.last().len() as int) =~= whole.last());
    } else {
        lemma_rows_of_prefix(cells, k + 1, width);
        let next = wrap_rows(cells.take(k + 1), width);
        let c = cells[k];
        assert(cells.take(k + 1) =~= cells.take(k).push(c));
        lemma_wrap_rows_push(cells.take(k), c, width);
        let w = row_width(part.last());
        if w + cell_width(c.0) > width && w > 0 {
            assert(next == part.push(seq![c]));
            assert forall|i: int| 0 <= i < part.len() - 1 implies #[trigger] part[i] == whole[i] by {
                assert(next[i] == part[i]);
            }
            assert(next[part.len() - 1] == part.last());
            assert(whole[part.len() - 1] == part.last());
            assert(part.last().take(part.last().len() as int) =~= part.last());
        } else {
            let grown = part.last().push(c);
            assert(next == part.update(part.len() - 1, grown));
            assert forall|i: int| 0 <= i < part.len() - 1 implies #[trigger] part[i] == whole[i] by {
                assert(next[i] == part[i]);
            }
            assert(next.last() == grown);
            let row = whole[part.len() - 1];
            assert(row.take(grown.len() as int) == grown);
            assert(row.take(part.last().len() as int) =~= grown.take(part.last().len() as int));
            assert(grown.take(part.last().len() as int) =~= part.last());
        }
    }
}

/// The cursor shows on its character: at the cursor's display place stands
/// the cell of the cursor's column, and the columns before it on its row
/// are the cursor's display column.
pub proof fn lemma_cursor_on_its_cell(cells: Seq<Cell>, width: nat, col: nat)
    requires
        col < cells.len(),
    ensures
        ({
            let at = cursor_cell(cells, width, col);
            let rows = wrap_rows(cells, width);
            &&& at.0 < rows.len()
            &&& exists|p: int|
                0 <= p < rows[at.0 as int].len() && #[trigger] rows[at.0 as int][p] == cells[col as int]
                    && row_width(rows[at.0 as int].take(p)) == at.1
        }),
{
    let k = col as int + 1;
    let part = wrap_rows(cells.take(k), width);
    let rows = wrap_rows(cells, width);
    lemma_rows_of_prefix(cells, k, width);
    let c = cells[col as int];
    assert(cells.take(k) =~= cells.take(col as int).push(c));
    lemma_wrap_rows_push(cells.take(col as int), c, width);
    lemma_rows_nonempty(cells.take(col as int), width);
    let last = part.last();
    assert(last.len() >= 1 && last.last() == c);
    let row = rows[part.len() - 1];
    let p = last.len() - 1;
    assert(row.take(last.len() as int) == last);
    assert(row[p] == row.take(last.len() as int)[p]);
    assert(row.take(p) =~= last.drop_last());
    let at = cursor_cell(cells, width, col);
    assert(at.0 == part.len() - 1);
    assert(at.1 == row_width(last.drop_last()));
    assert(0 <= p < rows[at.0 as int].len() && rows[at.0 as int][p] == cells[col as int]
        && row_width(rows[at.0 as int].take(p)) == at.1);
}

} // verus!
