use perseus::ui::cache::{render_wrapped_response_cached, Visible, WrapCache};
use perseus::ui::style::{Color, Line, Span, Style};
use perseus::ui::wrap::{
    char_width, line_char_len, push_span_char, selection_range_for_row, wrap_line_spans_with_cursor,
    wrap_lines_with_cursor,
};

fn plain(lines: &[&str]) -> Vec<Line> {
    lines.iter().map(|l| Line::from_text(l.to_string())).collect()
}

fn text(line: &Line) -> String {
    line.spans.iter().map(|s| s.content.as_str()).collect()
}

fn texts(lines: &[Line]) -> Vec<String> {
    lines.iter().map(text).collect()
}

#[test]
fn scenario_wrap_two_lines_at_width_two() {
    let lines = plain(&["abc", "def"]);
    let (wrapped, cursor) = wrap_lines_with_cursor(&lines, 2, Some((1, 2)), None);
    assert_eq!(texts(&wrapped), vec!["ab", "c", "de", "f"]);
    // the cursor shows on its character, which the wrap put on a row of
    // its own: column 0 of the fourth display row
    assert_eq!(cursor, Some((0, 3)));
    let (_, at_start) = wrap_lines_with_cursor(&lines, 2, Some((1, 0)), None);
    assert_eq!(at_start, Some((0, 2)));
    let (_, at_end) = wrap_lines_with_cursor(&lines, 2, Some((1, 3)), None);
    assert_eq!(at_end, Some((1, 3)));
}

#[test]
fn empty_input_gives_one_empty_row() {
    let (wrapped, cursor) = wrap_lines_with_cursor(&Vec::new(), 10, None, None);
    assert_eq!(wrapped.len(), 1);
    assert_eq!(text(&wrapped[0]), "");
    assert_eq!(cursor, None);
    let (wrapped, cursor) = wrap_lines_with_cursor(&plain(&[""]), 10, Some((0, 0)), None);
    assert_eq!(texts(&wrapped), vec![""]);
    assert_eq!(cursor, Some((0, 0)));
    let (_, cursor) = wrap_lines_with_cursor(&Vec::new(), 10, Some((3, 4)), None);
    assert_eq!(cursor, Some((0, 0)));
}

#[test]
fn width_zero_counts_as_one() {
    let (rows, _) = wrap_line_spans_with_cursor(&plain(&["abc"])[0].spans, 0, None, None);
    assert_eq!(rows.len(), 3);
}

#[test]
fn wide_and_zero_width_characters() {
    assert_eq!(char_width('a'), 1);
    assert_eq!(char_width('\u{4e2d}'), 2);
    assert_eq!(char_width('\u{0301}'), 0);
    assert_eq!(char_width('\u{7}'), 0);
    let lines = plain(&["a\u{4e2d}b"]);
    let (wrapped, cursor) = wrap_lines_with_cursor(&lines, 2, Some((0, 2)), None);
    assert_eq!(texts(&wrapped), vec!["a", "\u{4e2d}", "b"]);
    assert_eq!(cursor, Some((0, 2)));
    let (_, cursor) = wrap_lines_with_cursor(&lines, 2, Some((0, 1)), None);
    assert_eq!(cursor, Some((0, 1)));
    let (_, cursor) = wrap_lines_with_cursor(&lines, 3, Some((0, 1)), None);
    assert_eq!(cursor, Some((1, 0)));
    let (_, cursor) = wrap_lines_with_cursor(&lines, 3, Some((0, 2)), None);
    assert_eq!(cursor, Some((0, 1)));
    let (_, cursor) = wrap_lines_with_cursor(&lines, 3, Some((0, 3)), None);
    assert_eq!(cursor, Some((1, 1)));
    // a character wider than the view still gets a row of its own
    let (wrapped, _) = wrap_lines_with_cursor(&plain(&["\u{4e2d}\u{4e2d}"]), 1, None, None);
    assert_eq!(texts(&wrapped), vec!["\u{4e2d}", "\u{4e2d}"]);
}

#[test]
fn out_of_range_cursor_is_clamped() {
    let lines = plain(&["abc", "de"]);
    let (_, cursor) = wrap_lines_with_cursor(&lines, 10, Some((0, 99)), None);
    assert_eq!(cursor, Some((3, 0)));
    let (_, cursor) = wrap_lines_with_cursor(&lines, 10, Some((7, 1)), None);
    assert_eq!(cursor, Some((1, 1)));
}

#[test]
fn selection_is_highlighted_and_runs_are_merged() {
    let lines = plain(&["abcdef"]);
    let (wrapped, _) = wrap_lines_with_cursor(&lines, 4, None, Some(((0, 1), (0, 5))));
    assert_eq!(texts(&wrapped), vec!["abcd", "ef"]);
    let highlight = Style::new().bg(Color::LightBlue);
    assert_eq!(
        wrapped[0].spans,
        vec![
            Span::styled("a".to_string(), Style::new()),
            Span::styled("bcd".to_string(), highlight),
        ]
    );
    assert_eq!(
        wrapped[1].spans,
        vec![
            Span::styled("e".to_string(), highlight),
            Span::styled("f".to_string(), Style::new()),
        ]
    );
}

#[test]
fn selection_over_several_rows() {
    let lines = plain(&["abc", "def", "ghi"]);
    let (wrapped, _) = wrap_lines_with_cursor(&lines, 10, None, Some(((0, 2), (2, 1))));
    let highlight = Style::new().bg(Color::LightBlue);
    assert_eq!(wrapped[0].spans.last().unwrap(), &Span::styled("c".to_string(), highlight));
    assert_eq!(wrapped[1].spans, vec![Span::styled("def".to_string(), highlight)]);
    assert_eq!(wrapped[2].spans[0], Span::styled("g".to_string(), highlight));
    assert_eq!(wrapped[2].spans[1], Span::styled("hi".to_string(), Style::new()));
}

#[test]
fn selection_range_per_row() {
    let sel = Some(((1, 2), (3, 4)));
    assert_eq!(selection_range_for_row(sel, 0, 10), None);
    assert_eq!(selection_range_for_row(sel, 1, 10), Some((2, 10)));
    assert_eq!(selection_range_for_row(sel, 2, 10), Some((0, 10)));
    assert_eq!(selection_range_for_row(sel, 3, 10), Some((0, 4)));
    assert_eq!(selection_range_for_row(sel, 4, 10), None);
    assert_eq!(selection_range_for_row(sel, 2, 0), None);
    assert_eq!(selection_range_for_row(Some(((1, 5), (1, 5))), 1, 10), None);
    assert_eq!(selection_range_for_row(None, 1, 10), None);
}

#[test]
fn styles_of_spans_are_kept() {
    let red = Style::new().fg(Color::Red);
    let line = Line::from_spans(vec![
        Span::styled("ab".to_string(), red),
        Span::raw("cd".to_string()),
    ]);
    assert_eq!(line_char_len(&line), 4);
    let (wrapped, _) = wrap_lines_with_cursor(&vec![line], 3, None, None);
    assert_eq!(
        wrapped[0].spans,
        vec![Span::styled("ab".to_string(), red), Span::raw("c".to_string())]
    );
    assert_eq!(wrapped[1].spans, vec![Span::raw("d".to_string())]);
}

#[test]
fn push_span_char_merges_equal_styles() {
    let mut spans: Vec<Span> = Vec::new();
    let red = Style::new().fg(Color::Red);
    push_span_char(&mut spans, red, 'a');
    push_span_char(&mut spans, red, 'b');
    push_span_char(&mut spans, Style::new(), 'c');
    assert_eq!(
        spans,
        vec![Span::styled("ab".to_string(), red), Span::raw("c".to_string())]
    );
}

#[test]
fn cache_recomputes_once_for_identical_inputs() {
    let lines = plain(&["abc", "def"]);
    let mut cache = WrapCache::new();
    assert_eq!(cache.recomputes, 0);
    assert!(cache.refresh(&lines, 2, 1, Some((1, 2)), None));
    assert_eq!(cache.recomputes, 1);
    let first = cache.clone();
    assert!(!cache.refresh(&lines, 2, 1, Some((1, 2)), None));
    assert_eq!(cache.recomputes, 1);
    assert_eq!(cache.wrapped_lines, first.wrapped_lines);
    assert_eq!(cache.cursor_pos, first.cursor_pos);
    // the content is never inspected: other lines with the old generation
    // leave the cache alone
    assert!(!cache.refresh(&plain(&["zzz"]), 2, 1, Some((1, 2)), None));
    assert_eq!(texts(&cache.wrapped_lines), vec!["ab", "c", "de", "f"]);
}

#[test]
fn cache_recomputes_when_a_key_changes() {
    let lines = plain(&["abc", "def"]);
    let mut cache = WrapCache::new();
    assert!(cache.refresh(&lines, 2, 1, None, None));
    assert!(cache.refresh(&lines, 3, 1, None, None));
    assert!(cache.refresh(&lines, 3, 2, None, None));
    assert!(cache.refresh(&lines, 3, 2, Some((0, 0)), None));
    assert!(cache.refresh(&lines, 3, 2, Some((0, 0)), Some(((0, 0), (0, 1)))));
    assert!(!cache.refresh(&lines, 3, 2, Some((0, 0)), Some(((0, 0), (0, 1)))));
    assert_eq!(cache.recomputes, 5);
    assert_eq!(texts(&cache.wrapped_lines), vec!["abc", "def"]);
}

#[test]
fn render_shows_the_window_and_follows_the_cursor() {
    let lines = plain(&["abc", "def"]);
    let mut cache = WrapCache::new();
    // four display rows, a view of two rows at the top, the cursor on row 3
    let shown = render_wrapped_response_cached(&lines, &mut cache, 2, 2, 1, Some((1, 2)), None, 0, true);
    assert_eq!(shown, Visible { first: 2, count: 2, cursor: Some((0, 1)) });
    // the cursor above the view pulls it up to its row
    let shown = render_wrapped_response_cached(&lines, &mut cache, 2, 2, 1, Some((0, 0)), None, 2, true);
    assert_eq!(shown, Visible { first: 0, count: 2, cursor: Some((0, 0)) });
    // a cursor in view leaves the offset alone
    let shown = render_wrapped_response_cached(&lines, &mut cache, 2, 3, 1, Some((1, 2)), None, 1, true);
    assert_eq!(shown, Visible { first: 1, count: 3, cursor: Some((0, 2)) });
    // a cursor behind a full last row shows behind it, within the view
    let shown = render_wrapped_response_cached(&plain(&["ab"]), &mut cache, 2, 3, 2, Some((0, 2)), None, 0, true);
    assert_eq!(shown, Visible { first: 0, count: 1, cursor: Some((1, 0)) });
    // without a shown cursor the offset is the caller's
    let shown = render_wrapped_response_cached(&lines, &mut cache, 2, 2, 1, Some((1, 2)), None, 3, false);
    assert_eq!(shown, Visible { first: 3, count: 1, cursor: None });
    let shown = render_wrapped_response_cached(&lines, &mut cache, 2, 2, 1, None, None, 9, false);
    assert_eq!(shown, Visible { first: 4, count: 0, cursor: None });
}

#[test]
fn render_without_area_leaves_the_cache_alone() {
    let lines = plain(&["abc"]);
    let mut cache = WrapCache::new();
    let shown = render_wrapped_response_cached(&lines, &mut cache, 0, 5, 1, None, None, 0, true);
    assert_eq!(shown, Visible { first: 0, count: 0, cursor: None });
    let shown = render_wrapped_response_cached(&lines, &mut cache, 5, 0, 1, None, None, 0, true);
    assert_eq!(shown, Visible { first: 0, count: 0, cursor: None });
    assert_eq!(cache.recomputes, 0);
    assert!(cache.wrapped_lines.is_empty());
}

#[test]
fn rows_read_back_as_the_line() {
    let line = "ab\u{4e2d}c\u{0301}de \u{4e2d}\u{4e2d}f";
    for width in 1..8usize {
        let (rows, _) = wrap_lines_with_cursor(&plain(&[line]), width, None, None);
        assert_eq!(texts(&rows).concat(), line);
        for (k, row) in rows.iter().enumerate() {
            let shown = text(row);
            let columns: usize = shown.chars().map(char_width).sum();
            let last: usize = shown.chars().last().map(char_width).unwrap_or(0);
            assert!(columns <= width || columns == last);
            assert!(k == 0 || !shown.is_empty());
        }
    }
    // a wide character behind a mark that takes no column stays on its row
    let (rows, _) = wrap_lines_with_cursor(&plain(&["\u{0301}\u{4e2d}"]), 1, None, None);
    assert_eq!(texts(&rows), vec!["\u{0301}\u{4e2d}"]);
}
