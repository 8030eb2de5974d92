//! The wrap cache: the wrapped lines of a view, kept until the width, the
//! content generation, the cursor or the selection changes.
use crate::ui::style::Line;
use crate::ui::wrap::{
    all_merged, display_cursor, display_rows, lines_cells, place_view, wrap_lines_with_cursor,
};
use vstd::prelude::*;

verus! {

/// The wrapped lines of one view with the inputs they were made from. The
/// content is not looked at to tell whether the lines are stale: its owner
/// bumps the generation when it changes.
#[derive(Debug, Clone)]
pub struct WrapCache {
    pub width: usize,
    pub generation: u64,
    pub cursor: Option<(usize, usize)>,
    pub selection: Option<((usize, usize), (usize, usize))>,
    pub wrapped_lines: Vec<Line>,
    pub cursor_pos: Option<(usize, usize)>,
    /// How often the lines were wrapped anew; stops counting at the largest value.
    pub recomputes: u64,
}

/// What a frame shows of the wrapped lines.
#[derive(Debug, Clone, Copy, PartialEq, Eq)]
pub struct Visible {
    /// The index of the first wrapped line to paint.
    pub first: usize,
    /// How many wrapped lines to paint.
    pub count: usize,
    /// Where to put the terminal cursor, as column and row within the view.
    pub cursor: Option<(usize, usize)>,
}

/// Whether two optional places are the same.
pub fn same_place(a: Option<(usize, usize)>, b: Option<(usize, usize)>) -> (r: bool)
    ensures
        r == (a == b),
{
    match (a, b) {
        (None, None) => true,
        (Some(p), Some(q)) => p.0 == q.0 && p.1 == q.1,
        _ => false,
    }
}

/// Whether two optional ranges are the same.
pub fn same_range(
    a: Option<((usize, usize), (usize, usize))>,
    b: Option<((usize, usize), (usize, usize))>,
) -> (r: bool)
    ensures
        r == (a == b),
{
    match (a, b) {
        (None, None) => true,
        (Some(p), Some(q)) => {
            let (ps, pe) = p;
            let (qs, qe) = q;
            ps.0 == qs.0 && ps.1 == qs.1 && pe.0 == qe.0 && pe.1 == qe.1
        },
        _ => false,
    }
}

/// The scroll offset that shows row `cursor_row` in a view of `height` rows
/// with the least shift from `scroll`: up to the row where it lies above,
/// down until it is the last row shown where it lies below.
pub open spec fn scrolled_to(scroll: usize, height: usize, cursor_row: usize) -> usize {
    if cursor_row < scroll {
        cursor_row
    } else if cursor_row - scroll >= height {
        (cursor_row - (height - 1)) as usize
    } else {
        scroll
    }
}

/// The distance between two offsets.
pub open spec fn shift(a: int, b: int) -> int {
    if a <= b {
        b - a
    } else {
        a - b
    }
}

/// `scrolled_to` shows the row, and no offset that shows it is nearer to
/// where the view was.
pub proof fn lemma_scroll_is_least(scroll: usize, height: usize, cursor_row: usize, other: int)
    requires
        height >= 1,
        other <= cursor_row < other + height,
    ensures
        scrolled_to(scroll, height, cursor_row) <= cursor_row < scrolled_to(
            scroll,
            height,
            cursor_row,
        ) + height,
        shift(scroll as int, scrolled_to(scroll, height, cursor_row) as int) <= shift(
            scroll as int,
            other,
        ),
{
}

impl WrapCache {
    /// The cache was made from these inputs.
    pub open spec fn up_to_date(
        self,
        width: usize,
        generation: u64,
        cursor: Option<(usize, usize)>,
        selection: Option<((usize, usize), (usize, usize))>,
    ) -> bool {
        &&& self.width == width
        &&& self.generation == generation
        &&& self.cursor == cursor
        &&& self.selection == selection
    }

    /// `post` is `self` after a refresh with these inputs: left as it was
    /// where it was up to date, wrapped anew and counted otherwise.
    pub open spec fn refreshed(
        self,
        post: WrapCache,
        lines: Seq<Line>,
        width: usize,
        generation: u64,
        cursor: Option<(usize, usize)>,
        selection: Option<((usize, usize), (usize, usize))>,
        recomputed: bool,
    ) -> bool {
        &&& recomputed == !self.up_to_date(width, generation, cursor, selection)
        &&& post.up_to_date(width, generation, cursor, selection)
        &&& !recomputed ==> post == self
        &&& recomputed ==> {
            &&& lines_cells(post.wrapped_lines@) == display_rows(lines, width, selection)
            &&& all_merged(post.wrapped_lines@)
            &&& place_view(post.cursor_pos) == display_cursor(lines, width, cursor, selection)
            &&& post.recomputes == if self.recomputes < u64::MAX {
                (self.recomputes + 1) as u64
            } else {
                u64::MAX
            }
        }
    }

    /// An empty cache: made from width 0 and generation 0, which no view has.
    pub fn new() -> (c: WrapCache)
        ensures
            c.width == 0,
            c.generation == 0,
            c.cursor is None,
            c.selection is None,
            c.wrapped_lines@.len() == 0,
            c.cursor_pos is None,
            c.recomputes == 0,
    {
        WrapCache {
            width: 0,
            generation: 0,
            cursor: None,
            selection: None,
            wrapped_lines: Vec::new(),
            cursor_pos: None,
            recomputes: 0,
        }
    }

    /// Brings the cache up to date with the inputs; wraps `lines` anew only
    /// where one of width, generation, cursor and selection differs from what
    /// the cache was made from. Says whether it did.
    pub fn refresh(
        &mut self,
        lines: &Vec<Line>,
        width: usize,
        generation: u64,
        cursor: Option<(usize, usize)>,
        selection: Option<((usize, usize), (usize, usize))>,
    ) -> (recomputed: bool)
        ensures
            old(self).refreshed(*final(self), lines@, width, generation, cursor, selection, recomputed),
    {
        let needs_rewrap = self.width != width || self.generation != generation || !same_place(
            self.cursor,
            cursor,
        ) || !same_range(self.selection, selection);
        if needs_rewrap {
            let (wrapped_lines, cursor_pos) = wrap_lines_with_cursor(lines, width, cursor, selection);
            self.width = width;
            self.generation = generation;
            self.cursor = cursor;
            self.selection = selection;
            self.wrapped_lines = wrapped_lines;
            self.cursor_pos = cursor_pos;
            if self.recomputes < u64::MAX {
                self.recomputes = self.recomputes + 1;
            }
        }
        needs_rewrap
    }
}

/// A refresh with the inputs of the refresh before it wraps nothing and
/// leaves the cache as it is, whatever the lines: only the first of two
/// identical calls counts as a recompute.
pub proof fn lemma_refresh_twice(
    before: WrapCache,
    between: WrapCache,
    after: WrapCache,
    lines: Seq<Line>,
    lines_then: Seq<Line>,
    width: usize,
    generation: u64,
    cursor: Option<(usize, usize)>,
    selection: Option<((usize, usize), (usize, usize))>,
    first: bool,
    second: bool,
)
    requires
        before.refreshed(between, lines, width, generation, cursor, selection, first),
        between.refreshed(after, lines_then, width, generation, cursor, selection, second),
    ensures
        !second,
        after == between,
        after.recomputes == between.recomputes,
{
}

/// What a frame of `height` rows shows of `rows` wrapped lines at scroll
/// offset `scroll`, with the cursor at `cursor_pos` (column, row) among them.
/// A shown cursor pulls the view to its row by the least shift; its column
/// stays within `width`.
pub open spec fn visible_part(
    rows: usize,
    cursor_pos: Option<(usize, usize)>,
    width: usize,
    height: usize,
    scroll: usize,
    show_cursor: bool,
) -> Visible {
    let at = cursor_pos->0;
    let top = if show_cursor && cursor_pos is Some {
        scrolled_to(scroll, height, at.1)
    } else {
        scroll
    };
    let first = if top < rows {
        top
    } else {
        rows
    };
    let count = if rows - first < height {
        (rows - first) as usize
    } else {
        height
    };
    Visible {
        first,
        count,
        cursor: if show_cursor && cursor_pos is Some {
            Some((if at.0 < width {
                at.0
            } else {
                (width - 1) as usize
            }, (at.1 - top) as usize))
        } else {
            None
        },
    }
}

/// One frame of a view: brings `cache` up to date and says which of its
/// wrapped lines to paint and where the terminal cursor goes. A view without
/// width or height shows nothing and leaves the cache alone.
pub fn render_wrapped_response_cached(
    lines: &Vec<Line>,
    cache: &mut WrapCache,
    width: usize,
    height: usize,
    lines_generation: u64,
    cursor: Option<(usize, usize)>,
    selection: Option<((usize, usize), (usize, usize))>,
    scroll_offset: usize,
    show_cursor: bool,
) -> (shown: Visible)
    ensures
        width == 0 || height == 0 ==> *final(cache) == *old(cache) && shown == (Visible {
            first: 0,
            count: 0,
            cursor: None,
        }),
        width > 0 && height > 0 ==> {
            &&& exists|recomputed: bool|
                old(cache).refreshed(
                    *final(cache),
                    lines@,
                    width,
                    lines_generation,
                    cursor,
                    selection,
                    recomputed,
                )
            &&& shown == visible_part(
                final(cache).wrapped_lines@.len() as usize,
                final(cache).cursor_pos,
                width,
                height,
                scroll_offset,
                show_cursor,
            )
            &&& shown.first + shown.count <= final(cache).wrapped_lines@.len()
        },
{
    if width == 0 || height == 0 {
        return Visible { first: 0, count: 0, cursor: None };
    }
    let recomputed = cache.refresh(lines, width, lines_generation, cursor, selection);
    let rows = cache.wrapped_lines.len();
    let mut scroll_y = scroll_offset;
    let mut shown_cursor: Option<(usize, usize)> = None;
    if show_cursor {
        match cache.cursor_pos {
            Some(at) => {
                let cursor_x = at.0;
                let cursor_y = at.1;
                if cursor_y < scroll_y {
                    scroll_y = cursor_y;
                } else if cursor_y - scroll_y >= height {
                    scroll_y = cursor_y - (height - 1);
                }
                let x = if cursor_x < width {
                    cursor_x
                } else {
                    width - 1
                };
                shown_cursor = Some((x, cursor_y - scroll_y));
            },
            None => {},
        }
    }
    let first = if scroll_y < rows {
        scroll_y
    } else {
        rows
    };
    let count = if rows - first < height {
        rows - first
    } else {
        height
    };
    Visible { first, count, cursor: shown_cursor }
}

} // verus!
