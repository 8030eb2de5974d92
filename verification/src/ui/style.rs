//! Colors, styles and styled text, as plain values.
use vstd::prelude::*;

verus! {

/// A terminal color.
#[derive(Debug, Clone, Copy, PartialEq, Eq, Structural)]
pub enum Color {
    Reset,
    Black,
    Red,
    Green,
    Yellow,
    Blue,
    Magenta,
    Cyan,
    Gray,
    DarkGray,
    LightRed,
    LightGreen,
    LightYellow,
    LightBlue,
    LightMagenta,
    LightCyan,
    White,
    Rgb(u8, u8, u8),
    Indexed(u8),
}

/// The bit of the bold modifier.
pub const BOLD: u16 = 0x0001;

/// The bit of the underlined modifier.
pub const UNDERLINED: u16 = 0x0008;

/// The bit of the reversed modifier.
pub const REVERSED: u16 = 0x0040;

/// The color that marks selected text.
pub open spec fn selection_color() -> Color {
    Color::LightBlue
}

/// How a run of text is painted: colors, and modifier bits to add and to remove.
#[derive(Debug, Clone, Copy, PartialEq, Eq, Structural)]
pub struct Style {
    pub fg: Option<Color>,
    pub bg: Option<Color>,
    pub add_modifier: u16,
    pub sub_modifier: u16,
}

impl Style {
    /// The style that changes nothing.
    pub open spec fn plain() -> Style {
        Style { fg: None, bg: None, add_modifier: 0, sub_modifier: 0 }
    }

    /// The style with `color` as its foreground.
    pub open spec fn with_fg(self, color: Color) -> Style {
        Style { fg: Some(color), ..self }
    }

    /// The style with `color` as its background.
    pub open spec fn with_bg(self, color: Color) -> Style {
        Style { bg: Some(color), ..self }
    }

    /// The style as it paints selected text.
    pub open spec fn selected(self) -> Style {
        self.with_bg(selection_color())
    }

    pub fn new() -> (s: Style)
        ensures
            s == Style::plain(),
    {
        Style { fg: None, bg: None, add_modifier: 0, sub_modifier: 0 }
    }

    pub fn fg(self, color: Color) -> (s: Style)
        ensures
            s == self.with_fg(color),
    {
        Style { fg: Some(color), bg: self.bg, add_modifier: self.add_modifier, sub_modifier: self.sub_modifier }
    }

    pub fn bg(self, color: Color) -> (s: Style)
        ensures
            s == self.with_bg(color),
    {
        Style { fg: self.fg, bg: Some(color), add_modifier: self.add_modifier, sub_modifier: self.sub_modifier }
    }

    /// The style with the modifier bits `bits` added.
    pub fn add_modifier(self, bits: u16) -> (s: Style)
        ensures
            s == (Style {
                add_modifier: self.add_modifier | bits,
                sub_modifier: self.sub_modifier & !bits,
                ..self
            }),
    {
        Style {
            fg: self.fg,
            bg: self.bg,
            add_modifier: self.add_modifier | bits,
            sub_modifier: self.sub_modifier & !bits,
        }
    }
}

/// A run of text in one style.
#[derive(Debug, Clone, PartialEq, Eq)]
pub struct Span {
    pub content: String,
    pub style: Style,
}

/// A line of styled text.
#[derive(Debug, Clone, PartialEq, Eq)]
pub struct Line {
    pub spans: Vec<Span>,
}

/// One character as it is painted: the character and its style.
pub type Cell = (char, Style);

/// The cells of a span: its characters, each in the span's style.
pub open spec fn span_cells(span: Span) -> Seq<Cell> {
    Seq::new(span.content@.len(), |i: int| (span.content@[i], span.style))
}

/// The cells of a run of spans, in order.
pub open spec fn cells_of(spans: Seq<Span>) -> Seq<Cell>
    decreases spans.len(),
{
    if spans.len() == 0 {
        Seq::empty()
    } else {
        cells_of(spans.drop_last()) + span_cells(spans.last())
    }
}

/// No span is empty and no two neighbours share a style: the spans are the
/// fewest that paint their cells.
pub open spec fn merged(spans: Seq<Span>) -> bool {
    &&& forall|i: int| 0 <= i < spans.len() ==> (#[trigger] spans[i]).content@.len() > 0
    &&& forall|i: int| 0 <= i < spans.len() - 1 ==> (#[trigger] spans[i]).style != spans[i + 1].style
}

/// The characters of cells.
pub open spec fn cell_text(cells: Seq<Cell>) -> Seq<char> {
    Seq::new(cells.len(), |i: int| cells[i].0)
}

impl Span {
    /// A span of `content` in the plain style.
    pub fn raw(content: String) -> (s: Span)
        ensures
            s.content == content,
            s.style == Style::plain(),
    {
        Span { content, style: Style::new() }
    }

    /// A span of `content` in `style`.
    pub fn styled(content: String, style: Style) -> (s: Span)
        ensures
            s.content == content,
            s.style == style,
    {
        Span { content, style }
    }
}

impl Line {
    /// The cells of the line.
    pub open spec fn cells(self) -> Seq<Cell> {
        cells_of(self.spans@)
    }

    /// The text of the line.
    pub open spec fn text(self) -> Seq<char> {
        cell_text(self.cells())
    }

    /// A line of one plain span, or of none where `content` is empty.
    pub fn from_text(content: String) -> (l: Line)
        ensures
            l.text() == content@,
            l.spans@.len() <= 1,
            forall|i: int| 0 <= i < l.spans@.len() ==> (#[trigger] l.spans@[i]).style == Style::plain(),
            merged(l.spans@),
    {
        let mut spans: Vec<Span> = Vec::new();
        if content.unicode_len() > 0 {
            let ghost text = content@;
            spans.push(Span::raw(content));
            proof {
                lemma_cells_push(Seq::<Span>::empty(), spans@[0]);
                assert(Seq::<Span>::empty().push(spans@[0]) =~= spans@);
                assert(cells_of(spans@) =~= span_cells(spans@[0]));
                lemma_span_text(spans@[0]);
            }
        } else {
            assert(cell_text(cells_of(spans@)) =~= content@);
        }
        Line { spans }
    }

    pub fn from_spans(spans: Vec<Span>) -> (l: Line)
        ensures
            l.spans == spans,
    {
        Line { spans }
    }
}

/// The text of a span's cells is the span's content.
pub proof fn lemma_span_text(span: Span)
    ensures
        cell_text(span_cells(span)) == span.content@,
{
    assert(cell_text(span_cells(span)) =~= span.content@);
}

/// `cells_of` of a run with one more span.
pub proof fn lemma_cells_push(spans: Seq<Span>, span: Span)
    ensures
        cells_of(spans.push(span)) == cells_of(spans) + span_cells(span),
{
    assert(spans.push(span).drop_last() =~= spans);
}

} // verus!
