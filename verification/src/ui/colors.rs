//! How responses are colored: status, method, JSON bodies and header lines.
use crate::app::{
    looks_like_json, AppMode, FocusState, HttpMethod, Method, Panel, RequestField, ResponseStatus,
    ResponseTab,
};
use crate::storage::collection::{find_char, index_of};
use crate::text::{
    append_chars, append_str, blank, contains, contains_text, decimal, digits_of, from_chars,
    is_blank, same_chars, to_ascii_lower, to_chars, trim, ascii_lowered,
};
use crate::ui::style::{cells_of, merged, Cell, Color, Line, Span, Style, BOLD, REVERSED, UNDERLINED};
use crate::ui::wrap::{all_merged, lines_cells, push_span_char};
use crate::vim::VimMode;
use vstd::prelude::*;
use vstd::string::StringExecFns;

verus! {

/// The color of a status code: green for success, red from 400 on, yellow
/// for the rest.
pub open spec fn status_color_of(status: u16) -> Color {
    if 200 <= status < 300 {
        Color::Green
    } else if status >= 400 {
        Color::Red
    } else {
        Color::Yellow
    }
}

pub fn status_color(status: u16) -> (c: Color)
    ensures
        c == status_color_of(status),
{
    if status >= 200 && status < 300 {
        Color::Green
    } else if status >= 400 {
        Color::Red
    } else {
        Color::Yellow
    }
}

/// The color of a method in the method box.
pub open spec fn method_color_of(method: Method) -> Color {
    match method {
        Method::Standard(m) => match m {
            HttpMethod::Get => Color::Green,
            HttpMethod::Post => Color::Blue,
            HttpMethod::Put => Color::Yellow,
            HttpMethod::Patch => Color::Magenta,
            HttpMethod::Delete => Color::Red,
            HttpMethod::Head => Color::Cyan,
            HttpMethod::Options => Color::White,
        },
        Method::Custom(_) => Color::DarkGray,
    }
}

pub fn method_color(method: &Method) -> (c: Color)
    ensures
        c == method_color_of(*method),
{
    match method {
        Method::Standard(m) => match m {
            HttpMethod::Get => Color::Green,
            HttpMethod::Post => Color::Blue,
            HttpMethod::Put => Color::Yellow,
            HttpMethod::Patch => Color::Magenta,
            HttpMethod::Delete => Color::Red,
            HttpMethod::Head => Color::Cyan,
            HttpMethod::Options => Color::White,
        },
        Method::Custom(_) => Color::DarkGray,
    }
}

/// The style of the editing cursor in each mode.
pub open spec fn vim_cursor(mode: VimMode) -> Style {
    match mode {
        VimMode::Normal => Style { fg: Some(Color::Reset), bg: None, add_modifier: REVERSED, sub_modifier: 0 },
        VimMode::Insert => Style {
            fg: Some(Color::White),
            bg: None,
            add_modifier: BOLD | UNDERLINED,
            sub_modifier: 0,
        },
        VimMode::Visual => Style {
            fg: Some(Color::LightYellow),
            bg: None,
            add_modifier: REVERSED,
            sub_modifier: 0,
        },
        VimMode::Operator(_) => Style {
            fg: Some(Color::LightGreen),
            bg: None,
            add_modifier: REVERSED,
            sub_modifier: 0,
        },
    }
}

/// The style of the editing cursor in each mode.
pub fn vim_cursor_style(mode: VimMode) -> (s: Style)
    ensures
        s == vim_cursor(mode),
{
    match mode {
        VimMode::Normal => Style { fg: Some(Color::Reset), bg: None, add_modifier: REVERSED, sub_modifier: 0 },
        VimMode::Insert => Style {
            fg: Some(Color::White),
            bg: None,
            add_modifier: BOLD | UNDERLINED,
            sub_modifier: 0,
        },
        VimMode::Visual => Style {
            fg: Some(Color::LightYellow),
            bg: None,
            add_modifier: REVERSED,
            sub_modifier: 0,
        },
        VimMode::Operator(_) => Style {
            fg: Some(Color::LightGreen),
            bg: None,
            add_modifier: REVERSED,
            sub_modifier: 0,
        },
    }
}

/// The status line of a response: `code reason (time ms)`.
pub open spec fn status_line(status: u16, reason: Seq<char>, millis: u64) -> Seq<char> {
    digits_of(status as nat) + " "@ + reason + " ("@ + digits_of(millis as nat) + "ms)"@
}

/// What the response panel says of the state of the response, and in which
/// style.
pub fn response_status_text(response: &ResponseStatus) -> (r: (String, Style))
    ensures
        match *response {
            ResponseStatus::Empty => r.0@ == "Idle"@ && r.1 == Style::plain().with_fg(
                Color::DarkGray,
            ),
            ResponseStatus::Loading => r.0@ == "Sending request..."@ && r.1
                == Style::plain().with_fg(Color::Yellow),
            ResponseStatus::Error(_) => r.0@ == "Error"@ && r.1 == Style::plain().with_fg(Color::Red),
            ResponseStatus::Cancelled => r.0@ == "Cancelled"@ && r.1 == Style::plain().with_fg(
                Color::Yellow,
            ),
            ResponseStatus::Success(data) => r.0@ == status_line(
                data.status,
                data.status_text@,
                data.duration_ms,
            ) && r.1 == Style::plain().with_fg(status_color_of(data.status)),
        },
{
    match response {
        ResponseStatus::Empty => (String::from_str("Idle"), Style::new().fg(Color::DarkGray)),
        ResponseStatus::Loading => (
            String::from_str("Sending request..."),
            Style::new().fg(Color::Yellow),
        ),
        ResponseStatus::Error(_) => (String::from_str("Error"), Style::new().fg(Color::Red)),
        ResponseStatus::Cancelled => (String::from_str("Cancelled"), Style::new().fg(Color::Yellow)),
        ResponseStatus::Success(data) => {
            let mut out: Vec<char> = Vec::new();
            let code = decimal(data.status as u128);
            append_chars(&mut out, &code);
            append_str(&mut out, " ");
            append_str(&mut out, data.status_text.as_str());
            append_str(&mut out, " (");
            let millis = decimal(data.duration_ms as u128);
            append_chars(&mut out, &millis);
            append_str(&mut out, "ms)");
            (from_chars(&out), Style::new().fg(status_color(data.status)))
        },
    }
}

/// Whether the headers name a JSON content type: a `content-type` header,
/// in any case, whose value holds `application/json` as written.
pub open spec fn names_json(headers: Seq<(String, String)>) -> bool {
    exists|i: int|
        0 <= i < headers.len() && ascii_lowered((#[trigger] headers[i]).0@) == "content-type"@
            && contains_text(headers[i].1@, "application/json"@)
}

/// Whether a response body is to be colored as JSON.
pub fn is_json_response(headers: &Vec<(String, String)>, body: &str) -> (r: bool)
    ensures
        r == (names_json(headers@) || looks_like_json(body@)),
{
    let name = to_chars("content-type");
    let wanted = to_chars("application/json");
    let mut i: usize = 0;
    while i < headers.len()
        invariant
            i <= headers.len(),
            name@ == "content-type"@,
            wanted@ == "application/json"@,
            forall|k: int|
                0 <= k < i ==> !(ascii_lowered((#[trigger] headers@[k]).0@) == "content-type"@
                    && contains_text(headers@[k].1@, "application/json"@)),
        decreases headers.len() - i,
    {
        let key = to_ascii_lower(&to_chars(headers[i].0.as_str()));
        if same_chars(&key, &name) {
            let value = to_chars(headers[i].1.as_str());
            if contains(&value, &wanted) {
                return true;
            }
        }
        i += 1;
    }
    let chars = to_chars(body);
    let t = trim(&chars);
    if t.len() == 0 {
        return false;
    }
    let first = t[0];
    let last = t[t.len() - 1];
    (first == '{' && last == '}') || (first == '[' && last == ']')
}

/// The characters of `text`, each in `style`.
pub open spec fn styled(text: Seq<char>, style: Style) -> Seq<Cell> {
    Seq::new(text.len(), |i: int| (text[i], style))
}

/// Puts the characters of `text` in `style` behind `spans`.
pub fn push_styled(spans: &mut Vec<Span>, text: &Vec<char>, style: Style)
    ensures
        cells_of(final(spans)@) == cells_of(old(spans)@) + styled(text@, style),
        merged(old(spans)@) ==> merged(final(spans)@),
{
    let mut i: usize = 0;
    proof {
        assert(cells_of(spans@) + styled(text@.take(0), style) =~= cells_of(spans@));
    }
    while i < text.len()
        invariant
            i <= text.len(),
            cells_of(spans@) == cells_of(old(spans)@) + styled(text@.take(i as int), style),
            merged(old(spans)@) ==> merged(spans@),
        decreases text.len() - i,
    {
        push_span_char(spans, style, text[i]);
        i += 1;
        proof {
            assert(styled(text@.take(i as int), style) =~= styled(text@.take(i - 1), style).push(
                (text@[i - 1], style),
            ));
        }
    }
    proof {
        assert(text@.take(i as int) =~= text@);
    }
}

/// The style of a token outside a string: green, unless it is blank.
pub open spec fn token_style(token: Seq<char>) -> Style {
    if is_blank(token) {
        Style::plain()
    } else {
        Style::plain().with_fg(Color::Green)
    }
}

/// A token outside a string as a span.
pub fn colorize_token(token: &str) -> (s: Span)
    ensures
        s.content@ == token@,
        s.style == token_style(token@),
{
    let chars = to_chars(token);
    if blank(&chars) {
        Span::raw(String::from_str(token))
    } else {
        Span::styled(String::from_str(token), Style::new().fg(Color::Green))
    }
}

/// The cells of a header line: the key and its colon in cyan, the rest
/// plain; a line without a colon is plain.
pub open spec fn header_cells(line: Seq<char>) -> Seq<Cell> {
    let colon = index_of(line, ':');
    if colon < line.len() {
        styled(line.subrange(0, colon + 1), Style::plain().with_fg(Color::Cyan)) + styled(
            line.subrange(colon + 1, line.len() as int),
            Style::plain(),
        )
    } else {
        styled(line, Style::plain())
    }
}

/// The cells of each header line.
pub open spec fn headers_cells(lines: Seq<String>) -> Seq<Seq<Cell>> {
    Seq::new(lines.len(), |i: int| header_cells(lines[i]@))
}

/// Colors header lines: one styled line for each line of text.
pub fn colorize_headers(lines: &Vec<String>) -> (out: Vec<Line>)
    ensures
        lines_cells(out@) == headers_cells(lines@),
        all_merged(out@),
{
    let mut out: Vec<Line> = Vec::new();
    let mut i: usize = 0;
    while i < lines.len()
        invariant
            i <= lines.len(),
            lines_cells(out@) == headers_cells(lines@).take(i as int),
            all_merged(out@),
        decreases lines.len() - i,
    {
        let chars = to_chars(lines[i].as_str());
        let colon = find_char(&chars, ':');
        let mut spans: Vec<Span> = Vec::new();
        if colon < chars.len() {
            let key = crate::text::slice_chars(&chars, 0, colon + 1);
            let rest = crate::text::slice_chars(&chars, colon + 1, chars.len());
            push_styled(&mut spans, &key, Style::new().fg(Color::Cyan));
            push_styled(&mut spans, &rest, Style::new());
        } else {
            push_styled(&mut spans, &chars, Style::new());
        }
        proof {
            assert(cells_of(Seq::<Span>::empty()) =~= Seq::<Cell>::empty());
            assert(cells_of(spans@) =~= header_cells(lines@[i as int]@));
        }
        let ghost held = lines_cells(out@);
        out.push(Line::from_spans(spans));
        i += 1;
        proof {
            assert(lines_cells(out@) =~~= held.push(header_cells(lines@[i - 1]@)));
            assert(lines_cells(out@) =~~= headers_cells(lines@).take(i as int));
        }
    }
    proof {
        assert(headers_cells(lines@).take(i as int) =~= headers_cells(lines@));
    }
    out
}

/// The badge of the status bar: the name of the mode.
pub open spec fn badge_text(app_mode: AppMode, mode: VimMode) -> Seq<char> {
    match app_mode {
        AppMode::Navigation => " NAVIGATION "@,
        AppMode::Editing => match mode {
            VimMode::Normal => " VIM "@,
            VimMode::Insert => " INSERT "@,
            VimMode::Visual => " VISUAL "@,
            VimMode::Operator(_) => " PENDING "@,
        },
        AppMode::Sidebar => " SIDEBAR "@,
    }
}

/// The colors of the badge, foreground and background.
pub open spec fn badge_colors(app_mode: AppMode, mode: VimMode) -> (Color, Color) {
    match app_mode {
        AppMode::Navigation => (Color::Red, Color::Cyan),
        AppMode::Editing => match mode {
            VimMode::Normal => (Color::Black, Color::Green),
            VimMode::Insert => (Color::Black, Color::Yellow),
            VimMode::Visual => (Color::Black, Color::Magenta),
            VimMode::Operator(_) => (Color::Black, Color::LightGreen),
        },
        AppMode::Sidebar => (Color::Black, Color::LightGreen),
    }
}

/// The badge of the status bar and its style: bold, in the colors of the mode.
pub fn mode_badge(app_mode: AppMode, mode: VimMode) -> (r: (&'static str, Style))
    ensures
        r.0@ == badge_text(app_mode, mode),
        r.1 == (Style {
            fg: Some(badge_colors(app_mode, mode).0),
            bg: Some(badge_colors(app_mode, mode).1),
            add_modifier: BOLD,
            sub_modifier: 0,
        }),
{
    let (text, fg, bg) = match app_mode {
        AppMode::Navigation => (" NAVIGATION ", Color::Red, Color::Cyan),
        AppMode::Editing => match mode {
            VimMode::Normal => (" VIM ", Color::Black, Color::Green),
            VimMode::Insert => (" INSERT ", Color::Black, Color::Yellow),
            VimMode::Visual => (" VISUAL ", Color::Black, Color::Magenta),
            VimMode::Operator(_) => (" PENDING ", Color::Black, Color::LightGreen),
        },
        AppMode::Sidebar => (" SIDEBAR ", Color::Black, Color::LightGreen),
    };
    (text, Style { fg: Some(fg), bg: Some(bg), add_modifier: BOLD, sub_modifier: 0 })
}

/// The name of a request field in the status bar.
pub open spec fn field_name(field: RequestField) -> Seq<char> {
    match field {
        RequestField::Method => "Method"@,
        RequestField::Url => "URL"@,
        RequestField::Send => "Send"@,
        RequestField::Headers => "Headers"@,
        RequestField::Auth => "Auth"@,
        RequestField::Body => "Body"@,
    }
}

/// Where the focus is, in words.
pub open spec fn focus_text(focus: FocusState, response_tab: ResponseTab) -> Seq<char> {
    match focus.panel {
        Panel::Sidebar => "Sidebar"@,
        Panel::Request => "Request > "@ + field_name(focus.request_field),
        Panel::Response => "Response > "@ + response_tab.label_spec(),
    }
}

/// Where the focus is, in words.
pub fn panel_info(focus: &FocusState, response_tab: ResponseTab) -> (text: String)
    ensures
        text@ == focus_text(*focus, response_tab),
{
    let mut out: Vec<char> = Vec::new();
    match focus.panel {
        Panel::Sidebar => {
            append_str(&mut out, "Sidebar");
        },
        Panel::Request => {
            append_str(&mut out, "Request > ");
            let field = match focus.request_field {
                RequestField::Method => "Method",
                RequestField::Url => "URL",
                RequestField::Send => "Send",
                RequestField::Headers => "Headers",
                RequestField::Auth => "Auth",
                RequestField::Body => "Body",
            };
            append_str(&mut out, field);
        },
        Panel::Response => {
            append_str(&mut out, "Response > ");
            append_str(&mut out, response_tab.label());
        },
    }
    from_chars(&out)
}

/// The keys that the status bar reminds of.
pub open spec fn hints_text(app_mode: AppMode, mode: VimMode, panel: Panel) -> Seq<char> {
    if panel == Panel::Sidebar {
        if app_mode == AppMode::Sidebar {
            "j/k:move  a:add  r:rename  d:del  m:move  /:search  Enter:open  Esc:exit"@
        } else {
            "Enter/i:edit  hjkl:nav  Ctrl+p:projects  Ctrl+e:toggle"@
        }
    } else {
        match app_mode {
            AppMode::Navigation => "hjkl:nav  e:sidebar  Enter:edit  i:insert  Ctrl+r:send  Ctrl+s:save  Ctrl+e:toggle  ?:help  q:quit"@,
            AppMode::Editing => match mode {
                VimMode::Normal => "hjkl:move  w/b/e:word  i/a:insert  v:visual  d/c/y:op  Cmd/Ctrl+C/V:clip  Esc:exit"@,
                VimMode::Insert => "type text  Cmd/Ctrl+V:paste  Cmd/Ctrl+C:copy  Enter:send(URL)  Esc:normal"@,
                VimMode::Visual => "motion:select  d:delete  y:yank  c:change  Cmd/Ctrl+C/V:clip  Esc:cancel"@,
                VimMode::Operator(_) => "motion:complete  Esc:cancel"@,
            },
            AppMode::Sidebar => "j/k:move  a:add  r:rename  d:del  m:move  /:search  Enter:open  Esc:exit"@,
        }
    }
}

/// The keys that the status bar reminds of.
pub fn status_hints(app_mode: AppMode, mode: VimMode, panel: Panel) -> (text: &'static str)
    ensures
        text@ == hints_text(app_mode, mode, panel),
{
    if panel == Panel::Sidebar {
        if app_mode == AppMode::Sidebar {
            "j/k:move  a:add  r:rename  d:del  m:move  /:search  Enter:open  Esc:exit"
        } else {
            "Enter/i:edit  hjkl:nav  Ctrl+p:projects  Ctrl+e:toggle"
        }
    } else {
        match app_mode {
            AppMode::Navigation => "hjkl:nav  e:sidebar  Enter:edit  i:insert  Ctrl+r:send  Ctrl+s:save  Ctrl+e:toggle  ?:help  q:quit",
            AppMode::Editing => match mode {
                VimMode::Normal => "hjkl:move  w/b/e:word  i/a:insert  v:visual  d/c/y:op  Cmd/Ctrl+C/V:clip  Esc:exit",
                VimMode::Insert => "type text  Cmd/Ctrl+V:paste  Cmd/Ctrl+C:copy  Enter:send(URL)  Esc:normal",
                VimMode::Visual => "motion:select  d:delete  y:yank  c:change  Cmd/Ctrl+C/V:clip  Esc:cancel",
                VimMode::Operator(_) => "motion:complete  Esc:cancel",
            },
            AppMode::Sidebar => "j/k:move  a:add  r:rename  d:del  m:move  /:search  Enter:open  Esc:exit",
        }
    }
}

/// The method as the method box shows it in `width` columns: cut short
/// with an ellipsis where it is longer.
pub open spec fn method_shown(name: Seq<char>, width: usize) -> Seq<char> {
    if name.len() > width {
        name.take(if width == 0 {
            0
        } else {
            width - 1
        }).push('\u{2026}')
    } else {
        name
    }
}

/// The method as the method box shows it in `width` columns.
pub fn method_display(method: &Method, width: usize) -> (text: String)
    ensures
        text@ == method_shown(method.name(), width),
{
    let chars = to_chars(method.as_str());
    if chars.len() > width {
        let keep = if width == 0 {
            0
        } else {
            width - 1
        };
        let mut out = crate::text::slice_chars(&chars, 0, keep);
        out.push('\u{2026}');
        from_chars(&out)
    } else {
        from_chars(&chars)
    }
}

} // verus!
