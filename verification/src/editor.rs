//! The text fields of the request panel: a buffer with what its view keeps
//! between two frames, and the fields that make up one request.
use crate::app::{
    ApiKeyLocation, AppMode, AuthField, AuthType, FocusState, HttpMethod, Method, Panel,
    RequestField,
};
use crate::buffer::{single_rows, Buffer, BufferView};
use crate::text::{
    from_chars, join, joined, lemma_split_nonempty, lemma_split_parts, lines_of, split_lines,
    split_on, strings_view, texts_view, to_chars,
};
use crate::ui::cache::WrapCache;
use crate::ui::colors::{vim_cursor, vim_cursor_style};
use crate::ui::style::{Color, Style};
use crate::vim::{Scroll, VimMode};
use vstd::prelude::*;

verus! {

/// A text field: the buffer, and what its view remembers between frames.
pub struct EditorView {
    pub buffer: Buffer,
    pub cache: WrapCache,
    /// Counts the changes of the text; the cache is keyed by it.
    pub generation: u64,
    pub placeholder: &'static str,
    /// The first display row that the view showed in the last frame.
    pub scroll: usize,
    /// The rows that the view had in the last frame.
    pub page: usize,
}

/// The lines that a buffer made from `lines` holds: a buffer is never
/// without a line.
pub open spec fn rows_of(lines: Seq<Seq<char>>) -> Seq<Seq<char>> {
    if lines.len() == 0 {
        seq![Seq::<char>::empty()]
    } else {
        lines
    }
}

/// The generation after `g`. It passes over 0, which stands for a cache
/// that was never filled.
pub open spec fn next_generation(g: u64) -> u64 {
    if g == u64::MAX {
        1
    } else {
        (g + 1) as u64
    }
}

/// The rows that a scroll goes by: a page of `page` rows, or one row.
pub open spec fn scroll_step(page: int, by: Scroll) -> int {
    match by {
        Scroll::PageDown | Scroll::PageUp => page,
        Scroll::LineDown | Scroll::LineUp => 1,
    }
}

/// The first row shown after scrolling from row `scroll`, with pages of
/// `page` rows, in a view of `rows` display rows: never behind the last
/// row, never before the first.
pub open spec fn scrolled_by(scroll: int, page: int, rows: int, by: Scroll) -> int {
    let last = if rows > 0 {
        rows - 1
    } else {
        0
    };
    let step = scroll_step(page, by);
    match by {
        Scroll::PageDown | Scroll::LineDown => if scroll + step < last {
            scroll + step
        } else {
            last
        },
        Scroll::PageUp | Scroll::LineUp => if scroll > step {
            scroll - step
        } else {
            0
        },
    }
}

/// The rows of a text, as strings: its lines, none of which holds a line
/// feed.
pub fn text_rows(text: &str) -> (rows: Vec<String>)
    ensures
        strings_view(rows@) == lines_of(text@),
        single_rows(rows@),
{
    let chars = to_chars(text);
    let lines = split_lines(&chars);
    let mut rows: Vec<String> = Vec::new();
    let mut i: usize = 0;
    proof {
        lemma_split_parts(text@, '\n');
        lemma_split_nonempty(text@, '\n');
    }
    while i < lines.len()
        invariant
            i <= lines.len(),
            rows@.len() == i,
            forall|k: int| 0 <= k < i ==> (#[trigger] rows@[k])@ == lines@[k]@,
        decreases lines.len() - i,
    {
        rows.push(from_chars(&lines[i]));
        i += 1;
    }
    proof {
        assert(strings_view(rows@) =~= texts_view(lines@));
        let parts = split_on(text@, '\n');
        assert forall|k: int| 0 <= k < rows@.len() implies !(#[trigger] rows@[k])@.contains('\n') by {
            let line = lines_of(text@)[k];
            assert(rows@[k]@ == line);
            assert(!parts[k].contains('\n'));
            assert forall|j: int| 0 <= j < line.len() implies line[j] != '\n' by {
                assert(line[j] == parts[k][j]);
                assert(parts[k].contains(parts[k][j]));
            }
        }
    }
    rows
}

impl EditorView {
    /// The field is new: it holds `lines` with the cursor at the top left,
    /// nothing is selected or yanked, no edit was made, a tab stop is 4
    /// columns wide, nothing was wrapped or scrolled yet.
    pub open spec fn fresh(self, lines: Seq<Seq<char>>, placeholder: Seq<char>) -> bool {
        &&& self.buffer@.lines == lines
        &&& self.buffer@.cursor == (0nat, 0nat)
        &&& self.buffer@.anchor is None
        &&& self.buffer@.yank == seq![Seq::<char>::empty()]
        &&& self.buffer@.tab == 4
        &&& self.buffer@.done.len() == 0
        &&& self.buffer@.undone.len() == 0
        &&& self.cache.width == 0
        &&& self.cache.generation == 0
        &&& self.cache.wrapped_lines@.len() == 0
        &&& self.cache.recomputes == 0
        &&& self.generation == 1
        &&& self.placeholder@ == placeholder
        &&& self.scroll == 0
        &&& self.page == 0
    }

    /// The field is `other` with a tab stop of `tab` columns: the buffers
    /// agree in all else that the contracts say of a buffer, and the rest
    /// is equal.
    pub open spec fn retabbed(self, other: EditorView, tab: nat) -> bool {
        &&& self.buffer@ == (BufferView { tab, ..other.buffer@ })
        &&& self.cache == other.cache
        &&& self.generation == other.generation
        &&& self.placeholder == other.placeholder
        &&& self.scroll == other.scroll
        &&& self.page == other.page
    }

    /// A new field holding `lines`, none of which holds a line feed.
    pub fn new(lines: Vec<String>, placeholder: &'static str) -> (e: EditorView)
        requires
            single_rows(lines@),
        ensures
            e.fresh(rows_of(strings_view(lines@)), placeholder@),
    {
        let ghost given = strings_view(lines@);
        proof {
            assert(given.len() == lines@.len());
        }
        EditorView {
            buffer: Buffer::new(lines),
            cache: WrapCache::new(),
            generation: 1,
            placeholder,
            scroll: 0,
            page: 0,
        }
    }

    /// A new field without text.
    pub fn empty(placeholder: &'static str) -> (e: EditorView)
        ensures
            e.fresh(rows_of(Seq::empty()), placeholder@),
    {
        let lines: Vec<String> = Vec::new();
        proof {
            assert(strings_view(lines@) =~= Seq::<Seq<char>>::empty());
        }
        EditorView::new(lines, placeholder)
    }

    /// A new field holding the lines of `text`.
    pub fn of_text(text: &str, placeholder: &'static str) -> (e: EditorView)
        ensures
            e.fresh(rows_of(lines_of(text@)), placeholder@),
    {
        EditorView::new(text_rows(text), placeholder)
    }

    /// Marks the text as changed, so that the next frame wraps it anew.
    pub fn touch(&mut self)
        ensures
            final(self).generation == next_generation(old(self).generation),
            final(self).generation != 0,
            final(self).buffer == old(self).buffer,
            final(self).cache == old(self).cache,
            final(self).placeholder == old(self).placeholder,
            final(self).scroll == old(self).scroll,
            final(self).page == old(self).page,
    {
        if self.generation == u64::MAX {
            self.generation = 1;
        } else {
            self.generation = self.generation + 1;
        }
    }

    /// Scrolls the view by a page or a row. The cursor and the text stay.
    pub fn scroll_by(&mut self, by: Scroll)
        ensures
            final(self).scroll == scrolled_by(
                old(self).scroll as int,
                old(self).page as int,
                old(self).cache.wrapped_lines@.len() as int,
                by,
            ),
            final(self).buffer == old(self).buffer,
            final(self).cache == old(self).cache,
            final(self).generation == old(self).generation,
            final(self).placeholder == old(self).placeholder,
            final(self).page == old(self).page,
    {
        let rows = self.cache.wrapped_lines.len();
        let last: usize = if rows > 0 {
            rows - 1
        } else {
            0
        };
        let step: usize = match by {
            Scroll::PageDown | Scroll::PageUp => self.page,
            Scroll::LineDown | Scroll::LineUp => 1,
        };
        match by {
            Scroll::PageDown | Scroll::LineDown => {
                if step < last && self.scroll < last - step {
                    self.scroll = self.scroll + step;
                } else {
                    self.scroll = last;
                }
            },
            Scroll::PageUp | Scroll::LineUp => {
                if self.scroll > step {
                    self.scroll = self.scroll - step;
                } else {
                    self.scroll = 0;
                }
            },
        }
    }

    /// The text of the field, its lines joined by `separator`.
    pub fn text(&self, separator: &str) -> (r: String)
        ensures
            r@ == joined(self.buffer@.lines, separator@),
    {
        let lines = self.buffer.lines();
        let mut parts: Vec<Vec<char>> = Vec::new();
        let mut i: usize = 0;
        while i < lines.len()
            invariant
                i <= lines.len(),
                parts@.len() == i,
                forall|k: int| 0 <= k < i ==> (#[trigger] parts@[k])@ == lines@[k]@,
            decreases lines.len() - i,
        {
            parts.push(to_chars(lines[i].as_str()));
            i += 1;
        }
        proof {
            assert(texts_view(parts@) =~= strings_view(lines@));
        }
        let sep = to_chars(separator);
        from_chars(&join(&parts, &sep))
    }

    /// Whether the field holds no character.
    pub fn is_empty(&self) -> (r: bool)
        ensures
            r == forall|k: int|
                0 <= k < self.buffer@.lines.len() ==> (#[trigger] self.buffer@.lines[k]).len() == 0,
    {
        let lines = self.buffer.lines();
        let mut i: usize = 0;
        while i < lines.len()
            invariant
                i <= lines.len(),
                strings_view(lines@) == self.buffer@.lines,
                forall|k: int| 0 <= k < i ==> (#[trigger] self.buffer@.lines[k]).len() == 0,
            decreases lines.len() - i,
        {
            let chars = to_chars(lines[i].as_str());
            if chars.len() > 0 {
                proof {
                    assert(self.buffer@.lines[i as int] == lines@[i as int]@);
                }
                return false;
            }
            proof {
                assert(self.buffer@.lines[i as int] == lines@[i as int]@);
            }
            i += 1;
        }
        proof {
            assert(strings_view(lines@).len() == lines@.len());
        }
        true
    }
}

/// The fields of the request that is being edited.
pub struct RequestState {
    pub method: Method,
    pub url_editor: EditorView,
    pub headers_editor: EditorView,
    pub body_editor: EditorView,
    pub auth_type: AuthType,
    pub api_key_location: ApiKeyLocation,
    pub auth_token_editor: EditorView,
    pub auth_username_editor: EditorView,
    pub auth_password_editor: EditorView,
    pub auth_key_name_editor: EditorView,
    pub auth_key_value_editor: EditorView,
}

impl RequestState {
    /// The request is `other` with a tab stop of `tab` columns in every
    /// field: method, authentication, and in every field the text, the
    /// cursor, the selection, the yank slot, the history and the view are
    /// those of `other`.
    pub open spec fn retabbed(self, other: RequestState, tab: nat) -> bool {
        &&& self.method == other.method
        &&& self.auth_type == other.auth_type
        &&& self.api_key_location == other.api_key_location
        &&& self.url_editor.retabbed(other.url_editor, tab)
        &&& self.headers_editor.retabbed(other.headers_editor, tab)
        &&& self.body_editor.retabbed(other.body_editor, tab)
        &&& self.auth_token_editor.retabbed(other.auth_token_editor, tab)
        &&& self.auth_username_editor.retabbed(other.auth_username_editor, tab)
        &&& self.auth_password_editor.retabbed(other.auth_password_editor, tab)
        &&& self.auth_key_name_editor.retabbed(other.auth_key_name_editor, tab)
        &&& self.auth_key_value_editor.retabbed(other.auth_key_value_editor, tab)
    }

    /// No authentication is set and the fields for it are new and empty.
    pub open spec fn auth_cleared(self) -> bool {
        let none = rows_of(Seq::empty());
        &&& self.auth_type == AuthType::NoAuth
        &&& self.api_key_location == ApiKeyLocation::Header
        &&& self.auth_token_editor.fresh(none, "Token"@)
        &&& self.auth_username_editor.fresh(none, "Username"@)
        &&& self.auth_password_editor.fresh(none, "Password"@)
        &&& self.auth_key_name_editor.fresh(none, "Key name"@)
        &&& self.auth_key_value_editor.fresh(none, "Key value"@)
    }

    /// The request holds `method` and the lines of the three texts, in new
    /// fields, and no authentication.
    pub open spec fn holds(
        self,
        method: Method,
        url: Seq<char>,
        headers: Seq<char>,
        body: Seq<char>,
    ) -> bool {
        &&& self.method == method
        &&& self.url_editor.fresh(rows_of(lines_of(url)), "Enter URL..."@)
        &&& self.headers_editor.fresh(rows_of(lines_of(headers)), "Key: Value"@)
        &&& self.body_editor.fresh(rows_of(lines_of(body)), "Request body..."@)
        &&& self.auth_cleared()
    }

    /// An empty request: a GET without URL, headers, body or authentication.
    pub fn new() -> (r: RequestState)
        ensures
            r.holds(Method::Standard(HttpMethod::Get), Seq::empty(), Seq::empty(), Seq::empty()),
    {
        proof {
            assert(lines_of(Seq::<char>::empty()) =~= Seq::<Seq<char>>::empty());
        }
        RequestState {
            method: Method::default(),
            url_editor: EditorView::empty("Enter URL..."),
            headers_editor: EditorView::empty("Key: Value"),
            body_editor: EditorView::empty("Request body..."),
            auth_type: AuthType::NoAuth,
            api_key_location: ApiKeyLocation::Header,
            auth_token_editor: EditorView::empty("Token"),
            auth_username_editor: EditorView::empty("Username"),
            auth_password_editor: EditorView::empty("Password"),
            auth_key_name_editor: EditorView::empty("Key name"),
            auth_key_value_editor: EditorView::empty("Key value"),
        }
    }

    /// Shows another request: its method and texts in new fields, and no
    /// authentication.
    pub fn set_contents(&mut self, method: Method, url: String, headers: String, body: String)
        ensures
            final(self).holds(method, url@, headers@, body@),
    {
        self.method = method;
        self.url_editor = EditorView::of_text(url.as_str(), "Enter URL...");
        self.headers_editor = EditorView::of_text(headers.as_str(), "Key: Value");
        self.body_editor = EditorView::of_text(body.as_str(), "Request body...");
        self.reset_auth();
    }

    /// Takes the authentication away; the method and the three texts stay.
    pub fn reset_auth(&mut self)
        ensures
            final(self).auth_cleared(),
            final(self).method == old(self).method,
            final(self).url_editor == old(self).url_editor,
            final(self).headers_editor == old(self).headers_editor,
            final(self).body_editor == old(self).body_editor,
    {
        self.auth_type = AuthType::NoAuth;
        self.api_key_location = ApiKeyLocation::Header;
        self.clear_auth_editors();
    }

    /// Empties the fields of the authentication; its kind stays.
    pub fn clear_auth_editors(&mut self)
        ensures
            final(self).auth_token_editor.fresh(rows_of(Seq::empty()), "Token"@),
            final(self).auth_username_editor.fresh(rows_of(Seq::empty()), "Username"@),
            final(self).auth_password_editor.fresh(rows_of(Seq::empty()), "Password"@),
            final(self).auth_key_name_editor.fresh(rows_of(Seq::empty()), "Key name"@),
            final(self).auth_key_value_editor.fresh(rows_of(Seq::empty()), "Key value"@),
            final(self).auth_type == old(self).auth_type,
            final(self).api_key_location == old(self).api_key_location,
            final(self).method == old(self).method,
            final(self).url_editor == old(self).url_editor,
            final(self).headers_editor == old(self).headers_editor,
            final(self).body_editor == old(self).body_editor,
    {
        self.auth_token_editor = EditorView::empty("Token");
        self.auth_username_editor = EditorView::empty("Username");
        self.auth_password_editor = EditorView::empty("Password");
        self.auth_key_name_editor = EditorView::empty("Key name");
        self.auth_key_value_editor = EditorView::empty("Key value");
    }

    /// The field that `field` names, if it is one of the three texts.
    pub open spec fn text_field(self, field: RequestField) -> Option<EditorView> {
        match field {
            RequestField::Url => Some(self.url_editor),
            RequestField::Headers => Some(self.headers_editor),
            RequestField::Body => Some(self.body_editor),
            _ => None,
        }
    }

    /// The request with `e` in place of the text that `field` names.
    pub open spec fn with_text_field(self, field: RequestField, e: EditorView) -> RequestState {
        match field {
            RequestField::Url => RequestState { url_editor: e, ..self },
            RequestField::Headers => RequestState { headers_editor: e, ..self },
            RequestField::Body => RequestState { body_editor: e, ..self },
            _ => self,
        }
    }

    /// The field that `field` names, if it is a text of the authentication.
    pub open spec fn auth_field(self, field: AuthField) -> Option<EditorView> {
        match field {
            AuthField::Token => Some(self.auth_token_editor),
            AuthField::Username => Some(self.auth_username_editor),
            AuthField::Password => Some(self.auth_password_editor),
            AuthField::KeyName => Some(self.auth_key_name_editor),
            AuthField::KeyValue => Some(self.auth_key_value_editor),
            _ => None,
        }
    }

    /// The request with `e` in place of the text of the authentication that
    /// `field` names.
    pub open spec fn with_auth_field(self, field: AuthField, e: EditorView) -> RequestState {
        match field {
            AuthField::Token => RequestState { auth_token_editor: e, ..self },
            AuthField::Username => RequestState { auth_username_editor: e, ..self },
            AuthField::Password => RequestState { auth_password_editor: e, ..self },
            AuthField::KeyName => RequestState { auth_key_name_editor: e, ..self },
            AuthField::KeyValue => RequestState { auth_key_value_editor: e, ..self },
            _ => self,
        }
    }

    /// The text that `field` names, to edit: the URL, the headers or the
    /// body. What the caller does to it is done to the request, and to
    /// nothing else of it.
    pub fn active_editor(&mut self, field: RequestField) -> (r: Option<&mut EditorView>)
        ensures
            match r {
                Some(e) => Some(*e) == old(self).text_field(field) && *final(self) == old(
                    self,
                ).with_text_field(field, *final(e)),
                None => old(self).text_field(field) is None && *final(self) == *old(self),
            },
    {
        match field {
            RequestField::Url => Some(&mut self.url_editor),
            RequestField::Headers => Some(&mut self.headers_editor),
            RequestField::Body => Some(&mut self.body_editor),
            RequestField::Method | RequestField::Send | RequestField::Auth => None,
        }
    }

    /// The text of the authentication that `field` names, to edit.
    pub fn auth_editor(&mut self, field: AuthField) -> (r: Option<&mut EditorView>)
        ensures
            match r {
                Some(e) => Some(*e) == old(self).auth_field(field) && *final(self) == old(
                    self,
                ).with_auth_field(field, *final(e)),
                None => old(self).auth_field(field) is None && *final(self) == *old(self),
            },
    {
        match field {
            AuthField::Token => Some(&mut self.auth_token_editor),
            AuthField::Username => Some(&mut self.auth_username_editor),
            AuthField::Password => Some(&mut self.auth_password_editor),
            AuthField::KeyName => Some(&mut self.auth_key_name_editor),
            AuthField::KeyValue => Some(&mut self.auth_key_value_editor),
            AuthField::AuthType | AuthField::KeyLocation => None,
        }
    }

    /// The text that has the focus, to edit: one of the three texts, or a
    /// text of the authentication where the focus is there.
    pub fn focused_editor(&mut self, focus: &FocusState) -> (r: Option<&mut EditorView>)
        ensures
            match r {
                Some(e) => if focus.request_field is Auth {
                    Some(*e) == old(self).auth_field(focus.auth_field) && *final(self) == old(
                        self,
                    ).with_auth_field(focus.auth_field, *final(e))
                } else {
                    Some(*e) == old(self).text_field(focus.request_field) && *final(self) == old(
                        self,
                    ).with_text_field(focus.request_field, *final(e))
                },
                None => *final(self) == *old(self) && if focus.request_field is Auth {
                    old(self).auth_field(focus.auth_field) is None
                } else {
                    old(self).text_field(focus.request_field) is None
                },
            },
    {
        match focus.request_field {
            RequestField::Auth => self.auth_editor(focus.auth_field),
            _ => self.active_editor(focus.request_field),
        }
    }

    /// Sets the width of a tab stop, in columns, in every field. Nothing
    /// else changes.
    pub fn set_tab_length(&mut self, len: u8)
        ensures
            final(self).retabbed(*old(self), len as nat),
    {
        self.url_editor.buffer.set_tab_length(len);
        self.headers_editor.buffer.set_tab_length(len);
        self.body_editor.buffer.set_tab_length(len);
        self.auth_token_editor.buffer.set_tab_length(len);
        self.auth_username_editor.buffer.set_tab_length(len);
        self.auth_password_editor.buffer.set_tab_length(len);
        self.auth_key_name_editor.buffer.set_tab_length(len);
        self.auth_key_value_editor.buffer.set_tab_length(len);
    }

    /// The URL: the lines of its field, one behind the other.
    pub fn url_text(&self) -> (r: String)
        ensures
            r@ == joined(self.url_editor.buffer@.lines, Seq::empty()),
    {
        proof {
            reveal_strlit("");
            assert(""@ =~= Seq::<char>::empty());
        }
        self.url_editor.text("")
    }

    /// The headers: the lines of their field, with line feeds between them.
    pub fn headers_text(&self) -> (r: String)
        ensures
            r@ == joined(self.headers_editor.buffer@.lines, seq!['\n']),
    {
        proof {
            reveal_strlit("\n");
            assert("\n"@ =~= seq!['\n']);
        }
        self.headers_editor.text("\n")
    }

    /// The body: the lines of its field, with line feeds between them.
    pub fn body_text(&self) -> (r: String)
        ensures
            r@ == joined(self.body_editor.buffer@.lines, seq!['\n']),
    {
        proof {
            reveal_strlit("\n");
            assert("\n"@ =~= seq!['\n']);
        }
        self.body_editor.text("\n")
    }

    /// The bearer token.
    pub fn auth_token_text(&self) -> (r: String)
        ensures
            r@ == joined(self.auth_token_editor.buffer@.lines, Seq::empty()),
    {
        proof {
            reveal_strlit("");
            assert(""@ =~= Seq::<char>::empty());
        }
        self.auth_token_editor.text("")
    }

    /// The user name of basic authentication.
    pub fn auth_username_text(&self) -> (r: String)
        ensures
            r@ == joined(self.auth_username_editor.buffer@.lines, Seq::empty()),
    {
        proof {
            reveal_strlit("");
            assert(""@ =~= Seq::<char>::empty());
        }
        self.auth_username_editor.text("")
    }

    /// The password of basic authentication.
    pub fn auth_password_text(&self) -> (r: String)
        ensures
            r@ == joined(self.auth_password_editor.buffer@.lines, Seq::empty()),
    {
        proof {
            reveal_strlit("");
            assert(""@ =~= Seq::<char>::empty());
        }
        self.auth_password_editor.text("")
    }

    /// The name of the API key.
    pub fn auth_key_name_text(&self) -> (r: String)
        ensures
            r@ == joined(self.auth_key_name_editor.buffer@.lines, Seq::empty()),
    {
        proof {
            reveal_strlit("");
            assert(""@ =~= Seq::<char>::empty());
        }
        self.auth_key_name_editor.text("")
    }

    /// The value of the API key.
    pub fn auth_key_value_text(&self) -> (r: String)
        ensures
            r@ == joined(self.auth_key_value_editor.buffer@.lines, Seq::empty()),
    {
        proof {
            reveal_strlit("");
            assert(""@ =~= Seq::<char>::empty());
        }
        self.auth_key_value_editor.text("")
    }
}

/// The style of a field's cursor: that of the mode where the field is
/// being edited, dim elsewhere.
pub open spec fn cursor_shown(editing: bool, mode: VimMode) -> Style {
    if editing {
        vim_cursor(mode)
    } else {
        Style::plain().with_fg(Color::DarkGray)
    }
}

/// The style of a field's cursor.
pub fn cursor_style(editing: bool, mode: VimMode) -> (s: Style)
    ensures
        s == cursor_shown(editing, mode),
{
    if editing {
        vim_cursor_style(mode)
    } else {
        Style::new().fg(Color::DarkGray)
    }
}

/// How the text fields are to be shown in a frame: the border of the URL
/// and the cursor of each field.
#[derive(Debug, Clone, Copy, PartialEq, Eq)]
pub struct EditorStyles {
    pub url_border: Color,
    pub url_cursor: Style,
    pub headers_cursor: Style,
    pub body_cursor: Style,
    pub auth_token_cursor: Style,
    pub auth_username_cursor: Style,
    pub auth_password_cursor: Style,
    pub auth_key_name_cursor: Style,
    pub auth_key_value_cursor: Style,
    pub response_cursor: Style,
}

/// The focus is on field `field` of the request panel.
pub open spec fn on_field(focus: FocusState, field: RequestField) -> bool {
    focus.panel is Request && focus.request_field == field
}

/// The focus is on field `field` of the authentication.
pub open spec fn on_auth_field(focus: FocusState, field: AuthField) -> bool {
    on_field(focus, RequestField::Auth) && focus.auth_field == field
}

impl EditorStyles {
    /// The styles are those for the application in `app_mode` with the
    /// focus at `focus` and the engine in `mode`: the URL has a green
    /// border where it has the focus and a white one elsewhere; the field
    /// that has the focus shows the cursor of the mode while the
    /// application is editing, every other field a dim one.
    pub open spec fn prepared(self, app_mode: AppMode, focus: FocusState, mode: VimMode) -> bool {
        let editing = app_mode is Editing;
        &&& self.url_border == if on_field(focus, RequestField::Url) {
            Color::Green
        } else {
            Color::White
        }
        &&& self.url_cursor == cursor_shown(editing && on_field(focus, RequestField::Url), mode)
        &&& self.headers_cursor == cursor_shown(
            editing && on_field(focus, RequestField::Headers),
            mode,
        )
        &&& self.body_cursor == cursor_shown(editing && on_field(focus, RequestField::Body), mode)
        &&& self.auth_token_cursor == cursor_shown(
            editing && on_auth_field(focus, AuthField::Token),
            mode,
        )
        &&& self.auth_username_cursor == cursor_shown(
            editing && on_auth_field(focus, AuthField::Username),
            mode,
        )
        &&& self.auth_password_cursor == cursor_shown(
            editing && on_auth_field(focus, AuthField::Password),
            mode,
        )
        &&& self.auth_key_name_cursor == cursor_shown(
            editing && on_auth_field(focus, AuthField::KeyName),
            mode,
        )
        &&& self.auth_key_value_cursor == cursor_shown(
            editing && on_auth_field(focus, AuthField::KeyValue),
            mode,
        )
        &&& self.response_cursor == cursor_shown(editing && focus.panel is Response, mode)
    }
}

/// How the text fields are to be shown in the next frame.
pub fn prepare_editors(app_mode: AppMode, focus: &FocusState, mode: VimMode) -> (s: EditorStyles)
    ensures
        s.prepared(app_mode, *focus, mode),
{
    let editing = matches!(app_mode, AppMode::Editing);
    let in_request = matches!(focus.panel, Panel::Request);
    let in_auth = in_request && matches!(focus.request_field, RequestField::Auth);
    let url = in_request && matches!(focus.request_field, RequestField::Url);
    let headers = in_request && matches!(focus.request_field, RequestField::Headers);
    let body = in_request && matches!(focus.request_field, RequestField::Body);
    EditorStyles {
        url_border: if url {
            Color::Green
        } else {
            Color::White
        },
        url_cursor: cursor_style(editing && url, mode),
        headers_cursor: cursor_style(editing && headers, mode),
        body_cursor: cursor_style(editing && body, mode),
        auth_token_cursor: cursor_style(
            editing && in_auth && matches!(focus.auth_field, AuthField::Token),
            mode,
        ),
        auth_username_cursor: cursor_style(
            editing && in_auth && matches!(focus.auth_field, AuthField::Username),
            mode,
        ),
        auth_password_cursor: cursor_style(
            editing && in_auth && matches!(focus.auth_field, AuthField::Password),
            mode,
        ),
        auth_key_name_cursor: cursor_style(
            editing && in_auth && matches!(focus.auth_field, AuthField::KeyName),
            mode,
        ),
        auth_key_value_cursor: cursor_style(
            editing && in_auth && matches!(focus.auth_field, AuthField::KeyValue),
            mode,
        ),
        response_cursor: cursor_style(editing && matches!(focus.panel, Panel::Response), mode),
    }
}

} // verus!
