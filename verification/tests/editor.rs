use perseus::app::{
    ApiKeyLocation, AuthField, AuthType, FocusState, HttpMethod, Method, RequestField,
};
use perseus::buffer::Motion;
use perseus::app::{AppMode, Panel};
use perseus::editor::{cursor_style, prepare_editors, text_rows, EditorView, RequestState};
use perseus::ui::colors::vim_cursor_style;
use perseus::ui::style::{Color, Style};
use perseus::vim::VimMode;
use perseus::ui::cache::render_wrapped_response_cached;
use perseus::ui::style::Line;
use perseus::vim::Scroll;
use tui_textarea::{Input, Key};

#[test]
fn text_rows_are_the_lines_of_the_text() {
    assert_eq!(text_rows(""), Vec::<String>::new());
    assert_eq!(text_rows("a"), vec!["a"]);
    assert_eq!(text_rows("a\nb"), vec!["a", "b"]);
    assert_eq!(text_rows("a\r\nb\n"), vec!["a", "b"]);
    assert_eq!(text_rows("a\n\nb\r"), vec!["a", "", "b\r"]);
    assert_eq!(text_rows("\n"), vec![""]);
}

#[test]
fn a_new_field_is_fresh() {
    let e = EditorView::new(vec!["ab".to_string(), "c".to_string()], "hint");
    assert_eq!(e.buffer.lines(), vec!["ab", "c"]);
    assert_eq!(e.buffer.cursor(), (0, 0));
    assert!(!e.buffer.is_selecting());
    assert_eq!(e.buffer.yank_text(), "");
    assert_eq!(e.generation, 1);
    assert_eq!(e.cache.generation, 0);
    assert_eq!(e.cache.recomputes, 0);
    assert!(e.cache.wrapped_lines.is_empty());
    assert_eq!(e.placeholder, "hint");
    assert_eq!((e.scroll, e.page), (0, 0));
    assert!(!e.is_empty());
    let e = EditorView::empty("x");
    assert_eq!(e.buffer.lines(), vec![""]);
    assert!(e.is_empty());
    let e = EditorView::of_text("one\r\ntwo\n", "");
    assert_eq!(e.buffer.lines(), vec!["one", "two"]);
    let e = EditorView::of_text("", "");
    assert_eq!(e.buffer.lines(), vec![""]);
    assert!(EditorView::new(vec![String::new(), String::new()], "").is_empty());
    assert!(!EditorView::new(vec![String::new(), " ".to_string()], "").is_empty());
}

#[test]
fn touch_counts_and_passes_over_zero() {
    let mut e = EditorView::empty("");
    e.touch();
    assert_eq!(e.generation, 2);
    e.generation = u64::MAX - 1;
    e.touch();
    assert_eq!(e.generation, u64::MAX);
    e.touch();
    assert_eq!(e.generation, 1);
    assert_eq!(e.buffer.lines(), vec![""]);
}

#[test]
fn scroll_by_moves_a_page_within_the_rows() {
    let mut e = EditorView::of_text("0\n1\n2\n3\n4\n5\n6\n7\n8\n9", "");
    let lines: Vec<Line> = e.buffer.lines().into_iter().map(Line::from_text).collect();
    render_wrapped_response_cached(&lines, &mut e.cache, 10, 3, e.generation, None, None, 0, false);
    assert_eq!(e.cache.wrapped_lines.len(), 10);
    e.page = 4;
    e.scroll_by(Scroll::PageDown);
    assert_eq!(e.scroll, 4);
    e.scroll_by(Scroll::PageDown);
    assert_eq!(e.scroll, 8);
    e.scroll_by(Scroll::PageDown);
    assert_eq!(e.scroll, 9);
    e.scroll_by(Scroll::PageUp);
    assert_eq!(e.scroll, 5);
    e.scroll_by(Scroll::PageUp);
    assert_eq!(e.scroll, 1);
    e.scroll_by(Scroll::PageUp);
    assert_eq!(e.scroll, 0);
    assert_eq!(e.buffer.cursor(), (0, 0));
    assert_eq!(e.generation, 1);
    // a scroll that stands behind the rows comes back to the last row
    e.scroll = 40;
    e.scroll_by(Scroll::PageDown);
    assert_eq!(e.scroll, 9);
    e.scroll = usize::MAX;
    e.page = usize::MAX;
    e.scroll_by(Scroll::PageDown);
    assert_eq!(e.scroll, 9);
    // by one row
    e.page = 4;
    e.scroll = 7;
    e.scroll_by(Scroll::LineDown);
    assert_eq!(e.scroll, 8);
    e.scroll_by(Scroll::LineDown);
    e.scroll_by(Scroll::LineDown);
    assert_eq!(e.scroll, 9);
    e.scroll_by(Scroll::LineUp);
    assert_eq!(e.scroll, 8);
    e.scroll = 1;
    e.scroll_by(Scroll::LineUp);
    e.scroll_by(Scroll::LineUp);
    assert_eq!(e.scroll, 0);
    // nothing wrapped yet: there is only the first row
    let mut e = EditorView::empty("");
    e.page = 5;
    e.scroll_by(Scroll::PageDown);
    assert_eq!(e.scroll, 0);
    e.scroll_by(Scroll::LineDown);
    assert_eq!(e.scroll, 0);
}

#[test]
fn text_joins_the_lines() {
    let e = EditorView::of_text("a\nb\n\nc", "");
    assert_eq!(e.text("\n"), "a\nb\n\nc");
    assert_eq!(e.text(""), "abc");
    assert_eq!(e.text(", "), "a, b, , c");
    assert_eq!(EditorView::empty("").text("\n"), "");
}

#[test]
fn a_new_request_is_an_empty_get() {
    let r = RequestState::new();
    assert_eq!(r.method, Method::Standard(HttpMethod::Get));
    assert_eq!(r.auth_type, AuthType::NoAuth);
    assert_eq!(r.api_key_location, ApiKeyLocation::Header);
    assert_eq!(r.url_text(), "");
    assert_eq!(r.headers_text(), "");
    assert_eq!(r.body_text(), "");
    assert_eq!(r.auth_token_text(), "");
    assert_eq!(r.url_editor.placeholder, "Enter URL...");
    assert_eq!(r.headers_editor.placeholder, "Key: Value");
    assert_eq!(r.body_editor.placeholder, "Request body...");
    assert_eq!(r.auth_token_editor.placeholder, "Token");
    assert_eq!(r.auth_username_editor.placeholder, "Username");
    assert_eq!(r.auth_password_editor.placeholder, "Password");
    assert_eq!(r.auth_key_name_editor.placeholder, "Key name");
    assert_eq!(r.auth_key_value_editor.placeholder, "Key value");
}

#[test]
fn set_contents_shows_the_request_and_clears_the_authentication() {
    let mut r = RequestState::new();
    r.auth_type = AuthType::Basic;
    r.api_key_location = ApiKeyLocation::QueryParam;
    r.auth_username_editor.buffer.insert_str("me");
    r.auth_password_editor.buffer.insert_str("secret");
    r.auth_token_editor.buffer.insert_str("t");
    r.auth_key_name_editor.buffer.insert_str("k");
    r.auth_key_value_editor.buffer.insert_str("v");
    assert_eq!(r.auth_username_text(), "me");
    assert_eq!(r.auth_password_text(), "secret");
    assert_eq!(r.auth_token_text(), "t");
    assert_eq!(r.auth_key_name_text(), "k");
    assert_eq!(r.auth_key_value_text(), "v");
    r.set_contents(
        Method::Custom("PURGE".to_string()),
        "http://localhost".to_string(),
        "A: 1\r\nB: 2\n".to_string(),
        "{\n  \"a\": 1\n}".to_string(),
    );
    assert_eq!(r.method, Method::Custom("PURGE".to_string()));
    assert_eq!(r.url_editor.buffer.lines(), vec!["http://localhost"]);
    assert_eq!(r.headers_editor.buffer.lines(), vec!["A: 1", "B: 2"]);
    assert_eq!(r.body_editor.buffer.lines(), vec!["{", "  \"a\": 1", "}"]);
    assert_eq!(r.url_text(), "http://localhost");
    assert_eq!(r.headers_text(), "A: 1\nB: 2");
    assert_eq!(r.body_text(), "{\n  \"a\": 1\n}");
    assert_eq!(r.auth_type, AuthType::NoAuth);
    assert_eq!(r.api_key_location, ApiKeyLocation::Header);
    assert_eq!(r.auth_username_text(), "");
    assert_eq!(r.auth_password_text(), "");
    assert_eq!(r.auth_token_text(), "");
    assert_eq!(r.auth_key_name_text(), "");
    assert_eq!(r.auth_key_value_text(), "");
    // a URL is one row: line feeds in it do not reach the field
    r.set_contents(Method::default(), "a\nb".to_string(), String::new(), String::new());
    assert_eq!(r.url_text(), "ab");
    assert_eq!(r.headers_editor.buffer.lines(), vec![""]);
}

#[test]
fn reset_auth_keeps_the_texts() {
    let mut r = RequestState::new();
    r.set_contents(Method::default(), "u".into(), "h".into(), "b".into());
    r.url_editor.buffer.move_cursor(Motion::End);
    r.auth_type = AuthType::ApiKey;
    r.auth_key_name_editor.buffer.insert_str("k");
    r.reset_auth();
    assert_eq!(r.auth_type, AuthType::NoAuth);
    assert_eq!(r.auth_key_name_text(), "");
    assert_eq!(r.url_text(), "u");
    assert_eq!(r.url_editor.buffer.cursor(), (0, 1));
    assert_eq!(r.headers_text(), "h");
    assert_eq!(r.body_text(), "b");
    r.auth_type = AuthType::Bearer;
    r.auth_token_editor.buffer.insert_str("t");
    r.clear_auth_editors();
    assert_eq!(r.auth_type, AuthType::Bearer);
    assert_eq!(r.auth_token_text(), "");
}

#[test]
fn editors_are_found_by_field() {
    let mut r = RequestState::new();
    r.set_contents(Method::default(), "u".into(), "h".into(), "b".into());
    r.auth_token_editor.buffer.insert_str("t");
    r.auth_username_editor.buffer.insert_str("n");
    r.auth_password_editor.buffer.insert_str("p");
    r.auth_key_name_editor.buffer.insert_str("k");
    r.auth_key_value_editor.buffer.insert_str("v");
    for (field, text) in [(RequestField::Url, "u"), (RequestField::Headers, "h"), (RequestField::Body, "b")] {
        assert_eq!(r.active_editor(field).map(|e| e.text("")), Some(text.to_string()));
    }
    for field in [RequestField::Method, RequestField::Send, RequestField::Auth] {
        assert!(r.active_editor(field).is_none());
    }
    for (field, text) in [
        (AuthField::Token, "t"),
        (AuthField::Username, "n"),
        (AuthField::Password, "p"),
        (AuthField::KeyName, "k"),
        (AuthField::KeyValue, "v"),
    ] {
        assert_eq!(r.auth_editor(field).map(|e| e.text("")), Some(text.to_string()));
    }
    assert!(r.auth_editor(AuthField::AuthType).is_none());
    assert!(r.auth_editor(AuthField::KeyLocation).is_none());
    let mut focus = FocusState::default();
    focus.request_field = RequestField::Body;
    focus.auth_field = AuthField::Token;
    assert_eq!(r.focused_editor(&focus).map(|e| e.text("")), Some("b".to_string()));
    focus.request_field = RequestField::Auth;
    assert_eq!(r.focused_editor(&focus).map(|e| e.text("")), Some("t".to_string()));
    focus.auth_field = AuthField::AuthType;
    assert!(r.focused_editor(&focus).is_none());
    focus.request_field = RequestField::Send;
    assert!(r.focused_editor(&focus).is_none());
    // what is done to the editor is done to the request
    if let Some(e) = r.active_editor(RequestField::Url) {
        e.buffer.insert_str("x");
        e.touch();
    }
    assert_eq!(r.url_text(), "xu");
    assert_eq!(r.url_editor.generation, 2);
    assert_eq!(r.body_editor.generation, 1);
}

#[test]
fn tab_length_is_set_in_every_field() {
    let mut r = RequestState::new();
    r.set_contents(Method::default(), "u".into(), "h".into(), "b".into());
    r.url_editor.buffer.insert_str("x");
    r.set_tab_length(2);
    assert_eq!(r.url_text(), "xu");
    assert_eq!(r.headers_text(), "h");
    assert_eq!(r.body_text(), "b");
    assert_eq!(r.url_editor.buffer.cursor(), (0, 1));
    assert_eq!(r.body_editor.generation, 1);
    let tab = Input { key: Key::Tab, ctrl: false, alt: false, shift: false };
    assert!(r.url_editor.buffer.input(tab.clone()));
    assert_eq!(r.url_text(), "x u");
    assert!(r.headers_editor.buffer.input(tab.clone()));
    assert_eq!(r.headers_text(), "  h");
    assert!(r.body_editor.buffer.input(tab.clone()));
    assert_eq!(r.body_text(), "  b");
    assert!(r.auth_token_editor.buffer.input(tab.clone()));
    assert_eq!(r.auth_token_text(), "  ");
    assert!(r.auth_username_editor.buffer.input(tab.clone()));
    assert_eq!(r.auth_username_text(), "  ");
    assert!(r.auth_password_editor.buffer.input(tab.clone()));
    assert_eq!(r.auth_password_text(), "  ");
    assert!(r.auth_key_name_editor.buffer.input(tab.clone()));
    assert_eq!(r.auth_key_name_text(), "  ");
    assert!(r.auth_key_value_editor.buffer.input(tab));
    assert_eq!(r.auth_key_value_text(), "  ");
    // the edit made before is still the one to take back
    assert!(r.url_editor.buffer.undo());
    assert!(r.url_editor.buffer.undo());
    assert_eq!(r.url_text(), "u");
    // a new field has tab stops of four columns
    let mut e = EditorView::empty("");
    assert!(e.buffer.input(Input { key: Key::Tab, ctrl: false, alt: false, shift: false }));
    assert_eq!(e.text(""), "    ");
}

#[test]
fn fields_are_styled_by_focus_and_mode() {
    let dim = Style::new().fg(Color::DarkGray);
    assert_eq!(cursor_style(false, VimMode::Insert), dim);
    assert_eq!(cursor_style(true, VimMode::Insert), vim_cursor_style(VimMode::Insert));
    let mut focus = FocusState::default();
    focus.panel = Panel::Request;
    focus.request_field = RequestField::Url;
    let s = prepare_editors(AppMode::Editing, &focus, VimMode::Normal);
    assert_eq!(s.url_border, Color::Green);
    assert_eq!(s.url_cursor, vim_cursor_style(VimMode::Normal));
    assert_eq!(s.headers_cursor, dim);
    assert_eq!(s.body_cursor, dim);
    assert_eq!(s.auth_token_cursor, dim);
    assert_eq!(s.response_cursor, dim);
    // without editing every cursor is dim, the border still shows the focus
    let s = prepare_editors(AppMode::Navigation, &focus, VimMode::Normal);
    assert_eq!(s.url_border, Color::Green);
    assert_eq!(s.url_cursor, dim);
    focus.request_field = RequestField::Body;
    let s = prepare_editors(AppMode::Editing, &focus, VimMode::Visual);
    assert_eq!(s.url_border, Color::White);
    assert_eq!(s.url_cursor, dim);
    assert_eq!(s.body_cursor, vim_cursor_style(VimMode::Visual));
    focus.request_field = RequestField::Headers;
    let s = prepare_editors(AppMode::Editing, &focus, VimMode::Insert);
    assert_eq!(s.headers_cursor, vim_cursor_style(VimMode::Insert));
    assert_eq!(s.body_cursor, dim);
    focus.request_field = RequestField::Auth;
    let on = vim_cursor_style(VimMode::Insert);
    for (field, pick) in [
        (AuthField::Token, 0),
        (AuthField::Username, 1),
        (AuthField::Password, 2),
        (AuthField::KeyName, 3),
        (AuthField::KeyValue, 4),
        (AuthField::AuthType, 5),
    ] {
        focus.auth_field = field;
        let s = prepare_editors(AppMode::Editing, &focus, VimMode::Insert);
        let cursors = [
            s.auth_token_cursor,
            s.auth_username_cursor,
            s.auth_password_cursor,
            s.auth_key_name_cursor,
            s.auth_key_value_cursor,
        ];
        for (k, cursor) in cursors.iter().enumerate() {
            assert_eq!(*cursor, if k == pick { on } else { dim });
        }
        assert_eq!(s.headers_cursor, dim);
    }
    // the focus on the auth field of another panel shows nothing
    focus.panel = Panel::Response;
    focus.auth_field = AuthField::Token;
    let s = prepare_editors(AppMode::Editing, &focus, VimMode::Insert);
    assert_eq!(s.auth_token_cursor, dim);
    assert_eq!(s.url_border, Color::White);
    assert_eq!(s.response_cursor, on);
    let s = prepare_editors(AppMode::Sidebar, &focus, VimMode::Insert);
    assert_eq!(s.response_cursor, dim);
}
