use perseus::app::{
    build_postman_request, format_json_if_possible, handle_auth_enter, shown_body, AppMode,
    AuthEnter, AuthField, FocusState, HttpMethod, Method, Panel, RequestField, ResponseTab,
};
use perseus::ui::colors::{method_display, mode_badge, panel_info, status_hints};
use perseus::ui::style::{Color, Style, BOLD};
use perseus::buffer::{Buffer, Motion};
use perseus::clipboard::{changed_yank, copy_for_clipboard, paste_from_clipboard};
use perseus::http::{format_request_error, request_body, request_headers, RequestFailure};
use perseus::keys::{
    confirm_action, custom_method_action, editing_action, handle_navigation_mode, handle_sidebar_key,
    handle_sidebar_mode, key_is, list_action, text_popup_action, CustomMethodAction, EditingAction,
    ListAction, NavAction, NavState, SidebarAction, SidebarModeAction, TextPopupAction,
};
use perseus::sidebar::{
    container_ids, indent_target, input_line_text, move_candidates, move_check, outdent_target,
    place_of, rebuild_sidebar, sidebar_row,
    add_id, add_parent_id, expand_sidebar_ancestors, find_child_folder, has_id, remove_id,
    sidebar_collapse_or_parent, sidebar_expand_or_open, sidebar_lines, sidebar_move_selection,
    sidebar_search_lines_for, sidebar_selected_index, SidebarLine, SidebarState, SidebarStep,
};
use perseus::storage::collection::NodeKind;
use perseus::storage::sort::sorted_order;
use perseus::storage::store::{ProjectTree, TreeNode};
use perseus::vim::{Command, Operator, Transition, Vim, VimMode};
use tui_textarea::{Input, Key};

fn key(c: char) -> Input {
    Input { key: Key::Char(c), ctrl: false, alt: false, shift: false }
}

fn ctrl(c: char) -> Input {
    Input { key: Key::Char(c), ctrl: true, alt: false, shift: false }
}

fn special(k: Key) -> Input {
    Input { key: k, ctrl: false, alt: false, shift: false }
}

fn node(id: u128, name: &str, kind: NodeKind, parent: Option<u128>, children: Vec<u128>) -> TreeNode {
    TreeNode {
        id,
        name: name.to_string(),
        kind,
        parent_id: parent,
        children,
        request_method: if kind == NodeKind::Request { Some("post".to_string()) } else { None },
    }
}

/// p(1) { f(2) { r(3), g(4) { s(5) } }, t(6) }
fn tree() -> ProjectTree {
    ProjectTree {
        root_id: 1,
        nodes: vec![
            node(3, "r", NodeKind::Request, Some(2), vec![]),
            node(5, "Sub", NodeKind::Request, Some(4), vec![]),
            node(4, "g", NodeKind::Folder, Some(2), vec![5]),
            node(2, "f", NodeKind::Folder, Some(1), vec![3, 4]),
            node(6, "t", NodeKind::Request, Some(1), vec![]),
            node(1, "p", NodeKind::Project, None, vec![2, 6]),
        ],
    }
}

fn shape(lines: &[SidebarLine]) -> Vec<(u128, String)> {
    lines.iter().map(|l| (l.id, format!("{}{} {}", l.prefix, l.marker, l.label))).collect()
}

#[test]
fn sidebar_lines_show_what_is_expanded() {
    let t = tree();
    assert_eq!(shape(&sidebar_lines(&t, &vec![])), vec![(1, "\u{25b8} p".to_string())]);
    let lines = sidebar_lines(&t, &vec![1, 2]);
    assert_eq!(
        shape(&lines),
        vec![
            (1, "\u{25be} p".to_string()),
            (2, "\u{251c}\u{2500} \u{25be} f".to_string()),
            (3, "\u{2502} \u{251c}\u{2500} \u{2022} r".to_string()),
            (4, "\u{2502} \u{2514}\u{2500} \u{25b8} g".to_string()),
            (6, "\u{2514}\u{2500} \u{2022} t".to_string()),
        ]
    );
    assert_eq!(lines[2].method, Some(Method::Standard(HttpMethod::Post)));
    assert_eq!(lines[1].method, None);
    assert_eq!(lines[2].kind, NodeKind::Request);
    // an expanded node below a collapsed one does not show
    assert_eq!(sidebar_lines(&t, &vec![2, 4]).len(), 1);
    let empty = ProjectTree { root_id: 9, nodes: vec![] };
    assert!(sidebar_lines(&empty, &vec![9]).is_empty());
}

#[test]
fn sidebar_selection_moves_within_the_lines() {
    let lines = sidebar_lines(&tree(), &vec![1, 2]);
    assert_eq!(sidebar_selected_index(Some(4), &lines), 3);
    assert_eq!(sidebar_selected_index(Some(99), &lines), 0);
    assert_eq!(sidebar_selected_index(None, &lines), 0);
    assert_eq!(sidebar_move_selection(Some(2), &lines, 1), Some(3));
    assert_eq!(sidebar_move_selection(Some(2), &lines, -1), Some(1));
    assert_eq!(sidebar_move_selection(Some(1), &lines, -1), Some(1));
    assert_eq!(sidebar_move_selection(Some(6), &lines, 1), Some(6));
    assert_eq!(sidebar_move_selection(Some(2), &lines, 100), Some(6));
    assert_eq!(sidebar_move_selection(Some(2), &lines, i32::MIN), Some(1));
    assert_eq!(sidebar_move_selection(None, &lines, 2), Some(3));
    assert_eq!(sidebar_move_selection(Some(2), &Vec::new(), 1), None);
}

#[test]
fn sidebar_search_lists_hits_by_path() {
    let t = tree();
    let hits = sidebar_search_lines_for(&t, "S");
    assert_eq!(shape(&hits), vec![(5, " p/f/g/Sub".to_string())]);
    let all = sidebar_search_lines_for(&t, "");
    assert_eq!(
        all.iter().map(|l| l.label.as_str()).collect::<Vec<_>>(),
        vec!["p/f", "p/f/g", "p/f/g/Sub", "p/f/r", "p/t"]
    );
    assert!(all.iter().all(|l| l.kind != NodeKind::Project));
    assert!(sidebar_search_lines_for(&t, "zzz").is_empty());
    assert_eq!(
        sorted_order(&vec![vec!['b'], vec!['a'], vec!['b'], vec![]]),
        vec![3, 1, 0, 2]
    );
}

#[test]
fn sidebar_expands_and_collapses() {
    let t = tree();
    let mut ids = vec![7];
    assert!(has_id(&ids, 7) && !has_id(&ids, 8));
    add_id(&mut ids, 8);
    add_id(&mut ids, 7);
    assert_eq!(ids, vec![7, 8]);
    remove_id(&mut ids, 7);
    remove_id(&mut ids, 9);
    assert_eq!(ids, vec![8]);
    let mut expanded = vec![];
    expand_sidebar_ancestors(&t, &mut expanded, 5);
    assert_eq!(expanded, vec![4, 2, 1]);
    expand_sidebar_ancestors(&t, &mut expanded, 99);
    assert_eq!(expanded, vec![4, 2, 1]);

    let mut state = SidebarState {
        selection_id: Some(2),
        expanded: vec![1],
        search_query: String::new(),
        popup: None,
    };
    assert_eq!(sidebar_expand_or_open(&t, &mut state), SidebarStep::Toggled);
    assert_eq!(state.expanded, vec![1, 2]);
    assert_eq!(sidebar_expand_or_open(&t, &mut state), SidebarStep::Toggled);
    assert_eq!(state.expanded, vec![1]);
    state.selection_id = Some(3);
    assert_eq!(sidebar_expand_or_open(&t, &mut state), SidebarStep::Open(3));
    assert_eq!(sidebar_collapse_or_parent(&t, &mut state), SidebarStep::Selected(2));
    assert_eq!(state.selection_id, Some(2));
    assert_eq!(sidebar_collapse_or_parent(&t, &mut state), SidebarStep::Selected(1));
    assert_eq!(sidebar_collapse_or_parent(&t, &mut state), SidebarStep::Toggled);
    assert!(state.expanded.is_empty());
    assert_eq!(sidebar_collapse_or_parent(&t, &mut state), SidebarStep::Stay);
    state.selection_id = None;
    assert_eq!(sidebar_expand_or_open(&t, &mut state), SidebarStep::Stay);
    state.selection_id = Some(99);
    assert_eq!(sidebar_collapse_or_parent(&t, &mut state), SidebarStep::Stay);
}

#[test]
fn items_are_added_below_the_selection() {
    let t = tree();
    assert_eq!(add_parent_id(&t, None, 1), 1);
    assert_eq!(add_parent_id(&t, Some(4), 1), 4);
    assert_eq!(add_parent_id(&t, Some(5), 1), 4);
    assert_eq!(add_parent_id(&t, Some(99), 1), 1);
    assert_eq!(find_child_folder(&t, 2, "g"), Some(4));
    assert_eq!(find_child_folder(&t, 2, "r"), None);
    assert_eq!(find_child_folder(&t, 1, "f"), Some(2));
    assert_eq!(find_child_folder(&t, 99, "f"), None);
}

fn focus(panel: Panel, field: RequestField, auth: AuthField) -> FocusState {
    FocusState { panel, request_field: field, auth_field: auth }
}

#[test]
fn keys_while_editing() {
    let url = focus(Panel::Request, RequestField::Url, AuthField::AuthType);
    let body = focus(Panel::Request, RequestField::Body, AuthField::AuthType);
    let response = focus(Panel::Response, RequestField::Url, AuthField::AuthType);
    let token = focus(Panel::Request, RequestField::Auth, AuthField::Token);
    let method = focus(Panel::Request, RequestField::Method, AuthField::AuthType);
    let vim = |single_line, read_only, refresh_yank| EditingAction::Vim { single_line, read_only, refresh_yank };
    assert_eq!(editing_action(&url, VimMode::Insert, &ctrl('s'), false), (EditingAction::Save, false));
    assert_eq!(editing_action(&body, VimMode::Normal, &ctrl('r'), false), (EditingAction::SendOrCancel, false));
    assert_eq!(editing_action(&url, VimMode::Insert, &special(Key::Enter), false), (EditingAction::SendAndExit, false));
    assert_eq!(editing_action(&url, VimMode::Normal, &special(Key::Enter), false), (vim(true, false, false), true));
    assert_eq!(editing_action(&body, VimMode::Insert, &special(Key::Enter), false), (vim(false, false, false), true));
    assert_eq!(editing_action(&body, VimMode::Insert, &key('H'), false), (EditingAction::PrevRequestTab, false));
    assert_eq!(editing_action(&body, VimMode::Normal, &key('L'), false), (EditingAction::NextRequestTab, false));
    assert_eq!(editing_action(&body, VimMode::Visual, &key('L'), false), (vim(false, false, false), true));
    assert_eq!(editing_action(&response, VimMode::Visual, &key('H'), false), (EditingAction::PrevResponseTab, false));
    assert_eq!(editing_action(&response, VimMode::Operator(Operator::Yank), &key('L'), false), (EditingAction::NextResponseTab, false));
    assert_eq!(editing_action(&body, VimMode::Normal, &ctrl('v'), false), (EditingAction::Paste, true));
    assert_eq!(editing_action(&body, VimMode::Normal, &key('V'), true), (EditingAction::Paste, true));
    assert_eq!(editing_action(&response, VimMode::Normal, &ctrl('v'), false), (EditingAction::Nothing, false));
    assert_eq!(editing_action(&response, VimMode::Normal, &ctrl('c'), false), (EditingAction::Copy, false));
    assert_eq!(editing_action(&body, VimMode::Visual, &key('c'), true), (EditingAction::Copy, true));
    assert_eq!(editing_action(&body, VimMode::Normal, &key('p'), false), (vim(false, false, true), true));
    assert_eq!(editing_action(&body, VimMode::Insert, &key('p'), false), (vim(false, false, false), true));
    assert_eq!(editing_action(&response, VimMode::Visual, &key('p'), false), (vim(false, true, true), false));
    assert_eq!(editing_action(&token, VimMode::Normal, &key('x'), false), (vim(true, false, false), true));
    assert_eq!(editing_action(&method, VimMode::Normal, &key('x'), false), (EditingAction::Exit, true));
    assert_eq!(editing_action(&body, VimMode::Normal, &special(Key::Esc), false), (vim(false, false, false), false));
    assert!(key_is(&key('a'), 'a') && !key_is(&key('a'), 'b') && !key_is(&special(Key::Enter), 'a'));
}

#[test]
fn keys_in_the_sidebar() {
    let table = [
        (key('j'), SidebarAction::MoveSelection(1)),
        (special(Key::Down), SidebarAction::MoveSelection(1)),
        (key('k'), SidebarAction::MoveSelection(-1)),
        (special(Key::Up), SidebarAction::MoveSelection(-1)),
        (key('h'), SidebarAction::CollapseOrParent),
        (key('l'), SidebarAction::ExpandOrOpen),
        (special(Key::Enter), SidebarAction::ExpandOrOpen),
        (key('a'), SidebarAction::OpenAdd),
        (key('r'), SidebarAction::OpenRename),
        (key('d'), SidebarAction::OpenDeleteConfirm),
        (key('D'), SidebarAction::Duplicate),
        (key('m'), SidebarAction::OpenMove),
        (key('c'), SidebarAction::CopyPath),
        (key('/'), SidebarAction::OpenSearch),
        (key('['), SidebarAction::Outdent),
        (key(']'), SidebarAction::Indent),
        (key('H'), SidebarAction::CollapseAll),
        (key('L'), SidebarAction::ExpandAll),
        (key('?'), SidebarAction::ToggleHelp),
        (key('q'), SidebarAction::Quit),
        (special(Key::Esc), SidebarAction::ClearSearch),
        (key('z'), SidebarAction::Nothing),
        (special(Key::Tab), SidebarAction::Nothing),
    ];
    for (input, action) in table {
        assert_eq!(handle_sidebar_key(&input), action);
        assert_eq!(handle_sidebar_mode(false, true, &input), if input.key == Key::Esc {
            SidebarModeAction::Leave
        } else {
            SidebarModeAction::Popup
        });
    }
    assert_eq!(handle_sidebar_mode(true, true, &key('?')), SidebarModeAction::CloseHelp);
    assert_eq!(handle_sidebar_mode(true, false, &special(Key::Esc)), SidebarModeAction::CloseHelp);
    assert_eq!(handle_sidebar_mode(true, false, &key('j')), SidebarModeAction::Nothing);
    assert_eq!(handle_sidebar_mode(false, false, &special(Key::Esc)), SidebarModeAction::Leave);
    assert_eq!(
        handle_sidebar_mode(false, false, &key('j')),
        SidebarModeAction::Key(SidebarAction::MoveSelection(1))
    );
}

#[test]
fn keys_in_popups() {
    assert_eq!(list_action(&key('j')), ListAction::Down);
    assert_eq!(list_action(&special(Key::Down)), ListAction::Down);
    assert_eq!(list_action(&key('k')), ListAction::Up);
    assert_eq!(list_action(&special(Key::Up)), ListAction::Up);
    assert_eq!(list_action(&special(Key::Enter)), ListAction::Confirm);
    assert_eq!(list_action(&special(Key::Esc)), ListAction::Close);
    assert_eq!(list_action(&key('x')), ListAction::Nothing);
    assert_eq!(confirm_action(&key('y')), ListAction::Confirm);
    assert_eq!(confirm_action(&special(Key::Enter)), ListAction::Confirm);
    assert_eq!(confirm_action(&key('n')), ListAction::Close);
    assert_eq!(confirm_action(&special(Key::Esc)), ListAction::Close);
    assert_eq!(confirm_action(&key('j')), ListAction::Nothing);
    assert_eq!(text_popup_action(&special(Key::Enter)), TextPopupAction::Submit);
    assert_eq!(text_popup_action(&special(Key::Esc)), TextPopupAction::Cancel);
    assert_eq!(text_popup_action(&key('a')), TextPopupAction::Edit);
    assert_eq!(custom_method_action(&key('a')), CustomMethodAction::Type('A'));
    assert_eq!(custom_method_action(&key('-')), CustomMethodAction::Type('-'));
    assert_eq!(custom_method_action(&key(' ')), CustomMethodAction::Nothing);
    assert_eq!(custom_method_action(&key('\u{e9}')), CustomMethodAction::Nothing);
    assert_eq!(custom_method_action(&special(Key::Backspace)), CustomMethodAction::Backspace);
    assert_eq!(custom_method_action(&special(Key::Enter)), CustomMethodAction::Confirm);
    assert_eq!(custom_method_action(&special(Key::Esc)), CustomMethodAction::Cancel);
    assert_eq!(custom_method_action(&special(Key::Tab)), CustomMethodAction::Nothing);
}

fn nav(panel: Panel, field: RequestField) -> NavState {
    NavState {
        show_help: false,
        show_auth_type_popup: false,
        show_method_popup: false,
        method_popup_custom_mode: false,
        sidebar_popup_open: false,
        sidebar_visible: true,
        focus: focus(panel, field, AuthField::Token),
        has_response: false,
    }
}

#[test]
fn keys_in_navigation() {
    let url = nav(Panel::Request, RequestField::Url);
    let mut help = url;
    help.show_help = true;
    help.show_method_popup = true;
    assert_eq!(handle_navigation_mode(&help, &key('?'), false), NavAction::CloseHelp);
    assert_eq!(handle_navigation_mode(&help, &special(Key::Esc), false), NavAction::CloseHelp);
    assert_eq!(handle_navigation_mode(&help, &key('q'), false), NavAction::Nothing);
    let mut auth = url;
    auth.show_auth_type_popup = true;
    auth.show_method_popup = true;
    assert_eq!(handle_navigation_mode(&auth, &key('j'), false), NavAction::AuthPopup(ListAction::Down));
    let mut method = url;
    method.show_method_popup = true;
    method.sidebar_popup_open = true;
    assert_eq!(handle_navigation_mode(&method, &special(Key::Enter), false), NavAction::MethodPopup(ListAction::Confirm));
    method.method_popup_custom_mode = true;
    assert_eq!(
        handle_navigation_mode(&method, &key('x'), false),
        NavAction::MethodCustom(CustomMethodAction::Type('X'))
    );
    let mut popup = url;
    popup.sidebar_popup_open = true;
    assert_eq!(handle_navigation_mode(&popup, &key('q'), false), NavAction::SidebarPopup);

    let table = [
        (ctrl('e'), NavAction::ToggleSidebar),
        (key('e'), NavAction::FocusSidebar),
        (ctrl('p'), NavAction::OpenProjectSwitcher),
        (ctrl('['), NavAction::ShrinkSidebar),
        (ctrl(']'), NavAction::GrowSidebar),
        (ctrl('s'), NavAction::Save),
        (ctrl('r'), NavAction::SendOrCancel),
        (ctrl('h'), NavAction::PrevHorizontal),
        (ctrl('l'), NavAction::NextHorizontal),
        (ctrl('j'), NavAction::NextVertical),
        (ctrl('k'), NavAction::PrevVertical),
        (key('h'), NavAction::PrevHorizontal),
        (special(Key::Left), NavAction::PrevHorizontal),
        (key('l'), NavAction::NextHorizontal),
        (special(Key::Right), NavAction::NextHorizontal),
        (key('k'), NavAction::PrevVertical),
        (special(Key::Up), NavAction::PrevVertical),
        (key('j'), NavAction::NextVertical),
        (special(Key::Down), NavAction::NextVertical),
        (key('?'), NavAction::ToggleHelp),
        (special(Key::Enter), NavAction::EditNormal),
        (key('i'), NavAction::EditInsert),
        (key('q'), NavAction::Quit),
        (key('z'), NavAction::Nothing),
    ];
    for (input, action) in table {
        assert_eq!(handle_navigation_mode(&url, &input, false), action, "{:?}", input);
    }
    let mut hidden = url;
    hidden.sidebar_visible = false;
    assert_eq!(handle_navigation_mode(&hidden, &ctrl('p'), false), NavAction::Nothing);
    assert_eq!(
        handle_navigation_mode(&url, &Input { key: Key::Char('e'), ctrl: false, alt: false, shift: true }, false),
        NavAction::Nothing
    );
    let auth_tab = nav(Panel::Request, RequestField::Auth);
    assert_eq!(handle_navigation_mode(&auth_tab, &key('j'), false), NavAction::NextAuthField);
    assert_eq!(handle_navigation_mode(&auth_tab, &special(Key::Up), false), NavAction::PrevAuthField);
    assert_eq!(handle_navigation_mode(&auth_tab, &ctrl('j'), false), NavAction::NextVertical);
    assert_eq!(handle_navigation_mode(&auth_tab, &special(Key::Enter), false), NavAction::AuthEnter);
    assert_eq!(handle_navigation_mode(&auth_tab, &key('i'), false), NavAction::EditInsert);
    assert_eq!(
        handle_navigation_mode(&nav(Panel::Request, RequestField::Method), &special(Key::Enter), false),
        NavAction::OpenMethodPopup
    );
    assert_eq!(
        handle_navigation_mode(&nav(Panel::Request, RequestField::Send), &special(Key::Enter), false),
        NavAction::PressSend
    );
    assert_eq!(
        handle_navigation_mode(&nav(Panel::Request, RequestField::Send), &key('i'), false),
        NavAction::Nothing
    );
    let side = nav(Panel::Sidebar, RequestField::Url);
    assert_eq!(handle_navigation_mode(&side, &special(Key::Enter), false), NavAction::EnterSidebarMode);
    assert_eq!(handle_navigation_mode(&side, &key('i'), false), NavAction::EnterSidebarMode);
    assert_eq!(handle_navigation_mode(&side, &ctrl('h'), false), NavAction::PrevHorizontal);
    let mut resp = nav(Panel::Response, RequestField::Url);
    assert_eq!(handle_navigation_mode(&resp, &special(Key::Enter), false), NavAction::Nothing);
    assert_eq!(handle_navigation_mode(&resp, &key('i'), false), NavAction::Nothing);
    resp.has_response = true;
    assert_eq!(handle_navigation_mode(&resp, &special(Key::Enter), false), NavAction::EditNormal);
    assert_eq!(handle_navigation_mode(&resp, &key('i'), false), NavAction::EditNormal);
}

fn buffer(lines: &[&str]) -> Buffer {
    Buffer::new(lines.iter().map(|l| l.to_string()).collect())
}

#[test]
fn read_only_transitions_never_change_the_text() {
    let mut b = buffer(&["hello world", "second"]);
    let mut vim = Vim::new(VimMode::Normal);
    let keys = [
        key('x'), key('X'), key('D'), key('C'), key('p'), key('u'), ctrl('r'), key('i'), key('a'),
        key('A'), key('I'), key('o'), key('O'), key('d'), key('c'), key('w'), key('v'), key('l'),
        key('d'), key('c'), key('y'), key('y'), key('y'), key('G'), key('$'),
    ];
    for k in keys {
        let t = vim.transition_read_only(k, &mut b, false);
        vim = vim.apply_transition(t);
        assert_eq!(b.lines(), vec!["hello world", "second"]);
        assert!(vim.mode != VimMode::Insert);
    }
    assert_eq!(b.cursor(), (1, 6));
    // yanking still works
    let mut b = buffer(&["hello"]);
    let mut vim = Vim::new(VimMode::Normal);
    for k in [key('v'), key('l'), key('y')] {
        let t = vim.transition_read_only(k, &mut b, false);
        vim = vim.apply_transition(t);
    }
    assert_eq!(b.yank_text(), "he");
    assert_eq!(vim.mode, VimMode::Normal);
    let t = Vim::new(VimMode::Insert).transition_read_only(key('z'), &mut b, false);
    assert_eq!(t, Transition::Nop);
    let t = Vim::new(VimMode::Insert).transition_read_only(special(Key::Esc), &mut b, false);
    assert_eq!(t, Transition::Mode(VimMode::Normal));
    let t = Vim::new(VimMode::Normal).transition_read_only(special(Key::Esc), &mut b, false);
    assert_eq!(t, Transition::ExitField);
    assert!(Command::Paste.edits(VimMode::Normal));
    assert!(!Command::Move(Motion::Up).edits(VimMode::Operator(Operator::Yank)));
    assert!(Command::Move(Motion::Up).edits(VimMode::Operator(Operator::Delete)));
    assert!(!Command::EnterOperator(Operator::Yank).edits(VimMode::Normal));
}

#[test]
fn host_steps() {
    let mut b = buffer(&["hello world"]);
    let (vim, exit) = Vim::new(VimMode::Normal).handle_key(key('d'), &mut b, false, false);
    assert_eq!((vim.mode, exit), (VimMode::Operator(Operator::Delete), false));
    let (vim, exit) = vim.handle_key(key('w'), &mut b, false, false);
    assert_eq!((vim.mode, exit), (VimMode::Normal, false));
    assert_eq!(b.lines(), vec!["world"]);
    let (vim, exit) = vim.handle_key(key('g'), &mut b, false, false);
    assert_eq!((vim.pending.clone(), exit), (key('g'), false));
    let (vim, exit) = vim.handle_key(special(Key::Esc), &mut b, false, false);
    assert_eq!((vim.mode, exit), (VimMode::Normal, true));
    let (vim, exit) = vim.handle_key(key('x'), &mut b, false, true);
    assert_eq!((vim.mode, exit), (VimMode::Normal, false));
    assert_eq!(b.lines(), vec!["world"]);
}

#[test]
fn clipboard_rules() {
    let mut b = buffer(&["ab"]);
    assert!(!paste_from_clipboard(&mut b, VimMode::Normal, Some("X\r\nY")));
    assert_eq!(b.lines(), vec!["X", "Yab"]);
    assert_eq!(b.yank_text(), "X\nY");
    assert!(!paste_from_clipboard(&mut b, VimMode::Insert, Some("-")));
    assert_eq!(b.lines(), vec!["X", "Y-ab"]);
    assert!(paste_from_clipboard(&mut b, VimMode::Visual, None));
    assert_eq!(b.lines(), vec!["X", "Y--ab"]);
    assert!(paste_from_clipboard(&mut b, VimMode::Operator(Operator::Delete), Some("")));
    assert_eq!(b.lines(), vec!["X", "Y--ab"]);
    // without a clipboard an empty yank slot types nothing
    assert!(!paste_from_clipboard(&mut b, VimMode::Insert, None));
    assert_eq!(b.lines(), vec!["X", "Y--ab"]);
    b.set_yank_text("q");
    assert!(!paste_from_clipboard(&mut b, VimMode::Insert, None));
    assert_eq!(b.lines(), vec!["X", "Y--qab"]);

    let mut c = buffer(&["hello"]);
    assert_eq!(copy_for_clipboard(&mut c), None);
    c.start_selection();
    c.move_cursor(Motion::End);
    assert_eq!(copy_for_clipboard(&mut c), Some("hello".to_string()));
    assert!(!c.is_selecting());
    assert_eq!(changed_yank(&c, "hello"), None);
    assert_eq!(changed_yank(&c, "other"), Some("hello".to_string()));
    c.insert_str("a\nb");
    assert_eq!(c.lines(), vec!["helloa", "b"]);
    c.set_tab_length(2);
    assert_eq!(c.lines(), vec!["helloa", "b"]);
}

#[test]
fn requests_for_the_wire() {
    assert_eq!(
        request_headers("A: 1\n\n  B :  two words \nC:\n:x").unwrap(),
        vec![
            ("A".to_string(), "1".to_string()),
            ("B".to_string(), "two words".to_string()),
            ("C".to_string(), "".to_string()),
            ("".to_string(), "x".to_string()),
        ]
    );
    assert!(request_headers("").unwrap().is_empty());
    assert_eq!(
        request_headers("A: 1\n oops \nB").unwrap_err(),
        "Invalid header format: 'oops' (expected 'Key: Value')"
    );
    let post = Method::Standard(HttpMethod::Post);
    let get = Method::Standard(HttpMethod::Get);
    assert_eq!(request_body(&post, "x"), Some("x".to_string()));
    assert_eq!(request_body(&post, ""), None);
    assert_eq!(request_body(&get, "x"), None);
    assert_eq!(request_body(&Method::Custom("PURGE".into()), " "), Some(" ".to_string()));
}

fn failure() -> RequestFailure {
    RequestFailure {
        timeout: false,
        connect: false,
        host: None,
        builder: false,
        redirect: false,
        decode: false,
        message: "boom".to_string(),
    }
}

#[test]
fn failures_in_words() {
    assert_eq!(format_request_error(&failure()), "Request failed: boom");
    let all = RequestFailure {
        timeout: true,
        connect: true,
        host: Some("h".into()),
        builder: true,
        redirect: true,
        decode: true,
        message: "m".into(),
    };
    assert_eq!(format_request_error(&all), "Request timed out");
    let mut f = all.clone();
    f.timeout = false;
    assert_eq!(format_request_error(&f), "Connection failed: h");
    f.host = None;
    assert_eq!(format_request_error(&f), "Connection failed");
    f.connect = false;
    assert_eq!(format_request_error(&f), "Invalid URL: m");
    f.message = "builder error: relative URL without a base".into();
    assert_eq!(format_request_error(&f), "Invalid URL: missing scheme (try https://)");
    f.builder = false;
    assert_eq!(format_request_error(&f), "Too many redirects");
    f.redirect = false;
    assert_eq!(format_request_error(&f), "Failed to decode response body");
}

#[test]
fn json_bodies_are_indented() {
    let none: Vec<(String, String)> = vec![];
    assert_eq!(format_json_if_possible(&none, "{\"a\":1}"), "{\n  \"a\": 1\n}");
    assert_eq!(format_json_if_possible(&none, "{broken}"), "{broken}");
    assert_eq!(format_json_if_possible(&none, "plain"), "plain");
    assert_eq!(format_json_if_possible(&none, "1"), "1");
    let typed = vec![("Content-Type".to_string(), "application/json".to_string())];
    assert_eq!(format_json_if_possible(&typed, "[1,2]"), "[\n  1,\n  2\n]");
    assert_eq!(format_json_if_possible(&typed, "true"), "true");
    assert_eq!(format_json_if_possible(&typed, "nope"), "nope");
    assert_eq!(shown_body(Some("p".into()), "b"), "p");
    assert_eq!(shown_body(None, "b"), "b");
}

#[test]
fn sidebar_is_rebuilt_with_the_tree() {
    let t = tree();
    let mut state = SidebarState {
        selection_id: Some(99),
        expanded: vec![2, 99, 4],
        search_query: "q".into(),
        popup: None,
    };
    rebuild_sidebar(&t, &mut state, 1);
    assert_eq!(state.expanded, vec![2, 4, 1]);
    assert_eq!(state.selection_id, Some(1));
    assert_eq!(state.search_query, "q");
    state.selection_id = Some(5);
    rebuild_sidebar(&t, &mut state, 1);
    assert_eq!((state.selection_id, state.expanded.clone()), (Some(5), vec![2, 4, 1]));
    state.selection_id = None;
    rebuild_sidebar(&t, &mut state, 6);
    assert_eq!(state.selection_id, Some(6));

    assert_eq!(container_ids(&t), vec![4, 2, 1]);
    assert_eq!(move_check(&t, 2, 4).unwrap_err(), "Cannot move into a descendant");
    assert_eq!(move_check(&t, 2, 2).unwrap_err(), "Cannot move into a descendant");
    assert_eq!(move_check(&t, 1, 99).unwrap_err(), "Projects cannot be moved");
    assert_eq!(move_check(&t, 3, 4), Ok(Some(NodeKind::Request)));
    assert_eq!(move_check(&t, 4, 1), Ok(Some(NodeKind::Folder)));
    assert_eq!(move_check(&t, 99, 1), Ok(None));
    assert_eq!(move_candidates(&t, 3), vec![1, 2, 4]);
    assert_eq!(move_candidates(&t, 4), vec![1, 2]);
    assert_eq!(move_candidates(&t, 2), vec![1]);
    assert!(move_candidates(&t, 1).is_empty());
    assert_eq!(indent_target(&t, Some(6)), Some(2));
    assert_eq!(indent_target(&t, Some(4)), None);
    assert_eq!(indent_target(&t, Some(2)), None);
    assert_eq!(indent_target(&t, Some(1)), None);
    assert_eq!(indent_target(&t, None), None);
    assert_eq!(outdent_target(&t, Some(5)), Some(2));
    assert_eq!(outdent_target(&t, Some(3)), Some(1));
    assert_eq!(outdent_target(&t, Some(2)), None);
    assert_eq!(outdent_target(&t, Some(99)), None);
    assert_eq!(place_of(&vec![7, 8, 7], 8), 1);
    assert_eq!(place_of(&vec![7, 8, 7], 9), 0);

    let lines = sidebar_lines(&t, &vec![1, 2]);
    let row = sidebar_row(&lines[2], true, 20);
    let text: String = row.spans.iter().map(|s| s.content.as_str()).collect();
    assert_eq!(text, format!("\u{2502} \u{251c}\u{2500} POST r{}", " ".repeat(8)));
    assert_eq!(text.chars().count(), 19);
    let selected = Style::new().bg(Color::DarkGray).fg(Color::White);
    assert_eq!(row.spans[0].style, selected);
    assert_eq!(row.spans[1].content, "POST");
    assert_eq!(row.spans[1].style, selected.fg(Color::Blue));
    let folder = sidebar_row(&lines[1], false, 4);
    let text: String = folder.spans.iter().map(|s| s.content.as_str()).collect();
    assert_eq!(text, "\u{251c}\u{2500} \u{25be} f");
    assert_eq!(folder.spans.len(), 1);
    assert_eq!(sidebar_row(&lines[0], false, 0).spans.len(), 1);

    let mut input = perseus::app::TextInput::new("ab".into());
    assert_eq!(input_line_text(&input), "ab|");
    input.cursor = 1;
    assert_eq!(input_line_text(&input), "a|b");
    input.cursor = 9;
    assert_eq!(input_line_text(&input), "ab|");
    let mut input = perseus::app::TextInput::new("\u{e9}b".into());
    assert_eq!(input_line_text(&input), "\u{e9}b|");
    input.cursor = 2;
    assert_eq!(input_line_text(&input), "\u{e9}|b");
}

#[test]
fn status_bar_texts() {
    let bold = |fg, bg| Style::new().fg(fg).bg(bg).add_modifier(BOLD);
    assert_eq!(mode_badge(AppMode::Navigation, VimMode::Insert), (" NAVIGATION ", bold(Color::Red, Color::Cyan)));
    assert_eq!(mode_badge(AppMode::Editing, VimMode::Normal), (" VIM ", bold(Color::Black, Color::Green)));
    assert_eq!(mode_badge(AppMode::Editing, VimMode::Insert), (" INSERT ", bold(Color::Black, Color::Yellow)));
    assert_eq!(mode_badge(AppMode::Editing, VimMode::Visual), (" VISUAL ", bold(Color::Black, Color::Magenta)));
    assert_eq!(
        mode_badge(AppMode::Editing, VimMode::Operator(Operator::Change)),
        (" PENDING ", bold(Color::Black, Color::LightGreen))
    );
    assert_eq!(mode_badge(AppMode::Sidebar, VimMode::Normal), (" SIDEBAR ", bold(Color::Black, Color::LightGreen)));
    let f = focus(Panel::Request, RequestField::Url, AuthField::AuthType);
    assert_eq!(panel_info(&f, ResponseTab::Body), "Request > URL");
    let f = focus(Panel::Response, RequestField::Url, AuthField::AuthType);
    assert_eq!(panel_info(&f, ResponseTab::Headers), "Response > Headers");
    let f = focus(Panel::Sidebar, RequestField::Url, AuthField::AuthType);
    assert_eq!(panel_info(&f, ResponseTab::Body), "Sidebar");
    assert!(status_hints(AppMode::Sidebar, VimMode::Normal, Panel::Sidebar).starts_with("j/k:move"));
    assert!(status_hints(AppMode::Navigation, VimMode::Normal, Panel::Sidebar).starts_with("Enter/i:edit"));
    assert!(status_hints(AppMode::Navigation, VimMode::Normal, Panel::Request).starts_with("hjkl:nav"));
    assert!(status_hints(AppMode::Editing, VimMode::Insert, Panel::Request).starts_with("type text"));
    assert_eq!(
        status_hints(AppMode::Editing, VimMode::Operator(Operator::Yank), Panel::Response),
        "motion:complete  Esc:cancel"
    );
    assert_eq!(method_display(&Method::Standard(HttpMethod::Delete), 8), "DELETE");
    assert_eq!(method_display(&Method::Custom("PROPFIND".into()), 8), "PROPFIND");
    assert_eq!(method_display(&Method::Custom("PROPPATCH".into()), 8), "PROPPAT\u{2026}");
    assert_eq!(method_display(&Method::Custom("X".into()), 0), "\u{2026}");
    assert_eq!(handle_auth_enter(AuthField::AuthType), AuthEnter::OpenTypePopup);
    assert_eq!(handle_auth_enter(AuthField::KeyLocation), AuthEnter::ToggleLocation);
    assert_eq!(handle_auth_enter(AuthField::Password), AuthEnter::Edit);
    let r = build_postman_request(&Method::Custom("PURGE".into()), "u".into(), "A: 1\nbad\n", " ".into());
    assert_eq!(r.method, "PURGE");
    assert_eq!(r.header.len(), 2);
    assert!(r.body.is_none());
    let r = build_postman_request(&Method::Standard(HttpMethod::Put), "u".into(), "", "x".into());
    assert_eq!(r.body.unwrap().raw.as_deref(), Some("x"));
}
