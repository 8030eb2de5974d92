//! What a key means in each mode of the application: tables from the state
//! and the key to the action that the host performs.
use crate::app::{FocusState, Panel, RequestField};
use crate::vim::VimMode;
use tui_textarea::{Input, Key};
use vstd::prelude::*;

verus! {

/// Whether the key is the character `c`, whatever the modifiers.
pub open spec fn is_char(input: Input, c: char) -> bool {
    input.key == Key::Char(c)
}

/// Whether the key is the character `c`, whatever the modifiers.
pub fn key_is(input: &Input, c: char) -> (r: bool)
    ensures
        r == is_char(*input, c),
{
    match input.key {
        Key::Char(k) => k == c,
        _ => false,
    }
}

/// What a key does while a field is being edited.
#[derive(Debug, Clone, Copy, PartialEq, Eq, Structural)]
pub enum EditingAction {
    /// Save the current request.
    Save,
    /// Send the request, or cancel the one that is under way.
    SendOrCancel,
    /// Send or cancel as above, then leave the field.
    SendAndExit,
    PrevRequestTab,
    NextRequestTab,
    PrevResponseTab,
    NextResponseTab,
    /// Paste from the system clipboard.
    Paste,
    /// Copy the selection to the system clipboard.
    Copy,
    /// The key is swallowed.
    Nothing,
    /// There is no field to edit: leave editing.
    Exit,
    /// Hand the key to the modal engine. `read_only` is set for the
    /// response, `single_line` for the URL and the auth fields;
    /// `refresh_yank` says that the yank slot is to take the system
    /// clipboard first.
    Vim { single_line: bool, read_only: bool, refresh_yank: bool },
}

/// Whether the focused field of the request panel takes one line only.
pub open spec fn is_single_line(focus: FocusState) -> bool {
    focus.request_field == RequestField::Url || (focus.request_field == RequestField::Auth
        && focus.auth_field.is_text_spec())
}

/// The action of a key while a field is being edited. `logo` says whether
/// the Super key was held.
pub open spec fn editing_action_of(focus: FocusState, mode: VimMode, input: Input, logo: bool) -> EditingAction {
    let in_request = focus.panel == Panel::Request;
    let in_response = focus.panel == Panel::Response;
    let clipboard = input.ctrl || logo;
    if is_char(input, 's') && input.ctrl {
        EditingAction::Save
    } else if is_char(input, 'r') && input.ctrl {
        EditingAction::SendOrCancel
    } else if in_request && focus.request_field == RequestField::Url && mode is Insert && input.key
        == Key::Enter {
        EditingAction::SendAndExit
    } else if in_request && (mode is Normal || mode is Insert) && is_char(input, 'H') {
        EditingAction::PrevRequestTab
    } else if in_request && (mode is Normal || mode is Insert) && is_char(input, 'L') {
        EditingAction::NextRequestTab
    } else if in_response && !(mode is Insert) && is_char(input, 'H') {
        EditingAction::PrevResponseTab
    } else if in_response && !(mode is Insert) && is_char(input, 'L') {
        EditingAction::NextResponseTab
    } else if clipboard && (is_char(input, 'v') || is_char(input, 'V')) {
        if in_response {
            EditingAction::Nothing
        } else {
            EditingAction::Paste
        }
    } else if clipboard && (is_char(input, 'c') || is_char(input, 'C')) {
        EditingAction::Copy
    } else if !in_response && !focus.editable() {
        EditingAction::Exit
    } else {
        EditingAction::Vim {
            single_line: !in_response && is_single_line(focus),
            read_only: in_response,
            refresh_yank: (mode is Normal || mode is Visual) && !input.ctrl && !input.alt
                && !input.shift && !logo && is_char(input, 'p') && (in_response || (in_request
                && focus.editable())),
        }
    }
}

/// Whether a key while a field is being edited marks the request as
/// changed: any key but Escape does, in the request panel, unless it saves,
/// sends or changes the tab.
pub open spec fn marks_dirty(focus: FocusState, mode: VimMode, input: Input, logo: bool) -> bool {
    let action = editing_action_of(focus, mode, input, logo);
    focus.panel == Panel::Request && input.key != Key::Esc && !(action == EditingAction::Save
        || action == EditingAction::SendOrCancel || action == EditingAction::SendAndExit || action
        == EditingAction::PrevRequestTab || action == EditingAction::NextRequestTab)
}

/// The action of a key while a field is being edited, and whether the key
/// marks the request as changed.
pub fn editing_action(focus: &FocusState, mode: VimMode, input: &Input, logo: bool) -> (r: (
    EditingAction,
    bool,
))
    ensures
        r.0 == editing_action_of(*focus, mode, *input, logo),
        r.1 == marks_dirty(*focus, mode, *input, logo),
{
    let in_request = focus.panel == Panel::Request;
    let in_response = focus.panel == Panel::Response;
    let insert = matches!(mode, VimMode::Insert);
    let normal = matches!(mode, VimMode::Normal);
    let visual = matches!(mode, VimMode::Visual);
    let enter = matches!(input.key, Key::Enter);
    let escape = matches!(input.key, Key::Esc);
    let clipboard = input.ctrl || logo;
    if key_is(input, 's') && input.ctrl {
        return (EditingAction::Save, false);
    }
    if key_is(input, 'r') && input.ctrl {
        return (EditingAction::SendOrCancel, false);
    }
    if in_request && focus.request_field == RequestField::Url && insert && enter {
        return (EditingAction::SendAndExit, false);
    }
    if in_request && (normal || insert) {
        if key_is(input, 'H') {
            return (EditingAction::PrevRequestTab, false);
        }
        if key_is(input, 'L') {
            return (EditingAction::NextRequestTab, false);
        }
    }
    if in_response && !insert {
        if key_is(input, 'H') {
            return (EditingAction::PrevResponseTab, false);
        }
        if key_is(input, 'L') {
            return (EditingAction::NextResponseTab, false);
        }
    }
    let dirty = in_request && !escape;
    if clipboard && (key_is(input, 'v') || key_is(input, 'V')) {
        if in_response {
            return (EditingAction::Nothing, dirty);
        }
        return (EditingAction::Paste, dirty);
    }
    if clipboard && (key_is(input, 'c') || key_is(input, 'C')) {
        return (EditingAction::Copy, dirty);
    }
    let editable = focus.is_editable_field();
    if !in_response && !editable {
        return (EditingAction::Exit, dirty);
    }
    let single_line = !in_response && (focus.request_field == RequestField::Url || (
    focus.request_field == RequestField::Auth && focus.is_auth_text_field()));
    let plain = !input.ctrl && !input.alt && !input.shift && !logo;
    let refresh_yank = (normal || visual) && plain && key_is(input, 'p') && (in_response || (
    in_request && editable));
    (EditingAction::Vim { single_line, read_only: in_response, refresh_yank }, dirty)
}

/// What a key does in the sidebar.
#[derive(Debug, Clone, Copy, PartialEq, Eq, Structural)]
pub enum SidebarAction {
    MoveSelection(i32),
    CollapseOrParent,
    ExpandOrOpen,
    OpenAdd,
    OpenRename,
    OpenDeleteConfirm,
    Duplicate,
    OpenMove,
    CopyPath,
    OpenSearch,
    Outdent,
    Indent,
    CollapseAll,
    ExpandAll,
    ToggleHelp,
    Quit,
    /// Drop the search, if there is one.
    ClearSearch,
    Nothing,
}

/// The action of a key in the sidebar.
pub open spec fn sidebar_action_of(input: Input) -> SidebarAction {
    match input.key {
        Key::Down => SidebarAction::MoveSelection(1i32),
        Key::Up => SidebarAction::MoveSelection(-1i32),
        Key::Enter => SidebarAction::ExpandOrOpen,
        Key::Esc => SidebarAction::ClearSearch,
        Key::Char(c) => if c == 'j' {
            SidebarAction::MoveSelection(1i32)
        } else if c == 'k' {
            SidebarAction::MoveSelection(-1i32)
        } else if c == 'h' {
            SidebarAction::CollapseOrParent
        } else if c == 'l' {
            SidebarAction::ExpandOrOpen
        } else if c == 'a' {
            SidebarAction::OpenAdd
        } else if c == 'r' {
            SidebarAction::OpenRename
        } else if c == 'd' {
            SidebarAction::OpenDeleteConfirm
        } else if c == 'D' {
            SidebarAction::Duplicate
        } else if c == 'm' {
            SidebarAction::OpenMove
        } else if c == 'c' {
            SidebarAction::CopyPath
        } else if c == '/' {
            SidebarAction::OpenSearch
        } else if c == '[' {
            SidebarAction::Outdent
        } else if c == ']' {
            SidebarAction::Indent
        } else if c == 'H' {
            SidebarAction::CollapseAll
        } else if c == 'L' {
            SidebarAction::ExpandAll
        } else if c == '?' {
            SidebarAction::ToggleHelp
        } else if c == 'q' {
            SidebarAction::Quit
        } else {
            SidebarAction::Nothing
        },
        _ => SidebarAction::Nothing,
    }
}

/// The action of a key in the sidebar.
pub fn handle_sidebar_key(input: &Input) -> (a: SidebarAction)
    ensures
        a == sidebar_action_of(*input),
{
    match input.key {
        Key::Down => SidebarAction::MoveSelection(1),
        Key::Up => SidebarAction::MoveSelection(-1),
        Key::Enter => SidebarAction::ExpandOrOpen,
        Key::Esc => SidebarAction::ClearSearch,
        Key::Char(c) => {
            if c == 'j' {
                SidebarAction::MoveSelection(1)
            } else if c == 'k' {
                SidebarAction::MoveSelection(-1)
            } else if c == 'h' {
                SidebarAction::CollapseOrParent
            } else if c == 'l' {
                SidebarAction::ExpandOrOpen
            } else if c == 'a' {
                SidebarAction::OpenAdd
            } else if c == 'r' {
                SidebarAction::OpenRename
            } else if c == 'd' {
                SidebarAction::OpenDeleteConfirm
            } else if c == 'D' {
                SidebarAction::Duplicate
            } else if c == 'm' {
                SidebarAction::OpenMove
            } else if c == 'c' {
                SidebarAction::CopyPath
            } else if c == '/' {
                SidebarAction::OpenSearch
            } else if c == '[' {
                SidebarAction::Outdent
            } else if c == ']' {
                SidebarAction::Indent
            } else if c == 'H' {
                SidebarAction::CollapseAll
            } else if c == 'L' {
                SidebarAction::ExpandAll
            } else if c == '?' {
                SidebarAction::ToggleHelp
            } else if c == 'q' {
                SidebarAction::Quit
            } else {
                SidebarAction::Nothing
            }
        },
        _ => SidebarAction::Nothing,
    }
}

/// What a key does while the sidebar has the keyboard.
#[derive(Debug, Clone, Copy, PartialEq, Eq, Structural)]
pub enum SidebarModeAction {
    CloseHelp,
    Nothing,
    /// Close the popup, drop the search and go back to navigation.
    Leave,
    /// The key goes to the open popup.
    Popup,
    /// The key goes to the sidebar itself.
    Key(SidebarAction),
}

/// The action of a key while the sidebar has the keyboard.
pub open spec fn sidebar_mode_action_of(show_help: bool, popup_open: bool, input: Input) -> SidebarModeAction {
    if show_help {
        if is_char(input, '?') || input.key == Key::Esc {
            SidebarModeAction::CloseHelp
        } else {
            SidebarModeAction::Nothing
        }
    } else if input.key == Key::Esc {
        SidebarModeAction::Leave
    } else if popup_open {
        SidebarModeAction::Popup
    } else {
        SidebarModeAction::Key(sidebar_action_of(input))
    }
}

/// The action of a key while the sidebar has the keyboard.
pub fn handle_sidebar_mode(show_help: bool, popup_open: bool, input: &Input) -> (a: SidebarModeAction)
    ensures
        a == sidebar_mode_action_of(show_help, popup_open, *input),
{
    let escape = matches!(input.key, Key::Esc);
    if show_help {
        if key_is(input, '?') || escape {
            return SidebarModeAction::CloseHelp;
        }
        return SidebarModeAction::Nothing;
    }
    if escape {
        return SidebarModeAction::Leave;
    }
    if popup_open {
        return SidebarModeAction::Popup;
    }
    SidebarModeAction::Key(handle_sidebar_key(input))
}

/// What a key does in a popup that holds a list or asks a question.
#[derive(Debug, Clone, Copy, PartialEq, Eq, Structural)]
pub enum ListAction {
    Down,
    Up,
    Confirm,
    Close,
    Nothing,
}

/// The action of a key in a popup with a list: `j` and Down go down, `k`
/// and Up go up, Enter confirms, Escape closes.
pub open spec fn list_action_of(input: Input) -> ListAction {
    match input.key {
        Key::Down => ListAction::Down,
        Key::Up => ListAction::Up,
        Key::Enter => ListAction::Confirm,
        Key::Esc => ListAction::Close,
        Key::Char(c) => if c == 'j' {
            ListAction::Down
        } else if c == 'k' {
            ListAction::Up
        } else {
            ListAction::Nothing
        },
        _ => ListAction::Nothing,
    }
}

/// The action of a key in a popup with a list.
pub fn list_action(input: &Input) -> (a: ListAction)
    ensures
        a == list_action_of(*input),
{
    match input.key {
        Key::Down => ListAction::Down,
        Key::Up => ListAction::Up,
        Key::Enter => ListAction::Confirm,
        Key::Esc => ListAction::Close,
        Key::Char(c) => {
            if c == 'j' {
                ListAction::Down
            } else if c == 'k' {
                ListAction::Up
            } else {
                ListAction::Nothing
            }
        },
        _ => ListAction::Nothing,
    }
}

/// The action of a key in the popup that asks whether to delete: `y` and
/// Enter confirm, `n` and Escape close.
pub open spec fn confirm_action_of(input: Input) -> ListAction {
    match input.key {
        Key::Enter => ListAction::Confirm,
        Key::Esc => ListAction::Close,
        Key::Char(c) => if c == 'y' {
            ListAction::Confirm
        } else if c == 'n' {
            ListAction::Close
        } else {
            ListAction::Nothing
        },
        _ => ListAction::Nothing,
    }
}

/// The action of a key in the popup that asks whether to delete.
pub fn confirm_action(input: &Input) -> (a: ListAction)
    ensures
        a == confirm_action_of(*input),
{
    match input.key {
        Key::Enter => ListAction::Confirm,
        Key::Esc => ListAction::Close,
        Key::Char(c) => {
            if c == 'y' {
                ListAction::Confirm
            } else if c == 'n' {
                ListAction::Close
            } else {
                ListAction::Nothing
            }
        },
        _ => ListAction::Nothing,
    }
}

/// What a key does in a popup that holds a text input.
#[derive(Debug, Clone, Copy, PartialEq, Eq, Structural)]
pub enum TextPopupAction {
    Submit,
    Cancel,
    /// The key goes to the text input.
    Edit,
}

/// The action of a key in a popup with a text input.
pub fn text_popup_action(input: &Input) -> (a: TextPopupAction)
    ensures
        a == match input.key {
            Key::Enter => TextPopupAction::Submit,
            Key::Esc => TextPopupAction::Cancel,
            _ => TextPopupAction::Edit,
        },
{
    match input.key {
        Key::Enter => TextPopupAction::Submit,
        Key::Esc => TextPopupAction::Cancel,
        _ => TextPopupAction::Edit,
    }
}

/// What a key does while the method popup asks for a custom method.
#[derive(Debug, Clone, Copy, PartialEq, Eq, Structural)]
pub enum CustomMethodAction {
    Confirm,
    Cancel,
    Backspace,
    /// Put the character, in uppercase, behind the input if there is room.
    Type(char),
    Nothing,
}

/// The most characters that a custom method takes.
pub const CUSTOM_METHOD_MAX: usize = 20;

/// The action of a key while the method popup asks for a custom method: a
/// character is taken if it is ASCII and no whitespace.
pub open spec fn custom_method_action_of(input: Input) -> CustomMethodAction {
    match input.key {
        Key::Enter => CustomMethodAction::Confirm,
        Key::Esc => CustomMethodAction::Cancel,
        Key::Backspace => CustomMethodAction::Backspace,
        Key::Char(c) => if c <= '\x7f' && !crate::text::is_whitespace_char(c) {
            CustomMethodAction::Type(crate::text::ascii_upper(c))
        } else {
            CustomMethodAction::Nothing
        },
        _ => CustomMethodAction::Nothing,
    }
}

/// The action of a key while the method popup asks for a custom method.
pub fn custom_method_action(input: &Input) -> (a: CustomMethodAction)
    ensures
        a == custom_method_action_of(*input),
{
    match input.key {
        Key::Enter => CustomMethodAction::Confirm,
        Key::Esc => CustomMethodAction::Cancel,
        Key::Backspace => CustomMethodAction::Backspace,
        Key::Char(c) => {
            if c <= '\x7f' && !c.is_whitespace() {
                CustomMethodAction::Type(c.to_ascii_uppercase())
            } else {
                CustomMethodAction::Nothing
            }
        },
        _ => CustomMethodAction::Nothing,
    }
}

/// What the navigation mode knows when a key arrives.
#[derive(Debug, Clone, Copy, PartialEq, Eq, Structural)]
pub struct NavState {
    pub show_help: bool,
    pub show_auth_type_popup: bool,
    pub show_method_popup: bool,
    pub method_popup_custom_mode: bool,
    pub sidebar_popup_open: bool,
    pub sidebar_visible: bool,
    pub focus: FocusState,
    /// A response was received and can be looked at.
    pub has_response: bool,
}

/// What a key does in navigation mode.
#[derive(Debug, Clone, Copy, PartialEq, Eq, Structural)]
pub enum NavAction {
    CloseHelp,
    Nothing,
    AuthPopup(ListAction),
    MethodCustom(CustomMethodAction),
    MethodPopup(ListAction),
    /// The key goes to the open popup of the sidebar.
    SidebarPopup,
    ToggleSidebar,
    FocusSidebar,
    OpenProjectSwitcher,
    ShrinkSidebar,
    GrowSidebar,
    Save,
    SendOrCancel,
    PrevHorizontal,
    NextHorizontal,
    NextVertical,
    PrevVertical,
    NextAuthField,
    PrevAuthField,
    ToggleHelp,
    EnterSidebarMode,
    OpenMethodPopup,
    /// Send, or cancel what is under way, from the send button.
    PressSend,
    EditNormal,
    EditInsert,
    AuthEnter,
    Quit,
}

/// Whether no modifier is held.
pub open spec fn unmodified(input: Input, logo: bool) -> bool {
    !input.ctrl && !input.alt && !input.shift && !logo
}

/// The action of a key in navigation mode, once no overlay or popup is open.
pub open spec fn plain_nav_action_of(st: NavState, input: Input, logo: bool) -> NavAction {
    let in_request = st.focus.panel == Panel::Request;
    let in_response = st.focus.panel == Panel::Response;
    let in_sidebar = st.focus.panel == Panel::Sidebar;
    let in_auth = in_request && st.focus.request_field == RequestField::Auth;
    if is_char(input, 'e') && input.ctrl {
        NavAction::ToggleSidebar
    } else if is_char(input, 'e') && unmodified(input, logo) {
        NavAction::FocusSidebar
    } else if is_char(input, 'p') && input.ctrl {
        if st.sidebar_visible {
            NavAction::OpenProjectSwitcher
        } else {
            NavAction::Nothing
        }
    } else if input.ctrl && is_char(input, '[') {
        NavAction::ShrinkSidebar
    } else if input.ctrl && is_char(input, ']') {
        NavAction::GrowSidebar
    } else if is_char(input, 's') && input.ctrl {
        NavAction::Save
    } else if is_char(input, 'r') && input.ctrl {
        NavAction::SendOrCancel
    } else if in_request && input.ctrl && is_char(input, 'h') {
        NavAction::PrevHorizontal
    } else if in_request && input.ctrl && is_char(input, 'l') {
        NavAction::NextHorizontal
    } else if in_request && input.ctrl && is_char(input, 'j') {
        NavAction::NextVertical
    } else if in_request && input.ctrl && is_char(input, 'k') {
        NavAction::PrevVertical
    } else if in_auth && (input.key == Key::Down || is_char(input, 'j')) {
        NavAction::NextAuthField
    } else if in_auth && (input.key == Key::Up || is_char(input, 'k')) {
        NavAction::PrevAuthField
    } else if input.key == Key::Left || is_char(input, 'h') {
        NavAction::PrevHorizontal
    } else if input.key == Key::Right || is_char(input, 'l') {
        NavAction::NextHorizontal
    } else if input.key == Key::Up || is_char(input, 'k') {
        NavAction::PrevVertical
    } else if input.key == Key::Down || is_char(input, 'j') {
        NavAction::NextVertical
    } else if is_char(input, '?') {
        NavAction::ToggleHelp
    } else if input.key == Key::Enter {
        if in_sidebar {
            NavAction::EnterSidebarMode
        } else if in_request {
            match st.focus.request_field {
                RequestField::Method => NavAction::OpenMethodPopup,
                RequestField::Send => NavAction::PressSend,
                RequestField::Auth => NavAction::AuthEnter,
                _ => NavAction::EditNormal,
            }
        } else if in_response && st.has_response {
            NavAction::EditNormal
        } else {
            NavAction::Nothing
        }
    } else if is_char(input, 'i') {
        if in_sidebar {
            NavAction::EnterSidebarMode
        } else if in_request && st.focus.editable() {
            NavAction::EditInsert
        } else if in_response && st.has_response {
            NavAction::EditNormal
        } else {
            NavAction::Nothing
        }
    } else if is_char(input, 'q') {
        NavAction::Quit
    } else {
        NavAction::Nothing
    }
}

/// The action of a key in navigation mode. What is open on top takes the
/// key: the help, then the popup of the auth kinds, the method popup, and
/// the popup of the sidebar.
pub open spec fn nav_action_of(st: NavState, input: Input, logo: bool) -> NavAction {
    if st.show_help {
        if is_char(input, '?') || input.key == Key::Esc {
            NavAction::CloseHelp
        } else {
            NavAction::Nothing
        }
    } else if st.show_auth_type_popup {
        NavAction::AuthPopup(list_action_of(input))
    } else if st.show_method_popup {
        if st.method_popup_custom_mode {
            NavAction::MethodCustom(custom_method_action_of(input))
        } else {
            NavAction::MethodPopup(list_action_of(input))
        }
    } else if st.sidebar_popup_open {
        NavAction::SidebarPopup
    } else {
        plain_nav_action_of(st, input, logo)
    }
}

/// The action of a key in navigation mode, once no overlay or popup is open.
fn plain_nav_action(st: &NavState, input: &Input, logo: bool) -> (a: NavAction)
    ensures
        a == plain_nav_action_of(*st, *input, logo),
{
    let in_request = st.focus.panel == Panel::Request;
    let in_response = st.focus.panel == Panel::Response;
    let in_sidebar = st.focus.panel == Panel::Sidebar;
    let in_auth = in_request && st.focus.request_field == RequestField::Auth;
    let plain = !input.ctrl && !input.alt && !input.shift && !logo;
    let ctrl = input.ctrl;
    let left = matches!(input.key, Key::Left);
    let right = matches!(input.key, Key::Right);
    let up = matches!(input.key, Key::Up);
    let down = matches!(input.key, Key::Down);
    let enter = matches!(input.key, Key::Enter);
    if key_is(input, 'e') && ctrl {
        NavAction::ToggleSidebar
    } else if key_is(input, 'e') && plain {
        NavAction::FocusSidebar
    } else if key_is(input, 'p') && ctrl {
        if st.sidebar_visible {
            NavAction::OpenProjectSwitcher
        } else {
            NavAction::Nothing
        }
    } else if ctrl && key_is(input, '[') {
        NavAction::ShrinkSidebar
    } else if ctrl && key_is(input, ']') {
        NavAction::GrowSidebar
    } else if key_is(input, 's') && ctrl {
        NavAction::Save
    } else if key_is(input, 'r') && ctrl {
        NavAction::SendOrCancel
    } else if in_request && ctrl && key_is(input, 'h') {
        NavAction::PrevHorizontal
    } else if in_request && ctrl && key_is(input, 'l') {
        NavAction::NextHorizontal
    } else if in_request && ctrl && key_is(input, 'j') {
        NavAction::NextVertical
    } else if in_request && ctrl && key_is(input, 'k') {
        NavAction::PrevVertical
    } else if in_auth && (down || key_is(input, 'j')) {
        NavAction::NextAuthField
    } else if in_auth && (up || key_is(input, 'k')) {
        NavAction::PrevAuthField
    } else if left || key_is(input, 'h') {
        NavAction::PrevHorizontal
    } else if right || key_is(input, 'l') {
        NavAction::NextHorizontal
    } else if up || key_is(input, 'k') {
        NavAction::PrevVertical
    } else if down || key_is(input, 'j') {
        NavAction::NextVertical
    } else if key_is(input, '?') {
        NavAction::ToggleHelp
    } else if enter {
        if in_sidebar {
            NavAction::EnterSidebarMode
        } else if in_request {
            match st.focus.request_field {
                RequestField::Method => NavAction::OpenMethodPopup,
                RequestField::Send => NavAction::PressSend,
                RequestField::Auth => NavAction::AuthEnter,
                _ => NavAction::EditNormal,
            }
        } else if in_response && st.has_response {
            NavAction::EditNormal
        } else {
            NavAction::Nothing
        }
    } else if key_is(input, 'i') {
        if in_sidebar {
            NavAction::EnterSidebarMode
        } else if in_request && st.focus.is_editable_field() {
            NavAction::EditInsert
        } else if in_response && st.has_response {
            NavAction::EditNormal
        } else {
            NavAction::Nothing
        }
    } else if key_is(input, 'q') {
        NavAction::Quit
    } else {
        NavAction::Nothing
    }
}

/// The action of a key in navigation mode.
pub fn handle_navigation_mode(st: &NavState, input: &Input, logo: bool) -> (a: NavAction)
    ensures
        a == nav_action_of(*st, *input, logo),
        st.show_help ==> a == NavAction::CloseHelp || a == NavAction::Nothing,
{
    let escape = matches!(input.key, Key::Esc);
    if st.show_help {
        if key_is(input, '?') || escape {
            return NavAction::CloseHelp;
        }
        return NavAction::Nothing;
    }
    if st.show_auth_type_popup {
        return NavAction::AuthPopup(list_action(input));
    }
    if st.show_method_popup {
        if st.method_popup_custom_mode {
            return NavAction::MethodCustom(custom_method_action(input));
        }
        return NavAction::MethodPopup(list_action(input));
    }
    if st.sidebar_popup_open {
        return NavAction::SidebarPopup;
    }
    plain_nav_action(st, input, logo)
}

} // verus!
