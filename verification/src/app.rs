//! The application's own vocabulary: tabs, panels, methods, focus and the
//! small text input of the popups, with the rules that move between them.
use crate::text::{
    ascii_lowered, blank, contains, contains_text, from_chars, is_blank, same_chars, to_ascii_lower,
    to_chars, trim, trimmed, uppercase,
};
use crate::text::{
    append_str, spliced, split, split_on, strings_view, texts_view, without_char,
};
use tui_textarea::{Input, Key};
use vstd::prelude::*;
use vstd::utf8::*;

verus! {

#[derive(Debug, Clone, Copy, PartialEq, Eq, Structural)]
pub enum ResponseTab {
    Body,
    Headers,
}

impl Default for ResponseTab {
    fn default() -> (r: ResponseTab)
        ensures
            r == ResponseTab::Body,
    {
        ResponseTab::Body
    }
}

impl ResponseTab {
    pub open spec fn label_spec(self) -> Seq<char> {
        match self {
            ResponseTab::Body => "Body"@,
            ResponseTab::Headers => "Headers"@,
        }
    }

    pub fn label(self) -> (s: &'static str)
        ensures
            s@ == self.label_spec(),
    {
        match self {
            ResponseTab::Body => "Body",
            ResponseTab::Headers => "Headers",
        }
    }

    /// The other tab.
    pub fn next(self) -> (r: ResponseTab)
        ensures
            r != self,
    {
        match self {
            ResponseTab::Body => ResponseTab::Headers,
            ResponseTab::Headers => ResponseTab::Body,
        }
    }
}

/// Whether `s` reads exactly as `lit`.
pub fn text_is(s: &str, lit: &str) -> (r: bool)
    ensures
        r == (s@ == lit@),
{
    let a = to_chars(s);
    let b = to_chars(lit);
    same_chars(&a, &b)
}

/// The response tab of a stored name: `Headers` for "Headers", `Body` for
/// anything else.
pub fn response_tab_from_str(value: &str) -> (r: ResponseTab)
    ensures
        r == if value@ == "Headers"@ {
            ResponseTab::Headers
        } else {
            ResponseTab::Body
        },
{
    if text_is(value, "Headers") {
        ResponseTab::Headers
    } else {
        ResponseTab::Body
    }
}

#[derive(Debug, Clone, Copy, PartialEq, Eq, Structural)]
pub enum RequestTab {
    Headers,
    Auth,
    Body,
}

impl Default for RequestTab {
    fn default() -> (r: RequestTab)
        ensures
            r == RequestTab::Headers,
    {
        RequestTab::Headers
    }
}

impl RequestTab {
    pub open spec fn label_spec(self) -> Seq<char> {
        match self {
            RequestTab::Headers => "Headers"@,
            RequestTab::Auth => "Auth"@,
            RequestTab::Body => "Body"@,
        }
    }

    /// The request field that shows this tab.
    pub open spec fn field_spec(self) -> RequestField {
        match self {
            RequestTab::Headers => RequestField::Headers,
            RequestTab::Auth => RequestField::Auth,
            RequestTab::Body => RequestField::Body,
        }
    }

    #[verifier::when_used_as_spec(field_spec)]
    pub fn field(self) -> (f: RequestField)
        ensures
            f == self.field_spec(),
    {
        match self {
            RequestTab::Headers => RequestField::Headers,
            RequestTab::Auth => RequestField::Auth,
            RequestTab::Body => RequestField::Body,
        }
    }

    /// The tab to the right, going round.
    pub open spec fn next_spec(self) -> RequestTab {
        match self {
            RequestTab::Headers => RequestTab::Auth,
            RequestTab::Auth => RequestTab::Body,
            RequestTab::Body => RequestTab::Headers,
        }
    }

    /// The tab to the left, going round.
    pub open spec fn prev_spec(self) -> RequestTab {
        match self {
            RequestTab::Headers => RequestTab::Body,
            RequestTab::Auth => RequestTab::Headers,
            RequestTab::Body => RequestTab::Auth,
        }
    }

    #[verifier::when_used_as_spec(next_spec)]
    pub fn next(self) -> (r: RequestTab)
        ensures
            r == self.next_spec(),
    {
        match self {
            RequestTab::Headers => RequestTab::Auth,
            RequestTab::Auth => RequestTab::Body,
            RequestTab::Body => RequestTab::Headers,
        }
    }

    #[verifier::when_used_as_spec(prev_spec)]
    pub fn prev(self) -> (r: RequestTab)
        ensures
            r == self.prev_spec(),
    {
        match self {
            RequestTab::Headers => RequestTab::Body,
            RequestTab::Auth => RequestTab::Headers,
            RequestTab::Body => RequestTab::Auth,
        }
    }
}

/// Going right and then left, or left and then right, comes back to the tab.
pub proof fn lemma_request_tabs_go_round(tab: RequestTab)
    ensures
        tab.next_spec().prev_spec() == tab,
        tab.prev_spec().next_spec() == tab,
        tab.next_spec().next_spec().next_spec() == tab,
{
}

/// The request tab of a stored name: `Headers` for anything but "Auth" and
/// "Body".
pub fn request_tab_from_str(value: &str) -> (r: RequestTab)
    ensures
        r == if value@ == "Auth"@ {
            RequestTab::Auth
        } else if value@ == "Body"@ {
            RequestTab::Body
        } else {
            RequestTab::Headers
        },
{
    if text_is(value, "Auth") {
        RequestTab::Auth
    } else if text_is(value, "Body") {
        RequestTab::Body
    } else {
        RequestTab::Headers
    }
}

pub fn request_tab_to_str(value: RequestTab) -> (s: &'static str)
    ensures
        s@ == value.label_spec(),
{
    match value {
        RequestTab::Headers => "Headers",
        RequestTab::Auth => "Auth",
        RequestTab::Body => "Body",
    }
}

/// A stored tab name reads back as the tab it was written from.
pub proof fn lemma_request_tab_name_reads_back(tab: RequestTab)
    ensures
        tab.label_spec() == "Auth"@ <==> tab == RequestTab::Auth,
        tab.label_spec() == "Body"@ <==> tab == RequestTab::Body,
{
    reveal_strlit("Headers");
    reveal_strlit("Auth");
    reveal_strlit("Body");
    assert("Headers"@.len() == 7);
    assert("Auth"@.len() == 4);
    assert("Auth"@[0] == 'A');
    assert("Body"@[0] == 'B');
}

#[derive(Debug, Clone)]
pub struct ResponseData {
    pub status: u16,
    pub status_text: String,
    pub headers: Vec<(String, String)>,
    pub body: String,
    pub duration_ms: u64,
}

#[derive(Debug, Clone)]
pub enum ResponseStatus {
    Empty,
    Loading,
    Success(ResponseData),
    Error(String),
    Cancelled,
}

impl Default for ResponseStatus {
    fn default() -> (r: ResponseStatus)
        ensures
            r is Empty,
    {
        ResponseStatus::Empty
    }
}

#[derive(Debug, Clone, Copy, PartialEq, Eq, Structural)]
pub enum AppMode {
    Navigation,
    Editing,
    Sidebar,
}

impl Default for AppMode {
    fn default() -> (r: AppMode)
        ensures
            r == AppMode::Navigation,
    {
        AppMode::Navigation
    }
}

#[derive(Debug, Clone, Copy, PartialEq, Eq, Structural)]
pub enum HttpMethod {
    Get,
    Post,
    Put,
    Patch,
    Delete,
    Head,
    Options,
}

impl Default for HttpMethod {
    fn default() -> (r: HttpMethod)
        ensures
            r == HttpMethod::Get,
    {
        HttpMethod::Get
    }
}

/// The number of standard methods.
pub const HTTP_METHODS: usize = 7;

impl HttpMethod {
    /// The method's name on the wire.
    pub open spec fn name(self) -> Seq<char> {
        match self {
            HttpMethod::Get => "GET"@,
            HttpMethod::Post => "POST"@,
            HttpMethod::Put => "PUT"@,
            HttpMethod::Patch => "PATCH"@,
            HttpMethod::Delete => "DELETE"@,
            HttpMethod::Head => "HEAD"@,
            HttpMethod::Options => "OPTIONS"@,
        }
    }

    /// The method's place in the method popup.
    pub open spec fn index_spec(self) -> usize {
        match self {
            HttpMethod::Get => 0,
            HttpMethod::Post => 1,
            HttpMethod::Put => 2,
            HttpMethod::Patch => 3,
            HttpMethod::Delete => 4,
            HttpMethod::Head => 5,
            HttpMethod::Options => 6,
        }
    }

    /// Whether a request of this method carries a body.
    pub open spec fn sends_body_spec(self) -> bool {
        self == HttpMethod::Post || self == HttpMethod::Put || self == HttpMethod::Patch || self
            == HttpMethod::Delete
    }

    pub fn as_str(&self) -> (s: &'static str)
        ensures
            s@ == self.name(),
    {
        match self {
            HttpMethod::Get => "GET",
            HttpMethod::Post => "POST",
            HttpMethod::Put => "PUT",
            HttpMethod::Patch => "PATCH",
            HttpMethod::Delete => "DELETE",
            HttpMethod::Head => "HEAD",
            HttpMethod::Options => "OPTIONS",
        }
    }

    pub fn index(&self) -> (i: usize)
        ensures
            i == self.index_spec(),
            i < HTTP_METHODS,
    {
        match self {
            HttpMethod::Get => 0,
            HttpMethod::Post => 1,
            HttpMethod::Put => 2,
            HttpMethod::Patch => 3,
            HttpMethod::Delete => 4,
            HttpMethod::Head => 5,
            HttpMethod::Options => 6,
        }
    }

    /// The method at place `index` of the popup, counting round.
    pub fn from_index(index: usize) -> (m: HttpMethod)
        ensures
            m.index_spec() == index % HTTP_METHODS,
    {
        let i = index % HTTP_METHODS;
        if i == 0 {
            HttpMethod::Get
        } else if i == 1 {
            HttpMethod::Post
        } else if i == 2 {
            HttpMethod::Put
        } else if i == 3 {
            HttpMethod::Patch
        } else if i == 4 {
            HttpMethod::Delete
        } else if i == 5 {
            HttpMethod::Head
        } else {
            HttpMethod::Options
        }
    }

    pub fn sends_body(&self) -> (r: bool)
        ensures
            r == self.sends_body_spec(),
    {
        match self {
            HttpMethod::Post | HttpMethod::Put | HttpMethod::Patch | HttpMethod::Delete => true,
            _ => false,
        }
    }
}

/// A method's index leads back to the method.
pub proof fn lemma_method_index_round_trip(m: HttpMethod, other: HttpMethod)
    ensures
        m.index_spec() < HTTP_METHODS,
        m.index_spec() == other.index_spec() ==> m == other,
{
}

#[derive(Debug, Clone, PartialEq, Eq)]
pub enum Method {
    Standard(HttpMethod),
    Custom(String),
}

impl Default for Method {
    fn default() -> (m: Method)
        ensures
            m == Method::Standard(HttpMethod::Get),
    {
        Method::Standard(HttpMethod::Get)
    }
}

impl Method {
    /// The method's name on the wire.
    pub open spec fn name(self) -> Seq<char> {
        match self {
            Method::Standard(m) => m.name(),
            Method::Custom(s) => s@,
        }
    }

    /// Whether a request of this method carries a body: a custom method
    /// always does.
    pub open spec fn sends_body_spec(self) -> bool {
        match self {
            Method::Standard(m) => m.sends_body_spec(),
            Method::Custom(_) => true,
        }
    }

    pub fn as_str(&self) -> (s: &str)
        ensures
            s@ == self.name(),
    {
        match self {
            Method::Standard(m) => m.as_str(),
            Method::Custom(s) => s.as_str(),
        }
    }

    /// The method of a name, whatever its case: the standard method of that
    /// name in uppercase, or a custom method of the uppercase name.
    pub fn from_str(value: &str) -> (m: Method)
        ensures
            m.name() == uppercase(value@),
            m is Custom <==> forall|h: HttpMethod| h.name() != uppercase(value@),
    {
        let upper = value.to_uppercase();
        if text_is(upper.as_str(), "GET") {
            Method::Standard(HttpMethod::Get)
        } else if text_is(upper.as_str(), "POST") {
            Method::Standard(HttpMethod::Post)
        } else if text_is(upper.as_str(), "PUT") {
            Method::Standard(HttpMethod::Put)
        } else if text_is(upper.as_str(), "PATCH") {
            Method::Standard(HttpMethod::Patch)
        } else if text_is(upper.as_str(), "DELETE") {
            Method::Standard(HttpMethod::Delete)
        } else if text_is(upper.as_str(), "HEAD") {
            Method::Standard(HttpMethod::Head)
        } else if text_is(upper.as_str(), "OPTIONS") {
            Method::Standard(HttpMethod::Options)
        } else {
            Method::Custom(upper)
        }
    }

    pub fn sends_body(&self) -> (r: bool)
        ensures
            r == self.sends_body_spec(),
    {
        match self {
            Method::Standard(m) => m.sends_body(),
            Method::Custom(_) => true,
        }
    }
}

impl vstd::std_specs::convert::FromSpecImpl<HttpMethod> for Method {
    open spec fn obeys_from_spec() -> bool {
        true
    }

    open spec fn from_spec(m: HttpMethod) -> Method {
        Method::Standard(m)
    }
}

impl From<HttpMethod> for Method {
    fn from(m: HttpMethod) -> (r: Method) {
        Method::Standard(m)
    }
}

#[derive(Debug, Clone, Copy, PartialEq, Eq, Structural)]
pub enum AuthType {
    NoAuth,
    Bearer,
    Basic,
    ApiKey,
}

impl Default for AuthType {
    fn default() -> (r: AuthType)
        ensures
            r == AuthType::NoAuth,
    {
        AuthType::NoAuth
    }
}

/// The number of kinds of authentication.
pub const AUTH_TYPES: usize = 4;

impl AuthType {
    pub open spec fn label_spec(self) -> Seq<char> {
        match self {
            AuthType::NoAuth => "No Auth"@,
            AuthType::Bearer => "Bearer Token"@,
            AuthType::Basic => "Basic Auth"@,
            AuthType::ApiKey => "API Key"@,
        }
    }

    pub open spec fn index_spec(self) -> usize {
        match self {
            AuthType::NoAuth => 0,
            AuthType::Bearer => 1,
            AuthType::Basic => 2,
            AuthType::ApiKey => 3,
        }
    }

    pub fn as_str(&self) -> (s: &'static str)
        ensures
            s@ == self.label_spec(),
    {
        match self {
            AuthType::NoAuth => "No Auth",
            AuthType::Bearer => "Bearer Token",
            AuthType::Basic => "Basic Auth",
            AuthType::ApiKey => "API Key",
        }
    }

    /// The kind at place `index` of the popup, counting round.
    pub fn from_index(index: usize) -> (t: AuthType)
        ensures
            t.index_spec() == index % AUTH_TYPES,
    {
        let i = index % AUTH_TYPES;
        if i == 0 {
            AuthType::NoAuth
        } else if i == 1 {
            AuthType::Bearer
        } else if i == 2 {
            AuthType::Basic
        } else {
            AuthType::ApiKey
        }
    }

    pub fn index(&self) -> (i: usize)
        ensures
            i == self.index_spec(),
            i < AUTH_TYPES,
    {
        match self {
            AuthType::NoAuth => 0,
            AuthType::Bearer => 1,
            AuthType::Basic => 2,
            AuthType::ApiKey => 3,
        }
    }

    /// The fields of the auth panel for this kind, from top to bottom.
    pub open spec fn fields_spec(self) -> Seq<AuthField> {
        match self {
            AuthType::NoAuth => seq![AuthField::AuthType],
            AuthType::Bearer => seq![AuthField::AuthType, AuthField::Token],
            AuthType::Basic => seq![AuthField::AuthType, AuthField::Username, AuthField::Password],
            AuthType::ApiKey => seq![
                AuthField::AuthType,
                AuthField::KeyName,
                AuthField::KeyValue,
                AuthField::KeyLocation,
            ],
        }
    }

    /// The fields of the auth panel for this kind, from top to bottom.
    pub fn fields(self) -> (f: Vec<AuthField>)
        ensures
            f@ == self.fields_spec(),
    {
        let mut f: Vec<AuthField> = Vec::new();
        f.push(AuthField::AuthType);
        match self {
            AuthType::NoAuth => {},
            AuthType::Bearer => {
                f.push(AuthField::Token);
            },
            AuthType::Basic => {
                f.push(AuthField::Username);
                f.push(AuthField::Password);
            },
            AuthType::ApiKey => {
                f.push(AuthField::KeyName);
                f.push(AuthField::KeyValue);
                f.push(AuthField::KeyLocation);
            },
        }
        assert(f@ =~= self.fields_spec());
        f
    }

    /// The field that gets the focus when this kind is chosen: the first
    /// below the kind itself, or the kind where there is none.
    pub fn first_field(self) -> (f: AuthField)
        ensures
            f == if self.fields_spec().len() > 1 {
                self.fields_spec()[1]
            } else {
                self.fields_spec()[0]
            },
    {
        match self {
            AuthType::NoAuth => AuthField::AuthType,
            AuthType::Bearer => AuthField::Token,
            AuthType::Basic => AuthField::Username,
            AuthType::ApiKey => AuthField::KeyName,
        }
    }
}

#[derive(Debug, Clone, Copy, PartialEq, Eq, Structural)]
pub enum ApiKeyLocation {
    Header,
    QueryParam,
}

impl Default for ApiKeyLocation {
    fn default() -> (r: ApiKeyLocation)
        ensures
            r == ApiKeyLocation::Header,
    {
        ApiKeyLocation::Header
    }
}

impl ApiKeyLocation {
    /// The other place.
    pub fn toggled(self) -> (r: ApiKeyLocation)
        ensures
            r != self,
    {
        match self {
            ApiKeyLocation::Header => ApiKeyLocation::QueryParam,
            ApiKeyLocation::QueryParam => ApiKeyLocation::Header,
        }
    }
}

#[derive(Debug, Clone, Copy, PartialEq, Eq, Structural)]
pub enum AuthField {
    AuthType,
    Token,
    Username,
    Password,
    KeyName,
    KeyValue,
    KeyLocation,
}

impl Default for AuthField {
    fn default() -> (r: AuthField)
        ensures
            r == AuthField::AuthType,
    {
        AuthField::AuthType
    }
}

impl AuthField {
    /// Whether the field holds text to edit.
    pub open spec fn is_text_spec(self) -> bool {
        !(self == AuthField::AuthType || self == AuthField::KeyLocation)
    }

    #[verifier::when_used_as_spec(is_text_spec)]
    pub fn is_text(self) -> (r: bool)
        ensures
            r == self.is_text_spec(),
    {
        match self {
            AuthField::AuthType | AuthField::KeyLocation => false,
            _ => true,
        }
    }
}

#[derive(Debug, Clone, Copy, PartialEq, Eq, Structural)]
pub enum Panel {
    Sidebar,
    Request,
    Response,
}

impl Default for Panel {
    fn default() -> (r: Panel)
        ensures
            r == Panel::Request,
    {
        Panel::Request
    }
}

#[derive(Debug, Clone, Copy, PartialEq, Eq, Structural)]
pub enum RequestField {
    Method,
    Url,
    Send,
    Headers,
    Auth,
    Body,
}

impl Default for RequestField {
    fn default() -> (r: RequestField)
        ensures
            r == RequestField::Url,
    {
        RequestField::Url
    }
}

impl RequestField {
    /// Whether the field lies in the input row: method, URL, send.
    pub open spec fn in_input_row(self) -> bool {
        self == RequestField::Method || self == RequestField::Url || self == RequestField::Send
    }
}

/// Where the focus is: the panel, and within the request panel the field and
/// the field of the auth tab.
#[derive(Debug, Clone, Copy, PartialEq, Eq, Structural)]
pub struct FocusState {
    pub panel: Panel,
    pub request_field: RequestField,
    pub auth_field: AuthField,
}

impl Default for FocusState {
    fn default() -> (f: FocusState)
        ensures
            f == (FocusState {
                panel: Panel::Request,
                request_field: RequestField::Url,
                auth_field: AuthField::AuthType,
            }),
    {
        FocusState {
            panel: Panel::Request,
            request_field: RequestField::Url,
            auth_field: AuthField::AuthType,
        }
    }
}

/// What a yank or a paste is aimed at.
#[derive(Debug, Clone, Copy, PartialEq, Eq, Structural)]
pub enum YankTarget {
    Request,
    ResponseBody,
    ResponseHeaders,
}

/// The place of `field` among `fields`; 0 where it is not among them.
pub open spec fn field_position(fields: Seq<AuthField>, field: AuthField) -> int
    decreases fields.len(),
{
    if fields.len() == 0 {
        0
    } else if fields[0] == field {
        0
    } else if fields.drop_first().contains(field) {
        1 + field_position(fields.drop_first(), field)
    } else {
        0
    }
}

impl FocusState {
    /// The focus after a step to the right.
    pub open spec fn right(self) -> FocusState {
        match self.panel {
            Panel::Sidebar => FocusState {
                panel: Panel::Request,
                request_field: RequestField::Method,
                ..self
            },
            Panel::Request => FocusState {
                request_field: match self.request_field {
                    RequestField::Method => RequestField::Url,
                    RequestField::Url => RequestField::Send,
                    RequestField::Send => RequestField::Method,
                    _ => RequestField::Url,
                },
                ..self
            },
            Panel::Response => self,
        }
    }

    /// The focus after a step to the left: into the sidebar where it shows,
    /// else round the input row.
    pub open spec fn left(self, sidebar_visible: bool) -> FocusState {
        match self.panel {
            Panel::Request => if sidebar_visible {
                FocusState { panel: Panel::Sidebar, ..self }
            } else {
                FocusState {
                    request_field: match self.request_field {
                        RequestField::Method => RequestField::Send,
                        RequestField::Url => RequestField::Method,
                        RequestField::Send => RequestField::Url,
                        _ => RequestField::Url,
                    },
                    ..self
                }
            },
            Panel::Sidebar => self,
            Panel::Response => if sidebar_visible {
                FocusState { panel: Panel::Sidebar, ..self }
            } else {
                self
            },
        }
    }

    /// The focus after a step down: from the input row to the open tab, from
    /// the tab to the response.
    pub open spec fn down(self, request_tab: RequestTab) -> FocusState {
        match self.panel {
            Panel::Request => if self.request_field.in_input_row() {
                FocusState { request_field: request_tab.field_spec(), ..self }
            } else {
                FocusState { panel: Panel::Response, ..self }
            },
            _ => self,
        }
    }

    /// The focus after a step up: from the response to the open tab, from
    /// the tab to the URL, from the input row to the open tab.
    pub open spec fn up(self, request_tab: RequestTab) -> FocusState {
        match self.panel {
            Panel::Response => FocusState {
                panel: Panel::Request,
                request_field: request_tab.field_spec(),
                ..self
            },
            Panel::Request => if self.request_field.in_input_row() {
                FocusState { request_field: request_tab.field_spec(), ..self }
            } else {
                FocusState { request_field: RequestField::Url, ..self }
            },
            Panel::Sidebar => self,
        }
    }

    /// The focus after the open tab changed: a focus on a tab follows it.
    pub open spec fn synced(self, request_tab: RequestTab) -> FocusState {
        if self.panel == Panel::Request && !self.request_field.in_input_row() {
            FocusState { request_field: request_tab.field_spec(), ..self }
        } else {
            self
        }
    }

    /// Whether the focused request field holds text to edit.
    pub open spec fn editable(self) -> bool {
        match self.request_field {
            RequestField::Url | RequestField::Headers | RequestField::Body => true,
            RequestField::Auth => self.auth_field.is_text_spec(),
            _ => false,
        }
    }

    /// What a yank is aimed at with this focus.
    pub open spec fn yank_target(self, response_tab: ResponseTab) -> Option<YankTarget> {
        match self.panel {
            Panel::Response => match response_tab {
                ResponseTab::Body => Some(YankTarget::ResponseBody),
                ResponseTab::Headers => Some(YankTarget::ResponseHeaders),
            },
            Panel::Request => if self.editable() {
                Some(YankTarget::Request)
            } else {
                None
            },
            Panel::Sidebar => None,
        }
    }

    /// The focus after a step down within the auth tab: to the next field of
    /// the kind, from the last one to the response.
    pub open spec fn auth_down(self, auth_type: AuthType) -> FocusState {
        let fields = auth_type.fields_spec();
        let at = field_position(fields, self.auth_field);
        if at + 1 < fields.len() {
            FocusState { auth_field: fields[at + 1], ..self }
        } else {
            FocusState { panel: Panel::Response, ..self }
        }
    }

    /// The focus after a step up within the auth tab: to the field before,
    /// from the first one to the URL.
    pub open spec fn auth_up(self, auth_type: AuthType) -> FocusState {
        let fields = auth_type.fields_spec();
        let at = field_position(fields, self.auth_field);
        if at == 0 {
            FocusState { request_field: RequestField::Url, ..self }
        } else {
            FocusState { auth_field: fields[at - 1], ..self }
        }
    }

    pub fn next_horizontal(&mut self)
        ensures
            *final(self) == old(self).right(),
    {
        match self.panel {
            Panel::Sidebar => {
                self.panel = Panel::Request;
                self.request_field = RequestField::Method;
            },
            Panel::Request => {
                self.request_field = match self.request_field {
                    RequestField::Method => RequestField::Url,
                    RequestField::Url => RequestField::Send,
                    RequestField::Send => RequestField::Method,
                    RequestField::Headers | RequestField::Auth | RequestField::Body => {
                        RequestField::Url
                    },
                };
            },
            Panel::Response => {},
        }
    }

    pub fn prev_horizontal(&mut self, sidebar_visible: bool)
        ensures
            *final(self) == old(self).left(sidebar_visible),
    {
        match self.panel {
            Panel::Request => {
                if sidebar_visible {
                    self.panel = Panel::Sidebar;
                } else {
                    self.request_field = match self.request_field {
                        RequestField::Method => RequestField::Send,
                        RequestField::Url => RequestField::Method,
                        RequestField::Send => RequestField::Url,
                        RequestField::Headers | RequestField::Auth | RequestField::Body => {
                            RequestField::Url
                        },
                    };
                }
            },
            Panel::Sidebar => {},
            Panel::Response => {
                if sidebar_visible {
                    self.panel = Panel::Sidebar;
                }
            },
        }
    }

    pub fn next_vertical(&mut self, request_tab: RequestTab)
        ensures
            *final(self) == old(self).down(request_tab),
    {
        match self.panel {
            Panel::Request => {
                match self.request_field {
                    RequestField::Method | RequestField::Url | RequestField::Send => {
                        self.request_field = request_tab.field();
                    },
                    RequestField::Headers | RequestField::Auth | RequestField::Body => {
                        self.panel = Panel::Response;
                    },
                }
            },
            Panel::Response | Panel::Sidebar => {},
        }
    }

    pub fn prev_vertical(&mut self, request_tab: RequestTab)
        ensures
            *final(self) == old(self).up(request_tab),
    {
        match self.panel {
            Panel::Response => {
                self.panel = Panel::Request;
                self.request_field = request_tab.field();
            },
            Panel::Request => {
                self.request_field = match self.request_field {
                    RequestField::Method | RequestField::Url | RequestField::Send => {
                        request_tab.field()
                    },
                    RequestField::Headers | RequestField::Auth | RequestField::Body => {
                        RequestField::Url
                    },
                };
            },
            Panel::Sidebar => {},
        }
    }

    pub fn sync_field_to_tab(&mut self, request_tab: RequestTab)
        ensures
            *final(self) == old(self).synced(request_tab),
    {
        if self.panel == Panel::Request {
            match self.request_field {
                RequestField::Headers | RequestField::Auth | RequestField::Body => {
                    self.request_field = request_tab.field();
                },
                _ => {},
            }
        }
    }

    pub fn is_auth_text_field(&self) -> (r: bool)
        ensures
            r == self.auth_field.is_text_spec(),
    {
        self.auth_field.is_text()
    }

    pub fn is_editable_field(&self) -> (r: bool)
        ensures
            r == self.editable(),
    {
        match self.request_field {
            RequestField::Url | RequestField::Headers | RequestField::Body => true,
            RequestField::Auth => self.is_auth_text_field(),
            _ => false,
        }
    }

    pub fn active_yank_target(&self, response_tab: ResponseTab) -> (r: Option<YankTarget>)
        ensures
            r == self.yank_target(response_tab),
    {
        match self.panel {
            Panel::Response => match response_tab {
                ResponseTab::Body => Some(YankTarget::ResponseBody),
                ResponseTab::Headers => Some(YankTarget::ResponseHeaders),
            },
            Panel::Request => if self.is_editable_field() {
                Some(YankTarget::Request)
            } else {
                None
            },
            Panel::Sidebar => None,
        }
    }

    /// The place of the focused auth field among `fields`; 0 where it is not
    /// among them.
    fn auth_position(&self, fields: &Vec<AuthField>) -> (at: usize)
        ensures
            at == field_position(fields@, self.auth_field),
            fields@.len() > 0 ==> at < fields@.len(),
    {
        let mut i: usize = 0;
        while i < fields.len()
            invariant
                i <= fields.len(),
                forall|k: int| 0 <= k < i ==> fields@[k] != self.auth_field,
            decreases fields.len() - i,
        {
            if fields[i] == self.auth_field {
                proof {
                    lemma_field_position_found(fields@, self.auth_field, i as int);
                }
                return i;
            }
            i += 1;
        }
        proof {
            lemma_field_position_missing(fields@, self.auth_field);
        }
        0
    }

    pub fn next_auth_field(&mut self, auth_type: AuthType)
        ensures
            *final(self) == old(self).auth_down(auth_type),
    {
        let fields = auth_type.fields();
        let at = self.auth_position(&fields);
        if at + 1 < fields.len() {
            self.auth_field = fields[at + 1];
        } else {
            self.panel = Panel::Response;
        }
    }

    pub fn prev_auth_field(&mut self, auth_type: AuthType)
        ensures
            *final(self) == old(self).auth_up(auth_type),
    {
        let fields = auth_type.fields();
        let at = self.auth_position(&fields);
        if at == 0 {
            self.request_field = RequestField::Url;
        } else {
            self.auth_field = fields[at - 1];
        }
    }
}

/// `field_position` of a field whose first occurrence is at `at`.
pub proof fn lemma_field_position_found(fields: Seq<AuthField>, field: AuthField, at: int)
    requires
        0 <= at < fields.len(),
        fields[at] == field,
        forall|k: int| 0 <= k < at ==> fields[k] != field,
    ensures
        field_position(fields, field) == at,
    decreases fields.len(),
{
    if at > 0 {
        let rest = fields.drop_first();
        assert(rest[at - 1] == field);
        assert(rest.contains(field));
        assert forall|k: int| 0 <= k < at - 1 implies rest[k] != field by {
            assert(rest[k] == fields[k + 1]);
        }
        lemma_field_position_found(rest, field, at - 1);
    }
}

/// `field_position` of a field that does not occur.
pub proof fn lemma_field_position_missing(fields: Seq<AuthField>, field: AuthField)
    requires
        forall|k: int| 0 <= k < fields.len() ==> fields[k] != field,
    ensures
        field_position(fields, field) == 0,
{
    if fields.len() > 0 {
        let rest = fields.drop_first();
        if rest.contains(field) {
            let k = choose|k: int| 0 <= k < rest.len() && rest[k] == field;
            assert(fields[k + 1] == field);
        }
    }
}

/// Up and then down in the request panel comes back to the tab's field
/// whenever the focus was on it.
pub proof fn lemma_focus_up_down(focus: FocusState, tab: RequestTab)
    requires
        focus.panel == Panel::Request,
        focus.request_field == tab.field_spec(),
    ensures
        focus.up(tab).down(tab) == focus,
        focus.down(tab).up(tab) == focus,
{
}

/// The sidebar's width, kept between 28 and 60 columns.
pub open spec fn clamped_width(value: u16) -> u16 {
    if value < 28 {
        28
    } else if value > 60 {
        60
    } else {
        value
    }
}

pub fn clamp_sidebar_width(value: u16) -> (w: u16)
    ensures
        w == clamped_width(value),
        28 <= w <= 60,
{
    if value < 28 {
        28
    } else if value > 60 {
        60
    } else {
        value
    }
}

/// The columns that the sidebar gets in an area `available` columns wide:
/// the width asked for, but one column at least is left for the panels.
pub fn sidebar_columns(asked: u16, available: u16) -> (w: u16)
    ensures
        w == if available == 0 {
            0
        } else if asked < available - 1 {
            asked as int
        } else {
            available - 1
        },
{
    let most: u16 = if available > 0 {
        available - 1
    } else {
        0
    };
    if asked < most {
        asked
    } else {
        most
    }
}

/// The index after `index` among `count` entries, going round.
pub fn next_index(index: usize, count: usize) -> (r: usize)
    requires
        count > 0,
        index < usize::MAX,
    ensures
        r == (index + 1) % (count as int),
{
    (index + 1) % count
}

/// The index before `index` among `count` entries, going round.
pub fn prev_index(index: usize, count: usize) -> (r: usize)
    requires
        count > 0,
    ensures
        r == if index == 0 {
            count - 1
        } else {
            index - 1
        },
{
    if index == 0 {
        count - 1
    } else {
        index - 1
    }
}

/// A one-line text input with a cursor, as the popups use it. The cursor
/// is a byte offset into the value.
#[derive(Debug, Clone)]
pub struct TextInput {
    pub value: String,
    pub cursor: usize,
}

/// Bytes and cursor after a character was typed at the cursor: its bytes
/// stand there, and the cursor one byte on.
pub open spec fn typed_at(bytes: Seq<u8>, cursor: int, ch: char) -> (Seq<u8>, int) {
    (spliced(bytes, cursor, encode_scalar(ch as u32)), cursor + 1)
}

/// Bytes and cursor after Backspace: the cursor goes one byte back and the
/// character that starts there is gone.
pub open spec fn backspaced_at(bytes: Seq<u8>, cursor: int) -> (Seq<u8>, int) {
    if cursor == 0 {
        (bytes, cursor)
    } else {
        (without_char(bytes, cursor - 1), cursor - 1)
    }
}

impl TextInput {
    /// The bytes of the value.
    pub open spec fn bytes(self) -> Seq<u8> {
        encode_utf8(self.value@)
    }

    /// The length of the value in bytes.
    pub open spec fn len(self) -> usize {
        self.bytes().len() as usize
    }

    /// The bytes of the value and the cursor.
    pub open spec fn state(self) -> (Seq<u8>, int) {
        (self.bytes(), self.cursor as int)
    }

    /// A character starts at byte offset `at`.
    pub open spec fn starts_char(self, at: int) -> bool {
        0 <= at < self.len() && is_char_boundary(self.bytes(), at)
    }

    /// A character can be typed: the cursor lies within the value and on a
    /// character boundary.
    pub open spec fn can_insert(self) -> bool {
        &&& self.cursor <= self.len()
        &&& self.cursor < usize::MAX
        &&& is_char_boundary(self.bytes(), self.cursor as int)
    }

    /// Backspace can be pressed: at the start, or where a character starts
    /// one byte before the cursor.
    pub open spec fn can_backspace(self) -> bool {
        self.cursor > 0 ==> self.starts_char(self.cursor - 1)
    }

    /// Delete can be pressed: at or behind the end, or where a character
    /// starts at the cursor.
    pub open spec fn can_delete(self) -> bool {
        self.cursor < self.len() ==> self.starts_char(self.cursor as int)
    }

    /// The input takes the key `key`.
    pub open spec fn accepts(self, key: Input) -> bool {
        if key.ctrl || key.alt {
            true
        } else {
            match key.key {
                Key::Char(_) => self.can_insert(),
                Key::Backspace => self.can_backspace(),
                Key::Delete => self.can_delete(),
                _ => true,
            }
        }
    }

    /// The input after `ch` was typed.
    pub open spec fn typed(self, ch: char) -> (Seq<u8>, int) {
        typed_at(self.bytes(), self.cursor as int, ch)
    }

    /// The input after Backspace.
    pub open spec fn backspaced(self) -> (Seq<u8>, int) {
        backspaced_at(self.bytes(), self.cursor as int)
    }

    /// The input after Delete: the character that starts at the cursor is
    /// gone.
    pub open spec fn deleted(self) -> (Seq<u8>, int) {
        if self.cursor >= self.len() {
            self.state()
        } else {
            (without_char(self.bytes(), self.cursor as int), self.cursor as int)
        }
    }

    /// The input with the cursor one byte to the left, if it can go there.
    pub open spec fn left(self) -> (Seq<u8>, int) {
        (self.bytes(), if self.cursor > 0 {
            self.cursor - 1
        } else {
            0
        })
    }

    /// The input with the cursor one byte to the right, if it can go there.
    pub open spec fn right(self) -> (Seq<u8>, int) {
        (self.bytes(), if self.cursor < self.len() {
            self.cursor + 1
        } else {
            self.cursor as int
        })
    }

    /// The input after the key `key`: a character is typed, Backspace and
    /// Delete delete, the arrows, Home and End move; a key with Ctrl or Alt
    /// and any other key change nothing.
    pub open spec fn keyed(self, key: Input) -> (Seq<u8>, int) {
        if key.ctrl || key.alt {
            self.state()
        } else {
            match key.key {
                Key::Char(ch) => self.typed(ch),
                Key::Backspace => self.backspaced(),
                Key::Delete => self.deleted(),
                Key::Left => self.left(),
                Key::Right => self.right(),
                Key::Home => (self.bytes(), 0),
                Key::End => (self.bytes(), self.len() as int),
                _ => self.state(),
            }
        }
    }

    /// An input holding `value` with the cursor at its end.
    pub fn new(value: String) -> (t: TextInput)
        ensures
            t.value@ == value@,
            t.cursor == t.len(),
    {
        let cursor = value.as_str().len();
        TextInput { cursor, value }
    }

    /// Puts `ch` in at the cursor and the cursor one byte on.
    pub fn insert_char(&mut self, ch: char)
        requires
            old(self).can_insert(),
        ensures
            final(self).state() == old(self).typed(ch),
    {
        self.value.insert(self.cursor, ch);
        self.cursor += 1;
    }

    /// Deletes the character that starts one byte before the cursor.
    pub fn backspace(&mut self)
        requires
            old(self).can_backspace(),
        ensures
            final(self).state() == old(self).backspaced(),
    {
        if self.cursor == 0 {
            return;
        }
        self.cursor -= 1;
        let _ = self.value.remove(self.cursor);
    }

    /// Deletes the character that starts at the cursor.
    pub fn delete(&mut self)
        requires
            old(self).can_delete(),
        ensures
            final(self).state() == old(self).deleted(),
    {
        if self.cursor >= self.value.as_str().len() {
            return;
        }
        let _ = self.value.remove(self.cursor);
    }

    pub fn move_left(&mut self)
        ensures
            final(self).state() == old(self).left(),
    {
        if self.cursor > 0 {
            self.cursor -= 1;
        }
    }

    pub fn move_right(&mut self)
        ensures
            final(self).state() == old(self).right(),
    {
        if self.cursor < self.value.as_str().len() {
            self.cursor += 1;
        }
    }

    /// Puts the cursor at the start.
    pub fn move_home(&mut self)
        ensures
            final(self).state() == (old(self).bytes(), 0int),
    {
        self.cursor = 0;
    }

    /// Puts the cursor at the end.
    pub fn move_end(&mut self)
        ensures
            final(self).state() == (old(self).bytes(), old(self).len() as int),
    {
        self.cursor = self.value.as_str().len();
    }

    /// Whether the input takes the key `key`.
    pub fn takes(&self, key: &Input) -> (r: bool)
        ensures
            r == self.accepts(*key),
    {
        if key.ctrl || key.alt {
            return true;
        }
        let len = self.value.as_str().len();
        match key.key {
            Key::Char(_) => self.cursor <= len && self.cursor < usize::MAX
                && self.value.as_str().is_char_boundary(self.cursor),
            Key::Backspace => self.cursor == 0 || (self.cursor - 1 < len
                && self.value.as_str().is_char_boundary(self.cursor - 1)),
            Key::Delete => self.cursor >= len || self.value.as_str().is_char_boundary(self.cursor),
            _ => true,
        }
    }
}

/// Typing a character of one byte and then Backspace leaves the value and
/// the cursor as they were.
pub proof fn lemma_insert_then_backspace(bytes: Seq<u8>, cursor: int, ch: char)
    requires
        0 <= cursor <= bytes.len(),
        ch <= '\u{7f}',
    ensures
        ({
            let typed = typed_at(bytes, cursor, ch);
            backspaced_at(typed.0, typed.1) == (bytes, cursor)
        }),
{
    let c = ch as u32;
    let b = leading_byte_width_1(c);
    assert(b <= 0x7f) by (bit_vector)
        requires
            b == (c & 0x7F) as u8,
    ;
    let typed = typed_at(bytes, cursor, ch);
    assert(typed.0 =~= bytes.subrange(0, cursor) + seq![b] + bytes.subrange(
        cursor,
        bytes.len() as int,
    ));
    let rest = typed.0.subrange(cursor, typed.0.len() as int);
    assert(rest[0] == b);
    assert(pop_first_scalar(rest) =~= bytes.subrange(cursor, bytes.len() as int));
    assert(typed.0.subrange(0, cursor) =~= bytes.subrange(0, cursor));
    assert(without_char(typed.0, cursor) =~= bytes);
}

/// In a value of ASCII characters a byte is a character: every offset
/// within the value is a character boundary, and a character of one byte
/// typed at the cursor stands at that index of the value.
pub proof fn lemma_ascii_typed(value: Seq<char>, cursor: int, ch: char)
    requires
        is_ascii_chars(value),
        ch <= '\u{7f}',
        0 <= cursor <= value.len(),
    ensures
        encode_utf8(value).len() == value.len(),
        is_char_boundary(encode_utf8(value), cursor),
        typed_at(encode_utf8(value), cursor, ch) == (
            encode_utf8(value.insert(cursor, ch)),
            cursor + 1,
        ),
{
    let bytes = encode_utf8(value);
    is_ascii_chars_encode_utf8(value);
    encode_utf8_valid_utf8(value);
    if cursor < value.len() {
        assert(!is_continuation_byte(bytes[cursor])) by {
            assert(value[cursor] as u8 == bytes[cursor]);
        }
        is_char_boundary_iff_not_is_continuation_byte(bytes, cursor);
    } else {
        is_char_boundary_start_end_of_seq(bytes);
    }
    let after = value.insert(cursor, ch);
    assert(is_ascii_chars(after)) by {
        assert forall|i: int| 0 <= i < after.len() implies '\0' <= #[trigger] after[i] <= '\u{7f}' by {
            if i < cursor {
                assert(after[i] == value[i]);
            } else if i > cursor {
                assert(after[i] == value[i - 1]);
            }
        }
    }
    is_ascii_chars_encode_utf8(after);
    let c = ch as u32;
    assert(c as u8 == leading_byte_width_1(c)) by (bit_vector)
        requires
            has_width_1_encoding(c),
    ;
    let put = spliced(bytes, cursor, encode_scalar(c));
    assert(put.len() == after.len());
    assert forall|i: int| 0 <= i < put.len() implies put[i] == encode_utf8(after)[i] by {
        assert(after[i] as u8 == encode_utf8(after)[i]);
        if i < cursor {
            assert(value[i] as u8 == bytes[i]);
        } else if i > cursor {
            assert(value[i - 1] as u8 == bytes[i - 1]);
        }
    }
    assert(put =~= encode_utf8(after));
}

/// The drawing before a line of the sidebar tree: for each ancestor a bar,
/// or blanks where the ancestor was the last of its siblings, then the
/// branch to the line itself.
pub open spec fn tree_prefix(ancestors_last: Seq<bool>, is_last: bool) -> Seq<char>
    decreases ancestors_last.len(),
{
    if ancestors_last.len() == 0 {
        if is_last {
            "\u{2514}\u{2500} "@
        } else {
            "\u{251c}\u{2500} "@
        }
    } else {
        (if ancestors_last[0] {
            "  "@
        } else {
            "\u{2502} "@
        }) + tree_prefix(ancestors_last.drop_first(), is_last)
    }
}

pub fn sidebar_tree_prefix(ancestors_last: &Vec<bool>, is_last: bool) -> (prefix: String)
    ensures
        prefix@ == tree_prefix(ancestors_last@, is_last),
{
    let mut out: Vec<char> = Vec::new();
    let mut i: usize = 0;
    proof {
        assert(ancestors_last@.subrange(0, ancestors_last@.len() as int) =~= ancestors_last@);
    }
    while i < ancestors_last.len()
        invariant
            i <= ancestors_last.len(),
            out@ + tree_prefix(
                ancestors_last@.subrange(i as int, ancestors_last@.len() as int),
                is_last,
            ) == tree_prefix(ancestors_last@, is_last),
        decreases ancestors_last.len() - i,
    {
        let ghost held = out@;
        let ghost rest = ancestors_last@.subrange(i as int, ancestors_last@.len() as int);
        proof {
            assert(rest.drop_first() =~= ancestors_last@.subrange(
                i + 1,
                ancestors_last@.len() as int,
            ));
            assert(rest[0] == ancestors_last@[i as int]);
        }
        if ancestors_last[i] {
            append_str(&mut out, "  ");
            proof {
                assert(out@ + tree_prefix(rest.drop_first(), is_last) =~= held + ("  "@
                    + tree_prefix(rest.drop_first(), is_last)));
            }
        } else {
            append_str(&mut out, "\u{2502} ");
            proof {
                assert(out@ + tree_prefix(rest.drop_first(), is_last) =~= held + ("\u{2502} "@
                    + tree_prefix(rest.drop_first(), is_last)));
            }
        }
        i += 1;
    }
    if is_last {
        append_str(&mut out, "\u{2514}\u{2500} ");
    } else {
        append_str(&mut out, "\u{251c}\u{2500} ");
    }
    from_chars(&out)
}

/// The parts of `parts` that are not empty.
pub open spec fn filled(parts: Seq<Seq<char>>) -> Seq<Seq<char>>
    decreases parts.len(),
{
    if parts.len() == 0 {
        Seq::empty()
    } else if parts.last().len() == 0 {
        filled(parts.drop_last())
    } else {
        filled(parts.drop_last()).push(parts.last())
    }
}

/// The names between the slashes of a path, without the blanks around the path.
pub open spec fn path_names(raw: Seq<char>) -> Seq<Seq<char>> {
    filled(split_on(trimmed(raw), '/'))
}

/// The folders that a path to add names: all its names where it ends in a
/// slash, all but the last where it does not.
pub open spec fn path_folders(raw: Seq<char>) -> Seq<Seq<char>> {
    let names = path_names(raw);
    let t = trimmed(raw);
    if names.len() == 0 {
        Seq::empty()
    } else if t.last() == '/' {
        names
    } else {
        names.drop_last()
    }
}

/// The request that a path to add names: its last name, unless it ends in a
/// slash or names nothing.
pub open spec fn path_request(raw: Seq<char>) -> Option<Seq<char>> {
    let names = path_names(raw);
    let t = trimmed(raw);
    if names.len() == 0 || t.last() == '/' {
        None
    } else {
        Some(names.last())
    }
}

/// Reads what was typed into the add popup: folders to go through or make,
/// and the request to make in the last of them, if any.
pub fn parse_add_path(raw: &str) -> (r: (Vec<String>, Option<String>))
    ensures
        strings_view(r.0@) == path_folders(raw@),
        match r.1 {
            Some(name) => path_request(raw@) == Some(name@),
            None => path_request(raw@) is None,
        },
{
    let chars = to_chars(raw);
    let t = trim(&chars);
    let parts = split(&t, '/');
    let trailing = t.len() > 0 && t[t.len() - 1] == '/';
    let mut names: Vec<String> = Vec::new();
    let mut i: usize = 0;
    proof {
        assert(texts_view(parts@).take(0) =~= Seq::<Seq<char>>::empty());
        assert(strings_view(names@) =~= Seq::<Seq<char>>::empty());
    }
    while i < parts.len()
        invariant
            i <= parts.len(),
            strings_view(names@) == filled(texts_view(parts@).take(i as int)),
        decreases parts.len() - i,
    {
        proof {
            let next = texts_view(parts@).take(i + 1);
            assert(next.drop_last() =~= texts_view(parts@).take(i as int));
            assert(next.last() == parts@[i as int]@);
        }
        if parts[i].len() > 0 {
            let ghost held = strings_view(names@);
            let name = from_chars(&parts[i]);
            names.push(name);
            proof {
                assert(strings_view(names@) =~= held.push(parts@[i as int]@));
            }
        }
        i += 1;
    }
    proof {
        assert(texts_view(parts@).take(i as int) =~= texts_view(parts@));
        if t@.len() == 0 {
            assert(split_on(t@, '/') =~= seq![Seq::<char>::empty()]);
            assert(seq![Seq::<char>::empty()].drop_last() =~= Seq::<Seq<char>>::empty());
            assert(filled(split_on(t@, '/')) =~= Seq::<Seq<char>>::empty());
        }
    }
    if names.len() == 0 {
        return (names, None);
    }
    if trailing {
        (names, None)
    } else {
        let ghost all = strings_view(names@);
        let request = names.pop();
        proof {
            assert(strings_view(names@) =~= all.drop_last());
        }
        (names, request)
    }
}

/// Whether the headers name a JSON content type: a `content-type` header,
/// in any case, whose value holds `application/json` in any case.
pub open spec fn has_json_header(headers: Seq<(String, String)>) -> bool {
    exists|i: int|
        0 <= i < headers.len() && ascii_lowered((#[trigger] headers[i]).0@) == "content-type"@
            && contains_text(ascii_lowered(headers[i].1@), "application/json"@)
}

/// Whether a text looks like a JSON document: without the blanks around it,
/// it starts and ends with braces, or with brackets.
pub open spec fn looks_like_json(body: Seq<char>) -> bool {
    let t = trimmed(body);
    t.len() > 0 && ((t[0] == '{' && t.last() == '}') || (t[0] == '[' && t.last() == ']'))
}

/// Whether a response is to be shown as JSON.
pub fn is_json_like(headers: &Vec<(String, String)>, body: &str) -> (r: bool)
    ensures
        r == (has_json_header(headers@) || looks_like_json(body@)),
{
    let name = to_chars("content-type");
    let wanted = to_chars("application/json");
    let mut i: usize = 0;
    while i < headers.len()
        invariant
            i <= headers.len(),
            name@ == "content-type"@,
            wanted@ == "application/json"@,
            forall|k: int|
                0 <= k < i ==> !(ascii_lowered((#[trigger] headers@[k]).0@) == "content-type"@
                    && contains_text(ascii_lowered(headers@[k].1@), "application/json"@)),
        decreases headers.len() - i,
    {
        let key = to_ascii_lower(&to_chars(headers[i].0.as_str()));
        if same_chars(&key, &name) {
            let value = to_ascii_lower(&to_chars(headers[i].1.as_str()));
            if contains(&value, &wanted) {
                return true;
            }
        }
        i += 1;
    }
    let chars = to_chars(body);
    let t = trim(&chars);
    if t.len() == 0 {
        return false;
    }
    let first = t[0];
    let last = t[t.len() - 1];
    (first == '{' && last == '}') || (first == '[' && last == ']')
}

/// A name that the method popup takes for a custom method: without the
/// blanks around it, it is not empty, all ASCII and free of whitespace.
pub open spec fn acceptable_method(input: Seq<char>) -> bool {
    let t = trimmed(input);
    &&& t.len() > 0
    &&& forall|i: int| 0 <= i < t.len() ==> (#[trigger] t[i]) <= '\x7f' && !crate::text::is_whitespace_char(t[i])
}

/// The custom method that the popup's input names, in ASCII uppercase; none
/// where the input is not acceptable.
pub fn custom_method(input: &str) -> (m: Option<String>)
    ensures
        m is Some <==> acceptable_method(input@),
        m is Some ==> m->0@ == crate::text::ascii_uppered(trimmed(input@)),
{
    let chars = to_chars(input);
    let t = trim(&chars);
    if t.len() == 0 {
        return None;
    }
    let mut upper: Vec<char> = Vec::new();
    let mut i: usize = 0;
    while i < t.len()
        invariant
            i <= t.len(),
            t@ == trimmed(input@),
            upper@ == crate::text::ascii_uppered(t@.take(i as int)),
            forall|k: int|
                0 <= k < i ==> (#[trigger] t@[k]) <= '\x7f' && !crate::text::is_whitespace_char(t@[k]),
        decreases t.len() - i,
    {
        let c = t[i];
        if c > '\x7f' || c.is_whitespace() {
            return None;
        }
        upper.push(c.to_ascii_uppercase());
        i += 1;
        proof {
            assert(upper@ =~= crate::text::ascii_uppered(t@.take(i as int)));
        }
    }
    proof {
        assert(t@.take(i as int) =~= t@);
    }
    Some(from_chars(&upper))
}

/// What a key does to a text input: a character is typed, Backspace and
/// Delete delete, the arrows, Home and End move; a key with Ctrl or Alt and
/// any other key do nothing.
pub fn handle_text_input(input: &mut TextInput, key: Input)
    requires
        old(input).accepts(key),
    ensures
        final(input).state() == old(input).keyed(key),
{
    if key.ctrl || key.alt {
        return;
    }
    match key.key {
        Key::Char(ch) => input.insert_char(ch),
        Key::Backspace => input.backspace(),
        Key::Delete => input.delete(),
        Key::Left => input.move_left(),
        Key::Right => input.move_right(),
        Key::Home => input.move_home(),
        Key::End => input.move_end(),
        _ => {},
    }
}

/// The text of a JSON document in the indented form; `None` for a text
/// that is no JSON document. The name stands for two steps taken one after
/// the other: the text is read as a JSON value, and that value is written
/// out in the indented form.
pub uninterp spec fn pretty_json(text: Seq<char>) -> Option<Seq<char>>;

/// An optional text as characters.
pub open spec fn option_text(s: Option<String>) -> Option<Seq<char>> {
    match s {
        Some(s) => Some(s@),
        None => None,
    }
}

/// `serde_json::from_str` into a value and `serde_json::to_string_pretty`
/// of that value: the document in the indented form. The result is named
/// as the composition of the two calls; it is `None` where the first
/// refuses the text, and also where the second should refuse the value.
#[verifier::external_body]
fn raw_pretty_json(body: &str) -> (r: Option<String>)
    ensures
        option_text(r) == pretty_json(body@),
{
    match serde_json::from_str::<serde_json::Value>(body) {
        Ok(value) => serde_json::to_string_pretty(&value).ok(),
        Err(_) => None,
    }
}

/// The body to show: the indented form where there is one, the body as it
/// came otherwise.
pub fn shown_body(pretty: Option<String>, body: &str) -> (r: String)
    ensures
        r@ == match pretty {
            Some(p) => p@,
            None => body@,
        },
{
    match pretty {
        Some(p) => p,
        None => from_chars(&to_chars(body)),
    }
}

/// The body of a response as the response panel shows it: indented where
/// the response is to be shown as JSON and is a JSON document.
pub fn format_json_if_possible(headers: &Vec<(String, String)>, body: &str) -> (r: String)
    ensures
        r@ == if (has_json_header(headers@) || looks_like_json(body@)) && pretty_json(body@) is Some {
            pretty_json(body@)->0
        } else {
            body@
        },
{
    if !is_json_like(headers, body) {
        return shown_body(None, body);
    }
    shown_body(raw_pretty_json(body), body)
}

/// What Enter does on a field of the auth tab.
#[derive(Debug, Clone, Copy, PartialEq, Eq, Structural)]
pub enum AuthEnter {
    /// Open the popup of the auth kinds.
    OpenTypePopup,
    /// Change where the API key goes.
    ToggleLocation,
    /// Edit the field.
    Edit,
}

/// What Enter does on the auth field `field`.
pub fn handle_auth_enter(field: AuthField) -> (r: AuthEnter)
    ensures
        r == match field {
            AuthField::AuthType => AuthEnter::OpenTypePopup,
            AuthField::KeyLocation => AuthEnter::ToggleLocation,
            _ => AuthEnter::Edit,
        },
        r == AuthEnter::Edit <==> field.is_text_spec(),
{
    match field {
        AuthField::AuthType => AuthEnter::OpenTypePopup,
        AuthField::KeyLocation => AuthEnter::ToggleLocation,
        _ => AuthEnter::Edit,
    }
}

/// The request that the request panel holds, as the collection keeps it:
/// the method by name, the URL as text, the headers read from their text,
/// and the body unless it is blank.
pub fn build_postman_request(method: &Method, url: String, headers: &str, body: String) -> (r:
    crate::storage::postman::PostmanRequest)
    ensures
        r.method@ == method.name(),
        r.url == crate::storage::postman::PostmanUrl::Raw(url),
        r.auth is None,
        crate::storage::collection::headers_view(r.header@) == crate::storage::collection::headers_of(
            crate::text::lines_of(headers@),
        ),
        if is_blank(body@) {
            r.body is None
        } else {
            r.body is Some && r.body->0.is_raw(body@, None)
        },
{
    let name = from_chars(&to_chars(method.as_str()));
    let list = crate::storage::collection::parse_headers(headers);
    crate::storage::postman::PostmanRequest::new(name, url, list, Some(body))
}

} // verus!
