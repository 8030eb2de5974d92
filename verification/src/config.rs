//! The configuration: defaults, layering of partial files over them, and
//! validation.
use crate::text::{
    append_chars, append_str, decimal, digits_of, from_chars, slice_chars, strings_view, to_chars,
};
use std::path::Path;
use vstd::prelude::*;

verus! {

#[derive(Debug, Clone)]
pub struct HttpConfig {
    /// Timeout in seconds. 0 = no timeout.
    pub timeout: u64,
    pub follow_redirects: bool,
    pub max_redirects: u32,
}

#[derive(Debug, Clone)]
pub struct ProxyConfig {
    pub url: Option<String>,
    pub no_proxy: Option<String>,
}

#[derive(Debug, Clone)]
pub struct SslConfig {
    pub verify: bool,
    pub ca_cert: Option<String>,
    pub client_cert: Option<String>,
    pub client_key: Option<String>,
}

#[derive(Debug, Clone)]
pub struct UiConfig {
    pub sidebar_width: u16,
}

#[derive(Debug, Clone)]
pub struct EditorConfig {
    pub tab_size: u8,
}

#[derive(Debug, Clone)]
pub struct Config {
    pub http: HttpConfig,
    pub proxy: ProxyConfig,
    pub ssl: SslConfig,
    pub ui: UiConfig,
    pub editor: EditorConfig,
}

impl Default for HttpConfig {
    fn default() -> (c: HttpConfig)
        ensures
            c.timeout == 30,
            c.follow_redirects,
            c.max_redirects == 10,
    {
        HttpConfig { timeout: 30, follow_redirects: true, max_redirects: 10 }
    }
}

impl Default for ProxyConfig {
    fn default() -> (c: ProxyConfig)
        ensures
            c.url is None,
            c.no_proxy is None,
    {
        ProxyConfig { url: None, no_proxy: None }
    }
}

impl Default for SslConfig {
    fn default() -> (c: SslConfig)
        ensures
            c.verify,
            c.ca_cert is None,
            c.client_cert is None,
            c.client_key is None,
    {
        SslConfig { verify: true, ca_cert: None, client_cert: None, client_key: None }
    }
}

impl Default for UiConfig {
    fn default() -> (c: UiConfig)
        ensures
            c.sidebar_width == 32,
    {
        UiConfig { sidebar_width: 32 }
    }
}

impl Default for EditorConfig {
    fn default() -> (c: EditorConfig)
        ensures
            c.tab_size == 2,
    {
        EditorConfig { tab_size: 2 }
    }
}

impl Default for Config {
    fn default() -> (c: Config)
        ensures
            c.is_default(),
    {
        Config {
            http: HttpConfig::default(),
            proxy: ProxyConfig::default(),
            ssl: SslConfig::default(),
            ui: UiConfig::default(),
            editor: EditorConfig::default(),
        }
    }
}

/// The part of a configuration that one file states: what it leaves out is
/// `None`.
#[derive(Debug, Clone)]
pub struct OverlayHttpConfig {
    pub timeout: Option<u64>,
    pub follow_redirects: Option<bool>,
    pub max_redirects: Option<u32>,
}

#[derive(Debug, Clone)]
pub struct OverlayProxyConfig {
    pub url: Option<String>,
    pub no_proxy: Option<String>,
}

#[derive(Debug, Clone)]
pub struct OverlaySslConfig {
    pub verify: Option<bool>,
    pub ca_cert: Option<String>,
    pub client_cert: Option<String>,
    pub client_key: Option<String>,
}

#[derive(Debug, Clone)]
pub struct OverlayUiConfig {
    pub sidebar_width: Option<u16>,
}

#[derive(Debug, Clone)]
pub struct OverlayEditorConfig {
    pub tab_size: Option<u8>,
}

#[derive(Debug, Clone)]
pub struct OverlayConfig {
    pub http: OverlayHttpConfig,
    pub proxy: OverlayProxyConfig,
    pub ssl: OverlaySslConfig,
    pub ui: OverlayUiConfig,
    pub editor: OverlayEditorConfig,
}

impl OverlayConfig {
    /// The overlay states nothing.
    pub open spec fn is_empty(self) -> bool {
        &&& self.http.timeout is None
        &&& self.http.follow_redirects is None
        &&& self.http.max_redirects is None
        &&& self.proxy.url is None
        &&& self.proxy.no_proxy is None
        &&& self.ssl.verify is None
        &&& self.ssl.ca_cert is None
        &&& self.ssl.client_cert is None
        &&& self.ssl.client_key is None
        &&& self.ui.sidebar_width is None
        &&& self.editor.tab_size is None
    }
}

impl Default for OverlayConfig {
    fn default() -> (o: OverlayConfig)
        ensures
            o.is_empty(),
    {
        OverlayConfig {
            http: OverlayHttpConfig { timeout: None, follow_redirects: None, max_redirects: None },
            proxy: OverlayProxyConfig { url: None, no_proxy: None },
            ssl: OverlaySslConfig { verify: None, ca_cert: None, client_cert: None, client_key: None },
            ui: OverlayUiConfig { sidebar_width: None },
            editor: OverlayEditorConfig { tab_size: None },
        }
    }
}

/// `over` where it says something, `base` where it does not.
pub open spec fn pick<T>(base: T, over: Option<T>) -> T {
    match over {
        Some(v) => v,
        None => base,
    }
}

/// `over` where it says something, `base` where it does not.
pub open spec fn pick_option<T>(base: Option<T>, over: Option<T>) -> Option<T> {
    match over {
        Some(v) => Some(v),
        None => base,
    }
}

/// Whether `url` parses as an absolute URL.
pub uninterp spec fn is_url(url: Seq<char>) -> bool;

/// `base` extended by the relative path `rest`, as the platform joins paths.
pub uninterp spec fn path_join(base: Seq<char>, rest: Seq<char>) -> Seq<char>;

/// `reqwest::Url::parse`: whether the text is accepted as a URL.
#[verifier::external_body]
fn url_parses(url: &str) -> (ok: bool)
    ensures
        ok == is_url(url@),
{
    reqwest::Url::parse(url).is_ok()
}

/// `Path::join`: the path `base` with `rest` appended, as text.
#[verifier::external_body]
pub(crate) fn join_path(base: &str, rest: &str) -> (joined: String)
    ensures
        joined@ == path_join(base@, rest@),
{
    Path::new(base).join(rest).to_string_lossy().into_owned()
}

/// `path` with a leading `~` replaced by the home directory, where one is
/// known; the slash behind the `~` goes with it.
pub open spec fn tilde_expanded(path: Seq<char>, home: Option<Seq<char>>) -> Seq<char> {
    if path.len() > 0 && path[0] == '~' && home is Some {
        let rest = path.drop_first();
        if rest.len() > 0 && rest[0] == '/' {
            path_join(home->0, rest.drop_first())
        } else {
            path_join(home->0, rest)
        }
    } else {
        path
    }
}

/// An optional text as its characters.
pub open spec fn text_view(s: Option<String>) -> Option<Seq<char>> {
    match s {
        Some(s) => Some(s@),
        None => None,
    }
}

/// An optional borrowed text as its characters.
pub open spec fn str_view(s: Option<&str>) -> Option<Seq<char>> {
    match s {
        Some(s) => Some(s@),
        None => None,
    }
}

pub fn expand_tilde(path: &str, home: Option<&str>) -> (r: String)
    ensures
        r@ == tilde_expanded(path@, str_view(home)),
{
    let chars = to_chars(path);
    match home {
        Some(home) => {
            if chars.len() > 0 && chars[0] == '~' {
                let from: usize = if chars.len() > 1 && chars[1] == '/' {
                    2
                } else {
                    1
                };
                let rest = slice_chars(&chars, from, chars.len());
                proof {
                    let tail = chars@.drop_first();
                    if from == 2 {
                        assert(rest@ =~= tail.drop_first());
                    } else {
                        assert(rest@ =~= tail);
                    }
                }
                let rest_text = from_chars(&rest);
                return join_path(home, rest_text.as_str());
            }
        },
        None => {},
    }
    from_chars(&chars)
}

/// Whether the files that the configuration names are there.
#[derive(Debug, Clone, Copy, PartialEq, Eq, Structural)]
pub struct PathFacts {
    pub ca_cert_exists: bool,
    pub client_cert_exists: bool,
    pub client_key_exists: bool,
}

#[derive(Debug, Clone)]
pub struct ConfigError {
    pub messages: Vec<String>,
}

/// The complaint about a number out of its range.
pub open spec fn range_message(field: Seq<char>, value: nat, range: Seq<char>) -> Seq<char> {
    "config error: "@ + field + " = "@ + digits_of(value) + " is out of range ("@ + range + ")"@
}

/// The complaint about a proxy URL that does not parse.
pub open spec fn url_message(url: Seq<char>) -> Seq<char> {
    "config error: proxy.url = \""@ + url + "\" is not a valid URL"@
}

/// The complaint about a file that is not there.
pub open spec fn missing_message(field: Seq<char>, path: Seq<char>) -> Seq<char> {
    "config error: "@ + field + " = \""@ + path + "\" \u{2014} file not found"@
}

/// The complaint about a client certificate without its key, or a key
/// without its certificate.
pub open spec fn pair_message() -> Seq<char> {
    "config error: ssl.client_cert and ssl.client_key must both be set or both be unset"@
}

/// `list` with `message` behind it where `when` holds.
pub open spec fn noted(list: Seq<Seq<char>>, when: bool, message: Seq<char>) -> Seq<Seq<char>> {
    if when {
        list.push(message)
    } else {
        list
    }
}

impl Config {
    /// Every setting has its default value.
    pub open spec fn is_default(self) -> bool {
        &&& self.http.timeout == 30
        &&& self.http.follow_redirects
        &&& self.http.max_redirects == 10
        &&& self.proxy.url is None
        &&& self.proxy.no_proxy is None
        &&& self.ssl.verify
        &&& self.ssl.ca_cert is None
        &&& self.ssl.client_cert is None
        &&& self.ssl.client_key is None
        &&& self.ui.sidebar_width == 32
        &&& self.editor.tab_size == 2
    }

    /// `merged` is this configuration with `overlay` laid over it: each
    /// setting that the overlay states replaces the one below.
    pub open spec fn merged_is(self, overlay: OverlayConfig, merged: Config) -> bool {
        &&& merged.http.timeout == pick(self.http.timeout, overlay.http.timeout)
        &&& merged.http.follow_redirects == pick(
            self.http.follow_redirects,
            overlay.http.follow_redirects,
        )
        &&& merged.http.max_redirects == pick(self.http.max_redirects, overlay.http.max_redirects)
        &&& merged.proxy.url == pick_option(self.proxy.url, overlay.proxy.url)
        &&& merged.proxy.no_proxy == pick_option(self.proxy.no_proxy, overlay.proxy.no_proxy)
        &&& merged.ssl.verify == pick(self.ssl.verify, overlay.ssl.verify)
        &&& merged.ssl.ca_cert == pick_option(self.ssl.ca_cert, overlay.ssl.ca_cert)
        &&& merged.ssl.client_cert == pick_option(self.ssl.client_cert, overlay.ssl.client_cert)
        &&& merged.ssl.client_key == pick_option(self.ssl.client_key, overlay.ssl.client_key)
        &&& merged.ui.sidebar_width == pick(self.ui.sidebar_width, overlay.ui.sidebar_width)
        &&& merged.editor.tab_size == pick(self.editor.tab_size, overlay.editor.tab_size)
    }

    /// `merged` is this configuration with `overlay` laid over it, where
    /// there is one.
    pub open spec fn laid_is(self, overlay: Option<OverlayConfig>, merged: Config) -> bool {
        match overlay {
            Some(o) => self.merged_is(o, merged),
            None => merged == self,
        }
    }

    /// Apply overlay values over self. Only `Some` fields are overridden.
    pub fn merge(self, overlay: OverlayConfig) -> (merged: Config)
        ensures
            self.merged_is(overlay, merged),
            overlay.is_empty() ==> merged == self,
    {
        let mut merged = self;
        if let Some(v) = overlay.http.timeout {
            merged.http.timeout = v;
        }
        if let Some(v) = overlay.http.follow_redirects {
            merged.http.follow_redirects = v;
        }
        if let Some(v) = overlay.http.max_redirects {
            merged.http.max_redirects = v;
        }
        if let Some(v) = overlay.proxy.url {
            merged.proxy.url = Some(v);
        }
        if let Some(v) = overlay.proxy.no_proxy {
            merged.proxy.no_proxy = Some(v);
        }
        if let Some(v) = overlay.ssl.verify {
            merged.ssl.verify = v;
        }
        if let Some(v) = overlay.ssl.ca_cert {
            merged.ssl.ca_cert = Some(v);
        }
        if let Some(v) = overlay.ssl.client_cert {
            merged.ssl.client_cert = Some(v);
        }
        if let Some(v) = overlay.ssl.client_key {
            merged.ssl.client_key = Some(v);
        }
        if let Some(v) = overlay.ui.sidebar_width {
            merged.ui.sidebar_width = v;
        }
        if let Some(v) = overlay.editor.tab_size {
            merged.editor.tab_size = v;
        }
        merged
    }

    /// `expanded` is this configuration with the tilde of each path expanded.
    pub open spec fn expanded_is(self, home: Option<Seq<char>>, expanded: Config) -> bool {
        &&& expanded.http == self.http
        &&& expanded.proxy == self.proxy
        &&& expanded.ui == self.ui
        &&& expanded.editor == self.editor
        &&& expanded.ssl.verify == self.ssl.verify
        &&& text_view(expanded.ssl.ca_cert) == expanded_path(self.ssl.ca_cert, home)
        &&& text_view(expanded.ssl.client_cert) == expanded_path(self.ssl.client_cert, home)
        &&& text_view(expanded.ssl.client_key) == expanded_path(self.ssl.client_key, home)
    }

    /// Expand tilde in all path fields. Called after merging, before validation.
    pub fn expand_paths(&mut self, home: Option<&str>)
        ensures
            old(self).expanded_is(str_view(home), *final(self)),
    {
        let ca_cert = match &self.ssl.ca_cert {
            Some(path) => Some(expand_tilde(path.as_str(), home)),
            None => None,
        };
        let client_cert = match &self.ssl.client_cert {
            Some(path) => Some(expand_tilde(path.as_str(), home)),
            None => None,
        };
        let client_key = match &self.ssl.client_key {
            Some(path) => Some(expand_tilde(path.as_str(), home)),
            None => None,
        };
        self.ssl.ca_cert = ca_cert;
        self.ssl.client_cert = client_cert;
        self.ssl.client_key = client_key;
    }

    /// What is wrong with the configuration, in the order in which it is
    /// checked: the numbers' ranges, the proxy URL, the three files, and the
    /// pairing of client certificate and key.
    pub open spec fn problems(self, home: Option<Seq<char>>, facts: PathFacts) -> Seq<Seq<char>> {
        let a = noted(
            Seq::empty(),
            self.http.timeout > 600,
            range_message("http.timeout"@, self.http.timeout as nat, "0..=600"@),
        );
        let b = noted(
            a,
            self.http.max_redirects > 100,
            range_message("http.max_redirects"@, self.http.max_redirects as nat, "0..=100"@),
        );
        let c = noted(
            b,
            !(28 <= self.ui.sidebar_width <= 60),
            range_message("ui.sidebar_width"@, self.ui.sidebar_width as nat, "28..=60"@),
        );
        let d = noted(
            c,
            !(1 <= self.editor.tab_size <= 8),
            range_message("editor.tab_size"@, self.editor.tab_size as nat, "1..=8"@),
        );
        let e = noted(
            d,
            self.proxy.url is Some && !is_url(self.proxy.url->0@),
            url_message(self.proxy.url->0@),
        );
        let f = noted(
            e,
            self.ssl.ca_cert is Some && !facts.ca_cert_exists,
            missing_message("ssl.ca_cert"@, tilde_expanded(self.ssl.ca_cert->0@, home)),
        );
        let g = noted(
            f,
            self.ssl.client_cert is Some && !facts.client_cert_exists,
            missing_message("ssl.client_cert"@, tilde_expanded(self.ssl.client_cert->0@, home)),
        );
        let h = noted(
            g,
            self.ssl.client_key is Some && !facts.client_key_exists,
            missing_message("ssl.client_key"@, tilde_expanded(self.ssl.client_key->0@, home)),
        );
        noted(h, self.ssl.client_cert is Some != self.ssl.client_key is Some, pair_message())
    }

    /// Checks the configuration. `facts` says which of the files it names
    /// (with their tilde expanded) are there. Gives every complaint, not
    /// only the first.
    pub fn validate(&self, home: Option<&str>, facts: &PathFacts) -> (r: Result<(), ConfigError>)
        ensures
            r is Ok <==> self.problems(str_view(home), *facts).len() == 0,
            r is Err ==> strings_view(r->Err_0.messages@) == self.problems(str_view(home), *facts),
    {
        let mut errors: Vec<String> = Vec::new();
        assert(strings_view(errors@) =~= Seq::<Seq<char>>::empty());
        if self.http.timeout > 600 {
            let message = range_text("http.timeout", self.http.timeout as u128, "0..=600");
            push_message(&mut errors, message);
        }
        if self.http.max_redirects > 100 {
            let message = range_text(
                "http.max_redirects",
                self.http.max_redirects as u128,
                "0..=100",
            );
            push_message(&mut errors, message);
        }
        if !(28 <= self.ui.sidebar_width && self.ui.sidebar_width <= 60) {
            let message = range_text("ui.sidebar_width", self.ui.sidebar_width as u128, "28..=60");
            push_message(&mut errors, message);
        }
        if !(1 <= self.editor.tab_size && self.editor.tab_size <= 8) {
            let message = range_text("editor.tab_size", self.editor.tab_size as u128, "1..=8");
            push_message(&mut errors, message);
        }
        match &self.proxy.url {
            Some(url) => {
                if !url_parses(url.as_str()) {
                    let mut m: Vec<char> = Vec::new();
                    append_str(&mut m, "config error: proxy.url = \"");
                    append_str(&mut m, url.as_str());
                    append_str(&mut m, "\" is not a valid URL");
                    push_message(&mut errors, from_chars(&m));
                }
            },
            None => {},
        }
        match &self.ssl.ca_cert {
            Some(path) => {
                if !facts.ca_cert_exists {
                    let message = missing_text("ssl.ca_cert", path.as_str(), home);
                    push_message(&mut errors, message);
                }
            },
            None => {},
        }
        match &self.ssl.client_cert {
            Some(path) => {
                if !facts.client_cert_exists {
                    let message = missing_text("ssl.client_cert", path.as_str(), home);
                    push_message(&mut errors, message);
                }
            },
            None => {},
        }
        match &self.ssl.client_key {
            Some(path) => {
                if !facts.client_key_exists {
                    let message = missing_text("ssl.client_key", path.as_str(), home);
                    push_message(&mut errors, message);
                }
            },
            None => {},
        }
        let has_cert = self.ssl.client_cert.is_some();
        let has_key = self.ssl.client_key.is_some();
        if has_cert != has_key {
            let mut m: Vec<char> = Vec::new();
            append_str(
                &mut m,
                "config error: ssl.client_cert and ssl.client_key must both be set or both be unset",
            );
            push_message(&mut errors, from_chars(&m));
        }
        if errors.len() == 0 {
            Ok(())
        } else {
            Err(ConfigError { messages: errors })
        }
    }
}

/// A path with its tilde expanded, where there is a path.
pub open spec fn expanded_path(path: Option<String>, home: Option<Seq<char>>) -> Option<Seq<char>> {
    match path {
        Some(p) => Some(tilde_expanded(p@, home)),
        None => None,
    }
}

/// Puts `message` behind `errors`.
fn push_message(errors: &mut Vec<String>, message: String)
    ensures
        strings_view(final(errors)@) == strings_view(old(errors)@).push(message@),
{
    errors.push(message);
    assert(strings_view(errors@) =~= strings_view(old(errors)@).push(message@));
}

/// The complaint about a number out of its range.
fn range_text(field: &str, value: u128, range: &str) -> (s: String)
    ensures
        s@ == range_message(field@, value as nat, range@),
{
    let mut m: Vec<char> = Vec::new();
    append_str(&mut m, "config error: ");
    append_str(&mut m, field);
    append_str(&mut m, " = ");
    let digits = decimal(value);
    append_chars(&mut m, &digits);
    append_str(&mut m, " is out of range (");
    append_str(&mut m, range);
    append_str(&mut m, ")");
    from_chars(&m)
}

/// The complaint about a file that is not there.
fn missing_text(field: &str, path: &str, home: Option<&str>) -> (s: String)
    ensures
        s@ == missing_message(field@, tilde_expanded(path@, str_view(home))),
{
    let expanded = expand_tilde(path, home);
    let mut m: Vec<char> = Vec::new();
    append_str(&mut m, "config error: ");
    append_str(&mut m, field);
    append_str(&mut m, " = \"");
    append_str(&mut m, expanded.as_str());
    append_str(&mut m, "\" \u{2014} file not found");
    from_chars(&m)
}

impl ConfigError {
    /// The messages, each followed by a line feed.
    pub open spec fn text_spec(messages: Seq<Seq<char>>) -> Seq<char>
        decreases messages.len(),
    {
        if messages.len() == 0 {
            Seq::empty()
        } else {
            Self::text_spec(messages.drop_last()) + messages.last() + seq!['\n']
        }
    }

    /// The messages, one to a line.
    pub fn to_text(&self) -> (s: String)
        ensures
            s@ == Self::text_spec(strings_view(self.messages@)),
    {
        let mut out: Vec<char> = Vec::new();
        let mut i: usize = 0;
        proof {
            assert(strings_view(self.messages@).take(0) =~= Seq::<Seq<char>>::empty());
        }
        while i < self.messages.len()
            invariant
                i <= self.messages.len(),
                out@ == Self::text_spec(strings_view(self.messages@).take(i as int)),
            decreases self.messages.len() - i,
        {
            proof {
                let next = strings_view(self.messages@).take(i + 1);
                assert(next.drop_last() =~= strings_view(self.messages@).take(i as int));
                assert(next.last() == self.messages@[i as int]@);
            }
            append_str(&mut out, self.messages[i].as_str());
            out.push('\n');
            i += 1;
        }
        proof {
            assert(strings_view(self.messages@).take(i as int) =~= strings_view(self.messages@));
        }
        from_chars(&out)
    }
}

/// The configuration that the layers give: the defaults, the global file
/// over them where there is one, the project's file over that, and the
/// tilde of each path expanded.
pub fn load_config(
    global: Option<OverlayConfig>,
    project: Option<OverlayConfig>,
    home: Option<&str>,
) -> (config: Config)
    ensures
        exists|base: Config, first: Config, second: Config|
            {
                &&& base.is_default()
                &&& #[trigger] base.laid_is(global, first)
                &&& #[trigger] first.laid_is(project, second)
                &&& second.expanded_is(str_view(home), config)
            },
{
    let base = Config::default();
    let ghost b = base;
    let first = match global {
        Some(overlay) => base.merge(overlay),
        None => base,
    };
    let ghost f = first;
    let mut config = match project {
        Some(overlay) => first.merge(overlay),
        None => first,
    };
    let ghost s = config;
    config.expand_paths(home);
    proof {
        assert(b.is_default() && s.expanded_is(str_view(home), config));
        assert(b.laid_is(global, f));
        assert(f.laid_is(project, s));
    }
    config
}

/// Laying the same overlay over a configuration twice gives what laying it
/// once gives.
pub proof fn lemma_merge_is_idempotent(
    base: Config,
    overlay: OverlayConfig,
    once: Config,
    twice: Config,
)
    requires
        base.merged_is(overlay, once),
        once.merged_is(overlay, twice),
    ensures
        twice.http == once.http,
        twice.proxy == once.proxy,
        twice.ssl == once.ssl,
        twice.ui == once.ui,
        twice.editor == once.editor,
{
}

/// The directory and the file of the configuration below a base directory.
pub open spec fn config_file_in(base: Seq<char>) -> Seq<char> {
    path_join(path_join(base, "perseus"@), "config.toml"@)
}

/// Where the global configuration file lies: below `$XDG_CONFIG_HOME` where
/// that is set and not blank, else below `.config` in the home directory,
/// if that is known and not blank.
pub open spec fn global_config_path_of(
    xdg_config_home: Option<Seq<char>>,
    home: Option<Seq<char>>,
) -> Option<Seq<char>> {
    if xdg_config_home is Some && !crate::text::is_blank(xdg_config_home->0) {
        Some(config_file_in(xdg_config_home->0))
    } else if home is Some && !crate::text::is_blank(home->0) {
        Some(config_file_in(path_join(home->0, ".config"@)))
    } else {
        None
    }
}

pub fn global_config_path(xdg_config_home: Option<&str>, home: Option<&str>) -> (r: Option<String>)
    ensures
        text_view(r) == global_config_path_of(str_view(xdg_config_home), str_view(home)),
{
    match xdg_config_home {
        Some(dir) => {
            if !crate::text::blank(&to_chars(dir)) {
                let base = join_path(dir, "perseus");
                return Some(join_path(base.as_str(), "config.toml"));
            }
        },
        None => {},
    }
    match home {
        Some(home) => {
            if crate::text::blank(&to_chars(home)) {
                return None;
            }
            let dot = join_path(home, ".config");
            let base = join_path(dot.as_str(), "perseus");
            Some(join_path(base.as_str(), "config.toml"))
        },
        None => None,
    }
}

/// Where the configuration file of the project at `root` lies.
pub fn project_config_path(root: &str) -> (r: String)
    ensures
        r@ == path_join(path_join(root@, ".perseus"@), "config.toml"@),
{
    let dir = join_path(root, ".perseus");
    join_path(dir.as_str(), "config.toml")
}

} // verus!
