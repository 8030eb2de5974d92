//! The collection document: projects, folders and requests in the shape of
//! a Postman collection, as plain values.
use crate::text::{blank, is_blank, to_chars};
use uuid::Uuid;
use vstd::prelude::*;
use vstd::string::StringExecFns;

verus! {

/// The schema that every collection names.
pub open spec fn schema_url() -> Seq<char> {
    "https://schema.getpostman.com/json/collection/v2.1.0/collection.json"@
}

#[derive(Debug, Clone)]
pub struct PostmanInfo {
    pub name: String,
    pub postman_id: String,
    pub schema: String,
}

#[derive(Debug, Clone)]
pub struct PostmanHeader {
    pub key: String,
    pub value: String,
    pub disabled: Option<bool>,
}

#[derive(Debug, Clone)]
pub struct PostmanRawLanguage {
    pub language: String,
}

#[derive(Debug, Clone)]
pub struct PostmanBodyOptions {
    pub raw: Option<PostmanRawLanguage>,
}

#[derive(Debug, Clone)]
pub struct PostmanKvPair {
    pub key: String,
    pub value: String,
    pub disabled: Option<bool>,
}

#[derive(Debug, Clone)]
pub struct PostmanFormParam {
    pub key: String,
    pub value: Option<String>,
    pub src: Option<String>,
    pub param_type: String,
    pub disabled: Option<bool>,
}

#[derive(Debug, Clone)]
pub struct PostmanFileRef {
    pub src: Option<String>,
}

#[derive(Debug, Clone)]
pub struct PostmanBody {
    pub mode: String,
    pub raw: Option<String>,
    pub options: Option<PostmanBodyOptions>,
    pub urlencoded: Option<Vec<PostmanKvPair>>,
    pub formdata: Option<Vec<PostmanFormParam>>,
    pub file: Option<PostmanFileRef>,
}

/// The type of a form parameter that names none.
pub fn default_form_type() -> (s: String)
    ensures
        s@ == "text"@,
{
    String::from_str("text")
}

impl PostmanBody {
    /// The body holds raw text and nothing else, in language `language` if
    /// one is given.
    pub open spec fn is_raw(self, text: Seq<char>, language: Option<Seq<char>>) -> bool {
        &&& self.mode@ == "raw"@
        &&& self.raw is Some
        &&& self.raw->0@ == text
        &&& match language {
            None => self.options is None,
            Some(l) => self.options is Some && self.options->0.raw is Some
                && self.options->0.raw->0.language@ == l,
        }
        &&& self.urlencoded is None
        &&& self.formdata is None
        &&& self.file is None
    }

    pub fn raw(text: &str) -> (b: PostmanBody)
        ensures
            b.is_raw(text@, None),
    {
        PostmanBody {
            mode: String::from_str("raw"),
            raw: Some(String::from_str(text)),
            options: None,
            urlencoded: None,
            formdata: None,
            file: None,
        }
    }

    pub fn json(text: &str) -> (b: PostmanBody)
        ensures
            b.is_raw(text@, Some("json"@)),
    {
        PostmanBody {
            mode: String::from_str("raw"),
            raw: Some(String::from_str(text)),
            options: Some(
                PostmanBodyOptions { raw: Some(PostmanRawLanguage { language: String::from_str("json") }) },
            ),
            urlencoded: None,
            formdata: None,
            file: None,
        }
    }

    pub fn xml(text: &str) -> (b: PostmanBody)
        ensures
            b.is_raw(text@, Some("xml"@)),
    {
        PostmanBody {
            mode: String::from_str("raw"),
            raw: Some(String::from_str(text)),
            options: Some(
                PostmanBodyOptions { raw: Some(PostmanRawLanguage { language: String::from_str("xml") }) },
            ),
            urlencoded: None,
            formdata: None,
            file: None,
        }
    }

    pub fn urlencoded(pairs: Vec<PostmanKvPair>) -> (b: PostmanBody)
        ensures
            b.mode@ == "urlencoded"@,
            b.urlencoded == Some(pairs),
            b.raw is None,
            b.options is None,
            b.formdata is None,
            b.file is None,
    {
        PostmanBody {
            mode: String::from_str("urlencoded"),
            raw: None,
            options: None,
            urlencoded: Some(pairs),
            formdata: None,
            file: None,
        }
    }

    pub fn formdata(params: Vec<PostmanFormParam>) -> (b: PostmanBody)
        ensures
            b.mode@ == "formdata"@,
            b.formdata == Some(params),
            b.raw is None,
            b.options is None,
            b.urlencoded is None,
            b.file is None,
    {
        PostmanBody {
            mode: String::from_str("formdata"),
            raw: None,
            options: None,
            urlencoded: None,
            formdata: Some(params),
            file: None,
        }
    }

    pub fn file(path: &str) -> (b: PostmanBody)
        ensures
            b.mode@ == "file"@,
            b.file is Some,
            b.file->0.src is Some,
            b.file->0.src->0@ == path@,
            b.raw is None,
            b.options is None,
            b.urlencoded is None,
            b.formdata is None,
    {
        PostmanBody {
            mode: String::from_str("file"),
            raw: None,
            options: None,
            urlencoded: None,
            formdata: None,
            file: Some(PostmanFileRef { src: Some(String::from_str(path)) }),
        }
    }
}

/// The 128 bits of the UUID that a text spells, in any of the forms that
/// the `uuid` crate reads; `None` where it spells none.
pub uninterp spec fn uuid_value(text: Seq<char>) -> Option<u128>;

/// The text of a UUID in the hyphenated lowercase form.
pub uninterp spec fn uuid_text(id: u128) -> Seq<char>;

/// `Uuid::parse_str`: the UUID that the text spells, as its 128 bits.
#[verifier::external_body]
pub(crate) fn raw_parse_uuid(value: &str) -> (r: Option<u128>)
    ensures
        r == uuid_value(value@),
{
    match Uuid::parse_str(value) {
        Ok(id) => Some(id.as_u128()),
        Err(_) => None,
    }
}

/// `Uuid::to_string`: the hyphenated lowercase text of the UUID, which
/// `Uuid::parse_str` reads back.
#[verifier::external_body]
pub(crate) fn raw_uuid_text(id: u128) -> (r: String)
    ensures
        r@ == uuid_text(id),
        uuid_value(r@) == Some(id),
{
    Uuid::from_u128(id).to_string()
}

/// `Uuid::new_v4`: a random UUID, as its 128 bits.
#[verifier::external_body]
pub(crate) fn raw_new_uuid() -> (id: u128) {
    Uuid::new_v4().as_u128()
}

/// The UUID that a text spells.
pub fn parse_uuid(value: &str) -> (r: Option<u128>)
    ensures
        r == uuid_value(value@),
{
    raw_parse_uuid(value)
}

/// The text of a UUID.
pub fn uuid_string(id: u128) -> (r: String)
    ensures
        r@ == uuid_text(id),
        uuid_value(r@) == Some(id),
{
    raw_uuid_text(id)
}

/// The text of a fresh random UUID.
pub fn new_id() -> (id: String)
    ensures
        uuid_value(id@) is Some,
        id@ == uuid_text(uuid_value(id@)->0),
{
    let value = raw_new_uuid();
    raw_uuid_text(value)
}

/// A JSON value that the library carries along: a string as its text, any
/// other value as its JSON text.
#[derive(Debug, Clone)]
pub enum PostmanValue {
    Text(String),
    Json(String),
}

impl PostmanValue {
    /// The text of a string value.
    pub open spec fn text(self) -> Option<Seq<char>> {
        match self {
            PostmanValue::Text(s) => Some(s@),
            PostmanValue::Json(_) => None,
        }
    }

    /// The text of a string value.
    pub fn as_str(&self) -> (r: Option<&str>)
        ensures
            match r {
                Some(s) => self.text() == Some(s@),
                None => self.text() is None,
            },
    {
        match self {
            PostmanValue::Text(s) => Some(s.as_str()),
            PostmanValue::Json(_) => None,
        }
    }
}

/// The URL of a request as the collection holds it: a plain text, an object
/// with or without its raw text, or some other JSON value. What the library
/// does not read is carried as JSON text.
#[derive(Debug, Clone)]
pub enum PostmanUrl {
    Raw(String),
    Object { raw: Option<String>, json: String },
    Other { json: String },
}

impl PostmanUrl {
    /// The URL as text: the text itself, the raw text of an object, or
    /// nothing.
    pub open spec fn raw_text(self) -> Seq<char> {
        match self {
            PostmanUrl::Raw(s) => s@,
            PostmanUrl::Object { raw: Some(s), .. } => s@,
            _ => Seq::empty(),
        }
    }
}

/// The URL of a request as text.
pub fn extract_url(value: &PostmanUrl) -> (r: String)
    ensures
        r@ == value.raw_text(),
{
    match value {
        PostmanUrl::Raw(raw) => raw.clone(),
        PostmanUrl::Object { raw, json: _ } => match raw {
            Some(raw) => raw.clone(),
            None => String::new(),
        },
        PostmanUrl::Other { json: _ } => String::new(),
    }
}

#[derive(Debug, Clone)]
pub struct PostmanAuthAttribute {
    pub key: String,
    pub value: Option<PostmanValue>,
    pub attr_type: Option<String>,
}

#[derive(Debug, Clone)]
pub struct PostmanAuth {
    pub auth_type: String,
    pub bearer: Option<Vec<PostmanAuthAttribute>>,
    pub basic: Option<Vec<PostmanAuthAttribute>>,
    pub apikey: Option<Vec<PostmanAuthAttribute>>,
}

#[derive(Debug, Clone)]
pub struct PostmanRequest {
    pub method: String,
    pub header: Vec<PostmanHeader>,
    pub body: Option<PostmanBody>,
    pub url: PostmanUrl,
    pub auth: Option<PostmanAuth>,
}

/// The index of the first attribute with key `key`.
pub open spec fn first_keyed(attrs: Seq<PostmanAuthAttribute>, key: Seq<char>) -> Option<int>
    decreases attrs.len(),
{
    if attrs.len() == 0 {
        None
    } else if attrs[0].key@ == key {
        Some(0)
    } else {
        match first_keyed(attrs.drop_first(), key) {
            Some(i) => Some(i + 1),
            None => None,
        }
    }
}

/// The text of the first attribute with key `key`: none where there is no
/// such attribute or its value is not a string.
pub open spec fn attr_text(attrs: Seq<PostmanAuthAttribute>, key: Seq<char>) -> Option<Seq<char>> {
    match first_keyed(attrs, key) {
        Some(i) => match attrs[i].value {
            Some(v) => v.text(),
            None => None,
        },
        None => None,
    }
}

/// `first_keyed` is the first index whose attribute has the key.
pub proof fn lemma_first_keyed(attrs: Seq<PostmanAuthAttribute>, key: Seq<char>, at: int)
    requires
        0 <= at <= attrs.len(),
        forall|k: int| 0 <= k < at ==> attrs[k].key@ != key,
        at < attrs.len() ==> attrs[at].key@ == key,
    ensures
        first_keyed(attrs, key) == if at < attrs.len() {
            Some(at)
        } else {
            None
        },
    decreases attrs.len(),
{
    if attrs.len() > 0 && at > 0 {
        assert(attrs[0].key@ != key);
        let rest = attrs.drop_first();
        assert forall|k: int| 0 <= k < at - 1 implies rest[k].key@ != key by {
            assert(rest[k] == attrs[k + 1]);
        }
        if at < attrs.len() {
            assert(rest[at - 1] == attrs[at]);
        }
        lemma_first_keyed(rest, key, at - 1);
    }
}

/// The text of the first attribute with key `key`.
pub fn find_attr<'a>(attrs: &'a Vec<PostmanAuthAttribute>, key: &str) -> (r: Option<&'a str>)
    ensures
        match r {
            Some(s) => attr_text(attrs@, key@) == Some(s@),
            None => attr_text(attrs@, key@) is None,
        },
{
    let wanted = String::from_str(key);
    let mut i: usize = 0;
    while i < attrs.len()
        invariant
            i <= attrs.len(),
            wanted@ == key@,
            forall|k: int| 0 <= k < i ==> attrs@[k].key@ != key@,
        decreases attrs.len() - i,
    {
        if attrs[i].key == wanted {
            proof {
                lemma_first_keyed(attrs@, key@, i as int);
            }
            return match &attrs[i].value {
                Some(v) => v.as_str(),
                None => None,
            };
        }
        i += 1;
    }
    proof {
        lemma_first_keyed(attrs@, key@, i as int);
    }
    None
}

/// An attribute with a string value.
pub fn string_attr(key: &str, value: &str) -> (a: PostmanAuthAttribute)
    ensures
        a.key@ == key@,
        a.value is Some,
        a.value->0.text() == Some(value@),
        a.attr_type is Some,
        a.attr_type->0@ == "string"@,
{
    PostmanAuthAttribute {
        key: String::from_str(key),
        value: Some(PostmanValue::Text(String::from_str(value))),
        attr_type: Some(String::from_str("string")),
    }
}

impl PostmanAuth {
    pub fn bearer(token: &str) -> (a: PostmanAuth)
        ensures
            a.auth_type@ == "bearer"@,
            a.bearer is Some,
            a.basic is None,
            a.apikey is None,
            a.bearer->0@.len() == 1,
            a.bearer_token() == Some(token@),
    {
        let mut attrs: Vec<PostmanAuthAttribute> = Vec::new();
        attrs.push(string_attr("token", token));
        proof {
            lemma_first_keyed(attrs@, "token"@, 0);
        }
        PostmanAuth {
            auth_type: String::from_str("bearer"),
            bearer: Some(attrs),
            basic: None,
            apikey: None,
        }
    }

    pub fn basic(username: &str, password: &str) -> (a: PostmanAuth)
        ensures
            a.auth_type@ == "basic"@,
            a.bearer is None,
            a.basic is Some,
            a.apikey is None,
            a.basic->0@.len() == 2,
            a.basic->0@[0].key@ == "username"@,
            a.basic->0@[0].value->0.text() == Some(username@),
            a.basic->0@[1].key@ == "password"@,
            a.basic->0@[1].value->0.text() == Some(password@),
    {
        let mut attrs: Vec<PostmanAuthAttribute> = Vec::new();
        attrs.push(string_attr("username", username));
        attrs.push(string_attr("password", password));
        PostmanAuth {
            auth_type: String::from_str("basic"),
            bearer: None,
            basic: Some(attrs),
            apikey: None,
        }
    }

    pub fn apikey(key: &str, value: &str, location: &str) -> (a: PostmanAuth)
        ensures
            a.auth_type@ == "apikey"@,
            a.bearer is None,
            a.basic is None,
            a.apikey is Some,
            a.apikey->0@.len() == 3,
            a.apikey->0@[0].key@ == "key"@,
            a.apikey->0@[0].value->0.text() == Some(key@),
            a.apikey->0@[1].key@ == "value"@,
            a.apikey->0@[1].value->0.text() == Some(value@),
            a.apikey->0@[2].key@ == "in"@,
            a.apikey->0@[2].value->0.text() == Some(location@),
    {
        let mut attrs: Vec<PostmanAuthAttribute> = Vec::new();
        attrs.push(string_attr("key", key));
        attrs.push(string_attr("value", value));
        attrs.push(string_attr("in", location));
        PostmanAuth {
            auth_type: String::from_str("apikey"),
            bearer: None,
            basic: None,
            apikey: Some(attrs),
        }
    }

    /// The bearer token, if the bearer attributes hold one as a string.
    pub open spec fn bearer_token(self) -> Option<Seq<char>> {
        match self.bearer {
            Some(attrs) => attr_text(attrs@, "token"@),
            None => None,
        }
    }

    /// User name and password, if the basic attributes hold both as strings.
    pub open spec fn basic_credentials(self) -> Option<(Seq<char>, Seq<char>)> {
        match self.basic {
            Some(attrs) => match (attr_text(attrs@, "username"@), attr_text(attrs@, "password"@)) {
                (Some(u), Some(p)) => Some((u, p)),
                _ => None,
            },
            None => None,
        }
    }

    /// Key, value and place of an API key, if the attributes hold key and
    /// value as strings; the place is `header` where none is given.
    pub open spec fn api_key(self) -> Option<(Seq<char>, Seq<char>, Seq<char>)> {
        match self.apikey {
            Some(attrs) => match (attr_text(attrs@, "key"@), attr_text(attrs@, "value"@)) {
                (Some(k), Some(v)) => Some(
                    (k, v, match attr_text(attrs@, "in"@) {
                        Some(l) => l,
                        None => "header"@,
                    }),
                ),
                _ => None,
            },
            None => None,
        }
    }

    pub fn get_bearer_token(&self) -> (r: Option<&str>)
        ensures
            match r {
                Some(s) => self.bearer_token() == Some(s@),
                None => self.bearer_token() is None,
            },
    {
        match &self.bearer {
            Some(attrs) => find_attr(attrs, "token"),
            None => None,
        }
    }

    pub fn get_basic_credentials(&self) -> (r: Option<(&str, &str)>)
        ensures
            match r {
                Some(c) => self.basic_credentials() == Some((c.0@, c.1@)),
                None => self.basic_credentials() is None,
            },
    {
        match &self.basic {
            Some(attrs) => {
                let username = find_attr(attrs, "username");
                let password = find_attr(attrs, "password");
                match (username, password) {
                    (Some(u), Some(p)) => Some((u, p)),
                    _ => None,
                }
            },
            None => None,
        }
    }

    pub fn get_apikey(&self) -> (r: Option<(&str, &str, &str)>)
        ensures
            match r {
                Some(c) => self.api_key() == Some((c.0@, c.1@, c.2@)),
                None => self.api_key() is None,
            },
    {
        match &self.apikey {
            Some(attrs) => {
                let key = find_attr(attrs, "key");
                let value = find_attr(attrs, "value");
                match (key, value) {
                    (Some(k), Some(v)) => {
                        let location = match find_attr(attrs, "in") {
                            Some(l) => l,
                            None => "header",
                        };
                        Some((k, v, location))
                    },
                    _ => None,
                }
            },
            None => None,
        }
    }
}

impl PostmanRequest {
    /// A request without authentication. A body that is blank counts as none.
    pub fn new(method: String, url: String, headers: Vec<PostmanHeader>, body: Option<String>) -> (r:
        PostmanRequest)
        ensures
            r.method == method,
            r.header == headers,
            r.url == PostmanUrl::Raw(url),
            r.auth is None,
            match body {
                Some(raw) => if is_blank(raw@) {
                    r.body is None
                } else {
                    r.body is Some && r.body->0.is_raw(raw@, None)
                },
                None => r.body is None,
            },
    {
        let body = match body {
            Some(raw) => {
                if blank(&to_chars(raw.as_str())) {
                    None
                } else {
                    Some(
                        PostmanBody {
                            mode: String::from_str("raw"),
                            raw: Some(raw),
                            options: None,
                            urlencoded: None,
                            formdata: None,
                            file: None,
                        },
                    )
                }
            },
            None => None,
        };
        PostmanRequest { method, header: headers, body, url: PostmanUrl::Raw(url), auth: None }
    }
}

#[derive(Debug)]
pub struct PostmanItem {
    pub name: String,
    pub id: String,
    pub item: Vec<PostmanItem>,
    pub request: Option<PostmanRequest>,
    pub response: Vec<String>,
}

#[derive(Debug)]
pub struct PostmanCollection {
    pub info: PostmanInfo,
    pub item: Vec<PostmanItem>,
}

impl PostmanCollection {
    /// An empty collection named `name` with a fresh id.
    pub fn new(name: String) -> (c: PostmanCollection)
        ensures
            c.info.name == name,
            uuid_value(c.info.postman_id@) is Some,
            c.info.schema@ == schema_url(),
            c.item@.len() == 0,
    {
        PostmanCollection {
            info: PostmanInfo {
                name,
                postman_id: new_id(),
                schema: String::from_str(
                    "https://schema.getpostman.com/json/collection/v2.1.0/collection.json",
                ),
            },
            item: Vec::new(),
        }
    }
}

impl PostmanItem {
    /// The item is a folder or a request named `name` with nothing in it.
    pub open spec fn is_fresh(self, name: String, request: Option<PostmanRequest>) -> bool {
        &&& self.name == name
        &&& uuid_value(self.id@) is Some
        &&& self.id@ == uuid_text(uuid_value(self.id@)->0)
        &&& self.item@.len() == 0
        &&& self.request == request
        &&& self.response@.len() == 0
    }

    /// An empty folder named `name` with a fresh id.
    pub fn new_folder(name: String) -> (i: PostmanItem)
        ensures
            i.is_fresh(name, None),
    {
        PostmanItem { name, id: new_id(), item: Vec::new(), request: None, response: Vec::new() }
    }

    /// A request named `name` with a fresh id.
    pub fn new_request(name: String, request: PostmanRequest) -> (i: PostmanItem)
        ensures
            i.is_fresh(name, Some(request)),
    {
        PostmanItem {
            name,
            id: new_id(),
            item: Vec::new(),
            request: Some(request),
            response: Vec::new(),
        }
    }

    pub fn is_request(&self) -> (r: bool)
        ensures
            r == self.request is Some,
    {
        self.request.is_some()
    }
}

} // verus!
