//! Requests as the first storage format kept them, one file each.
use crate::text::{append_chars, append_str, decimal, digits_of, from_chars};
use std::time::{SystemTime, UNIX_EPOCH};
use vstd::prelude::*;
use vstd::string::StringExecFns;

verus! {

#[derive(Debug, Clone, Copy, PartialEq, Eq, Structural)]
pub enum HttpMethod {
    Get,
    Post,
    Put,
    Patch,
    Delete,
    Head,
    Options,
}

impl Default for HttpMethod {
    fn default() -> (m: HttpMethod)
        ensures
            m == HttpMethod::Get,
    {
        HttpMethod::Get
    }
}

impl HttpMethod {
    /// The method's name on the wire.
    pub open spec fn name(self) -> Seq<char> {
        match self {
            HttpMethod::Get => "GET"@,
            HttpMethod::Post => "POST"@,
            HttpMethod::Put => "PUT"@,
            HttpMethod::Patch => "PATCH"@,
            HttpMethod::Delete => "DELETE"@,
            HttpMethod::Head => "HEAD"@,
            HttpMethod::Options => "OPTIONS"@,
        }
    }

    pub fn as_str(&self) -> (s: &'static str)
        ensures
            s@ == self.name(),
    {
        match self {
            HttpMethod::Get => "GET",
            HttpMethod::Post => "POST",
            HttpMethod::Put => "PUT",
            HttpMethod::Patch => "PATCH",
            HttpMethod::Delete => "DELETE",
            HttpMethod::Head => "HEAD",
            HttpMethod::Options => "OPTIONS",
        }
    }
}

impl vstd::std_specs::convert::FromSpecImpl<crate::app::HttpMethod> for HttpMethod {
    open spec fn obeys_from_spec() -> bool {
        true
    }

    open spec fn from_spec(method: crate::app::HttpMethod) -> HttpMethod {
        match method {
            crate::app::HttpMethod::Get => HttpMethod::Get,
            crate::app::HttpMethod::Post => HttpMethod::Post,
            crate::app::HttpMethod::Put => HttpMethod::Put,
            crate::app::HttpMethod::Patch => HttpMethod::Patch,
            crate::app::HttpMethod::Delete => HttpMethod::Delete,
            crate::app::HttpMethod::Head => HttpMethod::Head,
            crate::app::HttpMethod::Options => HttpMethod::Options,
        }
    }
}

impl From<crate::app::HttpMethod> for HttpMethod {
    fn from(method: crate::app::HttpMethod) -> (r: HttpMethod) {
        match method {
            crate::app::HttpMethod::Get => HttpMethod::Get,
            crate::app::HttpMethod::Post => HttpMethod::Post,
            crate::app::HttpMethod::Put => HttpMethod::Put,
            crate::app::HttpMethod::Patch => HttpMethod::Patch,
            crate::app::HttpMethod::Delete => HttpMethod::Delete,
            crate::app::HttpMethod::Head => HttpMethod::Head,
            crate::app::HttpMethod::Options => HttpMethod::Options,
        }
    }
}

impl vstd::std_specs::convert::FromSpecImpl<HttpMethod> for crate::app::HttpMethod {
    open spec fn obeys_from_spec() -> bool {
        true
    }

    open spec fn from_spec(method: HttpMethod) -> crate::app::HttpMethod {
        match method {
            HttpMethod::Get => crate::app::HttpMethod::Get,
            HttpMethod::Post => crate::app::HttpMethod::Post,
            HttpMethod::Put => crate::app::HttpMethod::Put,
            HttpMethod::Patch => crate::app::HttpMethod::Patch,
            HttpMethod::Delete => crate::app::HttpMethod::Delete,
            HttpMethod::Head => crate::app::HttpMethod::Head,
            HttpMethod::Options => crate::app::HttpMethod::Options,
        }
    }
}

impl From<HttpMethod> for crate::app::HttpMethod {
    fn from(method: HttpMethod) -> (r: crate::app::HttpMethod) {
        match method {
            HttpMethod::Get => crate::app::HttpMethod::Get,
            HttpMethod::Post => crate::app::HttpMethod::Post,
            HttpMethod::Put => crate::app::HttpMethod::Put,
            HttpMethod::Patch => crate::app::HttpMethod::Patch,
            HttpMethod::Delete => crate::app::HttpMethod::Delete,
            HttpMethod::Head => crate::app::HttpMethod::Head,
            HttpMethod::Options => crate::app::HttpMethod::Options,
        }
    }
}

/// A stored method and the method of the request panel name the same thing.
pub proof fn lemma_method_conversions_agree(m: HttpMethod, a: crate::app::HttpMethod)
    ensures
        <crate::app::HttpMethod as vstd::std_specs::convert::FromSpec<HttpMethod>>::from_spec(m).name()
            == m.name(),
        <HttpMethod as vstd::std_specs::convert::FromSpec<crate::app::HttpMethod>>::from_spec(
            <crate::app::HttpMethod as vstd::std_specs::convert::FromSpec<HttpMethod>>::from_spec(m),
        ) == m,
{
}

#[derive(Debug, Clone)]
pub struct SavedRequest {
    pub id: String,
    pub name: String,
    pub url: String,
    pub method: HttpMethod,
    pub headers: String,
    pub body: String,
}

/// The id of a request made at `timestamp` milliseconds after the epoch.
pub open spec fn request_id_of(timestamp: nat) -> Seq<char> {
    "req_"@ + digits_of(timestamp)
}

/// The id of a request made at `timestamp` milliseconds after the epoch.
pub fn request_id(timestamp: u128) -> (id: String)
    ensures
        id@ == request_id_of(timestamp as nat),
{
    let mut out: Vec<char> = Vec::new();
    append_str(&mut out, "req_");
    let digits = decimal(timestamp);
    append_chars(&mut out, &digits);
    from_chars(&out)
}

/// `SystemTime::duration_since` of the clock's time now: the milliseconds
/// since the epoch, `None` for a clock that stands before it.
#[verifier::external_body]
fn now_millis() -> (t: Option<u128>) {
    match SystemTime::now().duration_since(UNIX_EPOCH) {
        Ok(d) => Some(d.as_millis()),
        Err(_) => None,
    }
}

/// An id for a request made now; a clock that stands before the epoch
/// counts as standing at it.
fn generate_id() -> (id: String)
    ensures
        exists|t: nat| id@ == #[trigger] request_id_of(t),
{
    let t: u128 = match now_millis() {
        Some(t) => t,
        None => 0,
    };
    request_id(t)
}

impl SavedRequest {
    /// A request with the id `id`.
    pub fn with_id(
        id: String,
        name: String,
        url: String,
        method: HttpMethod,
        headers: String,
        body: String,
    ) -> (r: SavedRequest)
        ensures
            r.id == id,
            r.name == name,
            r.url == url,
            r.method == method,
            r.headers == headers,
            r.body == body,
    {
        SavedRequest { id, name, url, method, headers, body }
    }

    /// A request with an id made from the time of the call.
    pub fn new(name: String, url: String, method: HttpMethod, headers: String, body: String) -> (r:
        SavedRequest)
        ensures
            exists|t: nat| r.id@ == #[trigger] request_id_of(t),
            r.name == name,
            r.url == url,
            r.method == method,
            r.headers == headers,
            r.body == body,
    {
        let id = generate_id();
        SavedRequest::with_id(id, name, url, method, headers, body)
    }

    /// A request named `name` from what the request panel holds.
    pub fn from_request_state(
        name: String,
        url: &str,
        method: crate::app::HttpMethod,
        headers: &str,
        body: &str,
    ) -> (r: SavedRequest)
        ensures
            exists|t: nat| r.id@ == #[trigger] request_id_of(t),
            r.name == name,
            r.url@ == url@,
            r.method.name() == method.name(),
            r.headers@ == headers@,
            r.body@ == body@,
    {
        let stored: HttpMethod = match method {
            crate::app::HttpMethod::Get => HttpMethod::Get,
            crate::app::HttpMethod::Post => HttpMethod::Post,
            crate::app::HttpMethod::Put => HttpMethod::Put,
            crate::app::HttpMethod::Patch => HttpMethod::Patch,
            crate::app::HttpMethod::Delete => HttpMethod::Delete,
            crate::app::HttpMethod::Head => HttpMethod::Head,
            crate::app::HttpMethod::Options => HttpMethod::Options,
        };
        SavedRequest::new(
            name,
            String::from_str(url),
            stored,
            String::from_str(headers),
            String::from_str(body),
        )
    }
}

} // verus!
