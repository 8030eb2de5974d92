//! What goes on the wire for a request, and what is said when it fails.
//! The sending itself is the host's.
use crate::app::Method;
use crate::storage::collection::{find_char, index_of};
use crate::text::{
    append_chars, append_str, contains, contains_text, from_chars, lines_of, slice_chars,
    split_lines, texts_view, to_chars, trim, trimmed,
};
use vstd::prelude::*;
use vstd::string::StringExecFns;

verus! {

/// The complaint about a header line without a colon.
pub open spec fn header_complaint(line: Seq<char>) -> Seq<char> {
    "Invalid header format: '"@ + line + "' (expected 'Key: Value')"@
}

/// The header that a line states for the wire: key and value around its
/// first colon, without the blanks around them.
pub open spec fn wire_header(line: Seq<char>) -> (Seq<char>, Seq<char>) {
    let colon = index_of(line, ':');
    (trimmed(line.subrange(0, colon)), trimmed(line.subrange(colon + 1, line.len() as int)))
}

/// The headers of the first `upto` lines, or the complaint about the first
/// of them that is not blank and has no colon.
pub open spec fn wire_headers(lines: Seq<Seq<char>>, upto: int) -> Result<
    Seq<(Seq<char>, Seq<char>)>,
    Seq<char>,
>
    decreases upto,
{
    if upto <= 0 {
        Ok(Seq::empty())
    } else {
        match wire_headers(lines, upto - 1) {
            Err(e) => Err(e),
            Ok(done) => {
                let line = trimmed(lines[upto - 1]);
                if line.len() == 0 {
                    Ok(done)
                } else if index_of(line, ':') >= line.len() {
                    Err(header_complaint(line))
                } else {
                    Ok(done.push(wire_header(line)))
                }
            },
        }
    }
}

/// Pairs of strings as pairs of texts.
pub open spec fn pairs_view(v: Seq<(String, String)>) -> Seq<(Seq<char>, Seq<char>)> {
    Seq::new(v.len(), |i: int| (v[i].0@, v[i].1@))
}

/// The headers that the text of the headers field states, one `Key: Value`
/// to a line. Blank lines are passed over; a line without a colon is
/// refused.
pub fn request_headers(headers: &str) -> (r: Result<Vec<(String, String)>, String>)
    ensures
        match r {
            Ok(list) => wire_headers(lines_of(headers@), lines_of(headers@).len() as int) == Ok::<
                Seq<(Seq<char>, Seq<char>)>,
                Seq<char>,
            >(pairs_view(list@)),
            Err(e) => wire_headers(lines_of(headers@), lines_of(headers@).len() as int) == Err::<
                Seq<(Seq<char>, Seq<char>)>,
                Seq<char>,
            >(e@),
        },
{
    let chars = to_chars(headers);
    let lines = split_lines(&chars);
    let mut list: Vec<(String, String)> = Vec::new();
    let mut i: usize = 0;
    proof {
        assert(pairs_view(list@) =~= Seq::<(Seq<char>, Seq<char>)>::empty());
    }
    while i < lines.len()
        invariant
            i <= lines.len(),
            texts_view(lines@) == lines_of(headers@),
            wire_headers(texts_view(lines@), i as int) == Ok::<
                Seq<(Seq<char>, Seq<char>)>,
                Seq<char>,
            >(pairs_view(list@)),
        decreases lines.len() - i,
    {
        let line = trim(&lines[i]);
        proof {
            assert(texts_view(lines@)[i as int] == lines@[i as int]@);
        }
        if line.len() > 0 {
            let colon = find_char(&line, ':');
            if colon >= line.len() {
                let mut m: Vec<char> = Vec::new();
                append_str(&mut m, "Invalid header format: '");
                append_chars(&mut m, &line);
                append_str(&mut m, "' (expected 'Key: Value')");
                proof {
                    lemma_wire_headers_err(texts_view(lines@), i + 1, lines@.len() as int);
                }
                return Err(from_chars(&m));
            }
            let key = trim(&slice_chars(&line, 0, colon));
            let value = trim(&slice_chars(&line, colon + 1, line.len()));
            let ghost held = pairs_view(list@);
            list.push((from_chars(&key), from_chars(&value)));
            proof {
                assert(pairs_view(list@) =~= held.push((key@, value@)));
            }
        }
        i += 1;
    }
    Ok(list)
}

/// A complaint about the first lines stays the complaint about all.
pub proof fn lemma_wire_headers_err(lines: Seq<Seq<char>>, at: int, upto: int)
    requires
        0 <= at <= upto,
        wire_headers(lines, at) is Err,
    ensures
        wire_headers(lines, upto) == wire_headers(lines, at),
    decreases upto - at,
{
    if at < upto {
        lemma_wire_headers_err(lines, at, upto - 1);
    }
}

/// The body that goes on the wire: the text of the body field, if it is
/// not empty and the method carries a body.
pub fn request_body(method: &Method, body: &str) -> (r: Option<String>)
    ensures
        match r {
            Some(b) => b@ == body@ && body@.len() > 0 && method.sends_body_spec(),
            None => body@.len() == 0 || !method.sends_body_spec(),
        },
{
    if body.unicode_len() > 0 && method.sends_body() {
        Some(String::from_str(body))
    } else {
        None
    }
}

/// What is known of a request that failed.
#[derive(Debug, Clone)]
pub struct RequestFailure {
    pub timeout: bool,
    pub connect: bool,
    /// The host of the URL that the failure names.
    pub host: Option<String>,
    pub builder: bool,
    pub redirect: bool,
    pub decode: bool,
    /// The failure in its own words.
    pub message: String,
}

/// What the response panel says of a failure: the first that applies of
/// timeout, connection, URL, redirects and decoding, else the failure's own
/// words.
pub open spec fn failure_text(f: RequestFailure) -> Seq<char> {
    if f.timeout {
        "Request timed out"@
    } else if f.connect {
        match f.host {
            Some(h) => "Connection failed: "@ + h@,
            None => "Connection failed"@,
        }
    } else if f.builder {
        if contains_text(f.message@, "relative URL without a base"@) {
            "Invalid URL: missing scheme (try https://)"@
        } else {
            "Invalid URL: "@ + f.message@
        }
    } else if f.redirect {
        "Too many redirects"@
    } else if f.decode {
        "Failed to decode response body"@
    } else {
        "Request failed: "@ + f.message@
    }
}

pub fn format_request_error(failure: &RequestFailure) -> (text: String)
    ensures
        text@ == failure_text(*failure),
{
    if failure.timeout {
        return String::from_str("Request timed out");
    }
    let mut out: Vec<char> = Vec::new();
    if failure.connect {
        match &failure.host {
            Some(host) => {
                append_str(&mut out, "Connection failed: ");
                append_str(&mut out, host.as_str());
                return from_chars(&out);
            },
            None => {
                return String::from_str("Connection failed");
            },
        }
    }
    if failure.builder {
        let message = to_chars(failure.message.as_str());
        let needle = to_chars("relative URL without a base");
        if contains(&message, &needle) {
            return String::from_str("Invalid URL: missing scheme (try https://)");
        }
        append_str(&mut out, "Invalid URL: ");
        append_chars(&mut out, &message);
        return from_chars(&out);
    }
    if failure.redirect {
        return String::from_str("Too many redirects");
    }
    if failure.decode {
        return String::from_str("Failed to decode response body");
    }
    append_str(&mut out, "Request failed: ");
    append_str(&mut out, failure.message.as_str());
    from_chars(&out)
}

} // verus!
