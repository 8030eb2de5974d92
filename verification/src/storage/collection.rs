//! The tree of a collection and the header text of a request.
use crate::storage::postman::PostmanHeader;
use crate::text::{
    append_chars, append_str, blank, from_chars, is_blank, join, joined, lines_of, slice_chars,
    split_lines, texts_view, to_chars, trim, trimmed,
};
use vstd::prelude::*;

verus! {

#[derive(Debug, Clone, Copy, PartialEq, Eq, Structural)]
pub enum NodeKind {
    Project,
    Folder,
    Request,
}

impl NodeKind {
    /// Whether a node of this kind can hold others.
    pub open spec fn holds_children(self) -> bool {
        self == NodeKind::Project || self == NodeKind::Folder
    }

    pub fn is_container(self) -> (r: bool)
        ensures
            r == self.holds_children(),
    {
        match self {
            NodeKind::Request => false,
            _ => true,
        }
    }
}

/// Where `c` first stands in `s`; the length of `s` where it does not.
pub open spec fn index_of(s: Seq<char>, c: char) -> int
    decreases s.len(),
{
    if s.len() == 0 {
        0
    } else if s[0] == c {
        0
    } else {
        1 + index_of(s.drop_first(), c)
    }
}

/// `index_of` lies within the text, and nothing before it is `c`.
pub proof fn lemma_index_of(s: Seq<char>, c: char)
    ensures
        0 <= index_of(s, c) <= s.len(),
        index_of(s, c) < s.len() ==> s[index_of(s, c)] == c,
        forall|k: int| 0 <= k < index_of(s, c) ==> s[k] != c,
    decreases s.len(),
{
    if s.len() > 0 && s[0] != c {
        lemma_index_of(s.drop_first(), c);
        assert forall|k: int| 0 <= k < index_of(s, c) implies s[k] != c by {
            if k > 0 {
                assert(s.drop_first()[k - 1] == s[k]);
            }
        }
    }
}

/// The first place of `c` in `s` is the place before which `c` does not occur.
pub proof fn lemma_index_of_is(s: Seq<char>, c: char, at: int)
    requires
        0 <= at <= s.len(),
        at < s.len() ==> s[at] == c,
        forall|k: int| 0 <= k < at ==> s[k] != c,
    ensures
        index_of(s, c) == at,
    decreases s.len(),
{
    if s.len() > 0 && at > 0 {
        assert(s[0] != c);
        assert forall|k: int| 0 <= k < at - 1 implies s.drop_first()[k] != c by {
            assert(s.drop_first()[k] == s[k + 1]);
        }
        lemma_index_of_is(s.drop_first(), c, at - 1);
    }
}

/// Where `c` first stands in `v`; the length of `v` where it does not.
pub fn find_char(v: &Vec<char>, c: char) -> (at: usize)
    ensures
        at == index_of(v@, c),
        at <= v.len(),
{
    let mut i: usize = 0;
    while i < v.len() && v[i] != c
        invariant
            i <= v.len(),
            forall|k: int| 0 <= k < i ==> v@[k] != c,
        decreases v.len() - i,
    {
        i += 1;
    }
    proof {
        lemma_index_of_is(v@, c, i as int);
    }
    i
}

/// The header that a line states: the text before its first colon as the
/// key, the text behind it as the value, both without the blanks around
/// them. A blank line and a line with a blank key state none.
pub open spec fn header_of(line: Seq<char>) -> Option<(Seq<char>, Seq<char>)> {
    let t = trimmed(line);
    let colon = index_of(t, ':');
    let key = trimmed(t.subrange(0, colon));
    let value = if colon < t.len() {
        trimmed(t.subrange(colon + 1, t.len() as int))
    } else {
        Seq::empty()
    };
    if t.len() == 0 || key.len() == 0 {
        None
    } else {
        Some((key, value))
    }
}

/// The headers that lines state, in their order.
pub open spec fn headers_of(lines: Seq<Seq<char>>) -> Seq<(Seq<char>, Seq<char>)>
    decreases lines.len(),
{
    if lines.len() == 0 {
        Seq::empty()
    } else {
        match header_of(lines.last()) {
            Some(h) => headers_of(lines.drop_last()).push(h),
            None => headers_of(lines.drop_last()),
        }
    }
}

/// Headers as pairs of key and value.
pub open spec fn headers_view(v: Seq<PostmanHeader>) -> Seq<(Seq<char>, Seq<char>)> {
    Seq::new(v.len(), |i: int| (v[i].key@, v[i].value@))
}

/// The headers that a text states, one to a line as `Key: Value`. None of
/// them is marked as disabled or enabled.
pub fn parse_headers(raw: &str) -> (headers: Vec<PostmanHeader>)
    ensures
        headers_view(headers@) == headers_of(lines_of(raw@)),
        forall|i: int| 0 <= i < headers@.len() ==> (#[trigger] headers@[i]).disabled is None,
{
    let chars = to_chars(raw);
    let lines = split_lines(&chars);
    let mut headers: Vec<PostmanHeader> = Vec::new();
    let mut i: usize = 0;
    proof {
        assert(texts_view(lines@).take(0) =~= Seq::<Seq<char>>::empty());
        assert(headers_view(headers@) =~= Seq::<(Seq<char>, Seq<char>)>::empty());
    }
    while i < lines.len()
        invariant
            i <= lines.len(),
            texts_view(lines@) == lines_of(raw@),
            headers_view(headers@) == headers_of(texts_view(lines@).take(i as int)),
            forall|k: int| 0 <= k < headers@.len() ==> (#[trigger] headers@[k]).disabled is None,
        decreases lines.len() - i,
    {
        proof {
            let next = texts_view(lines@).take(i + 1);
            assert(next.drop_last() =~= texts_view(lines@).take(i as int));
            assert(next.last() == lines@[i as int]@);
        }
        let t = trim(&lines[i]);
        if t.len() > 0 {
            let colon = find_char(&t, ':');
            let key = trim(&slice_chars(&t, 0, colon));
            let value = if colon < t.len() {
                trim(&slice_chars(&t, colon + 1, t.len()))
            } else {
                Vec::new()
            };
            if key.len() > 0 {
                let ghost held = headers_view(headers@);
                let header = PostmanHeader {
                    key: from_chars(&key),
                    value: from_chars(&value),
                    disabled: None,
                };
                headers.push(header);
                proof {
                    assert(headers_view(headers@) =~= held.push((key@, value@)));
                }
            }
        }
        i += 1;
    }
    proof {
        assert(texts_view(lines@).take(i as int) =~= texts_view(lines@));
    }
    headers
}

/// The line of a header: `Key: Value`.
pub open spec fn header_line(key: Seq<char>, value: Seq<char>) -> Seq<char> {
    key + ": "@ + value
}

/// The lines of the headers whose key is not blank.
pub open spec fn header_lines(headers: Seq<(Seq<char>, Seq<char>)>) -> Seq<Seq<char>>
    decreases headers.len(),
{
    if headers.len() == 0 {
        Seq::empty()
    } else if is_blank(headers.last().0) {
        header_lines(headers.drop_last())
    } else {
        header_lines(headers.drop_last()).push(header_line(headers.last().0, headers.last().1))
    }
}

/// The text of headers: one line `Key: Value` for each header with a key.
pub fn headers_to_text(headers: &Vec<PostmanHeader>) -> (text: String)
    ensures
        text@ == joined(header_lines(headers_view(headers@)), seq!['\n']),
{
    let mut lines: Vec<Vec<char>> = Vec::new();
    let mut i: usize = 0;
    proof {
        assert(headers_view(headers@).take(0) =~= Seq::<(Seq<char>, Seq<char>)>::empty());
        assert(texts_view(lines@) =~= Seq::<Seq<char>>::empty());
    }
    while i < headers.len()
        invariant
            i <= headers.len(),
            texts_view(lines@) == header_lines(headers_view(headers@).take(i as int)),
        decreases headers.len() - i,
    {
        proof {
            let next = headers_view(headers@).take(i + 1);
            assert(next.drop_last() =~= headers_view(headers@).take(i as int));
            assert(next.last() == (headers@[i as int].key@, headers@[i as int].value@));
        }
        let key = to_chars(headers[i].key.as_str());
        if !blank(&key) {
            let mut line: Vec<char> = Vec::new();
            append_chars(&mut line, &key);
            append_str(&mut line, ": ");
            append_str(&mut line, headers[i].value.as_str());
            let ghost held = texts_view(lines@);
            lines.push(line);
            proof {
                assert(texts_view(lines@) =~= held.push(line@));
            }
        }
        i += 1;
    }
    proof {
        assert(headers_view(headers@).take(i as int) =~= headers_view(headers@));
    }
    let mut sep: Vec<char> = Vec::new();
    sep.push('\n');
    let text = join(&lines, &sep);
    from_chars(&text)
}

} // verus!
