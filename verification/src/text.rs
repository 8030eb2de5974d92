//! Text as sequences of characters: the few string operations that the
//! library needs, each with an exact meaning.
use vstd::prelude::*;
use vstd::utf8::*;

verus! {

/// Whether `c` has the Unicode property White_Space.
pub uninterp spec fn is_whitespace_char(c: char) -> bool;

/// Whether `c` is alphabetic or numeric in the sense of Unicode.
pub uninterp spec fn is_alphanumeric_char(c: char) -> bool;

/// The uppercase of a text, by the Unicode case mapping.
pub uninterp spec fn uppercase(s: Seq<char>) -> Seq<char>;

/// The lowercase of a text, by the Unicode case mapping.
pub uninterp spec fn lowercase(s: Seq<char>) -> Seq<char>;

/// `String::push` puts `c` at the end of the string.
pub assume_specification[ String::push ](s: &mut String, c: char)
    ensures
        final(s)@ == old(s)@.push(c),
;

/// `bytes` with `part` put in at offset `at`.
pub open spec fn spliced(bytes: Seq<u8>, at: int, part: Seq<u8>) -> Seq<u8> {
    bytes.subrange(0, at) + part + bytes.subrange(at, bytes.len() as int)
}

/// `bytes` without the character that starts at offset `at`.
pub open spec fn without_char(bytes: Seq<u8>, at: int) -> Seq<u8> {
    bytes.subrange(0, at) + pop_first_scalar(bytes.subrange(at, bytes.len() as int))
}

/// `String::insert` puts the character in at byte offset `idx`, which lies
/// within the string and on a character boundary.
pub assume_specification[ String::insert ](s: &mut String, idx: usize, ch: char)
    requires
        idx <= encode_utf8(old(s)@).len(),
        is_char_boundary(encode_utf8(old(s)@), idx as int),
    ensures
        encode_utf8(final(s)@) == spliced(
            encode_utf8(old(s)@),
            idx as int,
            encode_scalar(ch as u32),
        ),
;

/// `String::remove` takes out the character that starts at byte offset
/// `idx`, which lies before the end and on a character boundary, and
/// returns it.
pub assume_specification[ String::remove ](s: &mut String, idx: usize) -> (c: char)
    requires
        idx < encode_utf8(old(s)@).len(),
        is_char_boundary(encode_utf8(old(s)@), idx as int),
    ensures
        encode_utf8(final(s)@) == without_char(encode_utf8(old(s)@), idx as int),
        c as u32 == decode_first_scalar(
            encode_utf8(old(s)@).subrange(idx as int, encode_utf8(old(s)@).len() as int),
        ),
;

/// `char::is_whitespace` tells whether the character has the property
/// White_Space.
pub assume_specification[ char::is_whitespace ](c: char) -> (b: bool)
    ensures
        b == is_whitespace_char(c),
;

/// `char::is_alphanumeric` tells whether the character is alphabetic or
/// numeric.
pub assume_specification[ char::is_alphanumeric ](c: char) -> (b: bool)
    ensures
        b == is_alphanumeric_char(c),
;

/// `str::to_uppercase` gives the uppercase of the text.
pub assume_specification[ str::to_uppercase ](s: &str) -> (r: String)
    ensures
        r@ == uppercase(s@),
;

/// `str::to_lowercase` gives the lowercase of the text.
pub assume_specification[ str::to_lowercase ](s: &str) -> (r: String)
    ensures
        r@ == lowercase(s@),
;

/// The characters of `s`, in order.
pub fn to_chars(s: &str) -> (v: Vec<char>)
    ensures
        v@ == s@,
{
    let mut v: Vec<char> = Vec::new();
    for c in it: s.chars()
        invariant
            v@ == it.seq().take(it.index() as int),
            it.seq() == s@,
    {
        v.push(c);
    }
    v
}

/// The string made of the characters of `v`, in order.
pub fn from_chars(v: &Vec<char>) -> (s: String)
    ensures
        s@ == v@,
{
    let mut s = String::new();
    let mut i: usize = 0;
    while i < v.len()
        invariant
            i <= v.len(),
            s@ == v@.take(i as int),
        decreases v.len() - i,
    {
        s.push(v[i]);
        i += 1;
    }
    s
}

/// The characters of `v` from `from` up to, not including, `to`.
pub fn slice_chars(v: &Vec<char>, from: usize, to: usize) -> (r: Vec<char>)
    requires
        from <= to <= v.len(),
    ensures
        r@ == v@.subrange(from as int, to as int),
{
    let mut r: Vec<char> = Vec::new();
    let mut i: usize = from;
    while i < to
        invariant
            from <= i <= to,
            to <= v.len(),
            r@ == v@.subrange(from as int, i as int),
        decreases to - i,
    {
        r.push(v[i]);
        i += 1;
    }
    r
}

/// Puts the characters of `more` behind those of `v`.
pub fn append_chars(v: &mut Vec<char>, more: &Vec<char>)
    ensures
        final(v)@ == old(v)@ + more@,
{
    let mut i: usize = 0;
    while i < more.len()
        invariant
            i <= more.len(),
            v@ == old(v)@ + more@.take(i as int),
        decreases more.len() - i,
    {
        v.push(more[i]);
        i += 1;
    }
}

/// Whether two texts are the same.
pub fn same_chars(a: &Vec<char>, b: &Vec<char>) -> (r: bool)
    ensures
        r == (a@ == b@),
{
    if a.len() != b.len() {
        return false;
    }
    let mut i: usize = 0;
    while i < a.len()
        invariant
            i <= a.len(),
            a.len() == b.len(),
            a@.take(i as int) == b@.take(i as int),
        decreases a.len() - i,
    {
        if a[i] != b[i] {
            return false;
        }
        i += 1;
        assert(a@.take(i as int) =~= a@.take(i - 1).push(a@[i - 1]));
        assert(b@.take(i as int) =~= b@.take(i - 1).push(b@[i - 1]));
    }
    assert(a@.take(i as int) =~= a@);
    assert(b@.take(i as int) =~= b@);
    true
}

/// `s` without the whitespace at its start.
pub open spec fn trim_start(s: Seq<char>) -> Seq<char>
    decreases s.len(),
{
    if s.len() > 0 && is_whitespace_char(s[0]) {
        trim_start(s.drop_first())
    } else {
        s
    }
}

/// `s` without the whitespace at its end.
pub open spec fn trim_end(s: Seq<char>) -> Seq<char>
    decreases s.len(),
{
    if s.len() > 0 && is_whitespace_char(s.last()) {
        trim_end(s.drop_last())
    } else {
        s
    }
}

/// `s` without the whitespace at its start and at its end.
pub open spec fn trimmed(s: Seq<char>) -> Seq<char> {
    trim_end(trim_start(s))
}

/// `s` is empty or all whitespace.
pub open spec fn is_blank(s: Seq<char>) -> bool {
    trimmed(s).len() == 0
}

/// `v` without the whitespace at its start and at its end.
pub fn trim(v: &Vec<char>) -> (r: Vec<char>)
    ensures
        r@ == trimmed(v@),
{
    let mut start: usize = 0;
    proof {
        assert(v@.subrange(0, v.len() as int) =~= v@);
    }
    while start < v.len() && v[start].is_whitespace()
        invariant
            start <= v.len(),
            trim_start(v@) == trim_start(v@.subrange(start as int, v.len() as int)),
        decreases v.len() - start,
    {
        proof {
            let rest = v@.subrange(start as int, v.len() as int);
            assert(rest.drop_first() =~= v@.subrange(start + 1, v.len() as int));
        }
        start += 1;
    }
    let mut end: usize = v.len();
    while end > start && v[end - 1].is_whitespace()
        invariant
            start <= end <= v.len(),
            trim_end(v@.subrange(start as int, v.len() as int)) == trim_end(
                v@.subrange(start as int, end as int),
            ),
        decreases end,
    {
        proof {
            let rest = v@.subrange(start as int, end as int);
            assert(rest.drop_last() =~= v@.subrange(start as int, end - 1));
        }
        end -= 1;
    }
    proof {
        let rest = v@.subrange(start as int, v.len() as int);
        if start < v.len() {
            assert(rest[0] == v@[start as int]);
        }
        assert(trim_start(v@) == rest);
        let kept = v@.subrange(start as int, end as int);
        if end > start {
            assert(kept.last() == v@[end - 1]);
        }
        assert(trim_end(kept) == kept);
    }
    slice_chars(v, start, end)
}

/// Whether `v` is empty or all whitespace.
pub fn blank(v: &Vec<char>) -> (r: bool)
    ensures
        r == is_blank(v@),
{
    trim(v).len() == 0
}

/// The parts of `s` between the occurrences of `sep`; there is always one.
pub open spec fn split_on(s: Seq<char>, sep: char) -> Seq<Seq<char>>
    decreases s.len(),
{
    if s.len() == 0 {
        seq![Seq::<char>::empty()]
    } else {
        let parts = split_on(s.drop_last(), sep);
        if s.last() == sep {
            parts.push(Seq::empty())
        } else {
            parts.update(parts.len() - 1, parts.last().push(s.last()))
        }
    }
}

/// The texts of strings.
pub open spec fn strings_view(v: Seq<String>) -> Seq<Seq<char>> {
    Seq::new(v.len(), |i: int| v[i]@)
}

/// The views of a vector of texts.
pub open spec fn texts_view(v: Seq<Vec<char>>) -> Seq<Seq<char>> {
    Seq::new(v.len(), |i: int| v[i]@)
}

/// `split_on` always gives a part.
pub proof fn lemma_split_nonempty(s: Seq<char>, sep: char)
    ensures
        split_on(s, sep).len() >= 1,
    decreases s.len(),
{
    if s.len() > 0 {
        lemma_split_nonempty(s.drop_last(), sep);
    }
}

/// No part of `split_on` holds the separator.
pub proof fn lemma_split_parts(s: Seq<char>, sep: char)
    ensures
        forall|i: int| 0 <= i < split_on(s, sep).len() ==> !(#[trigger] split_on(s, sep)[i]).contains(sep),
    decreases s.len(),
{
    if s.len() > 0 {
        let parts = split_on(s.drop_last(), sep);
        lemma_split_parts(s.drop_last(), sep);
        lemma_split_nonempty(s.drop_last(), sep);
        assert forall|i: int| 0 <= i < split_on(s, sep).len() implies !(#[trigger] split_on(
            s,
            sep,
        )[i]).contains(sep) by {
            if i < parts.len() - 1 {
                assert(split_on(s, sep)[i] == parts[i]);
            } else if s.last() != sep {
                let grown = parts.last().push(s.last());
                assert(split_on(s, sep)[i] == grown);
                assert forall|j: int| 0 <= j < grown.len() implies grown[j] != sep by {
                    if j < parts.last().len() {
                        assert(parts.last().contains(grown[j]));
                    }
                }
            } else if i == parts.len() - 1 {
                assert(split_on(s, sep)[i] == parts[i]);
            }
        }
    }
}

/// The parts of `v` between the occurrences of `sep`.
pub fn split(v: &Vec<char>, sep: char) -> (r: Vec<Vec<char>>)
    ensures
        texts_view(r@) == split_on(v@, sep),
        r@.len() >= 1,
{
    let mut parts: Vec<Vec<char>> = Vec::new();
    let mut current: Vec<char> = Vec::new();
    let mut i: usize = 0;
    proof {
        assert(v@.take(0) =~= Seq::<char>::empty());
        assert(texts_view(parts@).push(current@) =~~= split_on(v@.take(0), sep));
    }
    while i < v.len()
        invariant
            i <= v.len(),
            texts_view(parts@).push(current@) == split_on(v@.take(i as int), sep),
        decreases v.len() - i,
    {
        let c = v[i];
        let ghost closed = texts_view(parts@);
        let ghost held = current@;
        proof {
            assert(v@.take(i + 1).drop_last() =~= v@.take(i as int));
            lemma_split_nonempty(v@.take(i as int), sep);
        }
        if c == sep {
            let part = current;
            parts.push(part);
            current = Vec::new();
            proof {
                assert(texts_view(parts@).push(current@) =~~= closed.push(held).push(
                    Seq::empty(),
                ));
            }
        } else {
            current.push(c);
            proof {
                assert(texts_view(parts@).push(current@) =~~= closed.push(held).update(
                    closed.len() as int,
                    held.push(c),
                ));
            }
        }
        i += 1;
    }
    let ghost closed = texts_view(parts@);
    let ghost held = current@;
    parts.push(current);
    proof {
        assert(v@.take(i as int) =~= v@);
        assert(texts_view(parts@) =~~= closed.push(held));
    }
    parts
}

/// `s` without one carriage return at its end, if it has one.
pub open spec fn without_cr(s: Seq<char>) -> Seq<char> {
    if s.len() > 0 && s.last() == '\r' {
        s.drop_last()
    } else {
        s
    }
}

/// The lines of a text: its parts between line feeds, each without the
/// carriage return before its line feed; what follows the last line feed is a
/// line only if it is not empty.
pub open spec fn lines_of(s: Seq<char>) -> Seq<Seq<char>> {
    let parts = split_on(s, '\n');
    let ended = Seq::new((parts.len() - 1) as nat, |i: int| without_cr(parts[i]));
    if parts.last().len() == 0 {
        ended
    } else {
        ended.push(parts.last())
    }
}

/// The lines of `v`.
pub fn split_lines(v: &Vec<char>) -> (r: Vec<Vec<char>>)
    ensures
        texts_view(r@) == lines_of(v@),
{
    let mut parts = split(v, '\n');
    let ghost all = texts_view(parts@);
    let n = parts.len();
    let mut lines: Vec<Vec<char>> = Vec::new();
    let mut i: usize = 0;
    while i + 1 < n
        invariant
            n == parts.len(),
            n >= 1,
            i + 1 <= n,
            texts_view(parts@) == all,
            texts_view(lines@) == Seq::new(i as nat, |k: int| without_cr(all[k])),
        decreases n - i,
    {
        let part = &parts[i];
        let m = part.len();
        let line = if m > 0 && part[m - 1] == '\r' {
            slice_chars(part, 0, m - 1)
        } else {
            slice_chars(part, 0, m)
        };
        proof {
            assert(all[i as int] == part@);
            assert(part@.subrange(0, m as int) =~= part@);
            assert(line@ == without_cr(part@));
        }
        let ghost held = texts_view(lines@);
        lines.push(line);
        i += 1;
        proof {
            assert(texts_view(lines@) =~~= held.push(line@));
            assert(texts_view(lines@) =~~= Seq::new(i as nat, |k: int| without_cr(all[k])));
        }
    }
    let last = parts.pop();
    match last {
        Some(last) => {
            proof {
                assert(last@ == all.last());
            }
            if last.len() > 0 {
                let ghost held = texts_view(lines@);
                lines.push(last);
                proof {
                    assert(texts_view(lines@) =~~= held.push(last@));
                }
            }
        },
        None => {},
    }
    lines
}

/// The texts of `parts` with `sep` between each two.
pub open spec fn joined(parts: Seq<Seq<char>>, sep: Seq<char>) -> Seq<char>
    decreases parts.len(),
{
    if parts.len() == 0 {
        Seq::empty()
    } else if parts.len() == 1 {
        parts[0]
    } else {
        joined(parts.drop_last(), sep) + sep + parts.last()
    }
}

/// The texts of `parts` with `sep` between each two.
pub fn join(parts: &Vec<Vec<char>>, sep: &Vec<char>) -> (r: Vec<char>)
    ensures
        r@ == joined(texts_view(parts@), sep@),
{
    let mut out: Vec<char> = Vec::new();
    let mut i: usize = 0;
    proof {
        assert(texts_view(parts@).take(0) =~= Seq::<Seq<char>>::empty());
    }
    while i < parts.len()
        invariant
            i <= parts.len(),
            out@ == joined(texts_view(parts@).take(i as int), sep@),
        decreases parts.len() - i,
    {
        let ghost before = texts_view(parts@).take(i as int);
        let ghost next = texts_view(parts@).take(i + 1);
        proof {
            assert(next.drop_last() =~= before);
            assert(next.last() == parts@[i as int]@);
        }
        if i > 0 {
            append_chars(&mut out, sep);
        }
        append_chars(&mut out, &parts[i]);
        proof {
            if i == 0 {
                assert(out@ =~= parts@[0]@);
            }
        }
        i += 1;
    }
    proof {
        assert(texts_view(parts@).take(i as int) =~= texts_view(parts@));
    }
    out
}

/// Whether `needle` occurs in `hay` at offset `at`.
pub open spec fn occurs_at(hay: Seq<char>, needle: Seq<char>, at: int) -> bool {
    0 <= at && at + needle.len() <= hay.len() && hay.subrange(at, at + needle.len()) == needle
}

/// Whether `needle` occurs somewhere in `hay`.
pub open spec fn contains_text(hay: Seq<char>, needle: Seq<char>) -> bool {
    exists|at: int| occurs_at(hay, needle, at)
}

/// Whether `needle` occurs in `hay` at offset `at`.
pub fn matches_at(hay: &Vec<char>, needle: &Vec<char>, at: usize) -> (r: bool)
    ensures
        r == occurs_at(hay@, needle@, at as int),
{
    if needle.len() > hay.len() || at > hay.len() - needle.len() {
        return false;
    }
    let mut k: usize = 0;
    while k < needle.len()
        invariant
            k <= needle.len(),
            at + needle.len() <= hay.len(),
            hay@.subrange(at as int, at + k) == needle@.take(k as int),
        decreases needle.len() - k,
    {
        if hay[at + k] != needle[k] {
            proof {
                let part = hay@.subrange(at as int, at + needle.len());
                assert(part[k as int] != needle@[k as int]);
            }
            return false;
        }
        k += 1;
        proof {
            assert(hay@.subrange(at as int, at + k) =~= hay@.subrange(at as int, at + k - 1).push(
                hay@[at + k - 1],
            ));
            assert(needle@.take(k as int) =~= needle@.take(k - 1).push(needle@[k - 1]));
        }
    }
    proof {
        assert(needle@.take(k as int) =~= needle@);
    }
    true
}

/// Whether `needle` occurs somewhere in `hay`.
pub fn contains(hay: &Vec<char>, needle: &Vec<char>) -> (r: bool)
    ensures
        r == contains_text(hay@, needle@),
{
    if needle.len() > hay.len() {
        return false;
    }
    let last = hay.len() - needle.len();
    let mut at: usize = 0;
    loop
        invariant
            at <= last,
            last == hay.len() - needle.len(),
            needle.len() <= hay.len(),
            forall|k: int| 0 <= k < at ==> !occurs_at(hay@, needle@, k),
        decreases last - at,
    {
        if matches_at(hay, needle, at) {
            return true;
        }
        if at == last {
            return false;
        }
        at += 1;
    }
}

/// The lowercase of an ASCII capital; any other character as it is.
pub open spec fn ascii_lower(c: char) -> char {
    if 'A' <= c && c <= 'Z' {
        ((c as u8) + 32) as char
    } else {
        c
    }
}

/// The uppercase of an ASCII small letter; any other character as it is.
pub open spec fn ascii_upper(c: char) -> char {
    if 'a' <= c && c <= 'z' {
        ((c as u8) - 32) as char
    } else {
        c
    }
}

/// `char::to_ascii_lowercase` maps `A` to `Z` to `a` to `z` and leaves the
/// rest.
pub assume_specification[ char::to_ascii_lowercase ](c: &char) -> (r: char)
    ensures
        r == ascii_lower(*c),
;

/// `char::to_ascii_uppercase` maps `a` to `z` to `A` to `Z` and leaves the
/// rest.
pub assume_specification[ char::to_ascii_uppercase ](c: &char) -> (r: char)
    ensures
        r == ascii_upper(*c),
;

/// A text with its ASCII capitals in lowercase.
pub open spec fn ascii_lowered(s: Seq<char>) -> Seq<char> {
    Seq::new(s.len(), |i: int| ascii_lower(s[i]))
}

/// `v` with its ASCII capitals in lowercase.
pub fn to_ascii_lower(v: &Vec<char>) -> (r: Vec<char>)
    ensures
        r@ == ascii_lowered(v@),
{
    let mut r: Vec<char> = Vec::new();
    let mut i: usize = 0;
    while i < v.len()
        invariant
            i <= v.len(),
            r@ == ascii_lowered(v@.take(i as int)),
        decreases v.len() - i,
    {
        let c = v[i];
        r.push(c.to_ascii_lowercase());
        i += 1;
        proof {
            assert(r@ =~= ascii_lowered(v@.take(i as int)));
        }
    }
    proof {
        assert(v@.take(i as int) =~= v@);
    }
    r
}

/// The decimal digit of a number below ten.
pub open spec fn digit_char(d: nat) -> char {
    if d == 0 {
        '0'
    } else if d == 1 {
        '1'
    } else if d == 2 {
        '2'
    } else if d == 3 {
        '3'
    } else if d == 4 {
        '4'
    } else if d == 5 {
        '5'
    } else if d == 6 {
        '6'
    } else if d == 7 {
        '7'
    } else if d == 8 {
        '8'
    } else {
        '9'
    }
}

/// The decimal digits of `n`, the most significant first; "0" for zero.
pub open spec fn digits_of(n: nat) -> Seq<char>
    decreases n,
{
    if n < 10 {
        seq![digit_char(n)]
    } else {
        digits_of(n / 10).push(digit_char(n % 10))
    }
}

/// The decimal digit of `d`.
pub fn digit(d: u8) -> (c: char)
    requires
        d < 10,
    ensures
        c == digit_char(d as nat),
{
    if d == 0 {
        '0'
    } else if d == 1 {
        '1'
    } else if d == 2 {
        '2'
    } else if d == 3 {
        '3'
    } else if d == 4 {
        '4'
    } else if d == 5 {
        '5'
    } else if d == 6 {
        '6'
    } else if d == 7 {
        '7'
    } else if d == 8 {
        '8'
    } else {
        '9'
    }
}

/// The digits of a text in the other order.
pub open spec fn digits_rev(n: nat) -> Seq<char>
    decreases n,
{
    if n < 10 {
        seq![digit_char(n)]
    } else {
        seq![digit_char(n % 10)] + digits_rev(n / 10)
    }
}

/// `digits_rev` is `digits_of` read backwards.
pub proof fn lemma_digits_rev(n: nat)
    ensures
        digits_rev(n) == digits_of(n).reverse(),
    decreases n,
{
    if n < 10 {
        assert(digits_rev(n) =~= digits_of(n).reverse());
    } else {
        lemma_digits_rev(n / 10);
        assert(digits_rev(n) =~= digits_of(n).reverse());
    }
}

/// The decimal digits of `n`.
pub fn decimal(n: u128) -> (r: Vec<char>)
    ensures
        r@ == digits_of(n as nat),
{
    let mut rev: Vec<char> = Vec::new();
    let mut m: u128 = n;
    while m >= 10
        invariant
            rev@ + digits_rev(m as nat) == digits_rev(n as nat),
        decreases m,
    {
        let ghost held = rev@;
        let d = (m % 10) as u8;
        rev.push(digit(d));
        proof {
            assert(held.push(digit_char((m % 10) as nat)) + digits_rev((m / 10) as nat) =~= held + (
            seq![digit_char((m % 10) as nat)] + digits_rev((m / 10) as nat)));
        }
        m = m / 10;
    }
    let ghost held = rev@;
    rev.push(digit(m as u8));
    proof {
        assert(held.push(digit_char(m as nat)) =~= held + digits_rev(m as nat));
        lemma_digits_rev(n as nat);
    }
    let mut out: Vec<char> = Vec::new();
    let mut i: usize = rev.len();
    while i > 0
        invariant
            i <= rev.len(),
            out@.len() == rev.len() - i,
            forall|k: int| 0 <= k < out@.len() ==> out@[k] == rev@[rev.len() - 1 - k],
        decreases i,
    {
        i -= 1;
        out.push(rev[i]);
    }
    proof {
        assert(out@ =~= rev@.reverse());
        assert(rev@.reverse() =~= digits_of(n as nat).reverse().reverse());
        assert(digits_of(n as nat).reverse().reverse() =~= digits_of(n as nat));
    }
    out
}

/// Puts the characters of `s` behind those of `v`.
pub fn append_str(v: &mut Vec<char>, s: &str)
    ensures
        final(v)@ == old(v)@ + s@,
{
    let more = to_chars(s);
    append_chars(v, &more);
}

/// A text with its ASCII small letters in uppercase.
pub open spec fn ascii_uppered(s: Seq<char>) -> Seq<char> {
    Seq::new(s.len(), |i: int| ascii_upper(s[i]))
}

} // verus!
