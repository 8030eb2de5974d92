//! Environments: named sets of variables, and the substitution of
//! `{{name}}` patterns by their values.
use crate::text::{from_chars, is_alphanumeric_char, slice_chars, strings_view, to_chars};
use vstd::prelude::*;
use vstd::string::StringExecFns;

verus! {

#[derive(Debug, Clone)]
pub struct EnvironmentVariable {
    pub key: String,
    pub value: String,
    pub enabled: bool,
    pub var_type: String,
}

/// Whether a variable counts when a file does not say: it does.
pub fn default_true() -> (b: bool)
    ensures
        b,
{
    true
}

/// The type of a variable when a file does not say.
pub fn default_type() -> (s: String)
    ensures
        s@ == "default"@,
{
    String::from_str("default")
}

impl EnvironmentVariable {
    /// An enabled variable of the default type.
    pub fn new(key: &str, value: &str) -> (v: EnvironmentVariable)
        ensures
            v.key@ == key@,
            v.value@ == value@,
            v.enabled,
            v.var_type@ == "default"@,
    {
        EnvironmentVariable {
            key: String::from_str(key),
            value: String::from_str(value),
            enabled: true,
            var_type: String::from_str("default"),
        }
    }
}

#[derive(Debug, Clone)]
pub struct Environment {
    pub name: String,
    pub values: Vec<EnvironmentVariable>,
}

/// A character that an environment's name may hold: a letter, a digit, an
/// underscore or a hyphen.
pub open spec fn is_name_char(c: char) -> bool {
    is_alphanumeric_char(c) || c == '_' || c == '-'
}

/// A name that is safe as a file name: not empty, of name characters only.
pub open spec fn safe_name(name: Seq<char>) -> bool {
    name.len() > 0 && forall|i: int| 0 <= i < name.len() ==> is_name_char(#[trigger] name[i])
}

pub fn is_safe_env_name(name: &str) -> (r: bool)
    ensures
        r == safe_name(name@),
{
    let chars = to_chars(name);
    if chars.len() == 0 {
        return false;
    }
    let mut i: usize = 0;
    while i < chars.len()
        invariant
            i <= chars.len(),
            chars@ == name@,
            forall|k: int| 0 <= k < i ==> is_name_char(#[trigger] chars@[k]),
        decreases chars.len() - i,
    {
        let c = chars[i];
        if !(c.is_alphanumeric() || c == '_' || c == '-') {
            assert(!is_name_char(chars@[i as int]));
            return false;
        }
        i += 1;
    }
    true
}

/// The variables that a substitution looks up: a map from names to values.
/// A name that is entered twice keeps its last value.
pub struct Variables {
    pub entries: Vec<(String, String)>,
}

/// The map that entries make when they are entered one after the other.
pub open spec fn entries_map(entries: Seq<(String, String)>) -> Map<Seq<char>, Seq<char>>
    decreases entries.len(),
{
    if entries.len() == 0 {
        Map::empty()
    } else {
        entries_map(entries.drop_last()).insert(entries.last().0@, entries.last().1@)
    }
}

impl View for Variables {
    type V = Map<Seq<char>, Seq<char>>;

    open spec fn view(&self) -> Map<Seq<char>, Seq<char>> {
        entries_map(self.entries@)
    }
}

impl Variables {
    pub fn new() -> (v: Variables)
        ensures
            v@ == Map::<Seq<char>, Seq<char>>::empty(),
    {
        Variables { entries: Vec::new() }
    }

    /// Enters `value` under `key`, in place of what stood there.
    pub fn insert(&mut self, key: String, value: String)
        ensures
            final(self)@ == old(self)@.insert(key@, value@),
    {
        self.entries.push((key, value));
        proof {
            assert(self.entries@.drop_last() =~= old(self).entries@);
        }
    }

    /// Whether nothing was entered.
    pub fn is_empty(&self) -> (r: bool)
        ensures
            r == (self@ == Map::<Seq<char>, Seq<char>>::empty()),
    {
        proof {
            if self.entries@.len() > 0 {
                assert(self@.contains_key(self.entries@.last().0@));
            }
        }
        self.entries.len() == 0
    }

    /// The value entered under `name`.
    pub fn get(&self, name: &str) -> (r: Option<&String>)
        ensures
            match r {
                Some(value) => self@.contains_key(name@) && self@[name@] == value@,
                None => !self@.contains_key(name@),
            },
    {
        let wanted = String::from_str(name);
        let mut i: usize = self.entries.len();
        proof {
            assert(self.entries@.take(i as int) =~= self.entries@);
        }
        while i > 0
            invariant
                i <= self.entries.len(),
                wanted@ == name@,
                self@.contains_key(name@) == entries_map(self.entries@.take(i as int)).contains_key(
                    name@,
                ),
                self@.contains_key(name@) ==> self@[name@] == entries_map(
                    self.entries@.take(i as int),
                )[name@],
            decreases i,
        {
            proof {
                assert(self.entries@.take(i as int).drop_last() =~= self.entries@.take(i - 1));
            }
            i -= 1;
            if self.entries[i].0 == wanted {
                return Some(&self.entries[i].1);
            }
        }
        None
    }
}

/// Where the first `}}` at or behind `from` starts; the length of the text
/// where there is none.
pub open spec fn closing(t: Seq<char>, from: int) -> int
    decreases t.len() - from,
{
    if from < 0 || from + 1 >= t.len() {
        t.len() as int
    } else if t[from] == '}' && t[from + 1] == '}' {
        from
    } else {
        closing(t, from + 1)
    }
}

/// The text of `t` from `from` on with its patterns resolved, and the names
/// that `vars` does not hold, in the order of their patterns. A pattern is
/// `{{`, a name, and the first `}}` behind it. A pattern with an empty name
/// and an opening `{{` that is never closed stay as they are; so does a
/// pattern whose name is not known.
pub open spec fn substituted(t: Seq<char>, vars: Map<Seq<char>, Seq<char>>, from: int) -> (
    Seq<char>,
    Seq<Seq<char>>,
)
    decreases t.len() - from,
{
    if from < 0 || from >= t.len() {
        (Seq::empty(), Seq::empty())
    } else if t[from] == '{' && from + 1 < t.len() && t[from + 1] == '{' {
        let end = closing(t, from + 2);
        if end < from + 2 || end + 1 >= t.len() {
            (t.subrange(from, t.len() as int), Seq::empty())
        } else {
            let name = t.subrange(from + 2, end);
            let rest = substituted(t, vars, end + 2);
            if name.len() > 0 && vars.contains_key(name) {
                (vars[name] + rest.0, rest.1)
            } else if name.len() > 0 {
                (t.subrange(from, end + 2) + rest.0, seq![name] + rest.1)
            } else {
                (t.subrange(from, end + 2) + rest.0, rest.1)
            }
        }
    } else {
        let rest = substituted(t, vars, from + 1);
        (seq![t[from]] + rest.0, rest.1)
    }
}

/// `closing` lies between its start and the end of the text.
pub proof fn lemma_closing_bounds(t: Seq<char>, from: int)
    requires
        0 <= from,
    ensures
        closing(t, from) >= from || closing(t, from) == t.len(),
        closing(t, from) <= t.len(),
        closing(t, from) < t.len() ==> closing(t, from) + 1 < t.len(),
    decreases t.len() - from,
{
    if from + 1 < t.len() && !(t[from] == '}' && t[from + 1] == '}') {
        lemma_closing_bounds(t, from + 1);
    }
}

/// Replaces each `{{name}}` in `template` by the value of `name` in
/// `variables`. Returns the text, and the names that were not found.
pub fn substitute(template: &str, variables: &Variables) -> (r: (String, Vec<String>))
    ensures
        r.0@ == substituted(template@, variables@, 0).0,
        strings_view(r.1@) == substituted(template@, variables@, 0).1,
{
    let t = to_chars(template);
    let n = t.len();
    let mut out: Vec<char> = Vec::new();
    let mut unresolved: Vec<String> = Vec::new();
    let mut i: usize = 0;
    let ghost whole = substituted(t@, variables@, 0);
    while i < n
        invariant
            i <= n,
            n == t.len(),
            t@ == template@,
            whole == substituted(t@, variables@, 0),
            out@ + substituted(t@, variables@, i as int).0 == whole.0,
            strings_view(unresolved@) + substituted(t@, variables@, i as int).1 == whole.1,
        decreases n - i,
    {
        let c = t[i];
        if c == '{' && i + 1 < n && t[i + 1] == '{' {
            let mut j: usize = i + 2;
            let mut closed = false;
            while j < n - 1
                invariant_except_break
                    !closed,
                    closing(t@, i + 2) == closing(t@, j as int),
                invariant
                    i + 2 <= j <= n,
                    n == t.len(),
                ensures
                    i + 2 <= j <= n,
                    closed ==> j + 1 < n && closing(t@, i + 2) == j,
                    !closed ==> closing(t@, i + 2) == n,
                decreases n - j,
            {
                if t[j] == '}' && t[j + 1] == '}' {
                    closed = true;
                    break ;
                }
                j += 1;
            }
            if !closed {
                let ghost held = out@;
                let mut k: usize = i;
                while k < n
                    invariant
                        i <= k <= n,
                        n == t.len(),
                        out@ == held + t@.subrange(i as int, k as int),
                    decreases n - k,
                {
                    out.push(t[k]);
                    k += 1;
                }
                proof {
                    assert(out@ + Seq::<char>::empty() =~= held + t@.subrange(i as int, n as int));
                    assert(strings_view(unresolved@) + Seq::<Seq<char>>::empty() =~= strings_view(
                        unresolved@,
                    ));
                    assert(substituted(t@, variables@, n as int).0 =~= Seq::<char>::empty());
                }
                i = n;
            } else {
                let name = slice_chars(&t, i + 2, j);
                let name_text = from_chars(&name);
                let ghost held = out@;
                let ghost names = strings_view(unresolved@);
                let ghost rest = substituted(t@, variables@, j + 2);
                let found = if name.len() > 0 {
                    variables.get(name_text.as_str())
                } else {
                    None
                };
                match found {
                    Some(value) => {
                        let v = to_chars(value.as_str());
                        let mut k: usize = 0;
                        while k < v.len()
                            invariant
                                k <= v.len(),
                                out@ == held + v@.take(k as int),
                            decreases v.len() - k,
                        {
                            out.push(v[k]);
                            k += 1;
                        }
                        proof {
                            assert(v@.take(k as int) =~= v@);
                            assert(out@ + rest.0 =~= held + (v@ + rest.0));
                        }
                    },
                    None => {
                        let mut k: usize = i;
                        while k < j + 2
                            invariant
                                i <= k <= j + 2,
                                j + 2 <= n,
                                n == t.len(),
                                out@ == held + t@.subrange(i as int, k as int),
                            decreases j + 2 - k,
                        {
                            out.push(t[k]);
                            k += 1;
                        }
                        proof {
                            assert(out@ + rest.0 =~= held + (t@.subrange(i as int, j + 2) + rest.0));
                        }
                        if name.len() > 0 {
                            unresolved.push(name_text);
                            proof {
                                assert(strings_view(unresolved@) =~= names.push(name@));
                                assert(strings_view(unresolved@) + rest.1 =~= names + (seq![name@]
                                    + rest.1));
                            }
                        }
                    },
                }
                i = j + 2;
            }
        } else {
            let ghost held = out@;
            let ghost rest = substituted(t@, variables@, i + 1);
            out.push(c);
            proof {
                assert(out@ + rest.0 =~= held + (seq![c] + rest.0));
            }
            i += 1;
        }
    }
    proof {
        assert(out@ + Seq::<char>::empty() =~= out@);
        assert(strings_view(unresolved@) + Seq::<Seq<char>>::empty() =~= strings_view(unresolved@));
    }
    (from_chars(&out), unresolved)
}

/// The map of the enabled variables among `values`; of two with one key the
/// later counts.
pub open spec fn enabled_map(values: Seq<EnvironmentVariable>) -> Map<Seq<char>, Seq<char>>
    decreases values.len(),
{
    if values.len() == 0 {
        Map::empty()
    } else if values.last().enabled {
        enabled_map(values.drop_last()).insert(values.last().key@, values.last().value@)
    } else {
        enabled_map(values.drop_last())
    }
}

/// The enabled variables of an environment, as a lookup map; none without
/// an environment.
pub fn resolve_variables(env: Option<&Environment>) -> (vars: Variables)
    ensures
        vars@ == match env {
            Some(e) => enabled_map(e.values@),
            None => Map::<Seq<char>, Seq<char>>::empty(),
        },
{
    let mut vars = Variables::new();
    match env {
        Some(e) => {
            let mut i: usize = 0;
            proof {
                assert(e.values@.take(0) =~= Seq::<EnvironmentVariable>::empty());
            }
            while i < e.values.len()
                invariant
                    i <= e.values.len(),
                    vars@ == enabled_map(e.values@.take(i as int)),
                decreases e.values.len() - i,
            {
                proof {
                    assert(e.values@.take(i + 1).drop_last() =~= e.values@.take(i as int));
                }
                if e.values[i].enabled {
                    vars.insert(e.values[i].key.clone(), e.values[i].value.clone());
                }
                i += 1;
            }
            proof {
                assert(e.values@.take(i as int) =~= e.values@);
            }
        },
        None => {},
    }
    vars
}

} // verus!
