use vstd::prelude::*;
use crate::text::{
    chars_of, ends_with, find_char, first_at, has_char, has_suffix, same_chars, slice_of,
    string_of,
};

verus! {

/// Position of the first `[@` in `s` at or after `from`, or `s.len()` if
/// there is none.
pub open spec fn first_marker(s: Seq<char>, from: int) -> int
    decreases s.len() - from,
{
    if from < 0 || from + 1 >= s.len() {
        s.len() as int
    } else if s[from] == '[' && s[from + 1] == '@' {
        from
    } else {
        first_marker(s, from + 1)
    }
}

/// `s` without one pair of surrounding quotes, single or double, if it has
/// one.
pub open spec fn unquoted(s: Seq<char>) -> Seq<char> {
    if s.len() >= 2 && s[0] == s[s.len() - 1] && (s[0] == '\'' || s[0] == '"') {
        s.subrange(1, s.len() - 1)
    } else {
        s
    }
}

/// What a pattern string means: the path suffix, and the attribute that the
/// element must carry, if the pattern names one.
///
/// A pattern with a predicate has the shape `path[@name=value]`: the text
/// before the first `[@` is the path, the text between it and the next `]`
/// is split at its first `=` into the attribute's name and its value, and the
/// value loses one pair of surrounding quotes. Any other string is a path
/// and nothing more.
pub open spec fn parsed(s: Seq<char>) -> (Seq<char>, Option<(Seq<char>, Seq<char>)>) {
    let open = first_marker(s, 0);
    let close = first_at(s, ']', open + 2);
    let inner = s.subrange(open + 2, close);
    let eq = first_at(inner, '=', 0);
    if open < s.len() && close < s.len() && eq < inner.len() {
        (
            s.subrange(0, open),
            Some((inner.subrange(0, eq), unquoted(inner.subrange(eq + 1, inner.len() as int)))),
        )
    } else {
        (s, None)
    }
}

/// What a parsed pattern holds, as mathematical values.
pub open spec fn pattern_view(p: (String, Option<(String, String)>)) -> (
    Seq<char>,
    Option<(Seq<char>, Seq<char>)>,
) {
    (p.0@, p.1.deep_view())
}

fn find_marker(s: &Vec<char>) -> (r: usize)
    ensures
        r == first_marker(s@, 0),
        r <= s.len(),
        r < s.len() ==> r + 2 <= s.len(),
{
    let mut i: usize = 0;
    while s.len() - i > 1
        invariant
            i <= s.len(),
            first_marker(s@, 0) == first_marker(s@, i as int),
        decreases s.len() - i,
    {
        if s[i] == '[' && s[i + 1] == '@' {
            return i;
        }
        i += 1;
    }
    s.len()
}

/// Splits a pattern into its path suffix and its attribute predicate.
pub fn parse_pattern(pattern: &str) -> (r: (String, Option<(String, String)>))
    ensures
        pattern_view(r) == parsed(pattern@),
{
    let s = chars_of(pattern);
    let n = s.len();
    let open = find_marker(&s);
    if open < n {
        let close = find_char(&s, ']', open + 2);
        if close < n {
            let inner = slice_of(&s, open + 2, close);
            let eq = find_char(&inner, '=', 0);
            if eq < inner.len() {
                let m = inner.len();
                let name = string_of(&inner, 0, eq);
                let quoted = m - eq >= 3 && inner[eq + 1] == inner[m - 1] && (inner[eq + 1] == '\''
                    || inner[eq + 1] == '"');
                let value = if quoted {
                    string_of(&inner, eq + 2, m - 1)
                } else {
                    string_of(&inner, eq + 1, m)
                };
                let path = string_of(&s, 0, open);
                proof {
                    let rest = inner@.subrange(eq + 1, m as int);
                    if quoted {
                        assert(rest.subrange(1, rest.len() - 1) == inner@.subrange(
                            eq + 2,
                            m - 1,
                        ));
                    }
                    assert(value@ == unquoted(rest));
                }
                return (path, Some((name, value)));
            }
        }
    }
    (string_of(&s, 0, n), None)
}

/// When an element at `path`, named `name`, satisfies the path suffix
/// `suffix`: the path is the suffix, or ends with the suffix after a `/`, or
/// the suffix is a single segment and is the element's name.
pub open spec fn suffix_matches(path: Seq<char>, name: Seq<char>, suffix: Seq<char>) -> bool {
    ||| path == suffix
    ||| ends_with(path, seq!['/'] + suffix)
    ||| (!suffix.contains('/') && name == suffix)
}

/// True iff the element at `current_path`, named `name`, satisfies the path
/// suffix `pattern`. Only whole segments count: `tem` does not match
/// `root/item`.
pub fn path_matches(current_path: &str, name: &str, pattern: &str) -> (r: bool)
    ensures
        r == suffix_matches(current_path@, name@, pattern@),
{
    let path = chars_of(current_path);
    let suffix = chars_of(pattern);
    if same_chars(&path, &suffix) {
        return true;
    }
    let mut tail: Vec<char> = Vec::new();
    tail.push('/');
    let mut i: usize = 0;
    while i < suffix.len()
        invariant
            i <= suffix.len(),
            tail@ == seq!['/'] + suffix@.take(i as int),
        decreases suffix.len() - i,
    {
        tail.push(suffix[i]);
        i += 1;
    }
    assert(suffix@.take(suffix.len() as int) == suffix@);
    if has_suffix(&path, &tail) {
        return true;
    }
    if has_char(&suffix, '/') {
        return false;
    }
    let own = chars_of(name);
    same_chars(&own, &suffix)
}

/// When an attribute list satisfies a predicate: there is none, or the list
/// holds a pair with exactly that name and that value.
pub open spec fn filter_matches(
    attributes: Seq<(Seq<char>, Seq<char>)>,
    filter: Option<(Seq<char>, Seq<char>)>,
) -> bool {
    match filter {
        Some(f) => attributes.contains(f),
        None => true,
    }
}

} // verus!
