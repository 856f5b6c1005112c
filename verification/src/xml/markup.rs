use vstd::prelude::*;

verus! {

/// The items that quick_xml's attribute iterator yields for the text that
/// follows a tag's name, in order: `Some` of a key and its raw value, or
/// `None` where the iterator reports a malformed or repeated attribute.
pub uninterp spec fn tag_attributes(body: Seq<char>) -> Seq<Option<(Seq<char>, Seq<char>)>>;

/// `quick_xml::events::attributes::Attributes::new` on the text after a
/// tag's name, walked to its end. The contract gives the items a name; each
/// item is handed out as owned text, a faulty one as `None`.
#[verifier::external_body]
pub(crate) fn parse_attributes(body: &str) -> (r: Vec<Option<(String, String)>>)
    ensures
        r.deep_view() == tag_attributes(body@),
{
    quick_xml::events::attributes::Attributes::new(body, 0)
        .map(|item| item.ok().map(|a| (
            String::from_utf8_lossy(a.key.as_ref()).into_owned(),
            String::from_utf8_lossy(&a.value).into_owned(),
        )))
        .collect()
}

/// What quick_xml's `unescape` makes of escaped character data: the text
/// with its entity references resolved, or `None` where it refuses one.
pub uninterp spec fn unescaped(raw: Seq<char>) -> Option<Seq<char>>;

/// `quick_xml::escape::unescape`. The contract gives the result a name; an
/// error is handed out as `None`.
#[verifier::external_body]
pub(crate) fn unescape(raw: &str) -> (r: Option<String>)
    ensures
        r.deep_view() == unescaped(raw@),
{
    quick_xml::escape::unescape(raw).ok().map(|s| s.into_owned())
}

/// `s` without its leading and trailing whitespace, as `str::trim` tells
/// whitespace from the rest.
pub uninterp spec fn trimmed(s: Seq<char>) -> Seq<char>;

/// `str::trim`. The contract gives the result a name.
#[verifier::external_body]
pub(crate) fn trim(s: &str) -> (r: &str)
    ensures
        r@ == trimmed(s@),
{
    s.trim()
}

/// What stands for one character in escaped text.
pub open spec fn escaped_char(c: char) -> Seq<char> {
    if c == '<' {
        seq!['&', 'l', 't', ';']
    } else if c == '>' {
        seq!['&', 'g', 't', ';']
    } else if c == '&' {
        seq!['&', 'a', 'm', 'p', ';']
    } else if c == '\'' {
        seq!['&', 'a', 'p', 'o', 's', ';']
    } else if c == '"' {
        seq!['&', 'q', 'u', 'o', 't', ';']
    } else {
        seq![c]
    }
}

/// `s` with each of `<`, `>`, `&`, `'` and `"` replaced by its entity
/// reference.
pub open spec fn escaped(s: Seq<char>) -> Seq<char>
    decreases s.len(),
{
    if s.len() == 0 {
        Seq::empty()
    } else {
        escaped(s.drop_last()) + escaped_char(s.last())
    }
}

/// `quick_xml::escape::escape`. The contract says what its documentation
/// says: the five special characters become entity references, every
/// other character stays.
#[verifier::external_body]
pub(crate) fn escape(s: &str) -> (r: String)
    ensures
        r@ == escaped(s@),
{
    quick_xml::escape::escape(s).into_owned()
}

} // verus!
