use vstd::prelude::*;
use vstd::string::StringExecFns;
use crate::text::chars_of;

verus! {

/// One element of a document, as a traversal saw it.
#[derive(Clone, Debug)]
pub struct XmlElement {
    /// Names of the element's ancestors and its own, joined by `/`.
    pub path: String,
    /// The element's own tag name.
    pub name: String,
    /// Attributes in document order; a name may occur twice.
    pub attributes: Vec<(String, String)>,
    /// First run of character data that is not all whitespace, if any.
    pub text: Option<String>,
    /// Nesting depth; a root element has depth 0.
    pub depth: usize,
}

/// Mathematical value of an [`XmlElement`].
pub struct ElementView {
    pub path: Seq<char>,
    pub name: Seq<char>,
    pub attributes: Seq<(Seq<char>, Seq<char>)>,
    pub text: Option<Seq<char>>,
    pub depth: nat,
}

impl View for XmlElement {
    type V = ElementView;

    open spec fn view(&self) -> ElementView {
        ElementView {
            path: self.path@,
            name: self.name@,
            attributes: self.attributes.deep_view(),
            text: self.text.deep_view(),
            depth: self.depth as nat,
        }
    }
}

impl DeepView for XmlElement {
    type V = ElementView;

    open spec fn deep_view(&self) -> ElementView {
        self@
    }
}

/// Longest text shown in full by [`XmlElement::display`], in characters.
pub const TEXT_PREVIEW_CHARS: usize = 50;

/// One attribute as shown: `name="value"`.
pub open spec fn attribute_shown(a: (Seq<char>, Seq<char>)) -> Seq<char> {
    a.0 + seq!['=', '"'] + a.1 + seq!['"']
}

/// The first `n` attributes as shown, separated by `, `.
pub open spec fn attributes_shown(attributes: Seq<(Seq<char>, Seq<char>)>, n: nat) -> Seq<char>
    decreases n,
{
    if n == 0 {
        Seq::empty()
    } else if n == 1 {
        attribute_shown(attributes[0])
    } else {
        attributes_shown(attributes, (n - 1) as nat) + seq![',', ' '] + attribute_shown(
            attributes[n - 1],
        )
    }
}

/// `s` with each line feed written as a backslash and the letter `n`.
pub open spec fn newlines_shown(s: Seq<char>) -> Seq<char>
    decreases s.len(),
{
    if s.len() == 0 {
        Seq::empty()
    } else if s.last() == '\n' {
        newlines_shown(s.drop_last()) + seq!['\\', 'n']
    } else {
        newlines_shown(s.drop_last()).push(s.last())
    }
}

/// The text as previewed: whole if it has at most 50 characters, else its
/// first 50 characters and three dots.
pub open spec fn preview(text: Seq<char>) -> Seq<char> {
    if text.len() > TEXT_PREVIEW_CHARS {
        text.take(TEXT_PREVIEW_CHARS as int) + seq!['.', '.', '.']
    } else {
        text
    }
}

/// The display form of an element: its path, then ` [a="1", b="2"]` if it
/// has attributes, then `: "text"` if it has text.
pub open spec fn shown(e: ElementView) -> Seq<char> {
    e.path + (if e.attributes.len() == 0 {
        Seq::empty()
    } else {
        seq![' ', '['] + attributes_shown(e.attributes, e.attributes.len()) + seq![']']
    }) + (match e.text {
        Some(t) => seq![':', ' ', '"'] + newlines_shown(preview(t)) + seq!['"'],
        None => Seq::empty(),
    })
}

impl XmlElement {
    /// A copy of the element.
    pub fn copy(&self) -> (e: XmlElement)
        ensures
            e@ == self@,
    {
        let mut attributes: Vec<(String, String)> = Vec::new();
        let mut i: usize = 0;
        while i < self.attributes.len()
            invariant
                i <= self.attributes.len(),
                attributes.deep_view() == self.attributes.deep_view().take(i as int),
            decreases self.attributes.len() - i,
        {
            let ghost before = attributes.deep_view();
            let ghost all = self.attributes.deep_view();
            let pair = &self.attributes[i];
            attributes.push((pair.0.clone(), pair.1.clone()));
            assert(attributes.deep_view() == before.push((pair.0@, pair.1@)));
            assert(all.take(i + 1) == all.take(i as int).push(all[i as int]));
            i += 1;
        }
        assert(self.attributes.deep_view().take(self.attributes.len() as int)
            == self.attributes.deep_view());
        let text = match &self.text {
            Some(t) => Some(t.clone()),
            None => None,
        };
        XmlElement {
            path: self.path.clone(),
            name: self.name.clone(),
            attributes,
            text,
            depth: self.depth,
        }
    }

    /// Formats the element for a reader: path, attributes, text preview.
    pub fn display(&self) -> (s: String)
        ensures
            s@ == shown(self@),
    {
        let mut out = self.path.clone();
        let n = self.attributes.len();
        if n > 0 {
            out.push(' ');
            out.push('[');
            let ghost head = out@;
            let mut i: usize = 0;
            while i < n
                invariant
                    i <= n == self.attributes.len(),
                    out@ == head + attributes_shown(self.attributes.deep_view(), i as nat),
                decreases n - i,
            {
                if i > 0 {
                    out.push(',');
                    out.push(' ');
                }
                let pair = &self.attributes[i];
                assert(self.attributes.deep_view()[i as int] == (pair.0@, pair.1@));
                out.append(pair.0.as_str());
                out.push('=');
                out.push('"');
                out.append(pair.1.as_str());
                out.push('"');
                i += 1;
            }
            out.push(']');
        }
        if let Some(t) = &self.text {
            out.push(':');
            out.push(' ');
            out.push('"');
            let chars = chars_of(t.as_str());
            let ghost head = out@;
            let long = chars.len() > TEXT_PREVIEW_CHARS;
            let end = if long { TEXT_PREVIEW_CHARS } else { chars.len() };
            let mut i: usize = 0;
            while i < end
                invariant
                    i <= end <= chars.len(),
                    out@ == head + newlines_shown(chars@.take(i as int)),
                decreases end - i,
            {
                assert(chars@.take(i + 1).drop_last() == chars@.take(i as int));
                if chars[i] == '\n' {
                    out.push('\\');
                    out.push('n');
                } else {
                    out.push(chars[i]);
                }
                i += 1;
            }
            if long {
                let ghost cut = chars@.take(end as int);
                out.push('.');
                out.push('.');
                out.push('.');
                proof {
                    let a = cut.push('.');
                    let b = a.push('.');
                    let c = b.push('.');
                    assert(c == cut + seq!['.', '.', '.']);
                    assert(c.drop_last() == b);
                    assert(b.drop_last() == a);
                    assert(a.drop_last() == cut);
                    assert(newlines_shown(a) == newlines_shown(cut).push('.'));
                    assert(newlines_shown(b) == newlines_shown(a).push('.'));
                    assert(newlines_shown(c) == newlines_shown(b).push('.'));
                }
            } else {
                assert(chars@.take(end as int) == chars@);
            }
            out.push('"');
        }
        out
    }
}

} // verus!
