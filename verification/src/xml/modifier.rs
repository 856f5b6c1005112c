use vstd::prelude::*;
use crate::xml::element::{ElementView, XmlElement};
use crate::error::ZError;
use crate::xml::index::{index_events, index_of};
use crate::xml::pattern::{filter_matches, parse_pattern, parsed, path_matches, suffix_matches};
use crate::xml::reader::{document_events, document_ok, read_events};
use crate::xml::render::{render_events, rendered_all};
use crate::xml::rewrite::{
    delete_in, delete_of, insert_in, insert_of, new_child, new_child_events, set_attribute_in,
    set_attribute_of, update_text_in, update_text_of,
};
use crate::xml::target::check_attr_filter;

verus! {

/// Most elements that one query hands back.
pub const MAX_XML_ELEMENTS: usize = 10;

/// True iff the element satisfies the pattern.
pub open spec fn element_fits(
    e: ElementView,
    pattern: (Seq<char>, Option<(Seq<char>, Seq<char>)>),
) -> bool {
    suffix_matches(e.path, e.name, pattern.0) && filter_matches(e.attributes, pattern.1)
}

/// The elements that satisfy the pattern, in their order.
pub open spec fn matching(
    elements: Seq<ElementView>,
    pattern: (Seq<char>, Option<(Seq<char>, Seq<char>)>),
) -> Seq<ElementView>
    decreases elements.len(),
{
    if elements.len() == 0 {
        Seq::empty()
    } else if element_fits(elements.last(), pattern) {
        matching(elements.drop_last(), pattern).push(elements.last())
    } else {
        matching(elements.drop_last(), pattern)
    }
}

/// At most the first `n` of the elements.
pub open spec fn capped(elements: Seq<ElementView>, n: nat) -> Seq<ElementView> {
    if elements.len() > n {
        elements.take(n as int)
    } else {
        elements
    }
}

/// Index of the first element at or after `from` whose path is `path`, or
/// `elements.len()` if there is none.
pub open spec fn first_at_path(elements: Seq<ElementView>, path: Seq<char>, from: int) -> int
    decreases elements.len() - from,
{
    if from < 0 || from >= elements.len() {
        elements.len() as int
    } else if elements[from].path == path {
        from
    } else {
        first_at_path(elements, path, from + 1)
    }
}

/// The first element whose path is exactly `path`, if there is one.
pub open spec fn element_at_path(elements: Seq<ElementView>, path: Seq<char>) -> Option<
    ElementView,
> {
    let i = first_at_path(elements, path, 0);
    if i < elements.len() {
        Some(elements[i])
    } else {
        None
    }
}

/// The elements of `elements` that satisfy the pattern, at most
/// [`MAX_XML_ELEMENTS`] of them.
pub fn select(elements: &Vec<XmlElement>, pattern: &(String, Option<(String, String)>)) -> (r: Vec<
    XmlElement,
>)
    ensures
        r.deep_view() == capped(
            matching(elements.deep_view(), crate::xml::pattern::pattern_view(*pattern)),
            MAX_XML_ELEMENTS as nat,
        ),
{
    let ghost all = elements.deep_view();
    let ghost p = crate::xml::pattern::pattern_view(*pattern);
    let mut found: usize = 0;
    let mut r: Vec<XmlElement> = Vec::new();
    let mut i: usize = 0;
    while i < elements.len()
        invariant
            i <= elements.len(),
            all == elements.deep_view(),
            p == crate::xml::pattern::pattern_view(*pattern),
            found == matching(all.take(i as int), p).len(),
            found <= i,
            r.deep_view() == capped(matching(all.take(i as int), p), MAX_XML_ELEMENTS as nat),
        decreases elements.len() - i,
    {
        assert(all.take(i + 1).drop_last() == all.take(i as int));
        assert(all.take(i + 1).last() == elements[i as int]@);
        let e = &elements[i];
        let fits = path_matches(e.path.as_str(), e.name.as_str(), pattern.0.as_str())
            && check_attr_filter(&e.attributes, &pattern.1);
        if fits {
            if found < MAX_XML_ELEMENTS {
                let ghost before = r.deep_view();
                r.push(e.copy());
                assert(r.deep_view() == before.push(e@));
            } else {
                let ghost m = matching(all.take(i as int), p);
                assert(m.push(e@).take(MAX_XML_ELEMENTS as int) == m.take(MAX_XML_ELEMENTS as int));
            }
            found += 1;
        }
        i += 1;
    }
    assert(all.take(elements.len() as int) == all);
    r
}

/// The first element of `elements` whose path is exactly `path`.
pub fn find_at_path(elements: &Vec<XmlElement>, path: &str) -> (r: Option<XmlElement>)
    ensures
        r.deep_view() == element_at_path(elements.deep_view(), path@),
{
    let wanted = path.to_owned();
    let mut i: usize = 0;
    while i < elements.len()
        invariant
            i <= elements.len(),
            wanted@ == path@,
            first_at_path(elements.deep_view(), path@, 0) == first_at_path(
                elements.deep_view(),
                path@,
                i as int,
            ),
        decreases elements.len() - i,
    {
        assert(elements.deep_view()[i as int] == elements[i as int]@);
        if elements[i].path == wanted {
            return Some(elements[i].copy());
        }
        i += 1;
    }
    None
}

/// What an edit owes its caller. `outcome` is what the edit makes of the
/// document's events. On a document that is not well-formed the edit fails
/// and the text stays. Otherwise it reports whether an element was found:
/// if so the text becomes the new events written out, if not it stays.
pub open spec fn edit_done(
    before: Seq<char>,
    after: Seq<char>,
    outcome: Option<Seq<crate::xml::event::EventView>>,
    r: Result<bool, ZError>,
) -> bool {
    match r {
        Ok(changed) => document_ok(before) && match outcome {
            Some(events) => changed && after == rendered_all(events),
            None => !changed && after == before,
        },
        Err(e) => !document_ok(before) && e is Xml && after == before,
    }
}

/// A document that can be queried and edited, one edit at a time.
pub struct XmlModifier {
    content: String,
}

impl View for XmlModifier {
    type V = Seq<char>;

    closed spec fn view(&self) -> Seq<char> {
        self.content@
    }
}

impl XmlModifier {
    /// A document with the given text.
    pub fn from_string(content: String) -> (r: Self)
        ensures
            r@ == content@,
    {
        XmlModifier { content }
    }

    /// The current text of the document.
    pub fn get_content(&self) -> (r: String)
        ensures
            r@ == self@,
    {
        self.content.clone()
    }

    /// Lists the elements of the document in document order. A document
    /// that is not well-formed gives an error and no elements.
    pub fn get_structure(&self) -> (r: Result<Vec<XmlElement>, ZError>)
        ensures
            match r {
                Ok(elements) => document_ok(self@) && elements.deep_view() == index_of(
                    document_events(self@),
                ),
                Err(e) => !document_ok(self@) && e is Xml,
            },
    {
        match read_events(self.content.as_str()) {
            Ok(events) => Ok(index_events(&events)),
            Err(e) => Err(e),
        }
    }

    /// The elements that satisfy `pattern`, in document order, at most
    /// [`MAX_XML_ELEMENTS`] of them. No match is an empty list, not an
    /// error.
    pub fn query(&self, pattern: &str) -> (r: Result<Vec<XmlElement>, ZError>)
        ensures
            match r {
                Ok(found) => document_ok(self@) && found.deep_view() == capped(
                    matching(index_of(document_events(self@)), parsed(pattern@)),
                    MAX_XML_ELEMENTS as nat,
                ),
                Err(e) => !document_ok(self@) && e is Xml,
            },
    {
        match self.get_structure() {
            Ok(elements) => {
                let pattern = parse_pattern(pattern);
                Ok(select(&elements, &pattern))
            },
            Err(e) => Err(e),
        }
    }

    /// The first element whose path is exactly `path`.
    pub fn get_element(&self, path: &str) -> (r: Result<Option<XmlElement>, ZError>)
        ensures
            match r {
                Ok(found) => document_ok(self@) && found.deep_view() == element_at_path(
                    index_of(document_events(self@)),
                    path@,
                ),
                Err(e) => !document_ok(self@) && e is Xml,
            },
    {
        match self.get_structure() {
            Ok(elements) => Ok(find_at_path(&elements, path)),
            Err(e) => Err(e),
        }
    }

    fn commit(&mut self, outcome: Option<Vec<crate::xml::event::XmlEvent>>) -> (changed: bool)
        ensures
            match outcome.deep_view() {
                Some(events) => changed && final(self)@ == rendered_all(events),
                None => !changed && final(self)@ == old(self)@,
            },
    {
        match outcome {
            Some(events) => {
                self.content = render_events(&events);
                true
            },
            None => false,
        }
    }

    /// Replaces the text of the first element that satisfies the pattern
    /// and takes text. Returns whether one was found; if none, the document
    /// is untouched.
    pub fn update_text(&mut self, path_pattern: &str, new_text: &str) -> (r: Result<bool, ZError>)
        ensures
            edit_done(
                old(self)@,
                final(self)@,
                update_text_of(document_events(old(self)@), parsed(path_pattern@), new_text@),
                r,
            ),
    {
        let events = match read_events(self.content.as_str()) {
            Ok(events) => events,
            Err(e) => {
                return Err(e);
            },
        };
        let pattern = parse_pattern(path_pattern);
        Ok(self.commit(update_text_in(&events, &pattern, new_text)))
    }

    /// Sets an attribute on the first element that satisfies the pattern.
    /// Returns whether one was found; if none, the document is untouched.
    pub fn set_attribute(&mut self, path_pattern: &str, attr_name: &str, attr_value: &str) -> (r:
        Result<bool, ZError>)
        ensures
            edit_done(
                old(self)@,
                final(self)@,
                set_attribute_of(
                    document_events(old(self)@),
                    parsed(path_pattern@),
                    attr_name@,
                    attr_value@,
                ),
                r,
            ),
    {
        let events = match read_events(self.content.as_str()) {
            Ok(events) => events,
            Err(e) => {
                return Err(e);
            },
        };
        let pattern = parse_pattern(path_pattern);
        Ok(self.commit(set_attribute_in(&events, &pattern, attr_name, attr_value)))
    }

    /// Removes the first element that satisfies the pattern, with all it
    /// holds. Returns whether one was found; if none, the document is
    /// untouched.
    pub fn delete_element(&mut self, path_pattern: &str) -> (r: Result<bool, ZError>)
        ensures
            edit_done(
                old(self)@,
                final(self)@,
                delete_of(document_events(old(self)@), parsed(path_pattern@)),
                r,
            ),
    {
        let events = match read_events(self.content.as_str()) {
            Ok(events) => events,
            Err(e) => {
                return Err(e);
            },
        };
        let pattern = parse_pattern(path_pattern);
        Ok(self.commit(delete_in(&events, &pattern)))
    }

    /// Adds a new element as the last child of the first element that
    /// satisfies the pattern. Returns whether it was added; if not, the
    /// document is untouched.
    pub fn insert_element(
        &mut self,
        parent_pattern: &str,
        element_name: &str,
        attributes: &[(String, String)],
        text: Option<&str>,
    ) -> (r: Result<bool, ZError>)
        ensures
            edit_done(
                old(self)@,
                final(self)@,
                insert_of(
                    document_events(old(self)@),
                    parsed(parent_pattern@),
                    new_child(element_name@, attributes.deep_view(), text.deep_view()),
                ),
                r,
            ),
    {
        let events = match read_events(self.content.as_str()) {
            Ok(events) => events,
            Err(e) => {
                return Err(e);
            },
        };
        let pattern = parse_pattern(parent_pattern);
        let child = new_child_events(element_name, attributes, text);
        Ok(self.commit(insert_in(&events, &pattern, child)))
    }
}

} // verus!
