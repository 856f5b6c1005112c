use vstd::prelude::*;
use vstd::string::StringExecFns;
use crate::xml::element::{ElementView, XmlElement};
use crate::xml::event::{EventKind, EventView, XmlEvent};
use crate::xml::markup::{parse_attributes, tag_attributes, trim, trimmed, unescape, unescaped};

verus! {

/// The items that are `Some`, in order.
pub open spec fn kept(items: Seq<Option<(Seq<char>, Seq<char>)>>) -> Seq<(Seq<char>, Seq<char>)>
    decreases items.len(),
{
    if items.len() == 0 {
        Seq::empty()
    } else {
        match items.last() {
            Some(a) => kept(items.drop_last()).push(a),
            None => kept(items.drop_last()),
        }
    }
}

/// The attributes of a tag whose name is followed by `body`: what the
/// attribute iterator yields, without the items it reports as faulty.
pub open spec fn attributes_in(body: Seq<char>) -> Seq<(Seq<char>, Seq<char>)> {
    kept(tag_attributes(body))
}

/// The text that character data `body` gives an element: unescaped (empty
/// where that fails) and trimmed.
pub open spec fn text_in(body: Seq<char>) -> Seq<char> {
    trimmed(
        match unescaped(body) {
            Some(t) => t,
            None => Seq::empty(),
        },
    )
}

/// The names of the elements that are open after `events`, outermost first.
/// A close tag closes the innermost open element, if there is one.
pub open spec fn open_names(events: Seq<EventView>) -> Seq<Seq<char>>
    decreases events.len(),
{
    if events.len() == 0 {
        Seq::empty()
    } else {
        let before = open_names(events.drop_last());
        match events.last().kind {
            EventKind::Start => before.push(events.last().name),
            EventKind::End => if before.len() > 0 {
                before.drop_last()
            } else {
                before
            },
            _ => before,
        }
    }
}

/// The names joined by `/`.
pub open spec fn joined(names: Seq<Seq<char>>) -> Seq<char>
    decreases names.len(),
{
    if names.len() == 0 {
        Seq::empty()
    } else if names.len() == 1 {
        names[0]
    } else {
        joined(names.drop_last()) + seq!['/'] + names.last()
    }
}

/// The element that the tag `tag` stands for when `ancestors` are open.
pub open spec fn element_seen(ancestors: Seq<Seq<char>>, tag: EventView) -> ElementView {
    ElementView {
        path: joined(ancestors.push(tag.name)),
        name: tag.name,
        attributes: attributes_in(tag.body),
        text: None,
        depth: ancestors.len(),
    }
}

/// `elements` after character data `text` was seen: the text goes to the
/// last element, unless the text is empty or that element has text already.
pub open spec fn with_text(elements: Seq<ElementView>, text: Seq<char>) -> Seq<ElementView> {
    if text.len() > 0 && elements.len() > 0 && elements.last().text is None {
        elements.drop_last().push(ElementView { text: Some(text), ..elements.last() })
    } else {
        elements
    }
}

/// The elements of a document, in document order, each with its path, its
/// depth and the first text that followed its tag.
pub open spec fn index_of(events: Seq<EventView>) -> Seq<ElementView>
    decreases events.len(),
{
    if events.len() == 0 {
        Seq::empty()
    } else {
        let before = events.drop_last();
        let last = events.last();
        match last.kind {
            EventKind::Start | EventKind::Empty => index_of(before).push(
                element_seen(open_names(before), last),
            ),
            EventKind::Text => with_text(index_of(before), text_in(last.body)),
            _ => index_of(before),
        }
    }
}

/// The attributes of a tag whose name is followed by `body`.
pub fn attributes_of(body: &str) -> (r: Vec<(String, String)>)
    ensures
        r.deep_view() == attributes_in(body@),
{
    let items = parse_attributes(body);
    let mut r: Vec<(String, String)> = Vec::new();
    let mut i: usize = 0;
    while i < items.len()
        invariant
            i <= items.len(),
            r.deep_view() == kept(items.deep_view().take(i as int)),
        decreases items.len() - i,
    {
        let ghost before = r.deep_view();
        assert(items.deep_view().take(i + 1).drop_last() == items.deep_view().take(i as int));
        assert(items.deep_view().take(i + 1).last() == items[i as int].deep_view());
        if let Some(pair) = &items[i] {
            r.push((pair.0.clone(), pair.1.clone()));
            assert(r.deep_view() == before.push((pair.0@, pair.1@)));
        }
        i += 1;
    }
    assert(items.deep_view().take(items.len() as int) == items.deep_view());
    r
}

/// The path of an element named `name` under the open elements `stack`.
pub fn path_of(stack: &Vec<String>, name: &str) -> (r: String)
    ensures
        r@ == joined(stack.deep_view().push(name@)),
{
    let mut out = String::new();
    let mut i: usize = 0;
    while i < stack.len()
        invariant
            i <= stack.len(),
            out@ == if i == 0 {
                Seq::<char>::empty()
            } else {
                joined(stack.deep_view().take(i as int)) + seq!['/']
            },
        decreases stack.len() - i,
    {
        let ghost names = stack.deep_view();
        assert(names.take(i + 1).drop_last() == names.take(i as int));
        assert(names.take(i + 1).last() == stack[i as int]@);
        out.append(stack[i].as_str());
        out.push('/');
        i += 1;
    }
    out.append(name);
    proof {
        let names = stack.deep_view();
        let all = names.push(name@);
        assert(names.take(stack.len() as int) == names);
        assert(all.drop_last() == names);
    }
    out
}

/// Records character data `raw` against the last element of `elements`:
/// the text is unescaped and trimmed, and kept if it is not empty and the
/// element has no text yet.
pub fn attach_text(elements: &mut Vec<XmlElement>, raw: &str)
    ensures
        final(elements).deep_view() == with_text(old(elements).deep_view(), text_in(raw@)),
{
    let plain = match unescape(raw) {
        Some(t) => t,
        None => String::new(),
    };
    let text = trim(plain.as_str());
    let n = elements.len();
    if !text.is_empty() && n > 0 && elements[n - 1].text.is_none() {
        let ghost before = elements.deep_view();
        let mut last = elements.pop().unwrap();
        assert(elements.deep_view() == before.drop_last());
        last.text = Some(String::from_str(text));
        elements.push(last);
        assert(elements.deep_view() == before.drop_last().push(last@));
    }
}

/// Walks the events of a document once and lists its elements.
pub fn index_events(events: &Vec<XmlEvent>) -> (r: Vec<XmlElement>)
    ensures
        r.deep_view() == index_of(events.deep_view()),
{
    let mut elements: Vec<XmlElement> = Vec::new();
    let mut stack: Vec<String> = Vec::new();
    let mut i: usize = 0;
    while i < events.len()
        invariant
            i <= events.len(),
            stack.deep_view() == open_names(events.deep_view().take(i as int)),
            elements.deep_view() == index_of(events.deep_view().take(i as int)),
        decreases events.len() - i,
    {
        let ghost all = events.deep_view();
        let ghost seen = elements.deep_view();
        let ghost names = stack.deep_view();
        assert(all.take(i + 1).drop_last() == all.take(i as int));
        assert(all.take(i + 1).last() == events[i as int]@);
        let event = &events[i];
        match event.kind {
            EventKind::Start | EventKind::Empty => {
                let element = XmlElement {
                    path: path_of(&stack, event.name.as_str()),
                    name: event.name.clone(),
                    attributes: attributes_of(event.body.as_str()),
                    text: None,
                    depth: stack.len(),
                };
                elements.push(element);
                assert(elements.deep_view() == seen.push(element@));
                if event.kind == EventKind::Start {
                    stack.push(event.name.clone());
                    assert(stack.deep_view() == names.push(event.name@));
                }
            },
            EventKind::Text => {
                attach_text(&mut elements, event.body.as_str());
            },
            EventKind::End => {
                if stack.len() > 0 {
                    stack.pop();
                    assert(stack.deep_view() == names.drop_last());
                }
            },
            _ => {},
        }
        i += 1;
    }
    assert(events.deep_view().take(events.len() as int) == events.deep_view());
    elements
}

} // verus!
