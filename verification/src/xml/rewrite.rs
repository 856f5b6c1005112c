use vstd::prelude::*;
use vstd::string::StringExecFns;
use crate::xml::event::{EventKind, EventView, XmlEvent};
use crate::xml::index::{attributes_in, attributes_of, open_names};
use crate::xml::markup::{escape, escaped};
use crate::xml::pattern::pattern_view;
use crate::xml::target::{
    close_at, depth_at, depth_is_bounded, find_close, find_target, first_target,
    first_target_is_first, open_names_step, splice, spliced, tag_fits, tag_matches,
};

verus! {

/// One attribute as written into a tag: a space, the name, `="`, the value
/// and `"`.
pub open spec fn attribute_written(a: (Seq<char>, Seq<char>)) -> Seq<char> {
    seq![' '] + a.0 + seq!['=', '"'] + a.1 + seq!['"']
}

/// The attributes as written into a tag, in order.
pub open spec fn attributes_written(attributes: Seq<(Seq<char>, Seq<char>)>) -> Seq<char>
    decreases attributes.len(),
{
    if attributes.len() == 0 {
        Seq::empty()
    } else {
        attributes_written(attributes.drop_last()) + attribute_written(attributes.last())
    }
}

/// True iff an attribute of that name is in the list.
pub open spec fn has_key(attributes: Seq<(Seq<char>, Seq<char>)>, name: Seq<char>) -> bool {
    exists|i: int| 0 <= i < attributes.len() && (#[trigger] attributes[i]).0 == name
}

/// The list with the value of every attribute named `name` set to `value`.
pub open spec fn revalued(
    attributes: Seq<(Seq<char>, Seq<char>)>,
    name: Seq<char>,
    value: Seq<char>,
) -> Seq<(Seq<char>, Seq<char>)> {
    Seq::new(
        attributes.len(),
        |i: int|
            if attributes[i].0 == name {
                (name, value)
            } else {
                attributes[i]
            },
    )
}

/// The list after `name` was set to `value`: an attribute of that name
/// keeps its place and gets the value; if there is none, the pair is added
/// at the end.
pub open spec fn with_attribute(
    attributes: Seq<(Seq<char>, Seq<char>)>,
    name: Seq<char>,
    value: Seq<char>,
) -> Seq<(Seq<char>, Seq<char>)> {
    if has_key(attributes, name) {
        revalued(attributes, name, value)
    } else {
        attributes.push((name, value))
    }
}

/// The tag with attribute `name` set to `value`, escaped: same kind and
/// name, its attributes written anew.
pub open spec fn retagged(tag: EventView, name: Seq<char>, value: Seq<char>) -> EventView {
    EventView {
        body: attributes_written(with_attribute(attributes_in(tag.body), name, escaped(value))),
        ..tag
    }
}

/// The events after attribute `name` was set to `value` on the first tag
/// that satisfies the pattern; `None` if no tag does. All other events stay
/// as they are.
pub open spec fn set_attribute_of(
    events: Seq<EventView>,
    pattern: (Seq<char>, Option<(Seq<char>, Seq<char>)>),
    name: Seq<char>,
    value: Seq<char>,
) -> Option<Seq<EventView>> {
    let t = first_target(events, pattern, 0);
    if t < events.len() {
        Some(spliced(events, t, seq![retagged(events[t], name, value)], t + 1))
    } else {
        None
    }
}

fn push_attribute(body: &mut String, name: &str, value: &str)
    ensures
        final(body)@ == old(body)@ + attribute_written((name@, value@)),
{
    body.push(' ');
    body.append(name);
    body.push('=');
    body.push('"');
    body.append(value);
    body.push('"');
    assert(body@ == old(body)@ + (seq![' '] + name@ + seq!['=', '"'] + value@ + seq!['"']));
}

/// The tag `tag` with attribute `attr_name` set to `attr_value`.
pub fn build_element_with_attr(tag: &XmlEvent, attr_name: &str, attr_value: &str) -> (r: XmlEvent)
    ensures
        r@ == retagged(tag@, attr_name@, attr_value@),
{
    let attributes = attributes_of(tag.body.as_str());
    let value = escape(attr_value);
    let ghost old_list = attributes.deep_view();
    let ghost new_list = revalued(old_list, attr_name@, value@);
    let wanted = String::from_str(attr_name);
    let mut body = String::new();
    let mut found = false;
    let mut i: usize = 0;
    while i < attributes.len()
        invariant
            i <= attributes.len(),
            old_list == attributes.deep_view(),
            new_list == revalued(old_list, attr_name@, value@),
            wanted@ == attr_name@,
            body@ == attributes_written(new_list.take(i as int)),
            found == has_key(old_list.take(i as int), attr_name@),
        decreases attributes.len() - i,
    {
        assert(new_list.take(i + 1).drop_last() == new_list.take(i as int));
        assert(old_list[i as int] == (attributes[i as int].0@, attributes[i as int].1@));
        let ghost seen = old_list.take(i as int);
        let ghost next = old_list.take(i + 1);
        if attributes[i].0 == wanted {
            push_attribute(&mut body, attr_name, value.as_str());
            found = true;
            assert(next[i as int].0 == attr_name@);
        } else {
            push_attribute(&mut body, attributes[i].0.as_str(), attributes[i].1.as_str());
            assert(has_key(next, attr_name@) == has_key(seen, attr_name@)) by {
                if has_key(next, attr_name@) {
                    let k = choose|k: int| 0 <= k < next.len() && (#[trigger] next[k]).0 == attr_name@;
                    assert(seen[k].0 == attr_name@);
                }
                if has_key(seen, attr_name@) {
                    let k = choose|k: int| 0 <= k < seen.len() && (#[trigger] seen[k]).0 == attr_name@;
                    assert(next[k].0 == attr_name@);
                }
            }
        }
        i += 1;
    }
    assert(old_list.take(attributes.len() as int) == old_list);
    assert(new_list.take(attributes.len() as int) == new_list);
    if !found {
        push_attribute(&mut body, attr_name, value.as_str());
        assert(new_list == old_list);
        assert(old_list.push((attr_name@, value@)).drop_last() == old_list);
    }
    XmlEvent { kind: tag.kind, name: tag.name.clone(), body }
}

/// Sets an attribute on the first tag that satisfies the pattern and
/// returns the new events, or `None` if no tag satisfies it.
pub fn set_attribute_in(
    events: &Vec<XmlEvent>,
    pattern: &(String, Option<(String, String)>),
    attr_name: &str,
    attr_value: &str,
) -> (r: Option<Vec<XmlEvent>>)
    ensures
        r.deep_view() == set_attribute_of(
            events.deep_view(),
            pattern_view(*pattern),
            attr_name@,
            attr_value@,
        ),
{
    let (t, _) = find_target(events, pattern);
    if t >= events.len() {
        return None;
    }
    let tag = build_element_with_attr(&events[t], attr_name, attr_value);
    let mut between: Vec<XmlEvent> = Vec::new();
    between.push(tag);
    assert(between.deep_view() == seq![tag@]);
    Some(splice(events, t, between, t + 1))
}

/// The events without the first element that satisfies the pattern: its
/// open tag, its close tag and all between them, or the self-closing tag
/// alone. An element that is never closed is removed up to the end. `None`
/// if no tag satisfies the pattern.
pub open spec fn delete_of(
    events: Seq<EventView>,
    pattern: (Seq<char>, Option<(Seq<char>, Seq<char>)>),
) -> Option<Seq<EventView>> {
    let t = first_target(events, pattern, 0);
    if t >= events.len() {
        None
    } else if events[t].kind == EventKind::Empty {
        Some(spliced(events, t, Seq::empty(), t + 1))
    } else {
        let c = close_at(events, depth_at(events, t) + 1, t + 1);
        Some(
            spliced(
                events,
                t,
                Seq::empty(),
                if c < events.len() {
                    c + 1
                } else {
                    events.len() as int
                },
            ),
        )
    }
}

/// Removes the first element that satisfies the pattern and returns the
/// new events, or `None` if no tag satisfies it.
pub fn delete_in(events: &Vec<XmlEvent>, pattern: &(String, Option<(String, String)>)) -> (r:
    Option<Vec<XmlEvent>>)
    ensures
        r.deep_view() == delete_of(events.deep_view(), pattern_view(*pattern)),
{
    let (t, depth) = find_target(events, pattern);
    if t >= events.len() {
        return None;
    }
    let between: Vec<XmlEvent> = Vec::new();
    assert(between.deep_view() == Seq::<EventView>::empty());
    if events[t].kind == EventKind::Empty {
        return Some(splice(events, t, between, t + 1));
    }
    proof {
        first_target_is_first(events.deep_view(), pattern_view(*pattern), 0);
        open_names_step(events.deep_view(), t as int);
        depth_is_bounded(events.deep_view(), t as int);
    }
    let c = find_close(events, depth + 1, t + 1, depth + 1);
    let to = if c < events.len() {
        c + 1
    } else {
        events.len()
    };
    Some(splice(events, t, between, to))
}

/// Character data with the given body.
pub open spec fn text_event(body: Seq<char>) -> EventView {
    EventView { kind: EventKind::Text, name: Seq::empty(), body }
}

/// The attributes with each value escaped.
pub open spec fn escaped_values(attributes: Seq<(Seq<char>, Seq<char>)>) -> Seq<
    (Seq<char>, Seq<char>),
> {
    Seq::new(attributes.len(), |i: int| (attributes[i].0, escaped(attributes[i].1)))
}

/// The events that stand for a new child element: a line break and four
/// spaces, the element, a line break and two spaces. With text the element
/// is an open tag, the escaped text and a close tag; without, a
/// self-closing tag. Attribute values are escaped.
pub open spec fn new_child(
    name: Seq<char>,
    attributes: Seq<(Seq<char>, Seq<char>)>,
    text: Option<Seq<char>>,
) -> Seq<EventView> {
    let body = attributes_written(escaped_values(attributes));
    let lead = text_event(seq!['\n', ' ', ' ', ' ', ' ']);
    let trail = text_event(seq!['\n', ' ', ' ']);
    match text {
        Some(t) => seq![
            lead,
            EventView { kind: EventKind::Start, name, body },
            text_event(escaped(t)),
            EventView { kind: EventKind::End, name, body: Seq::empty() },
            trail,
        ],
        None => seq![lead, EventView { kind: EventKind::Empty, name, body }, trail],
    }
}

/// The events after `child` was put into the first element that satisfies
/// the pattern, as its last content. A self-closing element becomes an
/// open tag with the same name and attributes, the child, and a close tag.
/// `None` if no tag satisfies the pattern, or if the first that does is an
/// open tag that is never closed.
pub open spec fn insert_of(
    events: Seq<EventView>,
    pattern: (Seq<char>, Option<(Seq<char>, Seq<char>)>),
    child: Seq<EventView>,
) -> Option<Seq<EventView>> {
    let t = first_target(events, pattern, 0);
    if t >= events.len() {
        None
    } else if events[t].kind == EventKind::Empty {
        Some(
            spliced(
                events,
                t,
                seq![EventView { kind: EventKind::Start, ..events[t] }] + child + seq![
                    EventView { kind: EventKind::End, name: events[t].name, body: Seq::empty() },
                ],
                t + 1,
            ),
        )
    } else {
        let c = close_at(events, depth_at(events, t) + 1, t + 1);
        if c < events.len() {
            Some(spliced(events, c, child, c))
        } else {
            None
        }
    }
}

fn text_of_chars(a: char, spaces: usize) -> (e: XmlEvent)
    ensures
        e@ == text_event(seq![a] + Seq::new(spaces as nat, |i: int| ' ')),
{
    let mut body = String::new();
    body.push(a);
    let mut i: usize = 0;
    while i < spaces
        invariant
            i <= spaces,
            body@ == seq![a] + Seq::new(i as nat, |i: int| ' '),
        decreases spaces - i,
    {
        body.push(' ');
        i += 1;
    }
    XmlEvent { kind: EventKind::Text, name: String::new(), body }
}

/// The events that stand for a new child element.
pub fn new_child_events(element_name: &str, attributes: &[(String, String)], text: Option<&str>) -> (r:
    Vec<XmlEvent>)
    ensures
        r.deep_view() == new_child(element_name@, attributes.deep_view(), text.deep_view()),
{
    let ghost list = escaped_values(attributes.deep_view());
    let mut body = String::new();
    let mut i: usize = 0;
    while i < attributes.len()
        invariant
            i <= attributes.len(),
            list == escaped_values(attributes.deep_view()),
            body@ == attributes_written(list.take(i as int)),
        decreases attributes.len() - i,
    {
        assert(list.take(i + 1).drop_last() == list.take(i as int));
        assert(attributes.deep_view()[i as int] == (attributes[i as int].0@, attributes[i as int].1@));
        let value = escape(attributes[i].1.as_str());
        push_attribute(&mut body, attributes[i].0.as_str(), value.as_str());
        i += 1;
    }
    assert(list.take(attributes.len() as int) == list);
    let lead = text_of_chars('\n', 4);
    let trail = text_of_chars('\n', 2);
    assert(lead@.body == seq!['\n', ' ', ' ', ' ', ' ']);
    assert(trail@.body == seq!['\n', ' ', ' ']);
    let mut r: Vec<XmlEvent> = Vec::new();
    r.push(lead);
    match text {
        Some(t) => {
            let inner = XmlEvent {
                kind: EventKind::Text,
                name: String::new(),
                body: escape(t),
            };
            let open = XmlEvent { kind: EventKind::Start, name: String::from_str(element_name), body };
            let close = XmlEvent {
                kind: EventKind::End,
                name: String::from_str(element_name),
                body: String::new(),
            };
            r.push(open);
            r.push(inner);
            r.push(close);
            r.push(trail);
            assert(r.deep_view() == seq![lead@, open@, inner@, close@, trail@]);
        },
        None => {
            let tag = XmlEvent { kind: EventKind::Empty, name: String::from_str(element_name), body };
            r.push(tag);
            r.push(trail);
            assert(r.deep_view() == seq![lead@, tag@, trail@]);
        },
    }
    r
}

/// Puts the events `child` into the first element that satisfies the
/// pattern and returns the new events, or `None` if nothing was inserted.
pub fn insert_in(
    events: &Vec<XmlEvent>,
    pattern: &(String, Option<(String, String)>),
    child: Vec<XmlEvent>,
) -> (r: Option<Vec<XmlEvent>>)
    ensures
        r.deep_view() == insert_of(events.deep_view(), pattern_view(*pattern), child.deep_view()),
{
    let (t, depth) = find_target(events, pattern);
    if t >= events.len() {
        return None;
    }
    if events[t].kind == EventKind::Empty {
        let open = XmlEvent {
            kind: EventKind::Start,
            name: events[t].name.clone(),
            body: events[t].body.clone(),
        };
        let close = XmlEvent {
            kind: EventKind::End,
            name: events[t].name.clone(),
            body: String::new(),
        };
        let mut head: Vec<XmlEvent> = Vec::new();
        head.push(open);
        let mut tail: Vec<XmlEvent> = Vec::new();
        tail.push(close);
        let ghost wanted = seq![open@] + child.deep_view() + seq![close@];
        let empty: Vec<XmlEvent> = Vec::new();
        let front = splice(&child, 0, head, 0);
        assert(front.deep_view() == seq![open@] + child.deep_view()) by {
            assert(child.deep_view().take(0) == Seq::<EventView>::empty());
            assert(child.deep_view().skip(0) == child.deep_view());
            assert(head.deep_view() == seq![open@]);
        }
        let n = front.len();
        assert(front.len() == front.deep_view().len());
        let between = splice(&front, n, tail, n);
        assert(between.deep_view() == wanted) by {
            assert(front.deep_view().take(n as int) == front.deep_view());
            assert(front.deep_view().skip(n as int) == Seq::<EventView>::empty());
            assert(tail.deep_view() == seq![close@]);
        }
        return Some(splice(events, t, between, t + 1));
    }
    proof {
        first_target_is_first(events.deep_view(), pattern_view(*pattern), 0);
        open_names_step(events.deep_view(), t as int);
        depth_is_bounded(events.deep_view(), t as int);
    }
    let c = find_close(events, depth + 1, t + 1, depth + 1);
    if c < events.len() {
        Some(splice(events, c, child, c))
    } else {
        None
    }
}

/// True iff the kind is one that opens, fills or closes an element: an
/// open tag, character data or a close tag.
pub open spec fn is_decisive(kind: EventKind) -> bool {
    kind == EventKind::Start || kind == EventKind::Text || kind == EventKind::End
}

/// Index of the first open tag, character data or close tag at or after
/// `from`, or `events.len()` if there is none.
pub open spec fn next_decisive(events: Seq<EventView>, from: int) -> int
    decreases events.len() - from,
{
    if from < 0 || from >= events.len() {
        events.len() as int
    } else if is_decisive(events[from].kind) {
        from
    } else {
        next_decisive(events, from + 1)
    }
}

/// True iff event `t` is an open tag that satisfies the pattern and whose
/// text can be set: what follows it, comments and the like apart, is
/// character data or a close tag, not a child element.
pub open spec fn takes_text(
    events: Seq<EventView>,
    t: int,
    pattern: (Seq<char>, Option<(Seq<char>, Seq<char>)>),
) -> bool {
    &&& 0 <= t < events.len()
    &&& events[t].kind == EventKind::Start
    &&& tag_fits(open_names(events.take(t)), events[t], pattern)
    &&& next_decisive(events, t + 1) < events.len()
    &&& events[next_decisive(events, t + 1)].kind != EventKind::Start
}

/// Index of the first open tag at or after `from` whose text can be set,
/// or `events.len()` if there is none.
pub open spec fn first_text_target(
    events: Seq<EventView>,
    pattern: (Seq<char>, Option<(Seq<char>, Seq<char>)>),
    from: int,
) -> int
    decreases events.len() - from,
{
    if from < 0 || from >= events.len() {
        events.len() as int
    } else if takes_text(events, from, pattern) {
        from
    } else {
        first_text_target(events, pattern, from + 1)
    }
}

/// The events after the text of the first element that takes it was set to
/// `text`, escaped: the character data that follows the open tag is
/// replaced; where a close tag follows, the text is put before it. `None`
/// if no element takes the text.
pub open spec fn update_text_of(
    events: Seq<EventView>,
    pattern: (Seq<char>, Option<(Seq<char>, Seq<char>)>),
    text: Seq<char>,
) -> Option<Seq<EventView>> {
    let t = first_text_target(events, pattern, 0);
    if t >= events.len() {
        None
    } else {
        let u = next_decisive(events, t + 1);
        Some(
            spliced(
                events,
                u,
                seq![text_event(escaped(text))],
                if events[u].kind == EventKind::Text {
                    u + 1
                } else {
                    u
                },
            ),
        )
    }
}

/// [`next_decisive`] stays within the events and names a decisive event.
pub proof fn next_decisive_is_first(events: Seq<EventView>, from: int)
    requires
        0 <= from <= events.len(),
    ensures
        from <= next_decisive(events, from) <= events.len(),
        next_decisive(events, from) < events.len() ==> is_decisive(
            events[next_decisive(events, from)].kind,
        ),
        forall|k: int| from <= k < next_decisive(events, from) ==> !is_decisive(events[k].kind),
    decreases events.len() - from,
{
    if from < events.len() && !is_decisive(events[from].kind) {
        next_decisive_is_first(events, from + 1);
    }
}

fn find_decisive(events: &Vec<XmlEvent>, from: usize) -> (r: usize)
    requires
        from <= events.len(),
    ensures
        r == next_decisive(events.deep_view(), from as int),
        from <= r <= events.len(),
{
    let mut i: usize = from;
    while i < events.len()
        invariant
            from <= i <= events.len(),
            next_decisive(events.deep_view(), from as int) == next_decisive(
                events.deep_view(),
                i as int,
            ),
        decreases events.len() - i,
    {
        let kind = events[i].kind;
        if kind == EventKind::Start || kind == EventKind::Text || kind == EventKind::End {
            return i;
        }
        i += 1;
    }
    events.len()
}

/// Sets the text of the first element that takes it and returns the new
/// events, or `None` if no element takes it.
pub fn update_text_in(
    events: &Vec<XmlEvent>,
    pattern: &(String, Option<(String, String)>),
    new_text: &str,
) -> (r: Option<Vec<XmlEvent>>)
    ensures
        r.deep_view() == update_text_of(events.deep_view(), pattern_view(*pattern), new_text@),
{
    let mut stack: Vec<String> = Vec::new();
    let mut i: usize = 0;
    while i < events.len()
        invariant
            i <= events.len(),
            stack.deep_view() == open_names(events.deep_view().take(i as int)),
            first_text_target(events.deep_view(), pattern_view(*pattern), 0) == first_text_target(
                events.deep_view(),
                pattern_view(*pattern),
                i as int,
            ),
        decreases events.len() - i,
    {
        let ghost names = stack.deep_view();
        proof {
            open_names_step(events.deep_view(), i as int);
        }
        let event = &events[i];
        if event.kind == EventKind::Start {
            if tag_matches(&stack, event, pattern) {
                let u = find_decisive(events, i + 1);
                if u < events.len() && events[u].kind != EventKind::Start {
                    let text = XmlEvent {
                        kind: EventKind::Text,
                        name: String::new(),
                        body: escape(new_text),
                    };
                    let mut between: Vec<XmlEvent> = Vec::new();
                    between.push(text);
                    assert(between.deep_view() == seq![text@]);
                    let to = if events[u].kind == EventKind::Text {
                        u + 1
                    } else {
                        u
                    };
                    return Some(splice(events, u, between, to));
                }
            }
            stack.push(event.name.clone());
            assert(stack.deep_view() == names.push(event.name@));
        } else if event.kind == EventKind::End && stack.len() > 0 {
            stack.pop();
            assert(stack.deep_view() == names.drop_last());
        }
        i += 1;
    }
    None
}

} // verus!
