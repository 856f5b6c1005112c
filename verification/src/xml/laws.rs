use vstd::prelude::*;
use crate::xml::element::ElementView;
use crate::xml::event::{EventKind, EventView};
use crate::xml::index::{element_seen, index_of, joined, open_names};
use crate::error::ZError;
use crate::xml::index::attributes_in;
use crate::xml::rewrite::retagged;
use crate::xml::modifier::{edit_done, element_fits, matching};
use crate::xml::rewrite::{
    delete_of, first_text_target, has_key, insert_of, revalued, set_attribute_of, takes_text,
    update_text_of, with_attribute,
};
use crate::xml::rewrite::{next_decisive, next_decisive_is_first, text_event};
use crate::xml::markup::escaped;
use crate::xml::target::{close_at, depth_at, open_names_step, spliced};
use crate::xml::target::{first_target, first_target_is_first, is_target};

verus! {

/// Setting an attribute that the list has keeps every attribute at its
/// place: the list is as long as before, each name stands where it stood,
/// and an attribute of another name keeps its value.
pub proof fn set_attribute_keeps_order(
    attributes: Seq<(Seq<char>, Seq<char>)>,
    name: Seq<char>,
    value: Seq<char>,
)
    requires
        has_key(attributes, name),
    ensures
        with_attribute(attributes, name, value).len() == attributes.len(),
        forall|i: int|
            0 <= i < attributes.len() ==> (#[trigger] with_attribute(attributes, name, value)[i]).0
                == attributes[i].0,
        forall|i: int|
            0 <= i < attributes.len() && attributes[i].0 != name ==> #[trigger] with_attribute(
                attributes,
                name,
                value,
            )[i] == attributes[i],
        forall|i: int|
            0 <= i < attributes.len() && attributes[i].0 == name ==> (#[trigger] with_attribute(
                attributes,
                name,
                value,
            )[i]).1 == value,
{
}

/// Setting an attribute to the same value twice gives the list that
/// setting it once gives.
pub proof fn set_attribute_twice_is_once(
    attributes: Seq<(Seq<char>, Seq<char>)>,
    name: Seq<char>,
    value: Seq<char>,
)
    ensures
        with_attribute(with_attribute(attributes, name, value), name, value) == with_attribute(
            attributes,
            name,
            value,
        ),
{
    let once = with_attribute(attributes, name, value);
    if has_key(attributes, name) {
        let k = choose|k: int| 0 <= k < attributes.len() && (#[trigger] attributes[k]).0 == name;
        assert(once[k].0 == name);
        assert(has_key(once, name));
        assert(revalued(once, name, value) == once);
    } else {
        assert(once[attributes.len() as int].0 == name);
        assert(has_key(once, name));
        assert(revalued(once, name, value) == once) by {
            assert forall|i: int| 0 <= i < once.len() implies revalued(once, name, value)[i]
                == once[i] by {
                if i < attributes.len() {
                    assert(attributes[i].0 != name);
                }
            }
        }
    }
}

/// Setting an attribute changes one event and no other: the events are as
/// many as before, the changed one is the first tag that satisfies the
/// pattern, it keeps its kind and its name, and every other event is what
/// it was.
pub proof fn set_attribute_changes_first_match_only(
    events: Seq<EventView>,
    pattern: (Seq<char>, Option<(Seq<char>, Seq<char>)>),
    name: Seq<char>,
    value: Seq<char>,
)
    requires
        set_attribute_of(events, pattern, name, value) is Some,
    ensures
        ({
            let after = set_attribute_of(events, pattern, name, value)->0;
            let t = first_target(events, pattern, 0);
            &&& after.len() == events.len()
            &&& is_target(events, t, pattern)
            &&& forall|j: int| 0 <= j < t ==> !is_target(events, j, pattern)
            &&& after[t].kind == events[t].kind
            &&& after[t].name == events[t].name
            &&& forall|j: int| 0 <= j < events.len() && j != t ==> after[j] == events[j]
        }),
{
    first_target_is_first(events, pattern, 0);
}

/// Where no tag satisfies the pattern, the attribute is set nowhere.
pub proof fn set_attribute_needs_a_match(
    events: Seq<EventView>,
    pattern: (Seq<char>, Option<(Seq<char>, Seq<char>)>),
    name: Seq<char>,
    value: Seq<char>,
)
    ensures
        set_attribute_of(events, pattern, name, value) is Some <==> exists|i: int|
            is_target(events, i, pattern),
{
    first_target_is_first(events, pattern, 0);
    let t = first_target(events, pattern, 0);
    if exists|i: int| is_target(events, i, pattern) {
        let i = choose|i: int| is_target(events, i, pattern);
        assert(t <= i);
    }
}

/// The element that a tag stands for is the same whether the tag is an
/// open tag or a self-closing one: same path, same depth.
pub proof fn self_closing_has_depth_of_open(ancestors: Seq<Seq<char>>, tag: EventView)
    ensures
        element_seen(ancestors, EventView { kind: EventKind::Empty, ..tag }) == element_seen(
            ancestors,
            EventView { kind: EventKind::Start, ..tag },
        ),
        element_seen(ancestors, tag).depth == ancestors.len(),
        element_seen(ancestors, tag).path == joined(ancestors.push(tag.name)),
{
}

/// True iff the element has as many ancestors as its depth says, and its
/// path is their names and its own, joined by `/`.
pub open spec fn depth_fits_path(e: ElementView) -> bool {
    exists|ancestors: Seq<Seq<char>>|
        e.depth == ancestors.len() && e.path == joined(#[trigger] ancestors.push(e.name))
}

/// The depth of every listed element is the number of its ancestors, the
/// names of which, with its own, make up its path.
pub proof fn depth_counts_ancestors(events: Seq<EventView>)
    ensures
        forall|k: int|
            0 <= k < index_of(events).len() ==> depth_fits_path(#[trigger] index_of(events)[k]),
    decreases events.len(),
{
    if events.len() > 0 {
        let before = events.drop_last();
        let last = events.last();
        depth_counts_ancestors(before);
        let listed = index_of(before);
        assert forall|k: int| 0 <= k < index_of(events).len() implies depth_fits_path(
            #[trigger] index_of(events)[k],
        ) by {
            if last.kind == EventKind::Start || last.kind == EventKind::Empty {
                if k == listed.len() {
                    let ancestors = open_names(before);
                    let e = element_seen(ancestors, last);
                    assert(e.depth == ancestors.len() && e.path == joined(
                        ancestors.push(e.name),
                    ));
                } else {
                    assert(index_of(events)[k] == listed[k]);
                }
            } else if last.kind == EventKind::Text {
                let e = index_of(events)[k];
                let was = listed[k];
                assert(depth_fits_path(was));
                let ancestors = choose|ancestors: Seq<Seq<char>>|
                    was.depth == ancestors.len() && was.path == joined(
                        #[trigger] ancestors.push(was.name),
                    );
                assert(e.depth == ancestors.len() && e.path == joined(ancestors.push(e.name)));
            } else {
                assert(index_of(events)[k] == listed[k]);
            }
        }
    }
}

/// True iff the two elements have the same path, name and attributes.
pub open spec fn same_tag(a: ElementView, b: ElementView) -> bool {
    a.path == b.path && a.name == b.name && a.attributes == b.attributes
}

/// Where an element satisfies the pattern, the elements that satisfy it
/// are not none.
pub proof fn fitting_element_is_matched(
    elements: Seq<ElementView>,
    pattern: (Seq<char>, Option<(Seq<char>, Seq<char>)>),
    k: int,
)
    requires
        0 <= k < elements.len(),
        element_fits(elements[k], pattern),
    ensures
        matching(elements, pattern).len() > 0,
    decreases elements.len(),
{
    if k < elements.len() - 1 {
        fitting_element_is_matched(elements.drop_last(), pattern, k);
    }
}

/// Where no listed element satisfies the pattern, no tag does.
pub proof fn no_match_means_no_target(
    events: Seq<EventView>,
    pattern: (Seq<char>, Option<(Seq<char>, Seq<char>)>),
)
    requires
        matching(index_of(events), pattern).len() == 0,
    ensures
        forall|i: int| !is_target(events, i, pattern),
        first_target(events, pattern, 0) == events.len(),
{
    assert forall|i: int| !is_target(events, i, pattern) by {
        if is_target(events, i, pattern) {
            tag_has_its_place(events, i);
            let k = index_of(events.take(i)).len() as int;
            assert(element_fits(index_of(events)[k], pattern));
            fitting_element_is_matched(index_of(events), pattern, k);
        }
    }
    first_target_is_first(events, pattern, 0);
}

/// [`first_text_target`] names an open tag that satisfies the pattern, or
/// nothing.
pub proof fn text_target_is_target(
    events: Seq<EventView>,
    pattern: (Seq<char>, Option<(Seq<char>, Seq<char>)>),
    from: int,
)
    requires
        0 <= from <= events.len(),
    ensures
        from <= first_text_target(events, pattern, from) <= events.len(),
        first_text_target(events, pattern, from) < events.len() ==> takes_text(
            events,
            first_text_target(events, pattern, from),
            pattern,
        ) && is_target(events, first_text_target(events, pattern, from), pattern),
        forall|k: int|
            from <= k < first_text_target(events, pattern, from) ==> !takes_text(
                events,
                k,
                pattern,
            ),
    decreases events.len() - from,
{
    if from < events.len() && !takes_text(events, from, pattern) {
        text_target_is_target(events, pattern, from + 1);
    }
}

/// A pattern that no element of the document satisfies makes every edit
/// find nothing: no text is set, no attribute set, nothing removed and
/// nothing added.
pub proof fn no_match_means_no_edit(
    events: Seq<EventView>,
    pattern: (Seq<char>, Option<(Seq<char>, Seq<char>)>),
    text: Seq<char>,
    name: Seq<char>,
    value: Seq<char>,
    child: Seq<EventView>,
)
    requires
        matching(index_of(events), pattern).len() == 0,
    ensures
        update_text_of(events, pattern, text) is None,
        set_attribute_of(events, pattern, name, value) is None,
        delete_of(events, pattern) is None,
        insert_of(events, pattern, child) is None,
{
    no_match_means_no_target(events, pattern);
    text_target_is_target(events, pattern, 0);
}

/// An edit that finds nothing reports `false`, unless the document is not
/// well-formed, and leaves the text of the document as it was.
pub proof fn edit_without_match_keeps_document(
    before: Seq<char>,
    after: Seq<char>,
    r: Result<bool, ZError>,
)
    requires
        edit_done(before, after, None, r),
    ensures
        after == before,
        r is Ok ==> r->Ok_0 == false,
{
}

/// Number of `/` in `s`.
pub open spec fn slashes(s: Seq<char>) -> nat
    decreases s.len(),
{
    if s.len() == 0 {
        0
    } else {
        slashes(s.drop_last()) + if s.last() == '/' {
            1nat
        } else {
            0nat
        }
    }
}

proof fn slashes_add(a: Seq<char>, b: Seq<char>)
    ensures
        slashes(a + b) == slashes(a) + slashes(b),
    decreases b.len(),
{
    if b.len() == 0 {
        assert(a + b == a);
    } else {
        assert((a + b).drop_last() == a + b.drop_last());
        slashes_add(a, b.drop_last());
    }
}

proof fn slashes_none(s: Seq<char>)
    requires
        !s.contains('/'),
    ensures
        slashes(s) == 0,
    decreases s.len(),
{
    if s.len() > 0 {
        assert(s[s.len() - 1] != '/');
        assert forall|i: int| 0 <= i < s.drop_last().len() implies s.drop_last()[i] != '/' by {
            assert(s.drop_last()[i] == s[i]);
        }
        slashes_none(s.drop_last());
    }
}

proof fn slashes_in_joined(names: Seq<Seq<char>>)
    requires
        names.len() > 0,
        forall|i: int| 0 <= i < names.len() ==> !(#[trigger] names[i]).contains('/'),
    ensures
        slashes(joined(names)) == names.len() - 1,
    decreases names.len(),
{
    slashes_none(names.last());
    if names.len() > 1 {
        slashes_in_joined(names.drop_last());
        slashes_add(joined(names.drop_last()), seq!['/']);
        slashes_add(joined(names.drop_last()) + seq!['/'], names.last());
        assert(slashes(seq!['/']) == 1) by {
            let one = seq!['/'];
            assert(one.drop_last().len() == 0);
            assert(slashes(one.drop_last()) == 0);
            assert(one.last() == '/');
        }
    }
}

proof fn open_names_are_tag_names(events: Seq<EventView>)
    requires
        forall|i: int| 0 <= i < events.len() ==> !(#[trigger] events[i]).name.contains('/'),
    ensures
        forall|j: int|
            0 <= j < open_names(events).len() ==> !(#[trigger] open_names(events)[j]).contains('/'),
    decreases events.len(),
{
    if events.len() > 0 {
        assert forall|i: int| 0 <= i < events.drop_last().len() implies !(
        #[trigger] events.drop_last()[i]).name.contains('/') by {
            assert(events.drop_last()[i] == events[i]);
        }
        open_names_are_tag_names(events.drop_last());
        let before = open_names(events.drop_last());
        let last = events.last();
        assert forall|j: int| 0 <= j < open_names(events).len() implies !(
        #[trigger] open_names(events)[j]).contains('/') by {
            if last.kind == EventKind::Start {
                if j < before.len() {
                    assert(open_names(events)[j] == before[j]);
                } else {
                    assert(open_names(events)[j] == last.name);
                }
            } else {
                assert(open_names(events)[j] == before[j]);
            }
        }
    } else {
        assert(open_names(events).len() == 0);
    }
}

/// Where no tag name holds a `/`, the depth of every listed element is the
/// number of `/` in its path: one for each ancestor.
pub proof fn depth_counts_path_segments(events: Seq<EventView>)
    requires
        forall|i: int| 0 <= i < events.len() ==> !(#[trigger] events[i]).name.contains('/'),
    ensures
        forall|k: int|
            0 <= k < index_of(events).len() ==> slashes((#[trigger] index_of(events)[k]).path)
                == index_of(events)[k].depth,
    decreases events.len(),
{
    if events.len() > 0 {
        let before = events.drop_last();
        let last = events.last();
        assert forall|i: int| 0 <= i < before.len() implies !(#[trigger] before[i]).name.contains(
            '/',
        ) by {
            assert(before[i] == events[i]);
        }
        depth_counts_path_segments(before);
        open_names_are_tag_names(before);
        let listed = index_of(before);
        assert forall|k: int| 0 <= k < index_of(events).len() implies slashes(
            (#[trigger] index_of(events)[k]).path,
        ) == index_of(events)[k].depth by {
            if last.is_tag() && k == listed.len() {
                let names = open_names(before).push(last.name);
                assert forall|i: int| 0 <= i < names.len() implies !(#[trigger] names[i]).contains(
                    '/',
                ) by {
                    if i < open_names(before).len() {
                        assert(names[i] == open_names(before)[i]);
                    }
                }
                slashes_in_joined(names);
            } else {
                assert(index_of(events)[k].path == listed[k].path);
                assert(index_of(events)[k].depth == listed[k].depth);
            }
        }
    }
}

/// What is listed and what is open after more events depends on the
/// events before them only through what they list and leave open.
pub proof fn index_continues(a: Seq<EventView>, b: Seq<EventView>, more: Seq<EventView>)
    requires
        index_of(a) == index_of(b),
        open_names(a) == open_names(b),
    ensures
        index_of(a + more) == index_of(b + more),
        open_names(a + more) == open_names(b + more),
    decreases more.len(),
{
    if more.len() == 0 {
        assert(a + more == a);
        assert(b + more == b);
    } else {
        assert((a + more).drop_last() == a + more.drop_last());
        assert((b + more).drop_last() == b + more.drop_last());
        index_continues(a, b, more.drop_last());
    }
}

/// A self-closing tag gives the document the elements that an open tag
/// with the same name and attributes, closed at once, gives it: the same
/// paths, depths and texts, for the element itself and for all others.
pub proof fn self_closing_is_open_then_close(
    before: Seq<EventView>,
    tag: EventView,
    close: EventView,
    after: Seq<EventView>,
)
    requires
        close.kind == EventKind::End,
    ensures
        index_of(before.push(EventView { kind: EventKind::Empty, ..tag }) + after) == index_of(
            before.push(EventView { kind: EventKind::Start, ..tag }).push(close) + after,
        ),
{
    let single = before.push(EventView { kind: EventKind::Empty, ..tag });
    let open = before.push(EventView { kind: EventKind::Start, ..tag });
    let pair = open.push(close);
    assert(single.drop_last() == before);
    assert(open.drop_last() == before);
    assert(pair.drop_last() == open);
    assert(open_names(pair) == open_names(before)) by {
        assert(open_names(open) == open_names(before).push(tag.name));
        assert(open_names(before).push(tag.name).drop_last() == open_names(before));
    }
    assert(index_of(open) == index_of(before).push(
        element_seen(open_names(before), EventView { kind: EventKind::Start, ..tag }),
    ));
    assert(index_of(single) == index_of(before).push(
        element_seen(open_names(before), EventView { kind: EventKind::Empty, ..tag }),
    ));
    assert(index_of(pair) == index_of(open));
    assert(open_names(single) == open_names(before));
    index_continues(single, pair, after);
}

/// What is open after more events depends on the events before them only
/// through what they leave open.
pub proof fn open_names_continue(a: Seq<EventView>, b: Seq<EventView>, more: Seq<EventView>)
    requires
        open_names(a) == open_names(b),
    ensures
        open_names(a + more) == open_names(b + more),
    decreases more.len(),
{
    if more.len() == 0 {
        assert(a + more == a);
        assert(b + more == b);
    } else {
        assert((a + more).drop_last() == a + more.drop_last());
        assert((b + more).drop_last() == b + more.drop_last());
        open_names_continue(a, b, more.drop_last());
    }
}

/// [`close_at`] is the least index of a close tag met at that depth.
pub proof fn close_at_is_first(events: Seq<EventView>, depth: nat, from: int)
    requires
        0 <= from <= events.len(),
    ensures
        from <= close_at(events, depth, from) <= events.len(),
        close_at(events, depth, from) < events.len() ==> events[close_at(
            events,
            depth,
            from,
        )].kind == EventKind::End && depth_at(events, close_at(events, depth, from)) == depth,
        forall|k: int|
            from <= k < close_at(events, depth, from) ==> !(events[k].kind == EventKind::End
                && depth_at(events, k) == depth),
    decreases events.len() - from,
{
    if from < events.len() && !(events[from].kind == EventKind::End && depth_at(events, from)
        == depth) {
        close_at_is_first(events, depth, from + 1);
    }
}

/// Inside an element its ancestors stay open: from the event after the
/// open tag at `t` up to its close tag, what was open before `t` is still
/// open, beneath the element itself.
pub proof fn ancestors_stay_open(events: Seq<EventView>, t: int, j: int)
    requires
        0 <= t < events.len(),
        events[t].kind == EventKind::Start,
        t < j <= events.len(),
        j <= close_at(events, depth_at(events, t) + 1, t + 1),
    ensures
        depth_at(events, j) >= depth_at(events, t) + 1,
        open_names(events.take(j)).take(depth_at(events, t) as int) == open_names(events.take(t)),
    decreases j,
{
    let d = depth_at(events, t);
    if j == t + 1 {
        open_names_step(events, t);
        assert(open_names(events.take(t)).push(events[t].name).take(d as int) == open_names(
            events.take(t),
        ));
    } else {
        ancestors_stay_open(events, t, j - 1);
        open_names_step(events, j - 1);
        close_at_is_first(events, d + 1, t + 1);
        let was = open_names(events.take(j - 1));
        if events[j - 1].kind == EventKind::Start {
            assert(was.push(events[j - 1].name).take(d as int) == was.take(d as int));
        } else if events[j - 1].kind == EventKind::End {
            assert(was.drop_last().take(d as int) == was.take(d as int));
        }
    }
}

/// After an element is closed, what is open is what was open before it.
pub proof fn closed_element_leaves_nothing_open(events: Seq<EventView>, t: int)
    requires
        0 <= t < events.len(),
        events[t].kind == EventKind::Start,
        close_at(events, depth_at(events, t) + 1, t + 1) < events.len(),
    ensures
        open_names(events.take(close_at(events, depth_at(events, t) + 1, t + 1) + 1))
            == open_names(events.take(t)),
{
    let d = depth_at(events, t);
    let c = close_at(events, d + 1, t + 1);
    close_at_is_first(events, d + 1, t + 1);
    ancestors_stay_open(events, t, c);
    open_names_step(events, c);
    let was = open_names(events.take(c));
    assert(was.drop_last() == was.take(d as int));
}

/// Taking out a stretch of events that leaves open what was open before it
/// changes no tag outside the stretch: a tag before it stands where it
/// stood, a tag after it has moved forward by the length of the stretch,
/// and each satisfies a pattern exactly if it did before.
pub proof fn removal_shifts_targets(
    events: Seq<EventView>,
    t: int,
    end: int,
    pattern: (Seq<char>, Option<(Seq<char>, Seq<char>)>),
)
    requires
        0 <= t <= end <= events.len(),
        open_names(events.take(end)) == open_names(events.take(t)),
    ensures
        spliced(events, t, Seq::empty(), end).len() == events.len() - (end - t),
        forall|j: int|
            0 <= j < t ==> (is_target(events, j, pattern) <==> #[trigger] is_target(
                spliced(events, t, Seq::empty(), end),
                j,
                pattern,
            )),
        forall|j: int|
            end <= j < events.len() ==> spliced(events, t, Seq::empty(), end)[j - (end - t)]
                == events[j] && (#[trigger] is_target(events, j, pattern) <==> is_target(
                spliced(events, t, Seq::empty(), end),
                j - (end - t),
                pattern,
            )),
{
    let after = spliced(events, t, Seq::empty(), end);
    let gap = end - t;
    assert forall|j: int| 0 <= j < t implies (is_target(events, j, pattern) <==> #[trigger] is_target(
        after,
        j,
        pattern,
    )) by {
        assert(after.take(j) == events.take(j));
        assert(after[j] == events[j]);
    }
    assert forall|j: int| end <= j < events.len() implies after[j - gap] == events[j] && (
    #[trigger] is_target(events, j, pattern) <==> is_target(after, j - gap, pattern)) by {
        let more = events.subrange(end, j);
        open_names_continue(events.take(t), events.take(end), more);
        assert(events.take(t) + more == after.take(j - gap));
        assert(events.take(end) + more == events.take(j));
        assert(after[j - gap] == events[j]);
    }
}

/// Removing a closed element moves the tags after it forward and changes
/// nothing else about them: a tag after the element satisfies the pattern
/// in the new document exactly if it did in the old one. So the first
/// match of the new document is the old document's first match after the
/// removed element, which a second removal then takes.
pub proof fn delete_leaves_next_match_first(
    events: Seq<EventView>,
    pattern: (Seq<char>, Option<(Seq<char>, Seq<char>)>),
)
    requires
        first_target(events, pattern, 0) < events.len(),
        events[first_target(events, pattern, 0)].kind == EventKind::Start ==> close_at(
            events,
            depth_at(events, first_target(events, pattern, 0)) + 1,
            first_target(events, pattern, 0) + 1,
        ) < events.len(),
    ensures
        ({
            let t = first_target(events, pattern, 0);
            let end = if events[t].kind == EventKind::Start {
                close_at(events, depth_at(events, t) + 1, t + 1) + 1
            } else {
                t + 1
            };
            let after = delete_of(events, pattern)->0;
            &&& delete_of(events, pattern) is Some
            &&& t < end <= events.len()
            &&& after == spliced(events, t, Seq::empty(), end)
            &&& after.len() == events.len() - (end - t)
            &&& forall|j: int|
                end <= j < events.len() ==> after[j - (end - t)] == events[j] && (is_target(
                    events,
                    j,
                    pattern,
                ) <==> is_target(after, j - (end - t), pattern))
            &&& first_target(after, pattern, 0) == first_target(events, pattern, end) - (end - t)
        }),
{
    let t = first_target(events, pattern, 0);
    first_target_is_first(events, pattern, 0);
    let d = depth_at(events, t);
    let end = if events[t].kind == EventKind::Start {
        close_at(events, d + 1, t + 1) + 1
    } else {
        t + 1
    };
    if events[t].kind == EventKind::Start {
        close_at_is_first(events, d + 1, t + 1);
        closed_element_leaves_nothing_open(events, t);
    } else {
        open_names_step(events, t);
    }
    let gap = end - t;
    let after = spliced(events, t, Seq::empty(), end);
    assert(delete_of(events, pattern) == Some(after));
    removal_shifts_targets(events, t, end, pattern);
    assert forall|j: int| 0 <= j < t implies !is_target(after, j, pattern) by {
        assert(!is_target(events, j, pattern));
    }
    first_target_is_first(events, pattern, end);
    first_target_is_first(after, pattern, 0);
    let next = first_target(events, pattern, end);
    let found = first_target(after, pattern, 0);
    if next < events.len() {
        assert(is_target(events, next, pattern));
        assert(is_target(after, next - gap, pattern));
        assert(found <= next - gap);
    }
    if found < after.len() {
        assert(is_target(after, found, pattern));
        assert(found >= t);
        assert(is_target(events, found + gap, pattern));
        assert(next <= found + gap);
    }
}

/// Adding a child keeps every event of the document, in order: the child
/// goes into the first element that satisfies the pattern, right before
/// its close tag, or between the two tags that its self-closing tag
/// becomes.
pub proof fn insert_keeps_every_event(
    events: Seq<EventView>,
    pattern: (Seq<char>, Option<(Seq<char>, Seq<char>)>),
    child: Seq<EventView>,
)
    requires
        insert_of(events, pattern, child) is Some,
    ensures
        ({
            let after = insert_of(events, pattern, child)->0;
            let t = first_target(events, pattern, 0);
            let c = close_at(events, depth_at(events, t) + 1, t + 1);
            &&& is_target(events, t, pattern)
            &&& forall|j: int| 0 <= j < t ==> !is_target(events, j, pattern)
            &&& events[t].kind == EventKind::Start ==> {
                &&& t < c < events.len()
                &&& events[c].kind == EventKind::End
                &&& after.len() == events.len() + child.len()
                &&& after.take(c) == events.take(c)
                &&& after.subrange(c, c + child.len()) == child
                &&& after.skip(c + child.len()) == events.skip(c)
            }
            &&& events[t].kind == EventKind::Empty ==> {
                &&& after.len() == events.len() + child.len() + 1
                &&& after.take(t) == events.take(t)
                &&& after[t] == (EventView { kind: EventKind::Start, ..events[t] })
                &&& after.subrange(t + 1, t + 1 + child.len()) == child
                &&& after[t + 1 + child.len()].kind == EventKind::End
                &&& after[t + 1 + child.len()].name == events[t].name
                &&& after.skip(t + 2 + child.len()) == events.skip(t + 1)
            }
        }),
{
    first_target_is_first(events, pattern, 0);
    let t = first_target(events, pattern, 0);
    close_at_is_first(events, depth_at(events, t) + 1, t + 1);
}

/// Setting a text changes one place and no other. The element is the first
/// open tag that satisfies the pattern and is followed, comments and the
/// like apart, by character data or by a close tag: the character data is
/// replaced, or the text is put before the close tag. Every other event
/// is what it was.
pub proof fn update_text_changes_one_place(
    events: Seq<EventView>,
    pattern: (Seq<char>, Option<(Seq<char>, Seq<char>)>),
    text: Seq<char>,
)
    requires
        update_text_of(events, pattern, text) is Some,
    ensures
        ({
            let after = update_text_of(events, pattern, text)->0;
            let t = first_text_target(events, pattern, 0);
            let u = next_decisive(events, t + 1);
            &&& takes_text(events, t, pattern)
            &&& forall|j: int| 0 <= j < t ==> !takes_text(events, j, pattern)
            &&& t < u < events.len()
            &&& after.take(u) == events.take(u)
            &&& after[u] == text_event(escaped(text))
            &&& events[u].kind == EventKind::Text ==> after.len() == events.len() && after.skip(
                u + 1,
            ) == events.skip(u + 1)
            &&& events[u].kind != EventKind::Text ==> events[u].kind == EventKind::End
                && after.len() == events.len() + 1 && after.skip(u + 1) == events.skip(u)
        }),
{
    text_target_is_target(events, pattern, 0);
    let t = first_text_target(events, pattern, 0);
    next_decisive_is_first(events, t + 1);
}

/// Where the first element that satisfies the pattern is an open tag that
/// takes text, it is the one whose text is set.
pub proof fn update_text_takes_first_match(
    events: Seq<EventView>,
    pattern: (Seq<char>, Option<(Seq<char>, Seq<char>)>),
)
    requires
        takes_text(events, first_target(events, pattern, 0), pattern),
    ensures
        first_text_target(events, pattern, 0) == first_target(events, pattern, 0),
{
    first_target_is_first(events, pattern, 0);
    text_target_is_target(events, pattern, 0);
    let t = first_target(events, pattern, 0);
    let f = first_text_target(events, pattern, 0);
    if f < t {
        assert(is_target(events, f, pattern));
    }
}

/// Setting an attribute to the same value a second time changes nothing,
/// where the first tag that satisfies the pattern still satisfies it
/// after the first time, and where the tokenizer reads from the rewritten
/// tag the attributes that were written into it.
pub proof fn set_attribute_again_changes_nothing(
    events: Seq<EventView>,
    pattern: (Seq<char>, Option<(Seq<char>, Seq<char>)>),
    name: Seq<char>,
    value: Seq<char>,
)
    requires
        set_attribute_of(events, pattern, name, value) is Some,
        is_target(
            set_attribute_of(events, pattern, name, value)->0,
            first_target(events, pattern, 0),
            pattern,
        ),
        attributes_in(retagged(events[first_target(events, pattern, 0)], name, value).body)
            == with_attribute(
            attributes_in(events[first_target(events, pattern, 0)].body),
            name,
            escaped(value),
        ),
    ensures
        set_attribute_of(set_attribute_of(events, pattern, name, value)->0, pattern, name, value)
            == set_attribute_of(events, pattern, name, value),
{
    let t = first_target(events, pattern, 0);
    let after = set_attribute_of(events, pattern, name, value)->0;
    first_target_is_first(events, pattern, 0);
    assert forall|j: int| 0 <= j < t implies !is_target(after, j, pattern) by {
        assert(after.take(j) == events.take(j));
        assert(after[j] == events[j]);
        assert(!is_target(events, j, pattern));
    }
    first_target_is_first(after, pattern, 0);
    assert(first_target(after, pattern, 0) == t);
    set_attribute_twice_is_once(attributes_in(events[t].body), name, escaped(value));
    assert(retagged(after[t], name, value) == after[t]);
    assert(spliced(after, t, seq![after[t]], t + 1) == after);
}

/// Reading on never changes the path, the name or the attributes of an
/// element that is listed already, nor its place in the list.
pub proof fn listed_elements_stay(events: Seq<EventView>, n: int, m: int)
    requires
        0 <= n <= m <= events.len(),
    ensures
        index_of(events.take(n)).len() <= index_of(events.take(m)).len(),
        forall|k: int|
            0 <= k < index_of(events.take(n)).len() ==> same_tag(
                #[trigger] index_of(events.take(n))[k],
                index_of(events.take(m))[k],
            ),
    decreases m - n,
{
    if n < m {
        listed_elements_stay(events, n, m - 1);
        assert(events.take(m).drop_last() == events.take(m - 1));
        let short = index_of(events.take(n));
        let mid = index_of(events.take(m - 1));
        let long = index_of(events.take(m));
        assert forall|k: int| 0 <= k < short.len() implies same_tag(#[trigger] short[k], long[k]) by {
            assert(same_tag(short[k], mid[k]));
            assert(same_tag(mid[k], long[k]));
        }
    }
}

/// The element of the tag at `i` stands in the list at the place that the
/// tags before it leave free.
pub proof fn tag_has_its_place(events: Seq<EventView>, i: int)
    requires
        0 <= i < events.len(),
        events[i].is_tag(),
    ensures
        index_of(events.take(i)).len() < index_of(events).len(),
        same_tag(
            index_of(events)[index_of(events.take(i)).len() as int],
            element_seen(open_names(events.take(i)), events[i]),
        ),
{
    let at = index_of(events.take(i)).len() as int;
    assert(events.take(i + 1).drop_last() == events.take(i));
    assert(events.take(i + 1).last() == events[i]);
    assert(index_of(events.take(i + 1))[at] == element_seen(
        open_names(events.take(i)),
        events[i],
    ));
    listed_elements_stay(events, i + 1, events.len() as int);
    assert(events.take(events.len() as int) == events);
}

/// Every listed element is the element of a tag.
pub proof fn every_element_is_a_tag(events: Seq<EventView>, k: int)
    requires
        0 <= k < index_of(events).len(),
    ensures
        exists|i: int|
            0 <= i < events.len() && (#[trigger] events[i]).is_tag() && index_of(
                events.take(i),
            ).len() == k,
    decreases events.len(),
{
    let before = events.drop_last();
    let last = events.last();
    assert(events.take(events.len() - 1) == before);
    if last.is_tag() && k == index_of(before).len() {
        let i = events.len() - 1;
        assert(events[i].is_tag() && index_of(events.take(i)).len() == k);
    } else {
        every_element_is_a_tag(before, k);
        let i = choose|i: int|
            0 <= i < before.len() && (#[trigger] before[i]).is_tag() && index_of(
                before.take(i),
            ).len() == k;
        assert(before.take(i) == events.take(i));
        assert(events[i].is_tag() && index_of(events.take(i)).len() == k);
    }
}

/// Where `k` is the first element that satisfies the pattern, it is the
/// first of the elements that satisfy it.
pub proof fn first_fitting_is_first_match(
    elements: Seq<ElementView>,
    pattern: (Seq<char>, Option<(Seq<char>, Seq<char>)>),
    k: int,
)
    requires
        0 <= k < elements.len(),
        element_fits(elements[k], pattern),
        forall|j: int| 0 <= j < k ==> !element_fits(#[trigger] elements[j], pattern),
    ensures
        matching(elements, pattern).len() > 0,
        matching(elements, pattern)[0] == elements[k],
    decreases elements.len(),
{
    let before = elements.drop_last();
    if k < elements.len() - 1 {
        assert forall|j: int| 0 <= j < k implies !element_fits(#[trigger] before[j], pattern) by {
            assert(before[j] == elements[j]);
        }
        first_fitting_is_first_match(before, pattern, k);
    } else {
        assert(matching(before, pattern).len() == 0) by {
            if matching(before, pattern).len() > 0 {
                nonempty_match_has_fitting(before, pattern);
                let j = choose|j: int| 0 <= j < before.len() && element_fits(
                    #[trigger] before[j],
                    pattern,
                );
                assert(before[j] == elements[j]);
            }
        }
    }
}

/// Where the elements that satisfy the pattern are not none, one of the
/// elements satisfies it.
pub proof fn nonempty_match_has_fitting(
    elements: Seq<ElementView>,
    pattern: (Seq<char>, Option<(Seq<char>, Seq<char>)>),
)
    requires
        matching(elements, pattern).len() > 0,
    ensures
        exists|j: int| 0 <= j < elements.len() && element_fits(#[trigger] elements[j], pattern),
    decreases elements.len(),
{
    if elements.len() > 0 {
        let before = elements.drop_last();
        if element_fits(elements.last(), pattern) {
            assert(element_fits(elements[elements.len() - 1], pattern));
        } else {
            nonempty_match_has_fitting(before, pattern);
            let j = choose|j: int| 0 <= j < before.len() && element_fits(
                #[trigger] before[j],
                pattern,
            );
            assert(before[j] == elements[j]);
        }
    }
}

/// The tag that the edits take is the element that a query names first:
/// where a tag satisfies the pattern, the first element among those that
/// satisfy the pattern is the element of the first such tag, with its
/// path, its name and its attributes.
pub proof fn first_target_is_first_match(
    events: Seq<EventView>,
    pattern: (Seq<char>, Option<(Seq<char>, Seq<char>)>),
)
    requires
        first_target(events, pattern, 0) < events.len(),
    ensures
        matching(index_of(events), pattern).len() > 0,
        same_tag(
            matching(index_of(events), pattern)[0],
            element_seen(
                open_names(events.take(first_target(events, pattern, 0))),
                events[first_target(events, pattern, 0)],
            ),
        ),
{
    let t = first_target(events, pattern, 0);
    first_target_is_first(events, pattern, 0);
    tag_has_its_place(events, t);
    let elements = index_of(events);
    let k = index_of(events.take(t)).len() as int;
    assert(element_fits(elements[k], pattern));
    assert forall|j: int| 0 <= j < k implies !element_fits(#[trigger] elements[j], pattern) by {
        every_element_is_a_tag(events.take(t), j);
        let i = choose|i: int|
            0 <= i < events.take(t).len() && (#[trigger] events.take(t)[i]).is_tag() && index_of(
                events.take(t).take(i),
            ).len() == j;
        assert(events.take(t).take(i) == events.take(i));
        assert(events.take(t)[i] == events[i]);
        tag_has_its_place(events, i);
        assert(!is_target(events, i, pattern));
    }
    first_fitting_is_first_match(elements, pattern, k);
}

} // verus!
