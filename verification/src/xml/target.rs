use vstd::prelude::*;
use crate::xml::event::{EventKind, EventView, XmlEvent};
use crate::xml::index::{attributes_in, attributes_of, joined, open_names, path_of};
use crate::xml::pattern::{filter_matches, path_matches, pattern_view, suffix_matches};

verus! {

/// True iff the tag `tag`, met while `ancestors` are open, satisfies the
/// pattern: its path fits the path suffix and its attributes the predicate.
pub open spec fn tag_fits(
    ancestors: Seq<Seq<char>>,
    tag: EventView,
    pattern: (Seq<char>, Option<(Seq<char>, Seq<char>)>),
) -> bool {
    suffix_matches(joined(ancestors.push(tag.name)), tag.name, pattern.0) && filter_matches(
        attributes_in(tag.body),
        pattern.1,
    )
}

/// True iff event `i` is a tag that satisfies the pattern.
pub open spec fn is_target(
    events: Seq<EventView>,
    i: int,
    pattern: (Seq<char>, Option<(Seq<char>, Seq<char>)>),
) -> bool {
    0 <= i < events.len() && events[i].is_tag() && tag_fits(
        open_names(events.take(i)),
        events[i],
        pattern,
    )
}

/// Index of the first tag at or after `from` that satisfies the pattern, or
/// `events.len()` if there is none.
pub open spec fn first_target(
    events: Seq<EventView>,
    pattern: (Seq<char>, Option<(Seq<char>, Seq<char>)>),
    from: int,
) -> int
    decreases events.len() - from,
{
    if from < 0 || from >= events.len() {
        events.len() as int
    } else if is_target(events, from, pattern) {
        from
    } else {
        first_target(events, pattern, from + 1)
    }
}

/// [`first_target`] is the least index of a matching tag.
pub proof fn first_target_is_first(
    events: Seq<EventView>,
    pattern: (Seq<char>, Option<(Seq<char>, Seq<char>)>),
    from: int,
)
    requires
        0 <= from <= events.len(),
    ensures
        from <= first_target(events, pattern, from) <= events.len(),
        first_target(events, pattern, from) < events.len() ==> is_target(
            events,
            first_target(events, pattern, from),
            pattern,
        ),
        forall|k: int|
            from <= k < first_target(events, pattern, from) ==> !is_target(events, k, pattern),
    decreases events.len() - from,
{
    if from < events.len() && !is_target(events, from, pattern) {
        first_target_is_first(events, pattern, from + 1);
    }
}

/// Number of elements that are open before event `i`.
pub open spec fn depth_at(events: Seq<EventView>, i: int) -> nat {
    open_names(events.take(i)).len()
}

/// Index of the first close tag at or after `from` that is met at depth
/// `depth`, or `events.len()` if there is none. For an open tag at index
/// `t` this is its own close tag when `from` is `t + 1` and `depth` the
/// depth just inside it.
pub open spec fn close_at(events: Seq<EventView>, depth: nat, from: int) -> int
    decreases events.len() - from,
{
    if from < 0 || from >= events.len() {
        events.len() as int
    } else if events[from].kind == EventKind::End && depth_at(events, from) == depth {
        from
    } else {
        close_at(events, depth, from + 1)
    }
}

/// The events with `events[from..to]` replaced by `between`.
pub open spec fn spliced(
    events: Seq<EventView>,
    from: int,
    between: Seq<EventView>,
    to: int,
) -> Seq<EventView> {
    events.take(from) + between + events.skip(to)
}

/// How the open names grow by one event.
pub proof fn open_names_step(events: Seq<EventView>, i: int)
    requires
        0 <= i < events.len(),
    ensures
        open_names(events.take(i + 1)) == match events[i].kind {
            EventKind::Start => open_names(events.take(i)).push(events[i].name),
            EventKind::End => if open_names(events.take(i)).len() > 0 {
                open_names(events.take(i)).drop_last()
            } else {
                open_names(events.take(i))
            },
            _ => open_names(events.take(i)),
        },
{
    assert(events.take(i + 1).drop_last() == events.take(i));
    assert(events.take(i + 1).last() == events[i]);
}

/// True iff `attributes` satisfy the predicate `filter`.
pub fn check_attr_filter(attributes: &Vec<(String, String)>, filter: &Option<(String, String)>) -> (r:
    bool)
    ensures
        r == filter_matches(attributes.deep_view(), filter.deep_view()),
{
    match filter {
        None => true,
        Some(wanted) => {
            let mut i: usize = 0;
            while i < attributes.len()
                invariant
                    i <= attributes.len(),
                    *filter == Some(*wanted),
                    !attributes.deep_view().take(i as int).contains((wanted.0@, wanted.1@)),
                decreases attributes.len() - i,
            {
                let ghost all = attributes.deep_view();
                assert(all[i as int] == (attributes[i as int].0@, attributes[i as int].1@));
                if attributes[i].0 == wanted.0 && attributes[i].1 == wanted.1 {
                    assert(all[i as int] == (wanted.0@, wanted.1@));
                    assert(filter.deep_view() == Some((wanted.0@, wanted.1@)));
                    return true;
                }
                assert(all.take(i + 1) == all.take(i as int).push(all[i as int]));
                assert(!all.take(i + 1).contains((wanted.0@, wanted.1@))) by {
                    let next = all.take(i + 1);
                    if next.contains((wanted.0@, wanted.1@)) {
                        let k = choose|k: int| 0 <= k < next.len() && next[k] == (wanted.0@, wanted.1@);
                        if k < i {
                            assert(all.take(i as int)[k] == next[k]);
                        }
                    }
                }
                i += 1;
            }
            assert(attributes.deep_view().take(attributes.len() as int)
                == attributes.deep_view());
            false
        },
    }
}

/// True iff `tag`, met while the elements of `stack` are open, satisfies
/// the pattern.
pub fn tag_matches(stack: &Vec<String>, tag: &XmlEvent, pattern: &(String, Option<(String, String)>)) -> (r:
    bool)
    ensures
        r == tag_fits(stack.deep_view(), tag@, pattern_view(*pattern)),
{
    let path = path_of(stack, tag.name.as_str());
    if !path_matches(path.as_str(), tag.name.as_str(), pattern.0.as_str()) {
        return false;
    }
    let attributes = attributes_of(tag.body.as_str());
    check_attr_filter(&attributes, &pattern.1)
}

/// Finds the first tag that satisfies the pattern. Returns its index, or
/// `events.len()` if no tag does, and the depth at that index.
pub fn find_target(events: &Vec<XmlEvent>, pattern: &(String, Option<(String, String)>)) -> (r: (
    usize,
    usize,
))
    ensures
        r.0 == first_target(events.deep_view(), pattern_view(*pattern), 0),
        r.0 <= events.len(),
        r.0 < events.len() ==> r.1 == depth_at(events.deep_view(), r.0 as int),
{
    let mut stack: Vec<String> = Vec::new();
    let mut i: usize = 0;
    while i < events.len()
        invariant
            i <= events.len(),
            stack.deep_view() == open_names(events.deep_view().take(i as int)),
            first_target(events.deep_view(), pattern_view(*pattern), 0) == first_target(
                events.deep_view(),
                pattern_view(*pattern),
                i as int,
            ),
        decreases events.len() - i,
    {
        let ghost names = stack.deep_view();
        proof {
            open_names_step(events.deep_view(), i as int);
        }
        let event = &events[i];
        if event.is_tag() && tag_matches(&stack, event, pattern) {
            return (i, stack.len());
        }
        if event.kind == EventKind::Start {
            stack.push(event.name.clone());
            assert(stack.deep_view() == names.push(event.name@));
        } else if event.kind == EventKind::End && stack.len() > 0 {
            stack.pop();
            assert(stack.deep_view() == names.drop_last());
        }
        i += 1;
    }
    (events.len(), 0)
}

/// Finds the first close tag at or after `from` that is met at depth
/// `depth`; `start_depth` is the depth at `from`.
pub(crate) fn find_close(events: &Vec<XmlEvent>, depth: usize, from: usize, start_depth: usize) -> (r: usize)
    requires
        from <= events.len(),
        start_depth == depth_at(events.deep_view(), from as int),
    ensures
        r == close_at(events.deep_view(), depth as nat, from as int),
        from <= r <= events.len(),
{
    let mut now: usize = start_depth;
    let mut i: usize = from;
    while i < events.len()
        invariant
            from <= i <= events.len(),
            now == depth_at(events.deep_view(), i as int),
            close_at(events.deep_view(), depth as nat, from as int) == close_at(
                events.deep_view(),
                depth as nat,
                i as int,
            ),
        decreases events.len() - i,
    {
        proof {
            open_names_step(events.deep_view(), i as int);
            depth_is_bounded(events.deep_view(), i as int);
        }
        let event = &events[i];
        if event.kind == EventKind::End {
            if now == depth {
                return i;
            }
            if now > 0 {
                now -= 1;
            }
        } else if event.kind == EventKind::Start {
            now += 1;
        }
        i += 1;
    }
    events.len()
}

/// No more elements are open than events were read.
pub proof fn depth_is_bounded(events: Seq<EventView>, i: int)
    requires
        0 <= i <= events.len(),
    ensures
        depth_at(events, i) <= i,
    decreases i,
{
    if i > 0 {
        depth_is_bounded(events, i - 1);
        open_names_step(events, i - 1);
    } else {
        assert(events.take(0).len() == 0);
    }
}

/// A new list: `events[..from]`, then `between`, then `events[to..]`.
pub fn splice(events: &Vec<XmlEvent>, from: usize, between: Vec<XmlEvent>, to: usize) -> (r: Vec<
    XmlEvent,
>)
    requires
        from <= events.len(),
        to <= events.len(),
    ensures
        r.deep_view() == spliced(events.deep_view(), from as int, between.deep_view(), to as int),
{
    let ghost all = events.deep_view();
    let mut r: Vec<XmlEvent> = Vec::new();
    let mut i: usize = 0;
    while i < from
        invariant
            i <= from <= events.len(),
            all == events.deep_view(),
            r.deep_view() == all.take(i as int),
        decreases from - i,
    {
        let ghost before = r.deep_view();
        r.push(events[i].copy());
        assert(r.deep_view() == before.push(events[i as int]@));
        assert(all.take(i + 1) == all.take(i as int).push(all[i as int]));
        i += 1;
    }
    let mut j: usize = 0;
    while j < between.len()
        invariant
            j <= between.len(),
            r.deep_view() == all.take(from as int) + between.deep_view().take(j as int),
        decreases between.len() - j,
    {
        let ghost before = r.deep_view();
        let ghost mid = between.deep_view();
        r.push(between[j].copy());
        assert(r.deep_view() == before.push(between[j as int]@));
        assert(mid.take(j + 1) == mid.take(j as int).push(mid[j as int]));
        j += 1;
    }
    assert(between.deep_view().take(between.len() as int) == between.deep_view());
    let mut k: usize = to;
    while k < events.len()
        invariant
            to <= k <= events.len(),
            all == events.deep_view(),
            r.deep_view() == all.take(from as int) + between.deep_view() + all.subrange(
                to as int,
                k as int,
            ),
        decreases events.len() - k,
    {
        let ghost before = r.deep_view();
        r.push(events[k].copy());
        assert(r.deep_view() == before.push(events[k as int]@));
        assert(all.subrange(to as int, k + 1) == all.subrange(to as int, k as int).push(
            all[k as int],
        ));
        k += 1;
    }
    assert(all.subrange(to as int, events.len() as int) == all.skip(to as int));
    r
}

} // verus!
