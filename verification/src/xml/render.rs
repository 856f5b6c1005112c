use vstd::prelude::*;
use vstd::string::StringExecFns;
use crate::xml::event::{EventKind, EventView, XmlEvent};

verus! {

/// What opens an event of this kind in a document.
pub open spec fn opening(kind: EventKind) -> Seq<char> {
    match kind {
        EventKind::Start | EventKind::Empty => seq!['<'],
        EventKind::End => seq!['<', '/'],
        EventKind::CData => seq!['<', '!', '[', 'C', 'D', 'A', 'T', 'A', '['],
        EventKind::Comment => seq!['<', '!', '-', '-'],
        EventKind::Decl | EventKind::PI => seq!['<', '?'],
        EventKind::DocType => seq!['<', '!', 'D', 'O', 'C', 'T', 'Y', 'P', 'E', ' '],
        EventKind::Text | EventKind::Eof => Seq::empty(),
    }
}

/// What closes an event of this kind in a document.
pub open spec fn closing(kind: EventKind) -> Seq<char> {
    match kind {
        EventKind::Start | EventKind::End | EventKind::DocType => seq!['>'],
        EventKind::Empty => seq!['/', '>'],
        EventKind::CData => seq![']', ']', '>'],
        EventKind::Comment => seq!['-', '-', '>'],
        EventKind::Decl | EventKind::PI => seq!['?', '>'],
        EventKind::Text | EventKind::Eof => Seq::empty(),
    }
}

/// One event as document text: its name and body between the delimiters of
/// its kind. The end-of-document mark is written as nothing.
pub open spec fn rendered(e: EventView) -> Seq<char> {
    if e.kind == EventKind::Eof {
        Seq::empty()
    } else {
        opening(e.kind) + e.name + e.body + closing(e.kind)
    }
}

/// The events as document text, one after the other.
pub open spec fn rendered_all(events: Seq<EventView>) -> Seq<char>
    decreases events.len(),
{
    if events.len() == 0 {
        Seq::empty()
    } else {
        rendered_all(events.drop_last()) + rendered(events.last())
    }
}

fn push_opening(out: &mut String, kind: EventKind)
    ensures
        final(out)@ == old(out)@ + opening(kind),
{
    match kind {
        EventKind::Start | EventKind::Empty => {
            out.push('<');
        },
        EventKind::End => {
            out.push('<');
            out.push('/');
        },
        EventKind::CData => {
            out.push('<');
            out.push('!');
            out.push('[');
            out.push('C');
            out.push('D');
            out.push('A');
            out.push('T');
            out.push('A');
            out.push('[');
        },
        EventKind::Comment => {
            out.push('<');
            out.push('!');
            out.push('-');
            out.push('-');
        },
        EventKind::Decl | EventKind::PI => {
            out.push('<');
            out.push('?');
        },
        EventKind::DocType => {
            out.push('<');
            out.push('!');
            out.push('D');
            out.push('O');
            out.push('C');
            out.push('T');
            out.push('Y');
            out.push('P');
            out.push('E');
            out.push(' ');
        },
        EventKind::Text | EventKind::Eof => {},
    }
    assert(out@ == old(out)@ + opening(kind));
}

fn push_closing(out: &mut String, kind: EventKind)
    ensures
        final(out)@ == old(out)@ + closing(kind),
{
    match kind {
        EventKind::Start | EventKind::End | EventKind::DocType => {
            out.push('>');
        },
        EventKind::Empty => {
            out.push('/');
            out.push('>');
        },
        EventKind::CData => {
            out.push(']');
            out.push(']');
            out.push('>');
        },
        EventKind::Comment => {
            out.push('-');
            out.push('-');
            out.push('>');
        },
        EventKind::Decl | EventKind::PI => {
            out.push('?');
            out.push('>');
        },
        EventKind::Text | EventKind::Eof => {},
    }
    assert(out@ == old(out)@ + closing(kind));
}

/// Appends one event to `out` as document text.
pub fn render_event(out: &mut String, event: &XmlEvent)
    ensures
        final(out)@ == old(out)@ + rendered(event@),
{
    if event.kind != EventKind::Eof {
        push_opening(out, event.kind);
        out.append(event.name.as_str());
        out.append(event.body.as_str());
        push_closing(out, event.kind);
        assert(out@ == old(out)@ + (opening(event.kind) + event.name@ + event.body@ + closing(
            event.kind,
        )));
    } else {
        assert(out@ == old(out)@ + Seq::<char>::empty());
    }
}

/// Writes the events out as one document.
pub fn render_events(events: &Vec<XmlEvent>) -> (out: String)
    ensures
        out@ == rendered_all(events.deep_view()),
{
    let mut out = String::new();
    let mut i: usize = 0;
    while i < events.len()
        invariant
            i <= events.len(),
            out@ == rendered_all(events.deep_view().take(i as int)),
        decreases events.len() - i,
    {
        let ghost all = events.deep_view();
        assert(all.take(i + 1).drop_last() == all.take(i as int));
        assert(all.take(i + 1).last() == events[i as int]@);
        render_event(&mut out, &events[i]);
        i += 1;
    }
    assert(events.deep_view().take(events.len() as int) == events.deep_view());
    out
}

} // verus!
