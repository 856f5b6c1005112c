use vstd::prelude::*;
use crate::error::ZError;
use crate::xml::event::EventKind::{CData, Comment, Decl, DocType, Empty, End, Eof, Start, Text, PI};
use crate::xml::event::{EventKind, EventView, XmlEvent};
use quick_xml::events::Event;

verus! {

/// quick_xml's pull tokenizer. Its state is not seen from here; what it
/// has yet to hand out is named by [`pending_steps`].
#[verifier::external_type_specification]
#[verifier::external_body]
#[verifier::reject_recursive_types(R)]
pub struct ExReader<R>(quick_xml::Reader<R>);

/// One step of reading: a piece of markup, or the point at which the
/// tokenizer refused the input.
pub enum Step {
    Piece(EventView),
    Fault,
}

/// The steps that quick_xml's tokenizer takes on the document `content`
/// when opened with `Reader::from_str` and text trimming off: what each
/// call of `read_event` returns, in order, up to and including the first
/// end-of-document or the first error. A tag is given by its name and by
/// what follows the name inside the angle brackets, a close tag by its
/// name, any other event by its content; bytes are read as UTF-8.
pub uninterp spec fn document_steps(content: Seq<char>) -> Seq<Step>;

/// The steps that `reader` has yet to take: what the coming calls of
/// `read_event` return, up to and including the first end-of-document or
/// the first error.
pub uninterp spec fn pending_steps(reader: quick_xml::Reader<&[u8]>) -> Seq<Step>;

/// A step after which nothing more is read.
pub open spec fn is_last_step(s: Step) -> bool {
    match s {
        Step::Piece(e) => e.kind == EventKind::Eof,
        Step::Fault => true,
    }
}

/// A run of steps that stops at its first last step: it is not empty, and
/// its final step is the only one after which nothing more is read.
pub open spec fn ends_once(steps: Seq<Step>) -> bool {
    &&& steps.len() > 0
    &&& forall|i: int| 0 <= i < steps.len() ==>
            (is_last_step(#[trigger] steps[i]) <==> i == steps.len() - 1)
}

/// `quick_xml::Reader::from_str`, then `trim_text(false)`. The contract
/// says that the new reader has the steps of the document before it, and
/// that these come to an end: every call of `read_event` takes at least
/// one byte of the input, or returns end-of-document or an error.
#[verifier::external_body]
pub(crate) fn open_reader(content: &str) -> (reader: quick_xml::Reader<&[u8]>)
    ensures
        pending_steps(reader) == document_steps(content@),
        ends_once(pending_steps(reader)),
{
    let mut reader = quick_xml::Reader::from_str(content);
    reader.trim_text(false);
    reader
}

/// `quick_xml::Reader::read_event` on a reader over a string. The contract
/// says that the call takes the first of the pending steps: it returns
/// that step's event, or an error where the step is a fault, and leaves
/// the rest pending. The event is handed out as owned text.
#[verifier::external_body]
pub(crate) fn next_event(reader: &mut quick_xml::Reader<&[u8]>) -> (r: Result<XmlEvent, quick_xml::Error>)
    ensures
        pending_steps(*old(reader)).len() > 0 ==> {
            &&& pending_steps(*final(reader)) == pending_steps(*old(reader)).skip(1)
            &&& match r {
                Ok(e) => pending_steps(*old(reader))[0] == Step::Piece(e@),
                Err(_) => pending_steps(*old(reader))[0] == Step::Fault,
            }
        },
{
    let ev = reader.read_event()?;
    let kind = match &ev {
        Event::Start(_) => Start,
        Event::End(_) => End,
        Event::Empty(_) => Empty,
        Event::Text(_) => Text,
        Event::CData(_) => CData,
        Event::Comment(_) => Comment,
        Event::Decl(_) => Decl,
        Event::PI(_) => PI,
        Event::DocType(_) => DocType,
        Event::Eof => Eof,
    };
    let cut = match &ev { Event::Start(e) | Event::Empty(e) => e.name().as_ref().len(), Event::End(e) => e.len(), _ => 0 };
    Ok(XmlEvent::new(kind, &String::from_utf8_lossy(&ev[..cut]), &String::from_utf8_lossy(&ev[cut..])))
}

/// The events of the steps before the final one.
pub open spec fn pieces(steps: Seq<Step>) -> Seq<EventView> {
    Seq::new((steps.len() - 1) as nat, |i: int| steps[i]->Piece_0)
}

/// The events of the document `content`, without the end-of-document mark.
/// Where the tokenizer refuses the document these are the events before
/// the refusal.
pub open spec fn document_events(content: Seq<char>) -> Seq<EventView> {
    pieces(document_steps(content))
}

/// True iff the tokenizer reads `content` to its end without refusing it.
pub open spec fn document_ok(content: Seq<char>) -> bool {
    document_steps(content).len() > 0 && document_steps(content).last() is Piece
}

/// Reads the whole document into a list of events. The end-of-document
/// mark is not part of the list.
pub fn read_events(content: &str) -> (r: Result<Vec<XmlEvent>, ZError>)
    ensures
        match r {
            Ok(events) => document_ok(content@) && events.deep_view() == document_events(
                content@,
            ),
            Err(e) => !document_ok(content@) && e is Xml,
        },
{
    let mut reader = open_reader(content);
    let ghost steps = document_steps(content@);
    let mut events: Vec<XmlEvent> = Vec::new();
    loop
        invariant
            steps == document_steps(content@),
            ends_once(steps),
            events.len() < steps.len(),
            pending_steps(reader) == steps.skip(events.len() as int),
            forall|k: int| 0 <= k < events.len() ==> #[trigger] steps[k] == Step::Piece(events[k]@),
        decreases steps.len() - events.len(),
    {
        let ghost n = events.len() as int;
        assert(steps.skip(n)[0] == steps[n]);
        assert(steps.skip(n).skip(1) == steps.skip(n + 1));
        match next_event(&mut reader) {
            Err(e) => {
                assert(is_last_step(steps[n]));
                return Err(ZError::Xml(e));
            },
            Ok(event) => {
                if event.kind == EventKind::Eof {
                    assert(is_last_step(steps[n]));
                    assert(events.deep_view() == pieces(steps));
                    return Ok(events);
                }
                assert(!is_last_step(steps[n]));
                events.push(event);
            },
        }
    }
}

} // verus!
