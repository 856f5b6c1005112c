use vstd::prelude::*;
use vstd::string::StringExecFns;

verus! {

/// The kind of one piece of markup in a document.
#[derive(Clone, Copy, Debug, PartialEq, Eq, Structural)]
pub enum EventKind {
    /// Open tag `<name ...>`.
    Start,
    /// Close tag `</name>`.
    End,
    /// Self-closing tag `<name .../>`.
    Empty,
    /// Character data between tags, still escaped.
    Text,
    /// `<![CDATA[...]]>` section.
    CData,
    /// `<!--...-->`.
    Comment,
    /// `<?xml ...?>`.
    Decl,
    /// `<?...?>`.
    PI,
    /// `<!DOCTYPE ...>`.
    DocType,
    /// End of the document.
    Eof,
}

/// One piece of markup, held as plain text.
///
/// For a tag, `name` is the tag's name and `body` is whatever follows the
/// name inside the angle brackets (the attributes, with their leading
/// whitespace). For every other kind `name` is empty and `body` is the
/// content between the delimiters of that kind.
#[derive(Clone, Debug)]
pub struct XmlEvent {
    pub kind: EventKind,
    pub name: String,
    pub body: String,
}

/// Mathematical value of an [`XmlEvent`].
pub struct EventView {
    pub kind: EventKind,
    pub name: Seq<char>,
    pub body: Seq<char>,
}

impl View for XmlEvent {
    type V = EventView;

    open spec fn view(&self) -> EventView {
        EventView { kind: self.kind, name: self.name@, body: self.body@ }
    }
}

impl XmlEvent {
    /// An event of the given kind; for a tag `name` is its name and `body`
    /// what follows the name, for any other kind `name` is left empty.
    pub fn new(kind: EventKind, name: &str, body: &str) -> (e: XmlEvent)
        ensures
            e@ == (EventView { kind, name: name@, body: body@ }),
    {
        XmlEvent { kind, name: String::from_str(name), body: String::from_str(body) }
    }

    /// A copy of the event.
    pub fn copy(&self) -> (e: XmlEvent)
        ensures
            e@ == self@,
    {
        XmlEvent { kind: self.kind, name: self.name.clone(), body: self.body.clone() }
    }

    /// True iff the event is an open tag or a self-closing tag.
    pub fn is_tag(&self) -> (r: bool)
        ensures
            r == self@.is_tag(),
    {
        self.kind == EventKind::Start || self.kind == EventKind::Empty
    }
}

impl EventView {
    /// True iff the event is an open tag or a self-closing tag.
    pub open spec fn is_tag(self) -> bool {
        self.kind == EventKind::Start || self.kind == EventKind::Empty
    }
}

impl DeepView for XmlEvent {
    type V = EventView;

    open spec fn deep_view(&self) -> EventView {
        self@
    }
}

} // verus!
