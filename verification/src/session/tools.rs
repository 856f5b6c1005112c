use vstd::prelude::*;
use vstd::string::StringExecFns;
use crate::session::args::{json_members, json_number, json_text, members_arg, number_arg, text_arg};
use crate::session::chat::{ToolCall, ToolResult};
use crate::session::context::{first_file, listing, push_listing, ContextManager};
use crate::session::files::FileType;
use crate::xml::element::{shown, ElementView, XmlElement};
use crate::error::ZError;
use crate::xml::event::EventView;
use crate::session::files::FileInfoView;
use crate::xml::index::index_of;
use crate::xml::modifier::{
    capped, element_at_path, matching, XmlModifier, MAX_XML_ELEMENTS,
};
use crate::xml::pattern::parsed;
use crate::xml::reader::{document_events, document_ok};
use crate::xml::render::rendered_all;
use crate::xml::rewrite::{delete_of, insert_of, new_child, set_attribute_of, update_text_of};
use crate::text::{decimal_of, push_decimal, text_eq};

verus! {

/// Carries out the tool calls of one editing session: it holds the
/// document, the record of the edits made, and whether the session was
/// declared finished.
pub struct ModifyToolHandler<'a> {
    context: &'a ContextManager,
    xml: XmlModifier,
    modifications: Vec<String>,
    finished: bool,
}

/// Mathematical value of a [`ModifyToolHandler`].
pub struct HandlerView {
    /// The files that may be consulted.
    pub files: Seq<FileInfoView>,
    /// The current text of the document.
    pub doc: Seq<char>,
    /// One record for each edit made, oldest first.
    pub log: Seq<Seq<char>>,
    /// Whether the session was declared finished.
    pub done: bool,
}

impl<'a> View for ModifyToolHandler<'a> {
    type V = HandlerView;

    closed spec fn view(&self) -> HandlerView {
        HandlerView {
            files: self.context.files(),
            doc: self.xml@,
            log: self.modifications.deep_view(),
            done: self.finished,
        }
    }
}

/// `n` times two spaces.
pub open spec fn indent(n: nat) -> Seq<char>
    decreases n,
{
    if n == 0 {
        Seq::empty()
    } else {
        indent((n - 1) as nat) + "  "@
    }
}

/// The first `n` elements as lines, each indented by its depth.
pub open spec fn structure_lines(elements: Seq<ElementView>, n: nat) -> Seq<char>
    decreases n,
{
    if n == 0 {
        Seq::empty()
    } else {
        structure_lines(elements, (n - 1) as nat) + indent(elements[n - 1].depth) + shown(
            elements[n - 1],
        ) + "\n"@
    }
}

/// The structure of a document as text: a head line, the first
/// [`MAX_XML_ELEMENTS`] elements, and a count of the rest if there are
/// more.
pub open spec fn structure_shown(elements: Seq<ElementView>) -> Seq<char> {
    if elements.len() > MAX_XML_ELEMENTS {
        "XML Structure:\n"@ + structure_lines(elements, MAX_XML_ELEMENTS as nat) + "... and "@
            + decimal_of((elements.len() - MAX_XML_ELEMENTS) as nat) + " more elements\n"@
    } else {
        "XML Structure:\n"@ + structure_lines(elements, elements.len())
    }
}

/// The first `n` elements as lines, each `- ` and the element.
pub open spec fn bullet_lines(elements: Seq<ElementView>, n: nat) -> Seq<char>
    decreases n,
{
    if n == 0 {
        Seq::empty()
    } else {
        bullet_lines(elements, (n - 1) as nat) + "- "@ + shown(elements[n - 1]) + "\n"@
    }
}

/// What a query reports: the elements found, or that there are none.
pub open spec fn found_shown(elements: Seq<ElementView>, pattern: Seq<char>) -> Seq<char> {
    if elements.len() == 0 {
        "No elements matching '"@ + pattern + "'"@
    } else {
        "Found "@ + decimal_of(elements.len()) + " element(s) matching '"@ + pattern + "':\n"@
            + bullet_lines(elements, elements.len())
    }
}

/// What a lookup by path reports.
pub open spec fn lookup_shown(found: Option<ElementView>, path: Seq<char>) -> Seq<char> {
    match found {
        Some(e) => "Element: "@ + shown(e),
        None => "No element at path '"@ + path + "'"@,
    }
}

/// What a read-only tool owes its caller: on a well-formed document the
/// report `text`, else an error.
pub open spec fn report_done(doc: Seq<char>, text: Seq<char>, r: Result<String, ZError>) -> bool {
    match r {
        Ok(s) => document_ok(doc) && s@ == text,
        Err(e) => !document_ok(doc) && e is Xml,
    }
}

/// What an editing tool owes its caller. `outcome` is what the edit makes
/// of the document's events. Where an element was found the document
/// becomes the new events written out, `record` is added to the log and
/// the answer is `found`; where none was, nothing changes and the answer
/// is `missing`. On a document that is not well-formed the call fails and
/// nothing changes.
pub open spec fn edit_reported(
    before: HandlerView,
    after: HandlerView,
    outcome: Option<Seq<EventView>>,
    record: Seq<char>,
    found: Seq<char>,
    missing: Seq<char>,
    r: Result<String, ZError>,
) -> bool {
    &&& after.files == before.files
    &&& after.done == before.done
    &&& match r {
        Ok(s) => document_ok(before.doc) && match outcome {
            Some(events) => {
                &&& after.doc == rendered_all(events)
                &&& after.log == before.log.push(record)
                &&& s@ == found
            },
            None => after.doc == before.doc && after.log == before.log && s@ == missing,
        },
        Err(e) => !document_ok(before.doc) && e is Xml && after.doc == before.doc && after.log
            == before.log,
    }
}

/// What the closing tool reports.
pub open spec fn finish_shown(summary: Option<Seq<char>>, edits: nat) -> Seq<char> {
    "Finished: "@ + (match summary {
        Some(s) => s,
        None => "Modifications complete"@,
    }) + "\nTotal modifications: "@ + decimal_of(edits)
}

fn push_indent(out: &mut String, depth: usize)
    ensures
        final(out)@ == old(out)@ + indent(depth as nat),
{
    let mut i: usize = 0;
    while i < depth
        invariant
            i <= depth,
            out@ == old(out)@ + indent(i as nat),
        decreases depth - i,
    {
        let ghost before = indent(i as nat);
        out.append("  ");
        assert(out@ == old(out)@ + (before + "  "@));
        i += 1;
    }
}

/// The structure of a document as text.
pub fn show_structure(elements: &Vec<XmlElement>) -> (s: String)
    ensures
        s@ == structure_shown(elements.deep_view()),
{
    let ghost all = elements.deep_view();
    let mut out = String::from_str("XML Structure:\n");
    let ghost head = out@;
    let n = if elements.len() > MAX_XML_ELEMENTS {
        MAX_XML_ELEMENTS
    } else {
        elements.len()
    };
    let mut i: usize = 0;
    while i < n
        invariant
            i <= n <= elements.len(),
            all == elements.deep_view(),
            out@ == head + structure_lines(all, i as nat),
        decreases n - i,
    {
        let ghost before = structure_lines(all, i as nat);
        let line = elements[i].display();
        assert(all[i as int] == elements[i as int]@);
        push_indent(&mut out, elements[i].depth);
        out.append(line.as_str());
        out.append("\n");
        assert(out@ == head + (before + indent(all[i as int].depth) + shown(all[i as int])
            + "\n"@));
        i += 1;
    }
    if elements.len() > MAX_XML_ELEMENTS {
        out.append("... and ");
        push_decimal(&mut out, (elements.len() - MAX_XML_ELEMENTS) as u64);
        out.append(" more elements\n");
    }
    out
}

/// What a query for `pattern` reports of the elements it found.
pub fn show_found(elements: &Vec<XmlElement>, pattern: &str) -> (s: String)
    ensures
        s@ == found_shown(elements.deep_view(), pattern@),
{
    let ghost all = elements.deep_view();
    if elements.len() == 0 {
        let mut out = String::from_str("No elements matching '");
        out.append(pattern);
        out.append("'");
        return out;
    }
    let mut out = String::from_str("Found ");
    push_decimal(&mut out, elements.len() as u64);
    out.append(" element(s) matching '");
    out.append(pattern);
    out.append("':\n");
    let ghost head = out@;
    let mut i: usize = 0;
    while i < elements.len()
        invariant
            i <= elements.len(),
            all == elements.deep_view(),
            out@ == head + bullet_lines(all, i as nat),
        decreases elements.len() - i,
    {
        let ghost before = bullet_lines(all, i as nat);
        let line = elements[i].display();
        assert(all[i as int] == elements[i as int]@);
        out.append("- ");
        out.append(line.as_str());
        out.append("\n");
        assert(out@ == head + (before + "- "@ + shown(all[i as int]) + "\n"@));
        i += 1;
    }
    out
}

/// What a lookup of `path` reports of the element it found, if any.
pub fn show_lookup(found: &Option<XmlElement>, path: &str) -> (s: String)
    ensures
        s@ == lookup_shown(found.deep_view(), path@),
{
    match found {
        Some(e) => {
            let mut out = String::from_str("Element: ");
            out.append(e.display().as_str());
            out
        },
        None => {
            let mut out = String::from_str("No element at path '");
            out.append(path);
            out.append("'");
            out
        },
    }
}

impl<'a> ModifyToolHandler<'a> {
    /// A handler for a new session on the document `xml`.
    pub fn new(context: &'a ContextManager, xml: XmlModifier) -> (r: Self)
        ensures
            r@ == (HandlerView {
                files: context.files(),
                doc: xml@,
                log: Seq::empty(),
                done: false,
            }),
    {
        let r = ModifyToolHandler { context, xml, modifications: Vec::new(), finished: false };
        assert(r.modifications.deep_view() == Seq::<Seq<char>>::empty());
        r
    }

    /// Whether the session was declared finished.
    pub fn is_finished(&self) -> (r: bool)
        ensures
            r == self@.done,
    {
        self.finished
    }

    /// The records of the edits made, oldest first.
    pub fn get_modifications(&self) -> (r: &Vec<String>)
        ensures
            r.deep_view() == self@.log,
    {
        &self.modifications
    }

    /// The document as it stands.
    pub fn document(&self) -> (r: &XmlModifier)
        ensures
            r@ == self@.doc,
    {
        &self.xml
    }

    /// Ends the session and hands the document back.
    pub fn into_document(self) -> (r: XmlModifier)
        ensures
            r@ == self@.doc,
    {
        self.xml
    }

    /// Lists the files that may be consulted.
    pub fn handle_list_files(&self) -> (s: String)
        ensures
            s@ == "Available files ("@ + decimal_of(self@.files.len()) + "):\n"@ + listing(
                self@.files,
                self@.files.len(),
            ),
    {
        let files = self.context.list_files();
        let mut out = String::from_str("Available files (");
        push_decimal(&mut out, files.len() as u64);
        out.append("):\n");
        push_listing(&mut out, files);
        out
    }

    /// Shows the structure of the document.
    pub fn handle_get_xml_structure(&self) -> (r: Result<String, ZError>)
        ensures
            report_done(self@.doc, structure_shown(index_of(document_events(self@.doc))), r),
    {
        match self.xml.get_structure() {
            Ok(elements) => Ok(show_structure(&elements)),
            Err(e) => Err(e),
        }
    }

    /// Shows the elements that satisfy `pattern`.
    pub fn handle_query_xml(&self, pattern: &str) -> (r: Result<String, ZError>)
        ensures
            report_done(
                self@.doc,
                found_shown(
                    capped(
                        matching(index_of(document_events(self@.doc)), parsed(pattern@)),
                        MAX_XML_ELEMENTS as nat,
                    ),
                    pattern@,
                ),
                r,
            ),
    {
        match self.xml.query(pattern) {
            Ok(elements) => Ok(show_found(&elements, pattern)),
            Err(e) => Err(e),
        }
    }

    /// Shows the element at exactly `path`.
    pub fn handle_get_element(&self, path: &str) -> (r: Result<String, ZError>)
        ensures
            report_done(
                self@.doc,
                lookup_shown(element_at_path(index_of(document_events(self@.doc)), path@), path@),
                r,
            ),
    {
        match self.xml.get_element(path) {
            Ok(found) => Ok(show_lookup(&found, path)),
            Err(e) => Err(e),
        }
    }

    fn note(&mut self, changed: bool, record: String, found: &str, missing: &str) -> (s: String)
        ensures
            final(self)@.files == old(self)@.files,
            final(self)@.done == old(self)@.done,
            final(self)@.doc == old(self)@.doc,
            final(self)@.log == if changed {
                old(self)@.log.push(record@)
            } else {
                old(self)@.log
            },
            s@ == if changed {
                found@
            } else {
                missing@
            },
    {
        if changed {
            let ghost before = self.modifications.deep_view();
            self.modifications.push(record);
            assert(self.modifications.deep_view() == before.push(record@));
            String::from_str(found)
        } else {
            String::from_str(missing)
        }
    }

    /// Sets the text of an element and records the edit.
    pub fn handle_update_text(&mut self, path: &str, value: &str) -> (r: Result<String, ZError>)
        ensures
            edit_reported(
                old(self)@,
                final(self)@,
                update_text_of(document_events(old(self)@.doc), parsed(path@), value@),
                "update_text: "@ + path@ + " = '"@ + value@ + "'"@,
                "Text updated successfully"@,
                "No matching element found"@,
                r,
            ),
    {
        match self.xml.update_text(path, value) {
            Ok(changed) => {
                let mut record = String::from_str("update_text: ");
                record.append(path);
                record.append(" = '");
                record.append(value);
                record.append("'");
                Ok(self.note(changed, record, "Text updated successfully", "No matching element found"))
            },
            Err(e) => Err(e),
        }
    }

    /// Sets an attribute of an element and records the edit.
    pub fn handle_set_attribute(&mut self, path: &str, attr_name: &str, value: &str) -> (r: Result<
        String,
        ZError,
    >)
        ensures
            edit_reported(
                old(self)@,
                final(self)@,
                set_attribute_of(
                    document_events(old(self)@.doc),
                    parsed(path@),
                    attr_name@,
                    value@,
                ),
                "set_attribute: "@ + path@ + " @"@ + attr_name@ + " = '"@ + value@ + "'"@,
                "Attribute set successfully"@,
                "No matching element found"@,
                r,
            ),
    {
        match self.xml.set_attribute(path, attr_name, value) {
            Ok(changed) => {
                let mut record = String::from_str("set_attribute: ");
                record.append(path);
                record.append(" @");
                record.append(attr_name);
                record.append(" = '");
                record.append(value);
                record.append("'");
                Ok(
                    self.note(
                        changed,
                        record,
                        "Attribute set successfully",
                        "No matching element found",
                    ),
                )
            },
            Err(e) => Err(e),
        }
    }

    /// Removes an element and records the edit.
    pub fn handle_delete(&mut self, path: &str) -> (r: Result<String, ZError>)
        ensures
            edit_reported(
                old(self)@,
                final(self)@,
                delete_of(document_events(old(self)@.doc), parsed(path@)),
                "delete: "@ + path@,
                "Element deleted successfully"@,
                "No matching element found"@,
                r,
            ),
    {
        match self.xml.delete_element(path) {
            Ok(changed) => {
                let mut record = String::from_str("delete: ");
                record.append(path);
                Ok(
                    self.note(
                        changed,
                        record,
                        "Element deleted successfully",
                        "No matching element found",
                    ),
                )
            },
            Err(e) => Err(e),
        }
    }

    /// Adds a child element and records the edit.
    pub fn handle_insert(
        &mut self,
        path: &str,
        element_name: &str,
        attributes: &[(String, String)],
        text: Option<&str>,
    ) -> (r: Result<String, ZError>)
        ensures
            edit_reported(
                old(self)@,
                final(self)@,
                insert_of(
                    document_events(old(self)@.doc),
                    parsed(path@),
                    new_child(element_name@, attributes.deep_view(), text.deep_view()),
                ),
                "insert: "@ + path@ + " -> <"@ + element_name@ + ">"@,
                "Element inserted successfully"@,
                "No matching parent element found"@,
                r,
            ),
    {
        match self.xml.insert_element(path, element_name, attributes, text) {
            Ok(changed) => {
                let mut record = String::from_str("insert: ");
                record.append(path);
                record.append(" -> <");
                record.append(element_name);
                record.append(">");
                Ok(
                    self.note(
                        changed,
                        record,
                        "Element inserted successfully",
                        "No matching parent element found",
                    ),
                )
            },
            Err(e) => Err(e),
        }
    }

    /// Declares the session finished and reports how many edits it made.
    pub fn handle_finish(&mut self, summary: Option<&str>) -> (s: String)
        ensures
            final(self)@ == (HandlerView { done: true, ..old(self)@ }),
            s@ == finish_shown(summary.deep_view(), old(self)@.log.len()),
    {
        self.finished = true;
        let mut out = String::from_str("Finished: ");
        match summary {
            Some(text) => out.append(text),
            None => out.append("Modifications complete"),
        }
        out.append("\nTotal modifications: ");
        push_decimal(&mut out, self.modifications.len() as u64);
        out
    }
}

/// What a tool call comes to.
#[derive(Debug)]
pub enum ToolStep {
    /// The call was carried out; this is its result.
    Done(ToolResult),
    /// The call asks for the content of an indexed file. The caller reads
    /// the file and answers with its content, cut as
    /// [`crate::session::context::clip_content`] cuts it.
    ReadFile { tool_call_id: String, filename: String },
    /// The call asks for rows of an indexed table. The caller reads the
    /// file and answers with what [`crate::session::context::select_rows`] makes of
    /// it.
    QueryCsv { tool_call_id: String, filename: String, filter: Option<String>, limit: Option<usize> },
}

/// The members that hold text, each with its text, in order.
pub open spec fn text_members(members: Seq<(Seq<char>, Option<Seq<char>>)>) -> Seq<
    (Seq<char>, Seq<char>),
>
    decreases members.len(),
{
    if members.len() == 0 {
        Seq::empty()
    } else {
        match members.last().1 {
            Some(text) => text_members(members.drop_last()).push((members.last().0, text)),
            None => text_members(members.drop_last()),
        }
    }
}

/// The attributes that the arguments of an insertion give the new element:
/// the members of `attributes` that hold text, or none where the
/// arguments have no such object.
pub open spec fn attributes_arg(args: Seq<char>) -> Seq<(Seq<char>, Seq<char>)> {
    match json_members(args, "attributes"@) {
        Some(members) => text_members(members),
        None => Seq::empty(),
    }
}

/// True iff the call was refused with the given message.
pub open spec fn refused(r: Result<ToolStep, ZError>, message: Seq<char>) -> bool {
    r is Err && r->Err_0 is ToolCall && r->Err_0->ToolCall_0@ == message
}

/// True iff the call was refused as a matter of configuration, with the
/// given message.
pub open spec fn misplaced(r: Result<ToolStep, ZError>, message: Seq<char>) -> bool {
    r is Err && r->Err_0 is Config && r->Err_0->Config_0@ == message
}

/// The report or the error that a finished call carries, once it is known
/// to be finished for the call with this id.
pub open spec fn answer_of(r: Result<ToolStep, ZError>) -> Result<String, ZError> {
    match r {
        Ok(ToolStep::Done(result)) => Ok(result.content),
        Ok(_) => arbitrary(),
        Err(e) => Err(e),
    }
}

/// True iff the call ended, in a result for the call with this id or in an
/// error, and did not ask for a file.
pub open spec fn ended(r: Result<ToolStep, ZError>, id: Seq<char>) -> bool {
    match r {
        Ok(ToolStep::Done(result)) => result.tool_call_id@ == id,
        Ok(_) => false,
        Err(_) => true,
    }
}

/// What the tool `modify_xml` owes its caller, by the operation that its
/// arguments name.
pub open spec fn modified(
    before: HandlerView,
    after: HandlerView,
    id: Seq<char>,
    args: Seq<char>,
    r: Result<ToolStep, ZError>,
) -> bool {
    let events = document_events(before.doc);
    match (json_text(args, "operation"@), json_text(args, "path"@)) {
        (None, _) => after == before && refused(r, "Missing operation parameter"@),
        (Some(_), None) => after == before && refused(r, "Missing path parameter"@),
        (Some(op), Some(path)) => if op == "update_text"@ {
            match json_text(args, "value"@) {
                None => after == before && refused(r, "Missing value for update_text"@),
                Some(value) => ended(r, id) && edit_reported(
                    before,
                    after,
                    update_text_of(events, parsed(path), value),
                    "update_text: "@ + path + " = '"@ + value + "'"@,
                    "Text updated successfully"@,
                    "No matching element found"@,
                    answer_of(r),
                ),
            }
        } else if op == "set_attribute"@ {
            match (json_text(args, "attr_name"@), json_text(args, "value"@)) {
                (None, _) => after == before && refused(r, "Missing attr_name for set_attribute"@),
                (Some(_), None) => after == before && refused(
                    r,
                    "Missing value for set_attribute"@,
                ),
                (Some(name), Some(value)) => ended(r, id) && edit_reported(
                    before,
                    after,
                    set_attribute_of(events, parsed(path), name, value),
                    "set_attribute: "@ + path + " @"@ + name + " = '"@ + value + "'"@,
                    "Attribute set successfully"@,
                    "No matching element found"@,
                    answer_of(r),
                ),
            }
        } else if op == "delete"@ {
            ended(r, id) && edit_reported(
                before,
                after,
                delete_of(events, parsed(path)),
                "delete: "@ + path,
                "Element deleted successfully"@,
                "No matching element found"@,
                answer_of(r),
            )
        } else if op == "insert"@ {
            match json_text(args, "element_name"@) {
                None => after == before && refused(r, "Missing element_name for insert"@),
                Some(name) => ended(r, id) && edit_reported(
                    before,
                    after,
                    insert_of(
                        events,
                        parsed(path),
                        new_child(name, attributes_arg(args), json_text(args, "text"@)),
                    ),
                    "insert: "@ + path + " -> <"@ + name + ">"@,
                    "Element inserted successfully"@,
                    "No matching parent element found"@,
                    answer_of(r),
                ),
            }
        } else {
            after == before && refused(r, "Unknown operation: "@ + op)
        },
    }
}

/// The limit that the arguments of a table query give, if it fits.
pub open spec fn limit_arg(args: Seq<char>) -> Option<usize> {
    match json_number(args, "limit"@) {
        Some(n) => if n <= usize::MAX {
            Some(n as usize)
        } else {
            None
        },
        None => None,
    }
}

/// What a tool call owes its caller, by the name of the tool. A tool that
/// only reads leaves the session as it was.
pub open spec fn executed(
    before: HandlerView,
    after: HandlerView,
    id: Seq<char>,
    name: Seq<char>,
    args: Seq<char>,
    r: Result<ToolStep, ZError>,
) -> bool {
    let elements = index_of(document_events(before.doc));
    if name == "list_files"@ {
        &&& after == before
        &&& r is Ok
        &&& ended(r, id)
        &&& answer_of(r)->Ok_0@ == "Available files ("@ + decimal_of(before.files.len())
            + "):\n"@ + listing(before.files, before.files.len())
    } else if name == "read_file"@ {
        after == before && match json_text(args, "filename"@) {
            None => refused(r, "Missing filename parameter"@),
            Some(filename) => if first_file(before.files, filename, 0) < before.files.len() {
                r matches Ok(ToolStep::ReadFile { tool_call_id, filename: wanted })
                    && tool_call_id@ == id && wanted@ == filename
            } else {
                misplaced(r, "File not in context: "@ + filename)
            },
        }
    } else if name == "query_csv"@ {
        after == before && match json_text(args, "filename"@) {
            None => refused(r, "Missing filename parameter"@),
            Some(filename) => {
                let at = first_file(before.files, filename, 0);
                if at >= before.files.len() {
                    misplaced(r, "File not found: "@ + filename)
                } else if before.files[at].file_type != FileType::Csv {
                    misplaced(r, filename + " is not a CSV file"@)
                } else {
                    r matches Ok(ToolStep::QueryCsv { tool_call_id, filename: wanted, filter, limit })
                        && tool_call_id@ == id && wanted@ == filename && filter.deep_view()
                        == json_text(args, "filter"@) && limit == limit_arg(args)
                }
            },
        }
    } else if name == "get_xml_structure"@ {
        after == before && ended(r, id) && report_done(
            before.doc,
            structure_shown(elements),
            answer_of(r),
        )
    } else if name == "query_xml"@ {
        after == before && match json_text(args, "pattern"@) {
            None => refused(r, "Missing pattern parameter"@),
            Some(pattern) => ended(r, id) && report_done(
                before.doc,
                found_shown(
                    capped(matching(elements, parsed(pattern)), MAX_XML_ELEMENTS as nat),
                    pattern,
                ),
                answer_of(r),
            ),
        }
    } else if name == "get_element"@ {
        after == before && match json_text(args, "path"@) {
            None => refused(r, "Missing path parameter"@),
            Some(path) => ended(r, id) && report_done(
                before.doc,
                lookup_shown(element_at_path(elements, path), path),
                answer_of(r),
            ),
        }
    } else if name == "modify_xml"@ {
        modified(before, after, id, args, r)
    } else if name == "finish"@ {
        &&& after == (HandlerView { done: true, ..before })
        &&& r is Ok
        &&& ended(r, id)
        &&& answer_of(r)->Ok_0@ == finish_shown(json_text(args, "summary"@), before.log.len())
    } else {
        after == before && refused(r, "Unknown tool: "@ + name)
    }
}

fn missing(what: &str) -> (r: Result<ToolStep, ZError>)
    ensures
        refused(r, what@),
{
    Err(ZError::ToolCall(String::from_str(what)))
}

fn done(id: &str, inner: Result<String, ZError>) -> (r: Result<ToolStep, ZError>)
    ensures
        ended(r, id@),
        answer_of(r) == inner,
        inner is Ok ==> r is Ok,
{
    match inner {
        Ok(content) => Ok(
            ToolStep::Done(ToolResult { tool_call_id: String::from_str(id), content }),
        ),
        Err(e) => Err(e),
    }
}

/// The attributes that the arguments of an insertion give the new element.
pub fn read_attributes(args: &str) -> (r: Vec<(String, String)>)
    ensures
        r.deep_view() == attributes_arg(args@),
{
    let mut r: Vec<(String, String)> = Vec::new();
    match members_arg(args, "attributes") {
        None => {
            assert(r.deep_view() == Seq::<(Seq<char>, Seq<char>)>::empty());
        },
        Some(members) => {
            let ghost all = members.deep_view();
            let mut i: usize = 0;
            while i < members.len()
                invariant
                    i <= members.len(),
                    all == members.deep_view(),
                    r.deep_view() == text_members(all.take(i as int)),
                decreases members.len() - i,
            {
                assert(all.take(i + 1).drop_last() == all.take(i as int));
                assert(all.take(i + 1).last() == members[i as int].deep_view());
                if let Some(text) = &members[i].1 {
                    let ghost before = r.deep_view();
                    r.push((members[i].0.clone(), text.clone()));
                    assert(r.deep_view() == before.push((members[i as int].0@, text@)));
                }
                i += 1;
            }
            assert(all.take(members.len() as int) == all);
        },
    }
    r
}

impl<'a> ModifyToolHandler<'a> {
    fn handle_modify_xml(&mut self, id: &str, args: &str) -> (r: Result<ToolStep, ZError>)
        ensures
            modified(old(self)@, final(self)@, id@, args@, r),
    {
        let operation = match text_arg(args, "operation") {
            Some(operation) => operation,
            None => {
                return missing("Missing operation parameter");
            },
        };
        let path = match text_arg(args, "path") {
            Some(path) => path,
            None => {
                return missing("Missing path parameter");
            },
        };
        if text_eq(operation.as_str(), "update_text") {
            match text_arg(args, "value") {
                Some(value) => done(id, self.handle_update_text(path.as_str(), value.as_str())),
                None => missing("Missing value for update_text"),
            }
        } else if text_eq(operation.as_str(), "set_attribute") {
            let name = match text_arg(args, "attr_name") {
                Some(name) => name,
                None => {
                    return missing("Missing attr_name for set_attribute");
                },
            };
            match text_arg(args, "value") {
                Some(value) => done(
                    id,
                    self.handle_set_attribute(path.as_str(), name.as_str(), value.as_str()),
                ),
                None => missing("Missing value for set_attribute"),
            }
        } else if text_eq(operation.as_str(), "delete") {
            done(id, self.handle_delete(path.as_str()))
        } else if text_eq(operation.as_str(), "insert") {
            let name = match text_arg(args, "element_name") {
                Some(name) => name,
                None => {
                    return missing("Missing element_name for insert");
                },
            };
            let text = text_arg(args, "text");
            let attributes = read_attributes(args);
            let inner = match &text {
                Some(t) => self.handle_insert(
                    path.as_str(),
                    name.as_str(),
                    attributes.as_slice(),
                    Some(t.as_str()),
                ),
                None => self.handle_insert(path.as_str(), name.as_str(), attributes.as_slice(), None),
            };
            done(id, inner)
        } else {
            let mut message = String::from_str("Unknown operation: ");
            message.append(operation.as_str());
            Err(ZError::ToolCall(message))
        }
    }

    /// Carries out one tool call, or says which file the caller has to
    /// read for it. An unknown tool and a missing argument are errors.
    pub fn execute(&mut self, tool_call: &ToolCall) -> (r: Result<ToolStep, ZError>)
        ensures
            executed(
                old(self)@,
                final(self)@,
                tool_call.id@,
                tool_call.function.name@,
                tool_call.function.arguments@,
                r,
            ),
    {
        let id = tool_call.id.as_str();
        let name = tool_call.function.name.as_str();
        let args = tool_call.function.arguments.as_str();
        if text_eq(name, "list_files") {
            done(id, Ok(self.handle_list_files()))
        } else if text_eq(name, "read_file") {
            let filename = match text_arg(args, "filename") {
                Some(filename) => filename,
                None => {
                    return missing("Missing filename parameter");
                },
            };
            match self.context.get_file_info(filename.as_str()) {
                Some(_) => Ok(
                    ToolStep::ReadFile { tool_call_id: String::from_str(id), filename },
                ),
                None => {
                    let mut message = String::from_str("File not in context: ");
                    message.append(filename.as_str());
                    Err(ZError::Config(message))
                },
            }
        } else if text_eq(name, "query_csv") {
            let filename = match text_arg(args, "filename") {
                Some(filename) => filename,
                None => {
                    return missing("Missing filename parameter");
                },
            };
            match self.context.get_file_info(filename.as_str()) {
                None => {
                    let mut message = String::from_str("File not found: ");
                    message.append(filename.as_str());
                    Err(ZError::Config(message))
                },
                Some(info) => {
                    if info.file_type != FileType::Csv {
                        let mut message = filename.clone();
                        message.append(" is not a CSV file");
                        return Err(ZError::Config(message));
                    }
                    let limit = match number_arg(args, "limit") {
                        Some(n) => if n <= usize::MAX as u64 {
                            Some(n as usize)
                        } else {
                            None
                        },
                        None => None,
                    };
                    Ok(
                        ToolStep::QueryCsv {
                            tool_call_id: String::from_str(id),
                            filename,
                            filter: text_arg(args, "filter"),
                            limit,
                        },
                    )
                },
            }
        } else if text_eq(name, "get_xml_structure") {
            done(id, self.handle_get_xml_structure())
        } else if text_eq(name, "query_xml") {
            match text_arg(args, "pattern") {
                Some(pattern) => done(id, self.handle_query_xml(pattern.as_str())),
                None => missing("Missing pattern parameter"),
            }
        } else if text_eq(name, "get_element") {
            match text_arg(args, "path") {
                Some(path) => done(id, self.handle_get_element(path.as_str())),
                None => missing("Missing path parameter"),
            }
        } else if text_eq(name, "modify_xml") {
            self.handle_modify_xml(id, args)
        } else if text_eq(name, "finish") {
            let summary = text_arg(args, "summary");
            let text = match &summary {
                Some(s) => self.handle_finish(Some(s.as_str())),
                None => self.handle_finish(None),
            };
            done(id, Ok(text))
        } else {
            let mut message = String::from_str("Unknown tool: ");
            message.append(name);
            Err(ZError::ToolCall(message))
        }
    }
}

} // verus!
