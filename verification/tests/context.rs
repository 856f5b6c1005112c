use xmledit::session::chat::{FunctionCall, ToolCall};
use xmledit::session::context::{
    clip_content, contains_chars, lines_of, name_sorts_before, select_rows, truncate_string,
    ContextManager, MAX_CSV_ROWS, MAX_FILE_CONTENT,
};
use xmledit::error::ZError;
use xmledit::session::files::{FileInfo, FileType};
use xmledit::xml::modifier::XmlModifier;
use xmledit::text::chars_of;
use xmledit::session::tools::{
    read_attributes, show_found, show_lookup, show_structure, ModifyToolHandler, ToolStep,
};

#[test]
fn test_truncate_string() {
    let long = "This is a very long string that should be truncated";
    let truncated = truncate_string(long, 20);
    assert!(truncated.len() <= 20);

    let short = "Short";
    let not_truncated = truncate_string(short, 20);
    assert_eq!(not_truncated, "Short");
}

#[test]
fn truncation_prefers_a_word_boundary_in_the_second_half() {
    assert_eq!(
        truncate_string("This is a very long string that should be truncated", 20),
        "This is a very long"
    );
    assert_eq!(truncate_string("ab cdefghijklmnop", 10), "ab cdefghi");
    assert_eq!(truncate_string("abcdefghijklmnop", 10), "abcdefghij");
    assert_eq!(truncate_string("abcdef ghijklmnop", 10), "abcdef");
    assert_eq!(truncate_string("abcde fghijklmnop", 10), "abcde fghi");
    assert_eq!(truncate_string("exactly ten", 11), "exactly ten");
    assert_eq!(truncate_string("anything", 0), "");
    assert_eq!(truncate_string("\u{e9}\u{e9}\u{e9}\u{e9}", 3), "\u{e9}\u{e9}\u{e9}");
}

#[test]
fn long_content_is_clipped_with_a_note() {
    let short = "x".repeat(MAX_FILE_CONTENT);
    assert_eq!(clip_content(&short), short);
    let long = "x".repeat(MAX_FILE_CONTENT + 1);
    assert_eq!(
        clip_content(&long),
        format!("{}...\n[Truncated: 2001 chars total]", "x".repeat(2000))
    );
    let words = "word ".repeat(500);
    let clipped = clip_content(&words);
    assert!(clipped.starts_with("word word"));
    assert!(clipped.ends_with("word...\n[Truncated: 2500 chars total]"));
}

#[test]
fn lines_and_substrings() {
    let lines = |s: &str| -> Vec<String> {
        lines_of(&chars_of(s)).iter().map(|l| l.iter().collect()).collect()
    };
    for s in ["", "a", "a\n", "a\nb", "a\r\nb\r\n", "\n", "\n\n", "a\r", "\r\n", "a\n\nb\n", "\ra\n"] {
        let expected: Vec<String> = s.lines().map(|l| l.to_string()).collect();
        assert_eq!(lines(s), expected, "{:?}", s);
    }
    let has = |s: &str, p: &str| contains_chars(&chars_of(s), &chars_of(p));
    for (s, p) in [("abc", "bc"), ("abc", ""), ("", ""), ("", "a"), ("abc", "abcd"), ("aab", "ab"), ("abc", "ac")] {
        assert_eq!(has(s, p), s.contains(p), "{:?} {:?}", s, p);
    }
}

#[test]
fn rows_are_selected_by_filter_and_limit() {
    let content = "row_id,cluster,distance\n0,0,0.1\n1,1,0.2\n2,0,0.15\n";
    let all = select_rows(content, None, Some(10));
    assert_eq!(all, content);
    let filtered = select_rows(content, Some(",0,"), Some(10));
    assert_eq!(filtered, "row_id,cluster,distance\n0,0,0.1\n2,0,0.15\n");
    assert_eq!(select_rows(content, None, Some(1)), "row_id,cluster,distance\n0,0,0.1\n");
    assert_eq!(select_rows(content, None, Some(0)), "row_id,cluster,distance\n");
    assert_eq!(select_rows(content, Some("zz"), None), "row_id,cluster,distance\n");
    assert_eq!(select_rows("", None, None), "");
    assert_eq!(select_rows("h", Some("h"), None), "h\n");
    let mut many = String::from("h\n");
    for i in 0..30 {
        many.push_str(&format!("{}\n", i));
    }
    assert_eq!(select_rows(&many, None, None).lines().count(), 1 + MAX_CSV_ROWS);
    assert_eq!(select_rows(&many, None, Some(100)).lines().count(), 1 + MAX_CSV_ROWS);
    assert_eq!(select_rows(&many, Some("2"), Some(3)), "h\n2\n12\n20\n");
}

fn info(name: &str, kind: FileType) -> FileInfo {
    FileInfo { filename: name.to_string(), file_type: kind, size_bytes: 7, preview: "p\nq".to_string() }
}

fn manager() -> ContextManager {
    ContextManager::from_index(vec![
        info("summary.txt", FileType::Text),
        info("clusters.csv", FileType::Csv),
        info("instructions.txt", FileType::Text),
    ])
}

#[test]
fn names_are_ordered_by_their_bytes() {
    for (a, b) in [("a", "b"), ("b", "a"), ("a", "a"), ("", "a"), ("a", ""), ("ab", "a"), ("a", "ab"), ("Z", "a"), ("\u{e9}", "z"), ("", "")] {
        assert_eq!(name_sorts_before(a, b), a <= b, "{:?} {:?}", a, b);
    }
}

#[test]
fn the_index_is_kept_in_name_order() {
    let cm = manager();
    assert_eq!(cm.file_count(), 3);
    let names: Vec<&str> = cm.list_files().iter().map(|f| f.filename.as_str()).collect();
    assert_eq!(names, vec!["clusters.csv", "instructions.txt", "summary.txt"]);
    assert_eq!(cm.get_file_info("clusters.csv").unwrap().file_type, FileType::Csv);
    assert!(cm.get_file_info("nonexistent.txt").is_none());
    assert_eq!(
        cm.build_file_index_summary(),
        "- clusters.csv (csv, 7 bytes): p q...\n- instructions.txt (text, 7 bytes): p q...\n- summary.txt (text, 7 bytes): p q...\n"
    );
    assert_eq!(ContextManager::from_index(Vec::new()).build_file_index_summary(), "");
}

fn call(id: &str, name: &str, args: &str) -> ToolCall {
    ToolCall {
        id: id.to_string(),
        call_type: "function".to_string(),
        function: FunctionCall { name: name.to_string(), arguments: args.to_string() },
    }
}

fn content(step: Result<ToolStep, ZError>) -> String {
    match step {
        Ok(ToolStep::Done(r)) => r.content,
        other => panic!("not done: {:?}", other),
    }
}

fn refusal(step: Result<ToolStep, ZError>) -> String {
    match step {
        Err(e) => e.message(),
        other => panic!("not refused: {:?}", other),
    }
}

const DOC: &str = "<root><item id=\"1\">First</item><item id=\"2\">Second</item></root>";

#[test]
fn tools_that_read() {
    let cm = manager();
    let mut h = ModifyToolHandler::new(&cm, XmlModifier::from_string(DOC.to_string()));
    assert!(!h.is_finished());
    assert!(h.get_modifications().is_empty());
    match h.execute(&call("c1", "list_files", "{}")) {
        Ok(ToolStep::Done(r)) => {
            assert_eq!(r.tool_call_id, "c1");
            assert_eq!(
                r.content,
                "Available files (3):\n- clusters.csv (csv, 7 bytes): p q...\n- instructions.txt (text, 7 bytes): p q...\n- summary.txt (text, 7 bytes): p q...\n"
            );
        }
        other => panic!("{:?}", other),
    }
    assert_eq!(
        content(h.execute(&call("c2", "get_xml_structure", ""))),
        "XML Structure:\nroot\n  root/item [id=\"1\"]: \"First\"\n  root/item [id=\"2\"]: \"Second\"\n"
    );
    assert_eq!(
        content(h.execute(&call("c3", "query_xml", "{\"pattern\": \"item[@id='2']\"}"))),
        "Found 1 element(s) matching 'item[@id='2']':\n- root/item [id=\"2\"]: \"Second\"\n"
    );
    assert_eq!(
        content(h.execute(&call("c4", "query_xml", "{\"pattern\": \"zz\"}"))),
        "No elements matching 'zz'"
    );
    assert_eq!(
        content(h.execute(&call("c5", "get_element", "{\"path\": \"root\"}"))),
        "Element: root"
    );
    assert_eq!(
        content(h.execute(&call("c6", "get_element", "{\"path\": \"item\"}"))),
        "No element at path 'item'"
    );
    assert_eq!(h.document().get_content(), DOC);
    assert!(h.get_modifications().is_empty());
}

#[test]
fn tools_that_ask_for_a_file() {
    let cm = manager();
    let mut h = ModifyToolHandler::new(&cm, XmlModifier::from_string(DOC.to_string()));
    match h.execute(&call("c1", "read_file", "{\"filename\": \"summary.txt\"}")) {
        Ok(ToolStep::ReadFile { tool_call_id, filename }) => {
            assert_eq!(tool_call_id, "c1");
            assert_eq!(filename, "summary.txt");
        }
        other => panic!("{:?}", other),
    }
    assert_eq!(
        refusal(h.execute(&call("c2", "read_file", "{\"filename\": \"nope.txt\"}"))),
        "Configuration error: File not in context: nope.txt"
    );
    assert_eq!(
        refusal(h.execute(&call("c3", "read_file", "{}"))),
        "Tool call error: Missing filename parameter"
    );
    match h.execute(&call(
        "c4",
        "query_csv",
        "{\"filename\": \"clusters.csv\", \"filter\": \",0,\", \"limit\": 5}",
    )) {
        Ok(ToolStep::QueryCsv { tool_call_id, filename, filter, limit }) => {
            assert_eq!(tool_call_id, "c4");
            assert_eq!(filename, "clusters.csv");
            assert_eq!(filter.as_deref(), Some(",0,"));
            assert_eq!(limit, Some(5));
        }
        other => panic!("{:?}", other),
    }
    match h.execute(&call("c5", "query_csv", "{\"filename\": \"clusters.csv\", \"limit\": -1}")) {
        Ok(ToolStep::QueryCsv { filter, limit, .. }) => {
            assert_eq!(filter, None);
            assert_eq!(limit, None);
        }
        other => panic!("{:?}", other),
    }
    assert_eq!(
        refusal(h.execute(&call("c6", "query_csv", "{\"filename\": \"summary.txt\"}"))),
        "Configuration error: summary.txt is not a CSV file"
    );
    assert_eq!(
        refusal(h.execute(&call("c7", "query_csv", "{\"filename\": \"zz.csv\"}"))),
        "Configuration error: File not found: zz.csv"
    );
    assert_eq!(
        refusal(h.execute(&call("c8", "query_csv", "not json"))),
        "Tool call error: Missing filename parameter"
    );
}

#[test]
fn tools_that_edit() {
    let cm = manager();
    let mut h = ModifyToolHandler::new(&cm, XmlModifier::from_string(DOC.to_string()));
    assert_eq!(
        content(h.execute(&call(
            "m1",
            "modify_xml",
            "{\"operation\": \"update_text\", \"path\": \"item[@id='2']\", \"value\": \"B\"}"
        ))),
        "Text updated successfully"
    );
    assert_eq!(
        content(h.execute(&call(
            "m2",
            "modify_xml",
            "{\"operation\": \"set_attribute\", \"path\": \"item\", \"attr_name\": \"k\", \"value\": \"v\"}"
        ))),
        "Attribute set successfully"
    );
    assert_eq!(
        content(h.execute(&call(
            "m3",
            "modify_xml",
            "{\"operation\": \"insert\", \"path\": \"root\", \"element_name\": \"n\", \"attributes\": {\"b\": \"2\", \"a\": \"1\", \"skip\": 3}, \"text\": \"t\"}"
        ))),
        "Element inserted successfully"
    );
    assert_eq!(
        content(h.execute(&call("m4", "modify_xml", "{\"operation\": \"delete\", \"path\": \"item[@id='2']\"}"))),
        "Element deleted successfully"
    );
    assert_eq!(
        content(h.execute(&call("m5", "modify_xml", "{\"operation\": \"delete\", \"path\": \"zz\"}"))),
        "No matching element found"
    );
    assert_eq!(
        content(h.execute(&call(
            "m6",
            "modify_xml",
            "{\"operation\": \"insert\", \"path\": \"zz\", \"element_name\": \"n\"}"
        ))),
        "No matching parent element found"
    );
    assert_eq!(
        h.document().get_content(),
        "<root><item id=\"1\" k=\"v\">First</item>\n    <n a=\"1\" b=\"2\">t</n>\n  </root>"
    );
    assert_eq!(
        h.get_modifications(),
        &vec![
            "update_text: item[@id='2'] = 'B'".to_string(),
            "set_attribute: item @k = 'v'".to_string(),
            "insert: root -> <n>".to_string(),
            "delete: item[@id='2']".to_string(),
        ]
    );
    assert!(!h.is_finished());
    assert_eq!(
        content(h.execute(&call("f", "finish", "{\"summary\": \"all done\"}"))),
        "Finished: all done\nTotal modifications: 4"
    );
    assert!(h.is_finished());
    assert_eq!(
        content(h.execute(&call("f", "finish", "{}"))),
        "Finished: Modifications complete\nTotal modifications: 4"
    );
    let doc = h.into_document();
    assert!(doc.get_content().contains("<n a=\"1\" b=\"2\">t</n>"));
}

#[test]
fn tools_that_are_refused() {
    let cm = manager();
    let mut h = ModifyToolHandler::new(&cm, XmlModifier::from_string(DOC.to_string()));
    let cases = [
        ("select_rows", "{}", "Tool call error: Unknown tool: select_rows"),
        ("query_xml", "{}", "Tool call error: Missing pattern parameter"),
        ("query_xml", "{\"pattern\": 3}", "Tool call error: Missing pattern parameter"),
        ("get_element", "[]", "Tool call error: Missing path parameter"),
        ("modify_xml", "{\"path\": \"a\"}", "Tool call error: Missing operation parameter"),
        ("modify_xml", "{\"operation\": \"delete\"}", "Tool call error: Missing path parameter"),
        ("modify_xml", "{\"operation\": \"rename\", \"path\": \"a\"}", "Tool call error: Unknown operation: rename"),
        ("modify_xml", "{\"operation\": \"update_text\", \"path\": \"a\"}", "Tool call error: Missing value for update_text"),
        ("modify_xml", "{\"operation\": \"set_attribute\", \"path\": \"a\", \"value\": \"v\"}", "Tool call error: Missing attr_name for set_attribute"),
        ("modify_xml", "{\"operation\": \"set_attribute\", \"path\": \"a\", \"attr_name\": \"n\"}", "Tool call error: Missing value for set_attribute"),
        ("modify_xml", "{\"operation\": \"insert\", \"path\": \"a\"}", "Tool call error: Missing element_name for insert"),
    ];
    for (name, args, message) in cases {
        assert_eq!(refusal(h.execute(&call("x", name, args))), message);
    }
    assert_eq!(h.document().get_content(), DOC);
    assert!(h.get_modifications().is_empty());
    let mut broken = ModifyToolHandler::new(&cm, XmlModifier::from_string("<a></b>".to_string()));
    assert!(matches!(broken.execute(&call("x", "get_xml_structure", "{}")), Err(ZError::Xml(_))));
    assert!(matches!(
        broken.execute(&call("x", "modify_xml", "{\"operation\": \"delete\", \"path\": \"a\"}")),
        Err(ZError::Xml(_))
    ));
    assert!(broken.get_modifications().is_empty());
}

#[test]
fn handlers_called_directly() {
    let cm = manager();
    let mut h = ModifyToolHandler::new(&cm, XmlModifier::from_string(DOC.to_string()));
    assert!(h.handle_list_files().starts_with("Available files (3):\n"));
    assert!(h.handle_get_xml_structure().unwrap().starts_with("XML Structure:\nroot\n"));
    assert_eq!(h.handle_query_xml("zz").unwrap(), "No elements matching 'zz'");
    assert_eq!(h.handle_get_element("root").unwrap(), "Element: root");
    assert_eq!(h.handle_delete("item").unwrap(), "Element deleted successfully");
    assert_eq!(h.handle_update_text("item", "x").unwrap(), "Text updated successfully");
    assert_eq!(h.handle_set_attribute("item", "a", "b").unwrap(), "Attribute set successfully");
    assert_eq!(h.handle_insert("item", "c", &[], None).unwrap(), "Element inserted successfully");
    assert_eq!(h.handle_delete("zz").unwrap(), "No matching element found");
    assert_eq!(h.get_modifications().len(), 4);
    assert_eq!(h.handle_finish(None), "Finished: Modifications complete\nTotal modifications: 4");
    assert_eq!(
        h.document().get_content(),
        "<root><item id=\"2\" a=\"b\">x\n    <c/>\n  </item></root>"
    );
}

#[test]
fn reports_of_structure_and_search() {
    let many = XmlModifier::from_string(format!("<r>{}</r>", "<i/>".repeat(12)));
    let elements = many.get_structure().unwrap();
    let shown = show_structure(&elements);
    assert_eq!(shown.lines().count(), 12);
    assert!(shown.starts_with("XML Structure:\nr\n  r/i\n"));
    assert!(shown.ends_with("  r/i\n... and 3 more elements\n"));
    assert_eq!(show_structure(&Vec::new()), "XML Structure:\n");
    assert_eq!(show_found(&Vec::new(), "p"), "No elements matching 'p'");
    assert_eq!(show_found(&elements[..2].to_vec(), "p"), "Found 2 element(s) matching 'p':\n- r\n- r/i\n");
    assert_eq!(show_lookup(&None, "a/b"), "No element at path 'a/b'");
    assert_eq!(show_lookup(&Some(elements[1].copy()), "r/i"), "Element: r/i");
}

#[test]
fn attributes_of_an_insertion() {
    assert_eq!(
        read_attributes("{\"attributes\": {\"z\": \"1\", \"a\": \"2\", \"n\": 3, \"o\": null}}"),
        vec![("a".to_string(), "2".to_string()), ("z".to_string(), "1".to_string())]
    );
    assert!(read_attributes("{}").is_empty());
    assert!(read_attributes("{\"attributes\": \"x\"}").is_empty());
    assert!(read_attributes("broken").is_empty());
}

#[test]
fn test_context_manager_creation() {
    let cm = manager();

    assert_eq!(cm.file_count(), 3);
}

#[test]
fn test_list_files() {
    let cm = manager();

    let files = cm.list_files();
    let names: Vec<_> = files.iter().map(|f| f.filename.as_str()).collect();

    assert!(names.contains(&"summary.txt"));
    assert!(names.contains(&"clusters.csv"));
    assert!(names.contains(&"instructions.txt"));
}

#[test]
fn test_query_csv() {
    let content = "row_id,cluster,distance\n0,0,0.1\n1,1,0.2\n2,0,0.15\n";

    let result = select_rows(content, None, Some(10));
    assert!(result.contains("row_id,cluster,distance"));
    assert!(result.contains("0,0,0.1"));

    let filtered = select_rows(content, Some(",0,"), Some(10));
    assert!(filtered.contains("0,0,0.1"));
    assert!(filtered.contains("2,0,0.15"));
    assert!(!filtered.contains("1,1,0.2"));
}

#[test]
fn files_of_one_name_keep_their_order() {
    let mut first = info("same.txt", FileType::Text);
    first.size_bytes = 1;
    let mut second = info("same.txt", FileType::Text);
    second.size_bytes = 2;
    let cm = ContextManager::from_index(vec![
        info("z.txt", FileType::Text),
        first,
        info("a.txt", FileType::Text),
        second,
    ]);
    let seen: Vec<(&str, u64)> =
        cm.list_files().iter().map(|f| (f.filename.as_str(), f.size_bytes)).collect();
    assert_eq!(seen, vec![("a.txt", 7), ("same.txt", 1), ("same.txt", 2), ("z.txt", 7)]);
    assert_eq!(cm.get_file_info("same.txt").unwrap().size_bytes, 1);
}

#[test]
fn the_first_element_of_a_query_is_the_one_that_is_edited() {
    let text = "<r><x><i n=\"1\"/></x><i n=\"2\">t</i><i n=\"3\"/></r>";
    let mut m = XmlModifier::from_string(text.to_string());
    let first = m.query("i").unwrap().remove(0);
    assert_eq!(first.path, "r/x/i");
    assert!(m.set_attribute("i", "seen", "yes").unwrap());
    let after = m.query("i").unwrap();
    assert_eq!(after[0].path, "r/x/i");
    assert_eq!(after[0].attributes.len(), 2);
    assert_eq!(after[1].attributes.len(), 1);
    assert_eq!(after[2].attributes.len(), 1);
}
