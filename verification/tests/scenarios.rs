use xmledit::error::ZError;
use xmledit::xml::modifier::{XmlModifier, MAX_XML_ELEMENTS};
use xmledit::xml::pattern::{parse_pattern, path_matches};

fn doc(text: &str) -> XmlModifier {
    XmlModifier::from_string(text.to_string())
}

#[test]
fn insert_into_empty_parent() {
    let mut m = doc("<root><items></items></root>");
    let attrs = [("id".to_string(), "1".to_string())];
    assert!(m.insert_element("items", "item", &attrs, Some("x")).unwrap());
    assert_eq!(
        m.get_content(),
        "<root><items>\n    <item id=\"1\">x</item>\n  </items></root>"
    );
    let items = m.get_element("root/items/item").unwrap().unwrap();
    assert_eq!(items.depth, 2);
    assert_eq!(items.text.as_deref(), Some("x"));
}

#[test]
fn query_by_attribute_finds_one() {
    let m = doc("<root><item id=\"1\">First</item><item id=\"2\">Second</item></root>");
    let found = m.query("item[@id='2']").unwrap();
    assert_eq!(found.len(), 1);
    assert_eq!(found[0].text.as_deref(), Some("Second"));
    assert_eq!(found[0].path, "root/item");
    assert_eq!(found[0].attributes, vec![("id".to_string(), "2".to_string())]);
}

#[test]
fn update_text_replaces_old_text() {
    let mut m = doc("<root><name>Old</name></root>");
    assert!(m.update_text("name", "New").unwrap());
    let content = m.get_content();
    assert!(content.contains("New"));
    assert!(!content.contains("Old"));
    assert_eq!(content, "<root><name>New</name></root>");
}

#[test]
fn delete_by_attribute_keeps_the_rest() {
    let mut m = doc("<root><item id=\"1\">Keep</item><item id=\"2\">Delete</item></root>");
    assert!(m.delete_element("item[@id='2']").unwrap());
    let content = m.get_content();
    assert!(content.contains("Keep"));
    assert!(!content.contains("Delete"));
    assert_eq!(content, "<root><item id=\"1\">Keep</item></root>");
    assert_eq!(m.get_structure().unwrap().len(), 2);
}

#[test]
fn patterns_with_and_without_predicate() {
    assert_eq!(
        parse_pattern("item[@id='123']"),
        ("item".to_string(), Some(("id".to_string(), "123".to_string())))
    );
    assert_eq!(parse_pattern("root/items/item"), ("root/items/item".to_string(), None));
    assert_eq!(
        parse_pattern("a/b[@k=\"v w\"]"),
        ("a/b".to_string(), Some(("k".to_string(), "v w".to_string())))
    );
    assert_eq!(
        parse_pattern("e[@k=bare]"),
        ("e".to_string(), Some(("k".to_string(), "bare".to_string())))
    );
}

#[test]
fn pattern_edge_cases() {
    // no `=` between the brackets: the whole string is the path
    assert_eq!(parse_pattern("item[@id]"), ("item[@id]".to_string(), None));
    // no closing bracket
    assert_eq!(parse_pattern("item[@id='1'"), ("item[@id='1'".to_string(), None));
    // a `]` before the `[@` does not count
    assert_eq!(
        parse_pattern("]x[@a=1]"),
        ("]x".to_string(), Some(("a".to_string(), "1".to_string())))
    );
    // one layer of quotes only
    assert_eq!(
        parse_pattern("e[@a=''v'']"),
        ("e".to_string(), Some(("a".to_string(), "'v'".to_string())))
    );
    // quotes that do not pair stay
    assert_eq!(
        parse_pattern("e[@a='v]"),
        ("e".to_string(), Some(("a".to_string(), "'v".to_string())))
    );
    assert_eq!(
        parse_pattern("e[@a=']"),
        ("e".to_string(), Some(("a".to_string(), "'".to_string())))
    );
    assert_eq!(parse_pattern(""), (String::new(), None));
    assert_eq!(
        parse_pattern("[@=]"),
        (String::new(), Some((String::new(), String::new())))
    );
}

#[test]
fn path_suffix_matches_whole_segments() {
    assert!(path_matches("root/item", "item", "item"));
    assert!(path_matches("root/item", "item", "root/item"));
    assert!(path_matches("root/items/item", "item", "items/item"));
    assert!(!path_matches("root/item", "item", "tem"));
    assert!(!path_matches("root/xitems/item", "item", "items/item"));
    assert!(!path_matches("root/item", "item", "root"));
    assert!(!path_matches("root/item", "item", "oot/item"));
    assert!(path_matches("item", "item", "item"));
    assert!(!path_matches("root/item", "item", ""));
}

#[test]
fn no_match_changes_nothing() {
    let text = "<?xml version=\"1.0\"?>\n<root>\n  <item id=\"1\">a</item>\n</root>";
    let mut m = doc(text);
    assert!(!m.update_text("missing", "x").unwrap());
    assert_eq!(m.get_content(), text);
    assert!(!m.set_attribute("item[@id='9']", "k", "v").unwrap());
    assert_eq!(m.get_content(), text);
    assert!(!m.delete_element("root/other").unwrap());
    assert_eq!(m.get_content(), text);
    assert!(!m.insert_element("tem", "x", &[], None).unwrap());
    assert_eq!(m.get_content(), text);
    assert!(m.query("missing").unwrap().is_empty());
}

#[test]
fn malformed_document_is_an_error_and_stays() {
    let text = "<a><b></a>";
    let mut m = doc(text);
    assert!(matches!(m.get_structure(), Err(ZError::Xml(_))));
    assert!(matches!(m.query("a"), Err(ZError::Xml(_))));
    assert!(matches!(m.get_element("a"), Err(ZError::Xml(_))));
    assert!(matches!(m.update_text("a", "x"), Err(ZError::Xml(_))));
    assert!(matches!(m.set_attribute("a", "k", "v"), Err(ZError::Xml(_))));
    assert!(matches!(m.delete_element("a"), Err(ZError::Xml(_))));
    assert!(matches!(m.insert_element("a", "c", &[], None), Err(ZError::Xml(_))));
    assert_eq!(m.get_content(), text);
    let e = m.get_structure().unwrap_err();
    assert!(e.message().starts_with("XML error: "));
    assert!(e.message().len() > "XML error: ".len());
}

#[test]
fn only_the_first_match_is_edited() {
    let text = "<r><i n=\"1\">a</i><i n=\"2\">b</i><i n=\"3\">c</i></r>";
    let mut m = doc(text);
    assert!(m.set_attribute("i", "seen", "yes").unwrap());
    assert_eq!(
        m.get_content(),
        "<r><i n=\"1\" seen=\"yes\">a</i><i n=\"2\">b</i><i n=\"3\">c</i></r>"
    );
    let once = m.get_content();
    assert!(m.set_attribute("i", "seen", "yes").unwrap());
    assert_eq!(m.get_content(), once);

    let mut m = doc(text);
    assert!(m.update_text("i", "z").unwrap());
    assert_eq!(
        m.get_content(),
        "<r><i n=\"1\">z</i><i n=\"2\">b</i><i n=\"3\">c</i></r>"
    );

    let mut m = doc(text);
    assert!(m.delete_element("i").unwrap());
    assert_eq!(m.get_content(), "<r><i n=\"2\">b</i><i n=\"3\">c</i></r>");
    assert!(m.delete_element("i").unwrap());
    assert_eq!(m.get_content(), "<r><i n=\"3\">c</i></r>");
    assert!(m.delete_element("i").unwrap());
    assert_eq!(m.get_content(), "<r></r>");
    assert!(!m.delete_element("i").unwrap());
    assert_eq!(m.get_content(), "<r></r>");
}

#[test]
fn set_attribute_keeps_the_order_of_the_others() {
    let mut m = doc("<r><e a=\"1\" b=\"2\" c=\"3\"/></r>");
    assert!(m.set_attribute("e", "b", "9").unwrap());
    assert_eq!(m.get_content(), "<r><e a=\"1\" b=\"9\" c=\"3\"/></r>");
    assert!(m.set_attribute("e", "d", "4").unwrap());
    assert_eq!(m.get_content(), "<r><e a=\"1\" b=\"9\" c=\"3\" d=\"4\"/></r>");
}

#[test]
fn set_attribute_writes_double_quotes_and_escapes() {
    let mut m = doc("<e a='1'   b = \"2\">t</e>");
    assert!(m.set_attribute("e", "c", "x<y & \"z\" 'w'").unwrap());
    assert_eq!(
        m.get_content(),
        "<e a=\"1\" b=\"2\" c=\"x&lt;y &amp; &quot;z&quot; &apos;w&apos;\">t</e>"
    );
}

#[test]
fn update_text_fills_an_empty_element_and_escapes() {
    let mut m = doc("<root><name></name></root>");
    assert!(m.update_text("name", "a < b").unwrap());
    assert_eq!(m.get_content(), "<root><name>a &lt; b</name></root>");
    let e = m.get_element("root/name").unwrap().unwrap();
    assert_eq!(e.text.as_deref(), Some("a < b"));
}

#[test]
fn update_text_passes_over_an_element_that_starts_with_a_child() {
    let mut m = doc("<r><name><b>x</b></name><name>Old</name></r>");
    assert!(m.update_text("name", "New").unwrap());
    assert_eq!(m.get_content(), "<r><name><b>x</b></name><name>New</name></r>");
    // a self-closing element takes no text
    let mut m = doc("<r><name/></r>");
    assert!(!m.update_text("name", "New").unwrap());
    assert_eq!(m.get_content(), "<r><name/></r>");
    // comments between the tag and its text do not count
    let mut m = doc("<r><name><!--c--><x/>Old</name></r>");
    assert!(m.update_text("name", "New").unwrap());
    assert_eq!(m.get_content(), "<r><name><!--c--><x/>New</name></r>");
}

#[test]
fn delete_removes_the_whole_subtree() {
    let mut m = doc("<r><a k=\"1\"><a>x</a><b/>t</a><a>y</a></r>");
    assert!(m.delete_element("a").unwrap());
    assert_eq!(m.get_content(), "<r><a>y</a></r>");
    let mut m = doc("<r><a/><b/></r>");
    assert!(m.delete_element("a").unwrap());
    assert_eq!(m.get_content(), "<r><b/></r>");
    // an element that is never closed goes up to the end
    let mut m = doc("<r><a>x");
    assert!(m.delete_element("a").unwrap());
    assert_eq!(m.get_content(), "<r>");
}

#[test]
fn insert_expands_a_self_closing_parent_and_keeps_its_attributes() {
    let mut m = doc("<r><items k=\"v\"/></r>");
    assert!(m.insert_element("items", "item", &[], None).unwrap());
    assert_eq!(m.get_content(), "<r><items k=\"v\">\n    <item/>\n  </items></r>");
}

#[test]
fn insert_goes_into_the_first_match_and_escapes() {
    let mut m = doc("<items><items></items></items>");
    let attrs = [
        ("a".to_string(), "1&2".to_string()),
        ("b".to_string(), "".to_string()),
    ];
    assert!(m.insert_element("items", "x", &attrs, Some("<t>")).unwrap());
    assert_eq!(
        m.get_content(),
        "<items><items></items>\n    <x a=\"1&amp;2\" b=\"\">&lt;t&gt;</x>\n  </items>"
    );
    // a parent that is never closed gets nothing
    let mut m = doc("<items>");
    assert!(!m.insert_element("items", "x", &[], None).unwrap());
    assert_eq!(m.get_content(), "<items>");
}

#[test]
fn structure_has_paths_depths_and_first_texts() {
    let m = doc(
        "<?xml version=\"1.0\"?><!DOCTYPE root>\n<root a=\"1\" a=\"2\">\n  <x>  one &amp; two  </x>\n  <y/>tail<z>first<!--c-->second</z>\n</root>",
    );
    let s = m.get_structure().unwrap();
    let seen: Vec<(&str, &str, usize, Option<&str>)> = s
        .iter()
        .map(|e| (e.path.as_str(), e.name.as_str(), e.depth, e.text.as_deref()))
        .collect();
    assert_eq!(
        seen,
        vec![
            ("root", "root", 0, None),
            ("root/x", "x", 1, Some("one & two")),
            ("root/y", "y", 1, Some("tail")),
            ("root/z", "z", 1, Some("first")),
        ]
    );
    // the repeated attribute is reported as faulty by the tokenizer and left out
    assert_eq!(s[0].attributes, vec![("a".to_string(), "1".to_string())]);
    for e in &s {
        assert_eq!(e.depth, e.path.matches('/').count());
    }
}

#[test]
fn self_closing_has_the_depth_of_an_empty_pair() {
    let a = doc("<r><p><e k=\"v\"/>t</p></r>").get_structure().unwrap();
    let b = doc("<r><p><e k=\"v\"></e>t</p></r>").get_structure().unwrap();
    assert_eq!(a.len(), b.len());
    for (x, y) in a.iter().zip(b.iter()) {
        assert_eq!(x.path, y.path);
        assert_eq!(x.depth, y.depth);
        assert_eq!(x.attributes, y.attributes);
        assert_eq!(x.text, y.text);
    }
    assert_eq!(a[2].depth, 2);
}

#[test]
fn query_hands_back_at_most_ten() {
    let mut text = String::from("<r>");
    for i in 0..12 {
        text.push_str(&format!("<i n=\"{}\"/>", i));
    }
    text.push_str("</r>");
    let m = doc(&text);
    assert_eq!(m.get_structure().unwrap().len(), 13);
    let found = m.query("i").unwrap();
    assert_eq!(found.len(), MAX_XML_ELEMENTS);
    assert_eq!(MAX_XML_ELEMENTS, 10);
    assert_eq!(found[9].attributes[0].1, "9");
}

#[test]
fn get_element_wants_the_exact_path() {
    let m = doc("<r><a><b>1</b></a><b>2</b></r>");
    assert_eq!(m.get_element("r/b").unwrap().unwrap().text.as_deref(), Some("2"));
    assert_eq!(m.get_element("r/a/b").unwrap().unwrap().text.as_deref(), Some("1"));
    assert!(m.get_element("b").unwrap().is_none());
    assert!(m.get_element("a/b").unwrap().is_none());
}

#[test]
fn what_is_not_edited_is_written_back_as_read() {
    let text = "<?xml version=\"1.0\" encoding=\"UTF-8\"?>\n<!DOCTYPE r>\n<!-- note -->\n<r x='1'>\n  <![CDATA[a < b]]>\n  <?pi data?>\n  <e  p = \"q\" />\n  <t>caf\u{e9} &amp; tea</t>\n</r>\n";
    let mut m = doc(text);
    assert!(m.update_text("t", "caf\u{e9} &amp; tea").unwrap());
    assert_eq!(
        m.get_content(),
        text.replace("caf\u{e9} &amp; tea", "caf\u{e9} &amp;amp; tea")
    );
    let mut m = doc(text);
    assert!(m.set_attribute("t", "k", "v").unwrap());
    assert_eq!(m.get_content(), text.replace("<t>", "<t k=\"v\">"));
}
