use xmledit::xml::element::XmlElement;
use xmledit::xml::event::{EventKind, XmlEvent};
use xmledit::xml::index::{attach_text, attributes_of, index_events, path_of};
use xmledit::xml::modifier::{find_at_path, select};
use xmledit::xml::reader::read_events;
use xmledit::xml::render::{render_event, render_events};
use xmledit::xml::rewrite::{
    build_element_with_attr, delete_in, insert_in, new_child_events, set_attribute_in,
    update_text_in,
};
use xmledit::xml::target::{check_attr_filter, find_target, splice, tag_matches};

fn ev(kind: EventKind, name: &str, body: &str) -> XmlEvent {
    XmlEvent::new(kind, name, body)
}

fn shape(events: &[XmlEvent]) -> Vec<(EventKind, String, String)> {
    events.iter().map(|e| (e.kind, e.name.clone(), e.body.clone())).collect()
}

fn pat(path: &str, filter: Option<(&str, &str)>) -> (String, Option<(String, String)>) {
    (path.to_string(), filter.map(|(k, v)| (k.to_string(), v.to_string())))
}

#[test]
fn reading_names_each_kind_of_event() {
    let events = read_events(
        "<?xml version=\"1.0\"?><!DOCTYPE r><r a=\"1\"><!--c--><![CDATA[d]]><?p q?><e x='y' />t</r >",
    )
    .unwrap();
    assert_eq!(
        shape(&events),
        vec![
            (EventKind::Decl, String::new(), "xml version=\"1.0\"".to_string()),
            (EventKind::DocType, String::new(), "r".to_string()),
            (EventKind::Start, "r".to_string(), " a=\"1\"".to_string()),
            (EventKind::Comment, String::new(), "c".to_string()),
            (EventKind::CData, String::new(), "d".to_string()),
            (EventKind::PI, String::new(), "p q".to_string()),
            (EventKind::Empty, "e".to_string(), " x='y' ".to_string()),
            (EventKind::Text, String::new(), "t".to_string()),
            (EventKind::End, "r".to_string(), String::new()),
        ]
    );
}

#[test]
fn reading_stops_at_the_first_fault() {
    assert!(read_events("<a></b>").is_err());
    assert!(read_events("</a>").is_err());
    assert!(read_events("<a><!-- open").is_err());
    assert!(read_events("").unwrap().is_empty());
    assert_eq!(read_events("plain").unwrap().len(), 1);
    // an element left open at the end is no fault of the tokenizer
    assert_eq!(read_events("<a><b>").unwrap().len(), 2);
}

#[test]
fn rendering_writes_each_kind_between_its_delimiters() {
    let events = vec![
        ev(EventKind::Decl, "", "xml version=\"1.0\""),
        ev(EventKind::DocType, "", "r"),
        ev(EventKind::Start, "r", " a=\"1\""),
        ev(EventKind::Comment, "", "c"),
        ev(EventKind::CData, "", "d"),
        ev(EventKind::PI, "", "p q"),
        ev(EventKind::Empty, "e", " x='y' "),
        ev(EventKind::Text, "", "t"),
        ev(EventKind::End, "r", ""),
        ev(EventKind::Eof, "", ""),
    ];
    assert_eq!(
        render_events(&events),
        "<?xml version=\"1.0\"?><!DOCTYPE r><r a=\"1\"><!--c--><![CDATA[d]]><?p q?><e x='y' />t</r>"
    );
    let mut out = String::from("x");
    render_event(&mut out, &events[6]);
    assert_eq!(out, "x<e x='y' />");
    assert_eq!(render_events(&Vec::new()), "");
}

#[test]
fn attributes_are_parsed_in_order_without_the_faulty() {
    assert_eq!(
        attributes_of(" a=\"1\" b='2'  c = \"3\""),
        vec![
            ("a".to_string(), "1".to_string()),
            ("b".to_string(), "2".to_string()),
            ("c".to_string(), "3".to_string()),
        ]
    );
    assert_eq!(attributes_of(""), Vec::<(String, String)>::new());
    assert_eq!(
        attributes_of(" a=\"x &amp; y\""),
        vec![("a".to_string(), "x &amp; y".to_string())]
    );
    assert_eq!(
        attributes_of(" a=\"1\" a=\"2\" b=\"3\""),
        vec![("a".to_string(), "1".to_string()), ("b".to_string(), "3".to_string())]
    );
}

#[test]
fn paths_join_the_open_names() {
    let stack = vec!["root".to_string(), "items".to_string()];
    assert_eq!(path_of(&stack, "item"), "root/items/item");
    assert_eq!(path_of(&Vec::new(), "root"), "root");
}

#[test]
fn first_text_wins_and_goes_to_the_last_element() {
    let blank = XmlElement {
        path: "a".to_string(),
        name: "a".to_string(),
        attributes: Vec::new(),
        text: None,
        depth: 0,
    };
    let mut elements: Vec<XmlElement> = Vec::new();
    attach_text(&mut elements, "lost");
    assert!(elements.is_empty());
    elements.push(blank.copy());
    attach_text(&mut elements, " \n\t ");
    assert_eq!(elements[0].text, None);
    attach_text(&mut elements, "  a &lt; b ");
    assert_eq!(elements[0].text.as_deref(), Some("a < b"));
    attach_text(&mut elements, "later");
    assert_eq!(elements[0].text.as_deref(), Some("a < b"));
    // character data that cannot be unescaped counts as empty
    elements.push(blank.copy());
    attach_text(&mut elements, "x &nosuch; y");
    assert_eq!(elements[1].text, None);
}

#[test]
fn indexing_follows_the_stack() {
    let events = vec![
        ev(EventKind::Start, "r", ""),
        ev(EventKind::Text, "", "top"),
        ev(EventKind::Start, "a", " k=\"v\""),
        ev(EventKind::Empty, "b", ""),
        ev(EventKind::End, "a", ""),
        ev(EventKind::End, "r", ""),
        ev(EventKind::End, "stray", ""),
        ev(EventKind::Start, "s", ""),
    ];
    let elements = index_events(&events);
    let seen: Vec<(&str, usize, Option<&str>)> =
        elements.iter().map(|e| (e.path.as_str(), e.depth, e.text.as_deref())).collect();
    assert_eq!(
        seen,
        vec![("r", 0, Some("top")), ("r/a", 1, None), ("r/a/b", 2, None), ("s", 0, None)]
    );
    assert_eq!(elements[1].attributes, vec![("k".to_string(), "v".to_string())]);
}

#[test]
fn selecting_and_finding_among_elements() {
    let events = read_events("<r><i n=\"1\"/><j><i n=\"2\"/></j><i n=\"1\"/></r>").unwrap();
    let elements = index_events(&events);
    let all = select(&elements, &pat("i", None));
    assert_eq!(all.len(), 3);
    let ones = select(&elements, &pat("i", Some(("n", "1"))));
    assert_eq!(ones.len(), 2);
    let nested = select(&elements, &pat("j/i", None));
    assert_eq!(nested.len(), 1);
    assert_eq!(nested[0].path, "r/j/i");
    assert_eq!(find_at_path(&elements, "r/j/i").unwrap().attributes[0].1, "2");
    assert!(find_at_path(&elements, "j/i").is_none());
}

#[test]
fn filters_want_the_exact_pair() {
    let attrs = vec![("id".to_string(), "1".to_string()), ("k".to_string(), "V".to_string())];
    assert!(check_attr_filter(&attrs, &None));
    assert!(check_attr_filter(&attrs, &Some(("id".to_string(), "1".to_string()))));
    assert!(!check_attr_filter(&attrs, &Some(("id".to_string(), "2".to_string()))));
    assert!(!check_attr_filter(&attrs, &Some(("k".to_string(), "v".to_string()))));
    assert!(!check_attr_filter(&Vec::new(), &Some(("id".to_string(), "1".to_string()))));
}

#[test]
fn targets_are_found_in_document_order() {
    let events = read_events("<r><a><b><a/></b></a><a id=\"7\"></a></r>").unwrap();
    assert_eq!(find_target(&events, &pat("a", None)), (1, 1));
    assert_eq!(find_target(&events, &pat("b/a", None)), (3, 3));
    assert_eq!(find_target(&events, &pat("a", Some(("id", "7")))), (6, 1));
    assert_eq!(find_target(&events, &pat("zz", None)).0, events.len());
    let stack = vec!["r".to_string()];
    assert!(tag_matches(&stack, &events[6], &pat("r/a", Some(("id", "7")))));
    assert!(!tag_matches(&stack, &events[6], &pat("b/a", None)));
}

#[test]
fn splicing_replaces_a_stretch() {
    let events = read_events("<a><b/><c/></a>").unwrap();
    let out = splice(&events, 1, vec![ev(EventKind::Text, "", "x")], 3);
    assert_eq!(render_events(&out), "<a>x</a>");
    let out = splice(&events, 2, Vec::new(), 2);
    assert_eq!(render_events(&out), "<a><b/><c/></a>");
}

#[test]
fn rewriting_events() {
    let events = read_events("<r><e a=\"1\">t</e><e/></r>").unwrap();
    let p = pat("e", None);
    let out = set_attribute_in(&events, &p, "a", "2").unwrap();
    assert_eq!(render_events(&out), "<r><e a=\"2\">t</e><e/></r>");
    let out = delete_in(&events, &p).unwrap();
    assert_eq!(render_events(&out), "<r><e/></r>");
    let out = update_text_in(&events, &p, "u").unwrap();
    assert_eq!(render_events(&out), "<r><e a=\"1\">u</e><e/></r>");
    let child = new_child_events("c", &[], Some("v"));
    let out = insert_in(&events, &p, child).unwrap();
    assert_eq!(render_events(&out), "<r><e a=\"1\">t\n    <c>v</c>\n  </e><e/></r>");
    let none = pat("zz", None);
    assert!(set_attribute_in(&events, &none, "a", "2").is_none());
    assert!(delete_in(&events, &none).is_none());
    assert!(update_text_in(&events, &none, "u").is_none());
    assert!(insert_in(&events, &none, Vec::new()).is_none());
}

#[test]
fn a_rebuilt_tag_keeps_kind_and_name() {
    let tag = ev(EventKind::Empty, "e", "  a='1' b=\"x &amp; y\" ");
    let out = build_element_with_attr(&tag, "b", "z");
    assert_eq!(out.kind, EventKind::Empty);
    assert_eq!(out.name, "e");
    assert_eq!(out.body, " a=\"1\" b=\"z\"");
    let out = build_element_with_attr(&tag, "c", "<");
    assert_eq!(out.body, " a=\"1\" b=\"x &amp; y\" c=\"&lt;\"");
}

#[test]
fn a_new_child_is_three_or_five_events() {
    let attrs = [("k".to_string(), "\"q\"".to_string())];
    let with_text = new_child_events("c", &attrs, Some("a&b"));
    assert_eq!(
        shape(&with_text),
        vec![
            (EventKind::Text, String::new(), "\n    ".to_string()),
            (EventKind::Start, "c".to_string(), " k=\"&quot;q&quot;\"".to_string()),
            (EventKind::Text, String::new(), "a&amp;b".to_string()),
            (EventKind::End, "c".to_string(), String::new()),
            (EventKind::Text, String::new(), "\n  ".to_string()),
        ]
    );
    let bare = new_child_events("c", &[], None);
    assert_eq!(render_events(&bare), "\n    <c/>\n  ");
}

#[test]
fn an_event_copy_is_equal() {
    let e = ev(EventKind::Start, "n", " a=\"1\"");
    let c = e.copy();
    assert_eq!((c.kind, c.name.as_str(), c.body.as_str()), (EventKind::Start, "n", " a=\"1\""));
    assert!(e.is_tag());
    assert!(ev(EventKind::Empty, "n", "").is_tag());
    assert!(!ev(EventKind::End, "n", "").is_tag());
}
