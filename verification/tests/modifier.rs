use xmledit::xml::modifier::XmlModifier;
use xmledit::xml::pattern::parse_pattern;

#[test]
fn test_get_structure() {
    let xml = r#"<?xml version="1.0"?>
<root>
  <items>
    <item id="1">First</item>
    <item id="2">Second</item>
  </items>
</root>"#;

    let modifier = XmlModifier::from_string(xml.to_string());
    let structure = modifier.get_structure().expect("parse structure");

    assert!(structure.iter().any(|e| e.path == "root"));
    assert!(structure.iter().any(|e| e.path == "root/items"));
    assert!(structure.iter().any(|e| e.path == "root/items/item"));
}

#[test]
fn test_query() {
    let xml = r#"<?xml version="1.0"?>
<root>
  <item id="1">First</item>
  <item id="2">Second</item>
</root>"#;

    let modifier = XmlModifier::from_string(xml.to_string());

    let items = modifier.query("item").expect("query");
    assert_eq!(items.len(), 2);

    let item1 = modifier.query("item[@id='1']").expect("query");
    assert_eq!(item1.len(), 1);
    assert_eq!(item1[0].text.as_deref(), Some("First"));
}

#[test]
fn test_update_text() {
    let xml = r#"<?xml version="1.0"?>
<root>
  <name>Old</name>
</root>"#;

    let mut modifier = XmlModifier::from_string(xml.to_string());
    let modified = modifier.update_text("name", "New").expect("update");

    assert!(modified);
    assert!(modifier.get_content().contains("New"));
}

#[test]
fn test_set_attribute() {
    let xml = r#"<?xml version="1.0"?>
<root>
  <item id="1">Test</item>
</root>"#;

    let mut modifier = XmlModifier::from_string(xml.to_string());
    let modified = modifier
        .set_attribute("item[@id='1']", "status", "active")
        .expect("set attr");

    assert!(modified);
    assert!(modifier.get_content().contains("status=\"active\""));
}

#[test]
fn test_delete_element() {
    let xml = r#"<?xml version="1.0"?>
<root>
  <item id="1">Keep</item>
  <item id="2">Delete</item>
</root>"#;

    let mut modifier = XmlModifier::from_string(xml.to_string());
    let modified = modifier.delete_element("item[@id='2']").expect("delete");

    assert!(modified);
    let content = modifier.get_content();
    assert!(content.contains("Keep"));
    assert!(!content.contains("Delete"));
}

#[test]
fn test_insert_element() {
    let xml = r#"<?xml version="1.0"?>
<root>
  <items>
  </items>
</root>"#;

    let mut modifier = XmlModifier::from_string(xml.to_string());
    let modified = modifier
        .insert_element(
            "items",
            "item",
            &[("id".to_string(), "new".to_string())],
            Some("New item"),
        )
        .expect("insert");

    assert!(modified);
    let content = modifier.get_content();
    assert!(content.contains("<item id=\"new\">New item</item>"));
}

#[test]
fn test_parse_pattern() {
    let (path, filter) = parse_pattern("item[@id='123']");
    assert_eq!(path, "item");
    assert_eq!(filter, Some(("id".to_string(), "123".to_string())));

    let (path, filter) = parse_pattern("root/items/item");
    assert_eq!(path, "root/items/item");
    assert!(filter.is_none());
}
