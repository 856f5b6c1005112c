use xmledit::session::chat::{
    build_system_prompt, completions_url, health_url, server_url, Conversation, Message, NextMove,
    ToolResult, Usage,
};
use xmledit::data::cluster::{
    check_cluster_count, choose_components, summarize_labels, ClusterResult,
};
use xmledit::xml::element::XmlElement;
use xmledit::error::ZError;
use xmledit::session::files::{FileInfo, FileType};
use xmledit::data::numeric::is_numeric;
use xmledit::data::table::CsvData;
use xmledit::text::{chars_of, find_char, has_char, has_suffix, same_chars, slice_of, string_of};

fn element(path: &str, attrs: &[(&str, &str)], text: Option<&str>) -> XmlElement {
    XmlElement {
        path: path.to_string(),
        name: path.rsplit('/').next().unwrap().to_string(),
        attributes: attrs.iter().map(|(k, v)| (k.to_string(), v.to_string())).collect(),
        text: text.map(|t| t.to_string()),
        depth: path.matches('/').count(),
    }
}

#[test]
fn elements_are_shown_with_attributes_and_text() {
    assert_eq!(element("root/item", &[], None).display(), "root/item");
    assert_eq!(
        element("root/item", &[("id", "1"), ("k", "v")], Some("hello")).display(),
        "root/item [id=\"1\", k=\"v\"]: \"hello\""
    );
    assert_eq!(element("a", &[("x", "")], None).display(), "a [x=\"\"]");
    assert_eq!(element("a", &[], Some("l1\nl2")).display(), "a: \"l1\\nl2\"");
}

#[test]
fn long_text_is_cut_to_fifty_characters() {
    let fifty = "0123456789".repeat(5);
    assert_eq!(element("a", &[], Some(&fifty)).display(), format!("a: \"{}\"", fifty));
    let longer = format!("{}X", fifty);
    assert_eq!(element("a", &[], Some(&longer)).display(), format!("a: \"{}...\"", fifty));
    let accents = "\u{e9}".repeat(60);
    assert_eq!(
        element("a", &[], Some(&accents)).display(),
        format!("a: \"{}...\"", "\u{e9}".repeat(50))
    );
    let copy = element("a/b", &[("k", "v")], Some("t")).copy();
    assert_eq!(copy.display(), "a/b [k=\"v\"]: \"t\"");
    assert_eq!(copy.depth, 1);
}

#[test]
fn file_types_by_extension() {
    assert_eq!(FileType::from_extension("csv"), FileType::Csv);
    assert_eq!(FileType::from_extension("TSV"), FileType::Csv);
    assert_eq!(FileType::from_extension("Json"), FileType::Json);
    assert_eq!(FileType::from_extension("md"), FileType::Markdown);
    assert_eq!(FileType::from_extension("MARKDOWN"), FileType::Markdown);
    assert_eq!(FileType::from_extension("txt"), FileType::Text);
    assert_eq!(FileType::from_extension(""), FileType::Text);
    assert_eq!(FileType::from_lowercase("CSV"), FileType::Text);
    assert_eq!(FileType::Text.display_name(), "text");
    assert_eq!(FileType::Csv.display_name(), "csv");
    assert_eq!(FileType::Json.display_name(), "json");
    assert_eq!(FileType::Markdown.display_name(), "markdown");
}

#[test]
fn file_info_is_shown_on_one_line() {
    let info = FileInfo {
        filename: "clusters.csv".to_string(),
        file_type: FileType::Csv,
        size_bytes: 1204,
        preview: "row_id,cluster\n0,0\n".to_string(),
    };
    assert_eq!(info.display(), "clusters.csv (csv, 1204 bytes): row_id,cluster 0,0 ...");
    let empty = FileInfo {
        filename: "e".to_string(),
        file_type: FileType::Text,
        size_bytes: 0,
        preview: String::new(),
    };
    assert_eq!(empty.display(), "e (text, 0 bytes): ...");
    let big = FileInfo { size_bytes: u64::MAX, ..empty.copy() };
    assert_eq!(big.display(), "e (text, 18446744073709551615 bytes): ...");
}

fn table() -> CsvData {
    let rows = [["alpha", "1.5", "10"], ["beta", "2.5", "20"], ["gamma", "3.5", "30"]];
    CsvData {
        headers: vec!["name".to_string(), "value".to_string(), "count".to_string()],
        rows: rows.iter().map(|r| r.iter().map(|c| c.to_string()).collect()).collect(),
    }
}

#[test]
fn test_parse_csv() {
    let data = table();
    assert_eq!(data.headers, vec!["name", "value", "count"]);
    assert_eq!(data.row_count(), 3);
    assert_eq!(data.col_count(), 3);
}

#[test]
fn test_numeric_columns() {
    let data = table();
    let numeric = data.numeric_column_indices();
    assert_eq!(numeric, vec![1, 2]);
}

#[test]
fn table_columns_and_rows() {
    let mut data = table();
    assert_eq!(data.column_index("value"), Some(1));
    assert_eq!(data.column_index("nope"), None);
    assert_eq!(data.column(0), Some(vec!["alpha", "beta", "gamma"]));
    assert_eq!(data.column(3), None);
    assert_eq!(data.row(1), Some(&vec!["beta".to_string(), "2.5".to_string(), "20".to_string()]));
    assert_eq!(data.row(3), None);
    data.rows.push(vec!["short".to_string()]);
    assert_eq!(data.column(1), Some(vec!["1.5", "2.5", "3.5"]));
    assert_eq!(data.column(0).unwrap().len(), 4);
}

#[test]
fn a_column_is_numeric_if_half_of_its_filled_cells_are() {
    let make = |cells: &[&str]| CsvData {
        headers: vec!["c".to_string()],
        rows: cells.iter().map(|c| vec![c.to_string()]).collect(),
    };
    assert!(make(&["1", "x"]).column_is_numeric(0));
    assert!(!make(&["1", "x", "y"]).column_is_numeric(0));
    assert!(make(&["1", "", "", ""]).column_is_numeric(0));
    assert!(!make(&["", ""]).column_is_numeric(0));
    assert!(!make(&[]).column_is_numeric(0));
    assert!(!make(&["1"]).column_is_numeric(1));
    assert_eq!(make(&["x"]).numeric_column_indices(), Vec::<usize>::new());
}

#[test]
fn table_summary() {
    assert_eq!(
        table().summary(),
        "CSV Data: 3 rows x 3 columns\nColumns: name, value, count\nNumeric columns: value, count\n\nFirst 3 rows:\n  1: alpha, 1.5, 10\n  2: beta, 2.5, 20\n  3: gamma, 3.5, 30\n"
    );
    let empty = CsvData { headers: vec!["only".to_string()], rows: Vec::new() };
    assert_eq!(empty.summary(), "CSV Data: 0 rows x 1 columns\nColumns: only\n");
    let mut long = table();
    long.rows.push(vec!["delta".to_string()]);
    assert!(long.summary().starts_with("CSV Data: 4 rows x 3 columns\n"));
    assert!(long.summary().ends_with("First 3 rows:\n  1: alpha, 1.5, 10\n  2: beta, 2.5, 20\n  3: gamma, 3.5, 30\n"));
}

#[test]
fn rows_for_an_analysis() {
    let mut data = table();
    data.rows.push(vec!["delta".to_string(), "x".to_string(), "40".to_string()]);
    data.rows.push(vec!["eps".to_string(), "5".to_string()]);
    let (columns, rows) = data.feature_rows().unwrap();
    assert_eq!(columns, vec![1, 2]);
    assert_eq!(rows, vec![0, 1, 2]);
    assert!(data.row_is_complete(0, &vec![1, 2]));
    assert!(!data.row_is_complete(3, &vec![1, 2]));
    assert!(!data.row_is_complete(4, &vec![1, 2]));
    assert!(data.row_is_complete(4, &Vec::new()));
    let words = CsvData {
        headers: vec!["w".to_string()],
        rows: vec![vec!["a".to_string()]],
    };
    match words.feature_rows() {
        Err(ZError::Ml(m)) => assert_eq!(m, "No numeric columns found"),
        _ => panic!("a table of words has no numeric column"),
    }
    let sparse = CsvData {
        headers: vec!["a".to_string(), "b".to_string()],
        rows: vec![
            vec!["1".to_string(), "x".to_string()],
            vec!["y".to_string(), "2".to_string()],
        ],
    };
    match sparse.feature_rows() {
        Err(ZError::Ml(m)) => assert_eq!(m, "No complete rows with numeric data"),
        _ => panic!("no row is complete"),
    }
}

#[test]
fn numbers_are_told_as_the_standard_parser_tells_them() {
    let cases = [
        "", "0", "7", "-7", "+7", "1.5", "1.", ".5", ".", "-.5", "+.", "1e5", "1E5", "1e+5",
        "1e-5", "1e", "e5", "1.e5", ".e5", "1.5e3x", "1 ", " 1", "1_000", "inf", "-inf", "+INF",
        "Infinity", "infinit", "nan", "NaN", "-nan", "nane", "0x10", "1,5", "--1", "+-1", "1e5.0",
        "1..0", "12345678901234567890123456789", "\u{661}", "1e+", "+", "-", "infinityy", "in",
    ];
    for s in cases {
        assert_eq!(is_numeric(s), s.parse::<f64>().is_ok(), "{:?}", s);
    }
    assert!(is_numeric("3.25"));
    assert!(!is_numeric("abc"));
}

#[test]
fn cluster_summary_and_members() {
    let r = ClusterResult::from_labels(vec![0, 1, 0, 2, 0], 3, &vec![10, 11, 12, 13, 14]);
    assert_eq!(r.k, 3);
    assert_eq!(r.labels, vec![0, 1, 0, 2, 0]);
    assert_eq!(r.sizes, vec![3, 1, 1]);
    assert_eq!(r.cluster_members, vec![vec![10, 12, 14], vec![11], vec![13]]);
    assert_eq!(
        r.summary(),
        "K-means clustering with k=3\n  Cluster 0: 3 samples\n  Cluster 1: 1 samples\n  Cluster 2: 1 samples\n"
    );
    assert_eq!(r.get_cluster(0), Some(&vec![10, 12, 14]));
    assert_eq!(r.get_cluster(3), None);
    let none = ClusterResult::from_labels(Vec::new(), 2, &Vec::new());
    assert_eq!(none.sizes, vec![0, 0]);
    assert_eq!(none.summary(), "K-means clustering with k=2\n  Cluster 0: 0 samples\n  Cluster 1: 0 samples\n");
}

#[test]
fn cluster_counts_are_checked() {
    assert!(check_cluster_count(8, 2).is_ok());
    assert!(check_cluster_count(2, 2).is_ok());
    match check_cluster_count(3, 5) {
        Err(ZError::Ml(m)) => assert_eq!(m, "Cannot create 5 clusters with only 3 samples"),
        _ => panic!("five clusters of three samples"),
    }
    match check_cluster_count(3, 0) {
        Err(ZError::Ml(m)) => assert_eq!(m, "k must be at least 1"),
        _ => panic!("no clusters"),
    }
    assert!(check_cluster_count(0, 0).is_err());
}

#[test]
fn density_labels_are_counted() {
    let s = summarize_labels(&vec![Some(0), None, Some(2), Some(0), None, None]).unwrap();
    assert_eq!(s.n_clusters, 3);
    assert_eq!(s.n_noise, 3);
    assert_eq!(s.sizes, vec![2, 0, 1]);
    let s = summarize_labels(&Vec::new()).unwrap();
    assert_eq!((s.n_clusters, s.n_noise, s.sizes.len()), (0, 0, 0));
    assert!(summarize_labels(&vec![Some(usize::MAX)]).is_none());
}

#[test]
fn components_are_chosen_within_bounds() {
    assert_eq!(choose_components(5, 3, 0).unwrap(), 3);
    assert_eq!(choose_components(100, 10, 0).unwrap(), 5);
    assert_eq!(choose_components(3, 10, 0).unwrap(), 2);
    assert_eq!(choose_components(100, 10, 7).unwrap(), 7);
    assert_eq!(choose_components(100, 4, 7).unwrap(), 4);
    assert_eq!(choose_components(3, 4, 7).unwrap(), 2);
    match choose_components(10, 1, 0) {
        Err(ZError::Ml(m)) => assert_eq!(m, "PCA requires at least 2 features"),
        _ => panic!("one feature"),
    }
    match choose_components(1, 2, 0) {
        Err(ZError::Ml(m)) => assert_eq!(m, "PCA requires at least 2 samples"),
        _ => panic!("one sample"),
    }
}

#[test]
fn errors_in_words() {
    assert_eq!(ZError::LlmServer("a".into()).message(), "LLM server error: a");
    assert_eq!(ZError::LlmResponse("b".into()).message(), "LLM response error: b");
    assert_eq!(ZError::ToolCall("c".into()).message(), "Tool call error: c");
    assert_eq!(ZError::Database("d".into()).message(), "Database error: d");
    assert_eq!(ZError::Ml("e".into()).message(), "ML error: e");
    assert_eq!(ZError::Config("f".into()).message(), "Configuration error: f");
}

#[test]
fn prompt_and_addresses() {
    let p = build_system_prompt("ML-PART", "CSV-PART");
    assert!(p.starts_with("You are an AI assistant"));
    assert!(p.contains("## ML Analysis Summary\nML-PART\n\n## CSV Data Summary\nCSV-PART\n\n## Guidelines\n"));
    assert!(p.ends_with("Start by querying the database to see available options."));
    assert_eq!(server_url(8080), "http://127.0.0.1:8080");
    assert_eq!(completions_url(65535), "http://127.0.0.1:65535/v1/chat/completions");
    assert_eq!(health_url(0), "http://127.0.0.1:0/health");
}

#[test]
fn usage_adds_up() {
    let a = Usage { prompt_tokens: 1, completion_tokens: 2, total_tokens: 3 };
    let b = Usage { prompt_tokens: 10, completion_tokens: 20, total_tokens: 30 };
    let c = a.plus(b).unwrap();
    assert_eq!((c.prompt_tokens, c.completion_tokens, c.total_tokens), (11, 22, 33));
    let big = Usage { prompt_tokens: u32::MAX, completion_tokens: 0, total_tokens: 0 };
    assert!(big.plus(a).is_none());
    let zero = Usage::default();
    assert_eq!((zero.prompt_tokens, zero.completion_tokens, zero.total_tokens), (0, 0, 0));
}

#[test]
fn a_conversation_counts_its_turns() {
    let mut c = Conversation::new("be brief", 2);
    assert_eq!(c.messages().len(), 1);
    assert_eq!(c.messages()[0].role, "system");
    assert_eq!(c.messages()[0].content.as_deref(), Some("be brief"));
    c.add_user_message("go");
    assert_eq!(c.messages()[1].role, "user");
    assert_eq!(c.next_move(), NextMove::Ask);
    c.add_assistant_message(None, Vec::new());
    c.add_tool_result(ToolResult { tool_call_id: "t1".into(), content: "done".into() });
    assert_eq!(c.messages()[2].role, "assistant");
    assert_eq!(c.messages()[3].role, "tool");
    assert_eq!(c.messages()[3].tool_call_id.as_deref(), Some("t1"));
    assert_eq!(c.next_move(), NextMove::Ask);
    assert_eq!(c.next_move(), NextMove::Stop);
    assert_eq!(c.next_move(), NextMove::Stop);
    c.record_usage(Usage { prompt_tokens: 5, completion_tokens: 6, total_tokens: 11 });
    c.record_usage(Usage { prompt_tokens: u32::MAX, completion_tokens: 1, total_tokens: 1 });
    let u = c.total_usage();
    assert_eq!((u.prompt_tokens, u.completion_tokens, u.total_tokens), (u32::MAX, 7, 12));
    let m = Message::plain("user", "hi");
    assert!(m.tool_calls.is_none() && m.tool_call_id.is_none());
}

#[test]
fn character_helpers() {
    let v = chars_of("a/b\u{e9}");
    assert_eq!(v, vec!['a', '/', 'b', '\u{e9}']);
    assert_eq!(string_of(&v, 1, 3), "/b");
    assert_eq!(slice_of(&v, 2, 4), vec!['b', '\u{e9}']);
    assert_eq!(find_char(&v, '/', 0), 1);
    assert_eq!(find_char(&v, '/', 2), 4);
    assert!(has_char(&v, 'b'));
    assert!(!has_char(&v, 'z'));
    assert!(has_suffix(&v, &chars_of("b\u{e9}")));
    assert!(!has_suffix(&v, &chars_of("xa/b\u{e9}")));
    assert!(same_chars(&v, &chars_of("a/b\u{e9}")));
    assert!(!same_chars(&v, &chars_of("a/b")));
}
