use file_classifier::mapping::CategoryMapping;
use file_classifier::parser::{clean_response, mapping_from_reading, parse, ParseError};

fn category(mapping: &CategoryMapping, name: &str) -> Option<String> {
    mapping.get(name).cloned()
}

#[test]
fn parse_plain_object() {
    let mapping = parse("{\"a.txt\":\"Docs\"}").unwrap();
    assert_eq!(category(&mapping, "a.txt"), Some("Docs".to_string()));
    assert_eq!(category(&mapping, "b.txt"), None);
}

#[test]
fn parse_fenced_block_yields_same_mapping_as_unfenced() {
    let fenced = parse("```json\n{\"a.txt\":\"Docs\"}\n```").unwrap();
    let plain = parse("{\"a.txt\":\"Docs\"}").unwrap();
    assert_eq!(category(&fenced, "a.txt"), Some("Docs".to_string()));
    assert_eq!(category(&fenced, "a.txt"), category(&plain, "a.txt"));
    assert!(!fenced.contains("b.txt"));
    assert!(!plain.contains("b.txt"));
}

#[test]
fn parse_untagged_fence() {
    let mapping = parse("```\n{\"a.txt\":\"Docs\",\"b.png\":\"Images\"}\n```").unwrap();
    assert_eq!(category(&mapping, "a.txt"), Some("Docs".to_string()));
    assert_eq!(category(&mapping, "b.png"), Some("Images".to_string()));
}

#[test]
fn parse_fence_with_surrounding_whitespace() {
    let mapping = parse("  \n```json\n{\"a.txt\":\"Docs\"}\n```\n\t ").unwrap();
    assert_eq!(category(&mapping, "a.txt"), Some("Docs".to_string()));
}

#[test]
fn parse_opening_fence_only() {
    let mapping = parse("```json{\"a.txt\":\"Docs\"}").unwrap();
    assert_eq!(category(&mapping, "a.txt"), Some("Docs".to_string()));
}

#[test]
fn parse_closing_fence_only() {
    let mapping = parse("{\"a.txt\":\"Docs\"}```").unwrap();
    assert_eq!(category(&mapping, "a.txt"), Some("Docs".to_string()));
}

#[test]
fn parse_empty_object_is_empty_mapping() {
    let mapping = parse("{}").unwrap();
    assert!(!mapping.contains("a.txt"));
    assert!(!mapping.contains(""));
}

#[test]
fn parse_keeps_free_text_categories() {
    let mapping = parse("{\"レポート.pdf\":\"My Docs & Stuff!\"}").unwrap();
    assert_eq!(category(&mapping, "レポート.pdf"), Some("My Docs & Stuff!".to_string()));
}

#[test]
fn parse_repeated_name_takes_last_category() {
    let mapping = parse("{\"a.txt\":\"First\",\"a.txt\":\"Second\"}").unwrap();
    assert_eq!(category(&mapping, "a.txt"), Some("Second".to_string()));
}

#[test]
fn parse_rejects_array() {
    let raw = "[\"a.txt\",\"Docs\"]";
    assert_eq!(parse(raw).unwrap_err(), ParseError::InvalidJson { raw: raw.to_string() });
}

#[test]
fn parse_rejects_scalar_json() {
    for raw in ["42", "\"Docs\"", "null", "true"] {
        let error = parse(raw).unwrap_err();
        assert_eq!(error.raw(), raw);
    }
}

#[test]
fn parse_rejects_non_string_values() {
    for raw in [
        "{\"a.txt\":1}",
        "{\"a.txt\":null}",
        "{\"a.txt\":[\"Docs\"]}",
        "{\"a.txt\":{\"category\":\"Docs\"}}",
        "{\"a.txt\":\"Docs\",\"b.txt\":false}",
    ] {
        assert_eq!(parse(raw).unwrap_err(), ParseError::InvalidJson { raw: raw.to_string() });
    }
}

#[test]
fn parse_rejects_malformed_text() {
    for raw in ["", "   ", "{", "{\"a.txt\":\"Docs\"", "not json at all", "{\"a.txt\":\"Docs\"} trailing"] {
        assert_eq!(parse(raw).unwrap_err(), ParseError::InvalidJson { raw: raw.to_string() });
    }
}

#[test]
fn parse_error_carries_reply_as_it_came() {
    let raw = "  ```json\n[1, 2, 3]\n```  ";
    let error = parse(raw).unwrap_err();
    assert_eq!(error.raw(), raw);
    match error {
        ParseError::InvalidJson { raw: carried } => assert_eq!(carried, raw),
    }
}

#[test]
fn parse_does_not_recover_part_of_a_malformed_object() {
    assert!(parse("{\"a.txt\":\"Docs\",\"b.txt\":}").is_err());
    assert!(parse("{\"a.txt\":\"Docs\",\"b.txt\":7}").is_err());
}

#[test]
fn clean_response_trims_whitespace() {
    assert_eq!(clean_response("  {\"a\":\"b\"}\n"), "{\"a\":\"b\"}");
    assert_eq!(clean_response("\u{00a0}\u{3000}x\u{2028}"), "x");
    assert_eq!(clean_response("   "), "");
}

#[test]
fn clean_response_strips_fences() {
    assert_eq!(clean_response("```json\n{}\n```"), "\n{}\n");
    assert_eq!(clean_response("```\n{}\n```"), "\n{}\n");
    assert_eq!(clean_response("```json{}```"), "{}");
    assert_eq!(clean_response("```{}"), "{}");
    assert_eq!(clean_response("{}```"), "{}");
    assert_eq!(clean_response("{}"), "{}");
}

#[test]
fn clean_response_strips_each_marker_once() {
    assert_eq!(clean_response("```json```{}```"), "{}");
    assert_eq!(clean_response("``````{}``````"), "```{}```");
    assert_eq!(clean_response("```json"), "");
    assert_eq!(clean_response("```"), "");
    assert_eq!(clean_response("```JSON{}```"), "JSON{}");
}

#[test]
fn clean_response_leaves_inner_text_alone() {
    assert_eq!(clean_response("{\"a ``` b\":\" c \"}"), "{\"a ``` b\":\" c \"}");
}

#[test]
fn mapping_from_reading_of_pairs() {
    let pairs = vec![
        ("a.txt".to_string(), "Docs".to_string()),
        ("b.png".to_string(), "Images".to_string()),
    ];
    let mapping = mapping_from_reading("ignored", Some(pairs)).unwrap();
    assert_eq!(category(&mapping, "a.txt"), Some("Docs".to_string()));
    assert_eq!(category(&mapping, "b.png"), Some("Images".to_string()));
    assert_eq!(category(&mapping, "c"), None);
}

#[test]
fn mapping_from_reading_of_refusal() {
    let error = mapping_from_reading("the reply", None).unwrap_err();
    assert_eq!(error, ParseError::InvalidJson { raw: "the reply".to_string() });
}
