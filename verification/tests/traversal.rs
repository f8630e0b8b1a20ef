use op_resolver::path::{split_segments, substitute, trim_quote_layer};
use op_resolver::resolve::resolve_converted;
use op_resolver::value::render_value;
use op_resolver::{parse_value, GenericValue, ResolveError};

fn obj(entries: Vec<(&str, GenericValue)>) -> GenericValue {
    GenericValue::Object(entries.into_iter().map(|(k, v)| (k.to_string(), v)).collect())
}

fn segs(parts: &[&str]) -> Vec<String> {
    parts.iter().map(|s| s.to_string()).collect()
}

#[test]
fn null_leaf_yields_empty_string() {
    let r = parse_value(&GenericValue::Null, &segs(&["anything"]), 0);
    assert_eq!(r.unwrap(), "");
}

#[test]
fn bool_leaves_render_lowercase() {
    assert_eq!(parse_value(&GenericValue::Bool(true), &segs(&["x"]), 0).unwrap(), "true");
    assert_eq!(parse_value(&GenericValue::Bool(false), &segs(&["x"]), 0).unwrap(), "false");
}

#[test]
fn leaf_without_segment_is_invalid_path() {
    let r = parse_value(&GenericValue::Bool(true), &segs(&[]), 0);
    assert_eq!(r.unwrap_err(), ResolveError::InvalidPath);
}

#[test]
fn array_leaf_renders_bracketed() {
    let v = GenericValue::Array(vec![
        GenericValue::Number("1".to_string()),
        GenericValue::Text("a".to_string()),
        GenericValue::Null,
    ]);
    let r = parse_value(&v, &segs(&["x"]), 0);
    assert_eq!(r.unwrap(), "[1, \"a\", null]");
}

#[test]
fn object_descends_one_segment_per_level() {
    let v = obj(vec![("a", obj(vec![("b", GenericValue::Number("42".to_string()))]))]);
    let r = parse_value(&v, &segs(&["a", "b", "extra"]), 0);
    assert_eq!(r.unwrap(), "42");
}

#[test]
fn placeholder_object_renders_payload() {
    let v = obj(vec![("k", obj(vec![("$var", GenericValue::Text("city".to_string()))]))]);
    let r = parse_value(&v, &segs(&["k", "way", "past", "the", "end"]), 0);
    assert_eq!(r.unwrap(), "\"city\"");
}

#[test]
fn resolve_converted_trims_and_substitutes_placeholder() {
    let v = obj(vec![("k", obj(vec![("$var", GenericValue::Text("city".to_string()))]))]);
    let table: Vec<(String, String)> = vec![("city".to_string(), "Lahore".to_string())];
    let r = resolve_converted(&v, &segs(&["head", "k"]), &table);
    assert_eq!(r.unwrap(), "Lahore");
}

#[test]
fn substitution_last_entry_wins() {
    let table: Vec<(String, String)> = vec![
        ("k".to_string(), "first".to_string()),
        ("k".to_string(), "second".to_string()),
    ];
    assert_eq!(substitute(&table, &"k".to_string()), "second");
    assert_eq!(substitute(&table, &"other".to_string()), "other");
}

#[test]
fn trim_takes_one_layer_only() {
    assert_eq!(trim_quote_layer("\"abc\""), "abc");
    assert_eq!(trim_quote_layer("\"\"abc\"\""), "\"abc\"");
    assert_eq!(trim_quote_layer("abc"), "abc");
    assert_eq!(trim_quote_layer("\"abc"), "abc");
    assert_eq!(trim_quote_layer("abc\""), "abc");
    assert_eq!(trim_quote_layer("\""), "");
    assert_eq!(trim_quote_layer(""), "");
}

#[test]
fn split_keeps_empty_segments_between_dots() {
    assert_eq!(split_segments("a.b.c"), vec!["a", "b", "c"]);
    assert_eq!(split_segments("a..c"), vec!["a", "", "c"]);
    assert_eq!(split_segments("a."), vec!["a", ""]);
    assert_eq!(split_segments(".a"), vec!["", "a"]);
    assert_eq!(split_segments("abc"), vec!["abc"]);
    assert!(split_segments("").is_empty());
}

#[test]
fn render_nests_containers() {
    let v = GenericValue::Array(vec![
        obj(vec![("x", GenericValue::Bool(false))]),
        GenericValue::Array(vec![GenericValue::Number("2".to_string())]),
    ]);
    assert_eq!(render_value(&v), "[{\"x\": false}, [2]]");
}
