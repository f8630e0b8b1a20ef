use async_graphql_parser::parse_query;
use async_graphql_parser::types::OperationDefinition;
use async_graphql_value::Value;
use op_resolver::resolve::{select_argument, FirstSelection, RawArg};
use op_resolver::{resolve_op_value, ResolveError};

fn first_operation(query: &str) -> OperationDefinition {
    let doc = parse_query(query).unwrap();
    doc.operations.iter().next().unwrap().1.clone().into_inner()
}

fn pet_mutation() -> OperationDefinition {
    first_operation(
        r#"
           mutation {
            updatepetwithdetail(
            petid: 1,
            details: {
            age: $age,
            weight: 13,
            band: "ac/dc",
            more: {
            gender: $gender,
            even_more: {
                city: $big_city
                }
            }
            },
            hungry: true,
            name: "Honolulu"
            )
            }
        "#,
    )
}

fn pet_substitutions() -> Vec<(String, String)> {
    vec![
        ("age".into(), "20".into()),
        ("gender".into(), "male".into()),
        ("big_city".into(), "Islamabad".into()),
    ]
}

#[test]
fn it_works() {
    let subtitutions: Vec<(String, String)> = vec![
        ("age".into(), "20".into()),
        ("gender".into(), "male".into()),
        ("big_city".into(), "Islamabad".into()),
    ];
    let doc_definition = pet_mutation();
    resolve_op_value("details.more.gender", &doc_definition, &subtitutions).unwrap();
}

#[test]
fn placeholder_is_substituted() {
    let op = pet_mutation();
    let r = resolve_op_value("details.more.gender", &op, &pet_substitutions());
    assert_eq!(r.unwrap(), "male");
}

#[test]
fn deep_placeholder_is_substituted() {
    let op = pet_mutation();
    let r = resolve_op_value("details.more.even_more.city", &op, &pet_substitutions());
    assert_eq!(r.unwrap(), "Islamabad");
}

#[test]
fn literal_number_with_extra_segment() {
    let op = pet_mutation();
    let r = resolve_op_value("details.weight.rest", &op, &pet_substitutions());
    assert_eq!(r.unwrap(), "13");
}

#[test]
fn literal_number_without_extra_segment_fails() {
    let op = pet_mutation();
    let r = resolve_op_value("details.weight", &op, &pet_substitutions());
    assert_eq!(r.unwrap_err(), ResolveError::InvalidPath);
}

#[test]
fn literal_string_passes_through() {
    let op = pet_mutation();
    let r = resolve_op_value("details.band.rest", &op, &pet_substitutions());
    assert_eq!(r.unwrap(), "ac/dc");
}

#[test]
fn literal_matching_table_key_is_replaced() {
    let op = pet_mutation();
    let subs: Vec<(String, String)> = vec![("ac/dc".into(), "zeppelin".into())];
    let r = resolve_op_value("details.band.rest", &op, &subs);
    assert_eq!(r.unwrap(), "zeppelin");
}

#[test]
fn top_level_literal_argument() {
    let op = pet_mutation();
    let r = resolve_op_value("name.rest", &op, &pet_substitutions());
    assert_eq!(r.unwrap(), "Honolulu");
}

#[test]
fn boolean_argument_renders_lowercase() {
    let op = pet_mutation();
    let r = resolve_op_value("hungry.rest", &op, &pet_substitutions());
    assert_eq!(r.unwrap(), "true");
}

#[test]
fn empty_name_is_invalid_path() {
    let op = pet_mutation();
    let r = resolve_op_value("", &op, &pet_substitutions());
    assert_eq!(r.unwrap_err(), ResolveError::InvalidPath);
}

#[test]
fn fragment_spread_is_invalid_operation() {
    let op = first_operation(
        r#"
            query {
                ...petFields
            }
            fragment petFields on Pet {
                name
            }
        "#,
    );
    let r = resolve_op_value("details.more.gender", &op, &pet_substitutions());
    assert_eq!(r.unwrap_err(), ResolveError::InvalidOperation);
}

#[test]
fn inline_fragment_is_invalid_operation() {
    let op = first_operation(
        r#"
            query {
                ... on Pet {
                    name
                }
            }
        "#,
    );
    let r = resolve_op_value("details.more.gender", &op, &pet_substitutions());
    assert_eq!(r.unwrap_err(), ResolveError::InvalidOperation);
}

#[test]
fn unknown_argument_is_invalid_value() {
    let op = pet_mutation();
    let r = resolve_op_value("nosuch.key", &op, &pet_substitutions());
    assert_eq!(r.unwrap_err(), ResolveError::InvalidValue);
}

#[test]
fn missing_intermediate_key_is_invalid_path() {
    let op = pet_mutation();
    let r = resolve_op_value("details.more.nope.rest", &op, &pet_substitutions());
    assert_eq!(r.unwrap_err(), ResolveError::InvalidPath);
}

#[test]
fn placeholder_ignores_trailing_segments() {
    let op = pet_mutation();
    let r = resolve_op_value("details.more.gender.ignored.tail", &op, &pet_substitutions());
    assert_eq!(r.unwrap(), "male");
}

#[test]
fn shallow_placeholder_is_substituted() {
    let op = pet_mutation();
    let r = resolve_op_value("details.age", &op, &pet_substitutions());
    assert_eq!(r.unwrap(), "20");
}

#[test]
fn first_matching_argument_wins() {
    let sel = FirstSelection::Field(vec![
        RawArg { name: "a".to_string(), value: Value::String("first".to_string()) },
        RawArg { name: "a".to_string(), value: Value::String("second".to_string()) },
    ]);
    let (picked, segs) = select_argument("a.x", &sel).unwrap();
    match picked {
        Value::String(s) => assert_eq!(s, "first"),
        _ => panic!("expected a string argument"),
    }
    assert_eq!(segs, vec!["a", "x"]);
}

#[test]
fn empty_selection_set_is_invalid_operation() {
    let sel = FirstSelection::Missing;
    let r = select_argument("a.b", &sel);
    assert_eq!(r.unwrap_err(), ResolveError::InvalidOperation);
}

#[test]
fn placeholder_without_table_entry_passes_variable_name() {
    let op = pet_mutation();
    let subs: Vec<(String, String)> = Vec::new();
    let r = resolve_op_value("details.more.gender", &op, &subs);
    assert_eq!(r.unwrap(), "gender");
}
