use vstd::prelude::*;
use crate::errors::ResolveError;
use crate::path::{
    apply_substitution, path_segments, split_segments, substitute, trim_quote_layer, trim_quotes,
};
use crate::value::{parse_value, seg_views, traverse_spec, GenericValue};
use async_graphql_parser::types::{OperationDefinition, Selection};

verus! {

#[verifier::external_type_specification]
#[verifier::external_body]
pub struct ExOperationDefinition(OperationDefinition);

#[verifier::external_type_specification]
#[verifier::external_body]
pub struct ExGqlValue(async_graphql_value::Value);

#[verifier::external_type_specification]
#[verifier::external_body]
pub struct ExJsonValue(serde_json::Value);

/// One argument of the operation's first field selection: its name as plain
/// text beside its still-raw value expression.
pub struct RawArg {
    pub name: String,
    pub value: async_graphql_value::Value,
}

/// What the first item of an operation's selection set turned out to be.
pub enum FirstSelection {
    /// The selection set has no items at all.
    Missing,
    FragmentSpread,
    InlineFragment,
    /// A plain field, with its arguments in order.
    Field(Vec<RawArg>),
}

/// What the first selection of an operation reads as. A name only: the
/// shape is a function of the operation alone, so contracts can speak of it
/// without stating the parser's layout.
pub uninterp spec fn selection_of(op: OperationDefinition) -> FirstSelection;

/// The JSON form of a raw argument value, or the conversion's message. A
/// name only: the conversion is a function of the value alone.
pub uninterp spec fn json_of(v: async_graphql_value::Value) -> Result<serde_json::Value, String>;

/// The library's value tree for a JSON document. A name only: the carrying
/// over is a function of the document alone.
pub uninterp spec fn generic_of(j: serde_json::Value) -> GenericValue;

/// Relies on async_graphql_parser's operation layout: an
/// `OperationDefinition` exposes an ordered selection set whose items are
/// fields, fragment spreads or inline fragments, and a field carries ordered
/// `(name, value)` argument pairs.
#[verifier::external_body]
fn extract_first_selection(operation: &OperationDefinition) -> (r: FirstSelection)
    ensures
        r == selection_of(*operation),
{
    match operation.selection_set.node.items.first() {
        None => FirstSelection::Missing,
        Some(sel) => match &sel.node {
            Selection::Field(f) => FirstSelection::Field(
                f.node.arguments.iter().map(
                    |(n, v)| RawArg { name: n.node.as_str().to_owned(), value: v.node.clone() },
                ).collect(),
            ),
            Selection::FragmentSpread(_) => FirstSelection::FragmentSpread,
            Selection::InlineFragment(_) => FirstSelection::InlineFragment,
        },
    }
}

/// Relies on async_graphql_value::Value::into_json: the crate's own
/// conversion of a raw argument value to JSON, which turns a variable
/// reference into an object under the reserved `$var` key and fails only
/// when serialization does; the error is passed on as its message.
#[verifier::external_body]
fn value_to_json(v: &async_graphql_value::Value) -> (r: Result<serde_json::Value, String>)
    ensures
        r == json_of(*v),
{
    v.clone().into_json().map_err(|e| e.to_string())
}

/// Relies on serde_json's JSON document model: the six variants of
/// serde_json::Value are carried over one for one, a number as the decimal
/// text serde_json prints for it.
#[verifier::external_body]
fn json_to_generic(v: &serde_json::Value) -> (r: GenericValue)
    ensures
        r == generic_of(*v),
{
    match v {
        serde_json::Value::Null => GenericValue::Null,
        serde_json::Value::Bool(b) => GenericValue::Bool(*b),
        serde_json::Value::Number(n) => GenericValue::Number(n.to_string()),
        serde_json::Value::String(s) => GenericValue::Text(s.clone()),
        serde_json::Value::Array(items) => GenericValue::Array(
            items.iter().map(json_to_generic).collect(),
        ),
        serde_json::Value::Object(map) => GenericValue::Object(
            map.iter().map(|(k, val)| (k.clone(), json_to_generic(val))).collect(),
        ),
    }
}

/// Value of the first argument whose name reads as `key`, if any.
pub open spec fn first_arg_value(args: Seq<RawArg>, key: Seq<char>) -> Option<
    async_graphql_value::Value,
>
    decreases args.len(),
{
    if args.len() == 0 {
        None
    } else if args[0].name@ == key {
        Some(args[0].value)
    } else {
        first_arg_value(args.drop_first(), key)
    }
}

/// Checks the shape of the first selection and picks the argument the first
/// path segment names: a fragment (or no selection at all) is refused, an
/// empty path is refused, a path whose head matches no argument is refused;
/// otherwise the matching argument's raw value comes back with the segments.
pub fn select_argument<'a>(name: &str, selection: &'a FirstSelection) -> (r: Result<
    (&'a async_graphql_value::Value, Vec<String>),
    ResolveError,
>)
    ensures
        ({
            let segs = path_segments(name@);
            match *selection {
                FirstSelection::Field(args) => {
                    if segs.len() == 0 {
                        r matches Err(e) && e == ResolveError::InvalidPath
                    } else {
                        match first_arg_value(args@, segs[0]) {
                            None => r matches Err(e) && e == ResolveError::InvalidValue,
                            Some(v) => r matches Ok(p) && *p.0 == v && seg_views(p.1@) == segs,
                        }
                    }
                },
                _ => r matches Err(e) && e == ResolveError::InvalidOperation,
            }
        }),
{
    match selection {
        FirstSelection::Field(args) => {
            let segs = split_segments(name);
            if segs.len() == 0 {
                return Err(ResolveError::InvalidPath);
            }
            let key: String = segs[0].clone();
            proof {
                assert(key@ == seg_views(segs@)[0]);
            }
            let n = args.len();
            let mut i: usize = 0;
            proof {
                assert(args@.skip(0) =~= args@);
            }
            while i < n
                invariant
                    n == args@.len(),
                    i <= n,
                    *selection == FirstSelection::Field(*args),
                    seg_views(segs@) == path_segments(name@),
                    path_segments(name@).len() > 0,
                    key@ == path_segments(name@)[0],
                    first_arg_value(args@, key@) == first_arg_value(args@.skip(i as int), key@),
                decreases n - i,
            {
                let a = &args[i];
                proof {
                    assert(args@.skip(i as int)[0] == args@[i as int]);
                }
                if a.name == key {
                    proof {
                        assert(first_arg_value(args@, key@) == Some(args@[i as int].value));
                    }
                    return Ok((&a.value, segs));
                }
                proof {
                    assert(args@.skip(i as int).drop_first() =~= args@.skip(i as int + 1));
                }
                i = i + 1;
            }
            proof {
                assert(args@.skip(n as int).len() == 0);
            }
            Err(ResolveError::InvalidValue)
        },
        FirstSelection::Missing => Err(ResolveError::InvalidOperation),
        FirstSelection::FragmentSpread => Err(ResolveError::InvalidOperation),
        FirstSelection::InlineFragment => Err(ResolveError::InvalidOperation),
    }
}

/// What resolution returns once the chosen argument stands converted:
/// the traversal's text, quote-trimmed and passed through the table.
pub open spec fn resolve_value_spec(
    v: GenericValue,
    rest: Seq<Seq<char>>,
    table: Seq<(String, String)>,
) -> Result<Seq<char>, ResolveError> {
    match traverse_spec(v, rest) {
        Ok(t) => Ok(apply_substitution(table, trim_quotes(t))),
        Err(e) => Err(e),
    }
}

/// Walks the converted argument value along `segments[1..]`, trims one layer
/// of quotes off the resulting text and applies the substitution table to
/// it, exactly as `resolve_value_spec` states.
pub fn resolve_converted(
    value: &GenericValue,
    segments: &Vec<String>,
    key_values: &Vec<(String, String)>,
) -> (r: Result<String, ResolveError>)
    requires
        segments@.len() >= 1,
    ensures
        ({
            let m = resolve_value_spec(*value, seg_views(segments@).skip(1), key_values@);
            match r {
                Ok(s) => m matches Ok(t) && s@ == t,
                Err(e) => m matches Err(f) && e == f,
            }
        }),
{
    match parse_value(value, segments, 1) {
        Err(e) => Err(e),
        Ok(text) => {
            let trimmed = trim_quote_layer(text.as_str());
            Ok(substitute(key_values, &trimmed))
        },
    }
}

/// Resolves the dotted path `name` against the arguments of `operation`'s
/// first field selection: the head segment picks the argument, the rest
/// drive the traversal over its converted value, and the resulting text is
/// quote-trimmed and looked up in `key_values` (the last entry for a key
/// winning), a miss passing it through unchanged. An operation whose first
/// selection is not a plain field is refused, as is one with no selection.
pub fn resolve_op_value(
    name: &str,
    operation: &OperationDefinition,
    key_values: &Vec<(String, String)>,
) -> (r: Result<String, ResolveError>)
    ensures
        ({
            let segs = path_segments(name@);
            match selection_of(*operation) {
                FirstSelection::Field(args) => {
                    if segs.len() == 0 {
                        r == Err::<String, ResolveError>(ResolveError::InvalidPath)
                    } else {
                        match first_arg_value(args@, segs[0]) {
                            None => r == Err::<String, ResolveError>(ResolveError::InvalidValue),
                            Some(raw) => match json_of(raw) {
                                Err(m) => r == Err::<String, ResolveError>(
                                    ResolveError::InvalidValueConversion(m),
                                ),
                                Ok(j) => match resolve_value_spec(
                                    generic_of(j),
                                    segs.skip(1),
                                    key_values@,
                                ) {
                                    Ok(t) => r matches Ok(s) && s@ == t,
                                    Err(e) => r == Err::<String, ResolveError>(e),
                                },
                            },
                        }
                    }
                },
                _ => r == Err::<String, ResolveError>(ResolveError::InvalidOperation),
            }
        }),
{
    let selection = extract_first_selection(operation);
    let picked = select_argument(name, &selection);
    match picked {
        Err(e) => Err(e),
        Ok((raw, segs)) => match value_to_json(raw) {
            Err(msg) => Err(ResolveError::InvalidValueConversion(msg)),
            Ok(json) => {
                let converted = json_to_generic(&json);
                proof {
                    assert(seg_views(segs@).len() == segs@.len());
                }
                resolve_converted(&converted, &segs, key_values)
            },
        },
    }
}

} // verus!
