use vstd::prelude::*;
use vstd::string::*;
use crate::errors::ResolveError;

verus! {

/// The tagged value tree the traverser walks. It mirrors a JSON document:
/// numbers carry their canonical decimal text, produced once at the
/// boundary, so that traversal itself is pure string work.
pub enum GenericValue {
    Null,
    Bool(bool),
    Number(String),
    Text(String),
    Array(Vec<GenericValue>),
    Object(Vec<(String, GenericValue)>),
}

/// The reserved key that marks an object as a variable placeholder.
pub open spec fn var_marker() -> Seq<char> {
    "$var"@
}

/// First entry of `pairs` whose key reads as `key`, if any.
pub open spec fn find_key(pairs: Seq<(String, GenericValue)>, key: Seq<char>) -> Option<GenericValue>
    decreases pairs.len(),
{
    if pairs.len() == 0 {
        None
    } else if pairs[0].0@ == key {
        Some(pairs[0].1)
    } else {
        find_key(pairs.drop_first(), key)
    }
}

/// The payload under the reserved marker key, when `v` is an object that
/// carries one; `None` otherwise.
pub open spec fn placeholder_payload(v: GenericValue) -> Option<GenericValue> {
    match v {
        GenericValue::Object(pairs) => find_key(pairs@, var_marker()),
        _ => None,
    }
}

/// Textual rendering of a value, in the style of its JSON serialization:
/// string payloads keep their surrounding quotes, containers are bracketed
/// and comma-separated. This is the form a placeholder payload is reported
/// in before the quote-trimming step of the resolver.
pub open spec fn render_spec(v: GenericValue) -> Seq<char>
    decreases v, 0int,
{
    match v {
        GenericValue::Null => "null"@,
        GenericValue::Bool(b) => if b {
            "true"@
        } else {
            "false"@
        },
        GenericValue::Number(s) => s@,
        GenericValue::Text(s) => "\""@ + s@ + "\""@,
        GenericValue::Array(items) => "["@ + render_items(items@, items@.len() as int) + "]"@,
        GenericValue::Object(pairs) => "{"@ + render_entries(pairs@, pairs@.len() as int) + "}"@,
    }
}

/// Rendering of the first `i` elements of `items`, separated by `", "`.
pub open spec fn render_items(items: Seq<GenericValue>, i: int) -> Seq<char>
    decreases items, i,
{
    if i <= 0 || i > items.len() {
        Seq::empty()
    } else if i == 1 {
        render_spec(items[0])
    } else {
        render_items(items, i - 1) + ", "@ + render_spec(items[i - 1])
    }
}

/// Rendering of the first `i` entries of `pairs` as `"key": value`,
/// separated by `", "`.
pub open spec fn render_entries(pairs: Seq<(String, GenericValue)>, i: int) -> Seq<char>
    decreases pairs, i,
{
    if i <= 0 || i > pairs.len() {
        Seq::empty()
    } else {
        let entry = "\""@ + pairs[i - 1].0@ + "\""@ + ": "@ + render_spec(pairs[i - 1].1);
        if i == 1 {
            entry
        } else {
            render_entries(pairs, i - 1) + ", "@ + entry
        }
    }
}

/// The text a walk ends with when it stops on `v`: the empty string for
/// null, the lowercase boolean words, a number's stored decimal text, a
/// string's own characters unquoted, and the bracketed rendering for an
/// array reached as a leaf.
pub open spec fn scalar_text(v: GenericValue) -> Seq<char> {
    match v {
        GenericValue::Null => Seq::empty(),
        GenericValue::Bool(b) => if b {
            "true"@
        } else {
            "false"@
        },
        GenericValue::Number(s) => s@,
        GenericValue::Text(s) => s@,
        GenericValue::Array(items) => "["@ + render_items(items@, items@.len() as int) + "]"@,
        GenericValue::Object(pairs) => "{"@ + render_entries(pairs@, pairs@.len() as int) + "}"@,
    }
}

/// One traversal step per path segment: a segment is consumed before the
/// value is inspected, a non-object value ends the walk with its text, an
/// object either short-circuits on a placeholder child or descends.
pub open spec fn traverse_spec(v: GenericValue, segs: Seq<Seq<char>>) -> Result<Seq<char>, ResolveError>
    decreases segs.len(),
{
    if segs.len() == 0 {
        Err(ResolveError::InvalidPath)
    } else {
        match v {
            GenericValue::Object(pairs) => match find_key(pairs@, segs[0]) {
                None => Err(ResolveError::InvalidPath),
                Some(sub) => match placeholder_payload(sub) {
                    Some(payload) => Ok(render_spec(payload)),
                    None => traverse_spec(sub, segs.drop_first()),
                },
            },
            _ => Ok(scalar_text(v)),
        }
    }
}

/// Views of a sequence of owned segments.
pub open spec fn seg_views(segs: Seq<String>) -> Seq<Seq<char>> {
    segs.map_values(|s: String| s@)
}

/// First entry of `pairs` whose key equals `key`, as a borrow.
pub fn find_key_exec<'a>(pairs: &'a Vec<(String, GenericValue)>, key: &String) -> (r: Option<
    &'a GenericValue,
>)
    ensures
        match r {
            Some(v) => find_key(pairs@, key@) == Some(*v),
            None => find_key(pairs@, key@) is None,
        },
{
    let n = pairs.len();
    let mut i: usize = 0;
    proof {
        assert(pairs@.skip(0) =~= pairs@);
    }
    while i < n
        invariant
            n == pairs@.len(),
            i <= n,
            find_key(pairs@, key@) == find_key(pairs@.skip(i as int), key@),
        decreases n - i,
    {
        let p = &pairs[i];
        proof {
            assert(pairs@.skip(i as int)[0] == pairs@[i as int]);
        }
        if p.0 == *key {
            return Some(&p.1);
        }
        proof {
            assert(pairs@.skip(i as int).drop_first() =~= pairs@.skip(i as int + 1));
        }
        i = i + 1;
    }
    proof {
        assert(pairs@.skip(n as int).len() == 0);
    }
    None
}

/// The payload under the reserved marker key, as a borrow, when `v` is an
/// object that carries one.
pub fn placeholder_of<'a>(v: &'a GenericValue) -> (r: Option<&'a GenericValue>)
    ensures
        match r {
            Some(p) => placeholder_payload(*v) == Some(*p),
            None => placeholder_payload(*v) is None,
        },
{
    match v {
        GenericValue::Object(pairs) => {
            let marker: String = "$var".to_owned();
            find_key_exec(pairs, &marker)
        },
        _ => None,
    }
}

/// Renders a value as `render_spec` states.
#[verifier::loop_isolation(false)]
pub fn render_value(v: &GenericValue) -> (r: String)
    ensures
        r@ == render_spec(*v),
    decreases *v,
{
    match v {
        GenericValue::Null => "null".to_owned(),
        GenericValue::Bool(b) => if *b {
            "true".to_owned()
        } else {
            "false".to_owned()
        },
        GenericValue::Number(s) => s.clone(),
        GenericValue::Text(s) => {
            let mut r: String = "\"".to_owned();
            r.append(s.as_str());
            r.append("\"");
            proof {
                assert(r@ =~= "\""@ + s@ + "\""@);
            }
            r
        },
        GenericValue::Array(items) => {
            let mut r: String = "[".to_owned();
            let n = items.len();
            let mut i: usize = 0;
            while i < n
                invariant
                    i <= n,
                    r@ == "["@ + render_items(items@, i as int),
                decreases n - i,
            {
                if i > 0 {
                    r.append(", ");
                }
                proof {
                    assert(decreases_to!(*v => *items));
                    assert(decreases_to!(*items => items@));
                    assert(decreases_to!(items@ => items@[i as int]));
                }
                let piece = render_value(&items[i]);
                r.append(piece.as_str());
                proof {
                    assert(r@ =~= "["@ + render_items(items@, i as int + 1));
                }
                i = i + 1;
            }
            r.append("]");
            proof {
                assert(r@ =~= render_spec(*v));
            }
            r
        },
        GenericValue::Object(pairs) => {
            let mut r: String = "{".to_owned();
            let n = pairs.len();
            let mut i: usize = 0;
            while i < n
                invariant
                    i <= n,
                    r@ == "{"@ + render_entries(pairs@, i as int),
                decreases n - i,
            {
                if i > 0 {
                    r.append(", ");
                }
                let p = &pairs[i];
                r.append("\"");
                r.append(p.0.as_str());
                r.append("\"");
                r.append(": ");
                proof {
                    assert(decreases_to!(*v => *pairs));
                    assert(decreases_to!(*pairs => pairs@));
                    assert(decreases_to!(pairs@ => pairs@[i as int]));
                    assert(decreases_to!(pairs@[i as int] => pairs@[i as int].1));
                }
                let piece = render_value(&p.1);
                r.append(piece.as_str());
                proof {
                    assert(r@ =~= "{"@ + render_entries(pairs@, i as int + 1));
                }
                i = i + 1;
            }
            r.append("}");
            proof {
                assert(r@ =~= render_spec(*v));
            }
            r
        },
    }
}

/// Walks `value` along `segments[start..]`, one segment per step, exactly as
/// `traverse_spec` states: the step consumes its segment before looking at
/// the value, so a walk that ends on a non-object leaf needs one segment
/// beyond the object levels it went through.
pub fn parse_value<'a>(value: &'a GenericValue, segments: &Vec<String>, start: usize) -> (r: Result<
    String,
    ResolveError,
>)
    requires
        start <= segments@.len(),
    ensures
        ({
            let m = traverse_spec(*value, seg_views(segments@).skip(start as int));
            match r {
                Ok(s) => m matches Ok(t) && s@ == t,
                Err(e) => m matches Err(f) && e == f,
            }
        }),
{
    let mut cur: &'a GenericValue = value;
    let mut i: usize = start;
    loop
        invariant
            start <= i <= segments@.len(),
            traverse_spec(*value, seg_views(segments@).skip(start as int)) == traverse_spec(
                *cur,
                seg_views(segments@).skip(i as int),
            ),
        decreases segments@.len() - i,
    {
        proof {
            assert(seg_views(segments@).len() == segments@.len());
        }
        if i == segments.len() {
            return Err(ResolveError::InvalidPath);
        }
        proof {
            assert(seg_views(segments@).skip(i as int)[0] == segments@[i as int]@);
        }
        match cur {
            GenericValue::Null => {
                return Ok(String::new());
            },
            GenericValue::Bool(b) => {
                return Ok(
                    if *b {
                        "true".to_owned()
                    } else {
                        "false".to_owned()
                    },
                );
            },
            GenericValue::Number(s) => {
                return Ok(s.clone());
            },
            GenericValue::Text(s) => {
                return Ok(s.clone());
            },
            GenericValue::Array(_items) => {
                return Ok(render_value(cur));
            },
            GenericValue::Object(pairs) => {
                let seg: &String = &segments[i];
                match find_key_exec(pairs, seg) {
                    None => {
                        return Err(ResolveError::InvalidPath);
                    },
                    Some(sub) => {
                        match placeholder_of(sub) {
                            Some(payload) => {
                                return Ok(render_value(payload));
                            },
                            None => {
                                proof {
                                    assert(seg_views(segments@).skip(i as int).drop_first()
                                        =~= seg_views(segments@).skip(i as int + 1));
                                }
                                cur = sub;
                                i = i + 1;
                            },
                        }
                    },
                }
            },
        }
    }
}

} // verus!
