use vstd::prelude::*;
use crate::errors::ResolveError;
use crate::path::{apply_substitution, subst_lookup, trim_quotes};
use crate::resolve::resolve_value_spec;
use crate::value::{find_key, placeholder_payload, render_spec, scalar_text, traverse_spec, GenericValue};

verus! {

/// `v` reaches `leaf` by taking the object child named by each key in turn,
/// never meeting a placeholder child on the way.
pub open spec fn follows_keys(v: GenericValue, keys: Seq<Seq<char>>, leaf: GenericValue) -> bool
    decreases keys.len(),
{
    if keys.len() == 0 {
        v == leaf
    } else {
        v is Object && match find_key(v->Object_0@, keys[0]) {
            Some(sub) => placeholder_payload(sub) is None && follows_keys(
                sub,
                keys.drop_first(),
                leaf,
            ),
            None => false,
        }
    }
}

/// A literal leaf resolves to its own text: when the path follows nested
/// object keys down to a scalar, with the one extra trailing segment the
/// traversal demands, the traversal returns the scalar's canonical form; and
/// when that form carries no surrounding quote and matches no table key,
/// resolution passes it through word for word.
pub proof fn lemma_literal_leaf_resolution(
    v: GenericValue,
    keys: Seq<Seq<char>>,
    extra: Seq<char>,
    leaf: GenericValue,
    table: Seq<(String, String)>,
)
    requires
        follows_keys(v, keys, leaf),
        !(leaf is Object),
        !(leaf is Array),
        trim_quotes(scalar_text(leaf)) == scalar_text(leaf),
        subst_lookup(table, scalar_text(leaf)) is None,
    ensures
        traverse_spec(v, keys + seq![extra]) == Ok::<Seq<char>, ResolveError>(scalar_text(leaf)),
        resolve_value_spec(v, keys + seq![extra], table) == Ok::<Seq<char>, ResolveError>(
            scalar_text(leaf),
        ),
    decreases keys.len(),
{
    if keys.len() == 0 {
        assert((keys + seq![extra]).len() == 1);
    } else {
        let segs = keys + seq![extra];
        assert(segs[0] == keys[0]);
        let sub = find_key(v->Object_0@, keys[0])->Some_0;
        lemma_literal_leaf_resolution(sub, keys.drop_first(), extra, leaf, table);
        assert(segs.drop_first() =~= keys.drop_first() + seq![extra]);
    }
}

/// A placeholder short-circuits: whatever tail of segments remains beyond
/// the one naming the placeholder child, the traversal answers with the
/// rendering of the payload under the marker key, and resolution passes that
/// rendering, quote-trimmed, through the substitution table.
pub proof fn lemma_placeholder_short_circuits(
    v: GenericValue,
    seg: Seq<char>,
    tail: Seq<Seq<char>>,
    sub: GenericValue,
    payload: GenericValue,
    table: Seq<(String, String)>,
)
    requires
        v is Object,
        find_key(v->Object_0@, seg) == Some(sub),
        placeholder_payload(sub) == Some(payload),
    ensures
        traverse_spec(v, seq![seg] + tail) == Ok::<Seq<char>, ResolveError>(render_spec(payload)),
        resolve_value_spec(v, seq![seg] + tail, table) == Ok::<Seq<char>, ResolveError>(
            apply_substitution(table, trim_quotes(render_spec(payload))),
        ),
{
    assert((seq![seg] + tail)[0] == seg);
}

/// A segment that names no key of the object at hand fails the walk with
/// the path error, whatever segments follow.
pub proof fn lemma_missing_key_fails(v: GenericValue, seg: Seq<char>, tail: Seq<Seq<char>>)
    requires
        v is Object,
        find_key(v->Object_0@, seg) is None,
    ensures
        traverse_spec(v, seq![seg] + tail) == Err::<Seq<char>, ResolveError>(
            ResolveError::InvalidPath,
        ),
{
    assert((seq![seg] + tail)[0] == seg);
}

} // verus!
