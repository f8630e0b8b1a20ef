use vstd::prelude::*;
use vstd::string::*;

verus! {

/// Index of the first `'.'` in `s`, or `s.len()` when there is none.
pub open spec fn first_dot(s: Seq<char>) -> int
    decreases s.len(),
{
    if s.len() == 0 {
        0
    } else if s[0] == '.' {
        0
    } else {
        1 + first_dot(s.drop_first())
    }
}

pub proof fn lemma_first_dot_bounds(s: Seq<char>)
    ensures
        0 <= first_dot(s) <= s.len(),
        first_dot(s) < s.len() ==> s[first_dot(s)] == '.',
        forall|k: int| 0 <= k < first_dot(s) ==> s[k] != '.',
    decreases s.len(),
{
    if s.len() != 0 && s[0] != '.' {
        lemma_first_dot_bounds(s.drop_first());
        assert forall|k: int| 0 <= k < first_dot(s) implies s[k] != '.' by {
            if k >= 1 {
                assert(s.drop_first()[k - 1] == s[k]);
            }
        }
    }
}

/// The least position at or after `i` holding a `'.'` is exactly where the
/// characters before it, from `i` on, are all something else.
pub proof fn lemma_first_dot_at(s: Seq<char>, i: int)
    requires
        0 <= i <= s.len(),
        forall|k: int| 0 <= k < i ==> s[k] != '.',
        i == s.len() || s[i] == '.',
    ensures
        first_dot(s) == i,
    decreases i,
{
    if s.len() != 0 && s[0] != '.' {
        lemma_first_dot_at(s.drop_first(), i - 1);
    }
}

/// `s` cut at every `'.'`: the split of a dot-free tail is itself, and a
/// dot-free prefix becomes one segment ahead of the split of the rest.
pub open spec fn split_dot(s: Seq<char>) -> Seq<Seq<char>>
    decreases s.len(),
    via split_dot_decreases
{
    let i = first_dot(s);
    if i == s.len() {
        seq![s]
    } else {
        seq![s.take(i)] + split_dot(s.skip(i + 1))
    }
}

#[via_fn]
proof fn split_dot_decreases(s: Seq<char>) {
    lemma_first_dot_bounds(s);
}

/// The path of `name`: its dot-separated segments, or no segments at all for
/// an empty `name`.
pub open spec fn path_segments(s: Seq<char>) -> Seq<Seq<char>> {
    if s.len() == 0 {
        Seq::empty()
    } else {
        split_dot(s)
    }
}

/// Splits `name` on `'.'` into owned segments, as `path_segments` states.
pub fn split_segments(name: &str) -> (segs: Vec<String>)
    ensures
        crate::value::seg_views(segs@) == path_segments(name@),
{
    let n = name.unicode_len();
    let mut segs: Vec<String> = Vec::new();
    if n == 0 {
        proof {
            assert(crate::value::seg_views(segs@) =~= path_segments(name@));
        }
        return segs;
    }
    let mut pos: usize = 0;
    proof {
        assert(name@.skip(0) =~= name@);
        assert(crate::value::seg_views(segs@) + split_dot(name@) =~= split_dot(name@));
    }
    loop
        invariant
            n == name@.len(),
            pos <= n,
            path_segments(name@) == crate::value::seg_views(segs@) + split_dot(
                name@.skip(pos as int),
            ),
        decreases n - pos,
    {
        let mut j: usize = pos;
        while j < n && name.get_char(j) != '.'
            invariant
                pos <= j <= n,
                n == name@.len(),
                forall|k: int| pos <= k < j ==> name@[k] != '.',
            decreases n - j,
        {
            j = j + 1;
        }
        proof {
            let tail = name@.skip(pos as int);
            assert forall|k: int| 0 <= k < j - pos implies tail[k] != '.' by {
                assert(tail[k] == name@[k + pos]);
            }
            lemma_first_dot_at(tail, j - pos);
        }
        let piece = name.substring_char(pos, j).to_owned();
        segs.push(piece);
        proof {
            let tail = name@.skip(pos as int);
            assert(tail.take(j - pos) =~= name@.subrange(pos as int, j as int));
        }
        if j == n {
            proof {
                assert(crate::value::seg_views(segs@) =~= crate::value::seg_views(
                    segs@.drop_last(),
                ).push(name@.subrange(pos as int, j as int)));
                assert(crate::value::seg_views(segs@) =~= path_segments(name@));
            }
            return segs;
        }
        proof {
            let tail = name@.skip(pos as int);
            assert(tail.skip(j - pos + 1) =~= name@.skip(j as int + 1));
            assert(crate::value::seg_views(segs@) =~= crate::value::seg_views(
                segs@.drop_last(),
            ).push(name@.subrange(pos as int, j as int)));
            assert(crate::value::seg_views(segs@) + split_dot(name@.skip(j as int + 1))
                =~= path_segments(name@));
        }
        pos = j + 1;
    }
}

/// One layer of surrounding double quotes taken off: a leading quote goes,
/// then a trailing one, each only if present.
pub open spec fn trim_quotes(s: Seq<char>) -> Seq<char> {
    let s1 = if s.len() >= 1 && s[0] == '"' {
        s.drop_first()
    } else {
        s
    };
    if s1.len() >= 1 && s1[s1.len() - 1] == '"' {
        s1.drop_last()
    } else {
        s1
    }
}

/// Trims one layer of surrounding double quotes, as `trim_quotes` states.
pub fn trim_quote_layer(s: &str) -> (r: String)
    ensures
        r@ == trim_quotes(s@),
{
    let n = s.unicode_len();
    let start: usize = if n >= 1 && s.get_char(0) == '"' {
        1
    } else {
        0
    };
    let end: usize = if n > start && s.get_char(n - 1) == '"' {
        n - 1
    } else {
        n
    };
    let r = s.substring_char(start, end).to_owned();
    proof {
        assert(r@ =~= trim_quotes(s@));
    }
    r
}

/// The replacement for `key` in `table`: the last entry whose key matches,
/// as the table's builder would have it override the earlier ones.
pub open spec fn subst_lookup(table: Seq<(String, String)>, key: Seq<char>) -> Option<Seq<char>>
    decreases table.len(),
{
    if table.len() == 0 {
        None
    } else if table[table.len() - 1].0@ == key {
        Some(table[table.len() - 1].1@)
    } else {
        subst_lookup(table.drop_last(), key)
    }
}

/// What the resolver hands back for a normalized string `s`: its replacement
/// when the table holds one, otherwise `s` itself, unchanged.
pub open spec fn apply_substitution(table: Seq<(String, String)>, s: Seq<char>) -> Seq<char> {
    match subst_lookup(table, s) {
        Some(r) => r,
        None => s,
    }
}

/// Looks `s` up in `table` and returns the replacement on a hit, `s` itself
/// on a miss, as `apply_substitution` states.
pub fn substitute(table: &Vec<(String, String)>, s: &String) -> (r: String)
    ensures
        r@ == apply_substitution(table@, s@),
{
    let mut i = table.len();
    proof {
        assert(table@.take(table@.len() as int) =~= table@);
    }
    while i > 0
        invariant
            i <= table@.len(),
            subst_lookup(table@, s@) == subst_lookup(table@.take(i as int), s@),
        decreases i,
    {
        i = i - 1;
        let p = &table[i];
        proof {
            assert(table@.take(i as int + 1).drop_last() =~= table@.take(i as int));
            assert(table@.take(i as int + 1)[i as int] == table@[i as int]);
        }
        if p.0 == *s {
            return p.1.clone();
        }
    }
    s.clone()
}

/// The substitution step is unconditional: a table that holds the resolved
/// string replaces it, any other table leaves it untouched; and the table
/// holds it exactly when some entry's key equals it.
pub proof fn lemma_substitution_unconditional(table: Seq<(String, String)>, s: Seq<char>)
    ensures
        (subst_lookup(table, s) matches Some(r) ==> apply_substitution(table, s) == r),
        subst_lookup(table, s) is None ==> apply_substitution(table, s) == s,
        subst_lookup(table, s) is Some <==> exists|k: int|
            0 <= k < table.len() && table[k].0@ == s,
    decreases table.len(),
{
    if table.len() > 0 && table[table.len() - 1].0@ != s {
        lemma_substitution_unconditional(table.drop_last(), s);
        if subst_lookup(table, s) is Some {
            let k = choose|k: int| 0 <= k < table.len() - 1 && table.drop_last()[k].0@ == s;
            assert(table[k].0@ == s);
        }
        if exists|k: int| 0 <= k < table.len() && table[k].0@ == s {
            let k = choose|k: int| 0 <= k < table.len() && table[k].0@ == s;
            assert(table.drop_last()[k].0@ == s);
        }
    }
}

} // verus!
