//! Variable interpolation in task templates: `{name}` or `{name.path.0}` is
//! replaced by the value stored in the execution context.

use vstd::prelude::*;
use crate::engine::types::{ExecutionContext, lookup, find_key, lemma_lookup_index, lemma_lookup_none, store_keys};
use crate::error::Error;
use crate::json::{JsonValue, json_text, to_json_text};
use crate::numbers::{parse_unsigned, parse_unsigned_exec};
use crate::text::{join, lemma_join_push, chars_of, string_of_chars, concat, join_strings, owned, string_views};

verus! {

/// Largest edit distance at which a stored name is offered as a suggestion.
pub const MAX_SUGGESTION_DISTANCE: usize = 3;

/// Largest number of suggestions offered for a missing variable.
pub const MAX_SUGGESTIONS: usize = 3;

// ---------------------------------------------------------------------------
// Placeholder syntax

/// Characters that may form a name segment: ASCII letters, digits and `_`.
pub open spec fn is_word_char(c: char) -> bool {
    ('a' <= c && c <= 'z') || ('A' <= c && c <= 'Z') || ('0' <= c && c <= '9') || c == '_'
}

/// Characters that may occur in a variable path.
pub open spec fn is_path_char(c: char) -> bool {
    is_word_char(c) || c == '.'
}

/// End of the run of path characters that starts at `i`.
pub open spec fn run_end(t: Seq<char>, i: int) -> int
    decreases t.len() - i,
{
    if i >= t.len() || !is_path_char(t[i]) {
        i
    } else {
        run_end(t, i + 1)
    }
}

/// A dotted path: nonempty segments of word characters separated by single dots.
pub open spec fn valid_path(p: Seq<char>) -> bool {
    &&& p.len() > 0
    &&& forall|i: int| 0 <= i < p.len() ==> is_path_char(#[trigger] p[i])
    &&& p[0] != '.'
    &&& p[p.len() - 1] != '.'
    &&& forall|i: int| 0 <= i < p.len() - 1 ==> !(#[trigger] p[i] == '.' && p[i + 1] == '.')
}

/// If a placeholder `{path}` starts at `s`, the index of its closing brace.
pub open spec fn placeholder_end(t: Seq<char>, s: int) -> Option<int> {
    if 0 <= s < t.len() && t[s] == '{' {
        let e = run_end(t, s + 1);
        if e < t.len() && t[e] == '}' && valid_path(t.subrange(s + 1, e)) {
            Some(e)
        } else {
            None
        }
    } else {
        None
    }
}

/// The placeholders of `t` from position `from` on, leftmost first and not
/// overlapping, each as the indices of its opening and closing braces.
pub open spec fn placeholders(t: Seq<char>, from: int) -> Seq<(int, int)>
    decreases t.len() - from,
{
    if from >= t.len() {
        Seq::empty()
    } else {
        match placeholder_end(t, from) {
            Some(e) => if e > from {
                seq![(from, e)] + placeholders(t, e + 1)
            } else {
                Seq::empty()
            },
            None => placeholders(t, from + 1),
        }
    }
}

// ---------------------------------------------------------------------------
// Values and paths

/// Text that a resolved value contributes: strings bare, others as JSON.
pub open spec fn value_text(v: JsonValue) -> Seq<char> {
    match v {
        JsonValue::String(s) => s@,
        _ => json_text(v),
    }
}

/// `s` split at every `.`, keeping empty parts.
pub open spec fn split_dots(s: Seq<char>) -> Seq<Seq<char>>
    decreases s.len(),
{
    if s.len() == 0 {
        seq![Seq::empty()]
    } else if s.last() == '.' {
        split_dots(s.drop_last()).push(Seq::empty())
    } else {
        let p = split_dots(s.drop_last());
        p.update(p.len() - 1, p.last().push(s.last()))
    }
}

/// An array index as `usize::from_str` reads it: an optional `+`, then
/// decimal digits whose value fits in a `usize`.
pub open spec fn parse_index(s: Seq<char>) -> Option<nat> {
    parse_unsigned(s, usize::MAX as nat)
}

/// The value reached from `v` by following `path`: object members by name,
/// array elements by index.
pub open spec fn navigate(v: JsonValue, path: Seq<Seq<char>>) -> Option<JsonValue>
    decreases path.len(),
{
    if path.len() == 0 {
        Some(v)
    } else {
        match v {
            JsonValue::Object(entries) => match lookup(entries@, path[0]) {
                Some(n) => navigate(n, path.drop_first()),
                None => None,
            },
            JsonValue::Array(items) => match parse_index(path[0]) {
                Some(k) => if k < items@.len() {
                    navigate(items@[k as int], path.drop_first())
                } else {
                    None
                },
                None => None,
            },
            _ => None,
        }
    }
}

/// Resolution through a stored prefix: the longest prefix of `parts`, of at
/// most `i` parts, that names a stored value from which the rest of the
/// parts lead to a value.
pub open spec fn resolve_prefix(store: Seq<(String, JsonValue)>, parts: Seq<Seq<char>>, i: int) -> Option<Seq<char>>
    decreases i,
{
    if i <= 0 {
        None
    } else {
        match lookup(store, join(parts.take(i), seq!['.'])) {
            Some(v) => match navigate(v, parts.skip(i)) {
                Some(n) => Some(value_text(n)),
                None => resolve_prefix(store, parts, i - 1),
            },
            None => resolve_prefix(store, parts, i - 1),
        }
    }
}

/// The text a variable path resolves to, if it resolves.
pub open spec fn resolve(store: Seq<(String, JsonValue)>, path: Seq<char>) -> Option<Seq<char>> {
    match lookup(store, path) {
        Some(v) => Some(value_text(v)),
        None => {
            let parts = split_dots(path);
            if parts.len() > 1 {
                resolve_prefix(store, parts, parts.len() as int)
            } else {
                None
            }
        },
    }
}

// ---------------------------------------------------------------------------
// Suggestions

/// Smallest of three numbers.
pub open spec fn min3(a: nat, b: nat, c: nat) -> nat {
    if a <= b && a <= c {
        a
    } else if b <= c {
        b
    } else {
        c
    }
}

/// Levenshtein edit distance (insertions, deletions, substitutions) between
/// two character sequences.
pub open spec fn lev(a: Seq<char>, b: Seq<char>) -> nat
    decreases a.len() + b.len(),
{
    if a.len() == 0 {
        b.len()
    } else if b.len() == 0 {
        a.len()
    } else {
        min3(
            lev(a.drop_last(), b) + 1,
            lev(a, b.drop_last()) + 1,
            lev(a.drop_last(), b.drop_last()) + if a.last() == b.last() { 0nat } else { 1nat },
        )
    }
}

/// The edit distance is at most the length of the longer sequence.
pub proof fn lemma_lev_bound(a: Seq<char>, b: Seq<char>)
    ensures
        lev(a, b) <= if a.len() >= b.len() { a.len() } else { b.len() },
    decreases a.len() + b.len(),
{
    if a.len() > 0 && b.len() > 0 {
        lemma_lev_bound(a.drop_last(), b.drop_last());
    }
}

/// A sequence is at distance 0 from itself.
pub proof fn law_lev_same(a: Seq<char>)
    ensures
        lev(a, a) == 0,
    decreases a.len(),
{
    if a.len() > 0 {
        law_lev_same(a.drop_last());
    }
}

/// The edit distance does not depend on the order of its arguments.
pub proof fn law_lev_symmetric(a: Seq<char>, b: Seq<char>)
    ensures
        lev(a, b) == lev(b, a),
    decreases a.len() + b.len(),
{
    if a.len() > 0 && b.len() > 0 {
        law_lev_symmetric(a.drop_last(), b);
        law_lev_symmetric(a, b.drop_last());
        law_lev_symmetric(a.drop_last(), b.drop_last());
    }
}

/// The keys among `keys` at edit distance exactly `d` from `target`, in order.
pub open spec fn keys_at_distance(keys: Seq<Seq<char>>, target: Seq<char>, d: nat) -> Seq<Seq<char>>
    decreases keys.len(),
{
    if keys.len() == 0 {
        Seq::empty()
    } else if lev(target, keys.last()) == d {
        keys_at_distance(keys.drop_last(), target, d).push(keys.last())
    } else {
        keys_at_distance(keys.drop_last(), target, d)
    }
}

/// Stored names close to `target`: those within distance 3, nearest first
/// (ties in store order), at most 3 of them.
pub open spec fn suggested_names(store: Seq<(String, JsonValue)>, target: Seq<char>) -> Seq<Seq<char>> {
    let keys = store_keys(store);
    let near = keys_at_distance(keys, target, 0) + keys_at_distance(keys, target, 1)
        + keys_at_distance(keys, target, 2) + keys_at_distance(keys, target, 3);
    if near.len() <= 3 {
        near
    } else {
        near.take(3)
    }
}

// ---------------------------------------------------------------------------
// Substitution

/// `s` with every non-overlapping occurrence of `pat`, scanned from the left,
/// replaced by `rep` (as `str::replace` does for a nonempty pattern).
pub open spec fn replace_all(s: Seq<char>, pat: Seq<char>, rep: Seq<char>) -> Seq<char>
    decreases s.len(),
{
    if pat.len() == 0 || s.len() < pat.len() {
        s
    } else if s.take(pat.len() as int) == pat {
        rep + replace_all(s.skip(pat.len() as int), pat, rep)
    } else {
        seq![s[0]] + replace_all(s.drop_first(), pat, rep)
    }
}

/// A variable that could not be resolved, with the names suggested for it.
pub type Missing = (Seq<char>, Seq<Seq<char>>);

/// Text and missing variables after the first `k` placeholders of `t` were handled.
pub open spec fn interp_state(store: Seq<(String, JsonValue)>, t: Seq<char>, k: int) -> (Seq<char>, Seq<Missing>)
    decreases k,
{
    if k <= 0 {
        (t, Seq::empty())
    } else {
        let prev = interp_state(store, t, k - 1);
        let m = placeholders(t, 0)[k - 1];
        let var = t.subrange(m.0 + 1, m.1);
        let full = t.subrange(m.0, m.1 + 1);
        match resolve(store, var) {
            Some(val) => (replace_all(prev.0, full, val), prev.1),
            None => (prev.0, prev.1.push((var, suggested_names(store, var)))),
        }
    }
}

/// All placeholders of `t` handled.
pub open spec fn interp_final(store: Seq<(String, JsonValue)>, t: Seq<char>) -> (Seq<char>, Seq<Missing>) {
    interp_state(store, t, placeholders(t, 0).len() as int)
}

/// All suggestion lists of the missing variables, one after another.
pub open spec fn all_suggestions(missing: Seq<Missing>) -> Seq<Seq<char>>
    decreases missing.len(),
{
    if missing.len() == 0 {
        Seq::empty()
    } else {
        all_suggestions(missing.drop_last()) + missing.last().1
    }
}

/// The variable name that an interpolation error reports.
pub open spec fn missing_report(missing: Seq<Missing>) -> Seq<char> {
    if missing.len() == 1 {
        missing[0].0
    } else {
        "Multiple variables not found: "@ + join(missing.map_values(|m: Missing| m.0), ", "@)
    }
}

} // verus!

verus! {

// ---------------------------------------------------------------------------
// Executable pieces

/// The run of path characters that starts at `i` never ends before `i`.
pub proof fn lemma_run_end_bounds(t: Seq<char>, i: int)
    requires
        0 <= i <= t.len(),
    ensures
        i <= run_end(t, i) <= t.len(),
    decreases t.len() - i,
{
    if i < t.len() && is_path_char(t[i]) {
        lemma_run_end_bounds(t, i + 1);
    }
}

fn is_word_char_exec(c: char) -> (r: bool)
    ensures
        r == is_word_char(c),
{
    ('a' <= c && c <= 'z') || ('A' <= c && c <= 'Z') || ('0' <= c && c <= '9') || c == '_'
}

fn is_path_char_exec(c: char) -> (r: bool)
    ensures
        r == is_path_char(c),
{
    is_word_char_exec(c) || c == '.'
}

fn scan_run(t: &Vec<char>, i: usize) -> (e: usize)
    requires
        i <= t@.len(),
    ensures
        e as int == run_end(t@, i as int),
        i <= e <= t@.len(),
{
    let mut j = i;
    while j < t.len() && is_path_char_exec(t[j])
        invariant
            i <= j <= t@.len(),
            run_end(t@, i as int) == run_end(t@, j as int),
        decreases t@.len() - j,
    {
        j = j + 1;
    }
    j
}

fn check_path(t: &Vec<char>, a: usize, b: usize) -> (r: bool)
    requires
        a <= b <= t@.len(),
        forall|i: int| a <= i < b ==> is_path_char(#[trigger] t@[i]),
    ensures
        r == valid_path(t@.subrange(a as int, b as int)),
{
    let ghost p = t@.subrange(a as int, b as int);
    if a == b {
        return false;
    }
    if t[a] == '.' || t[b - 1] == '.' {
        return false;
    }
    let mut i = a;
    while i + 1 < b
        invariant
            a <= i < b,
            b <= t@.len(),
            p == t@.subrange(a as int, b as int),
            forall|k: int| 0 <= k < i - a ==> !(#[trigger] p[k] == '.' && p[k + 1] == '.'),
        decreases b - i,
    {
        if t[i] == '.' && t[i + 1] == '.' {
            assert(p[i - a] == '.' && p[i - a + 1] == '.');
            return false;
        }
        i = i + 1;
    }
    true
}

/// Pairs of indices seen as integers.
pub open spec fn int_pairs(s: Seq<(usize, usize)>) -> Seq<(int, int)> {
    s.map_values(|p: (usize, usize)| (p.0 as int, p.1 as int))
}

/// Finds the placeholders of a template, leftmost first, not overlapping.
pub fn find_placeholders(t: &Vec<char>) -> (r: Vec<(usize, usize)>)
    ensures
        int_pairs(r@) == placeholders(t@, 0),
        forall|k: int| 0 <= k < r@.len() ==> (#[trigger] r@[k]).0 < r@[k].1 < t@.len(),
{
    let n = t.len();
    let mut out: Vec<(usize, usize)> = Vec::new();
    let mut pos: usize = 0;
    while pos < n
        invariant
            n == t@.len(),
            pos <= n,
            int_pairs(out@) + placeholders(t@, pos as int) == placeholders(t@, 0),
            forall|k: int| 0 <= k < out@.len() ==> (#[trigger] out@[k]).0 < out@[k].1 < n,
        decreases n - pos,
    {
        let mut found = false;
        let mut end: usize = 0;
        if t[pos] == '{' {
            let e = scan_run(t, pos + 1);
            proof {
                lemma_run_end_bounds(t@, pos + 1);
                assert forall|i: int| pos + 1 <= i < e implies is_path_char(#[trigger] t@[i]) by {
                    lemma_run_prefix(t@, pos + 1, i);
                }
            }
            if e < n && t[e] == '}' && check_path(t, pos + 1, e) {
                found = true;
                end = e;
            }
        }
        if found {
            proof {
                assert(placeholder_end(t@, pos as int) == Some(end as int));
                assert(int_pairs(out@.push((pos, end))) =~= int_pairs(out@) + seq![(pos as int, end as int)]);
            }
            out.push((pos, end));
            pos = end + 1;
        } else {
            proof {
                assert(placeholder_end(t@, pos as int) is None);
            }
            pos = pos + 1;
        }
    }
    proof {
        assert(int_pairs(out@) + placeholders(t@, pos as int) =~= int_pairs(out@));
    }
    out
}

/// Every character before the end of a run is a path character.
pub proof fn lemma_run_prefix(t: Seq<char>, i: int, k: int)
    requires
        0 <= i <= k < run_end(t, i),
    ensures
        is_path_char(t[k]),
    decreases k - i,
{
    if k > i {
        lemma_run_prefix(t, i + 1, k);
    }
}

/// The characters `t[a..b]`.
pub fn sub_chars(t: &Vec<char>, a: usize, b: usize) -> (r: Vec<char>)
    requires
        a <= b <= t@.len(),
    ensures
        r@ == t@.subrange(a as int, b as int),
{
    let mut r: Vec<char> = Vec::new();
    let mut i = a;
    while i < b
        invariant
            a <= i <= b,
            b <= t@.len(),
            r@ == t@.subrange(a as int, i as int),
        decreases b - i,
    {
        r.push(t[i]);
        i = i + 1;
        assert(r@ =~= t@.subrange(a as int, i as int));
    }
    r
}

fn matches_at(s: &Vec<char>, i: usize, pat: &Vec<char>) -> (r: bool)
    requires
        i + pat@.len() <= s@.len(),
    ensures
        r == (s@.subrange(i as int, i + pat@.len()) == pat@),
{
    let n = s.len();
    let mut j: usize = 0;
    while j < pat.len()
        invariant
            n == s@.len(),
            i + pat@.len() <= s@.len(),
            j <= pat@.len(),
            forall|k: int| 0 <= k < j ==> s@[i + k] == pat@[k],
        decreases pat@.len() - j,
    {
        if s[i + j] != pat[j] {
            assert(s@.subrange(i as int, i + pat@.len())[j as int] != pat@[j as int]);
            return false;
        }
        j = j + 1;
    }
    assert(s@.subrange(i as int, i + pat@.len()) =~= pat@);
    true
}

/// Replaces every non-overlapping occurrence of `pat` in `s`, scanning from
/// the left, by `rep`.
pub fn replace_all_chars(s: &Vec<char>, pat: &Vec<char>, rep: &Vec<char>) -> (r: Vec<char>)
    requires
        pat@.len() > 0,
    ensures
        r@ == replace_all(s@, pat@, rep@),
{
    let n = s.len();
    let m = pat.len();
    let mut out: Vec<char> = Vec::new();
    let mut i: usize = 0;
    assert(s@.skip(0) =~= s@);
    while i < n
        invariant
            n == s@.len(),
            m == pat@.len(),
            m > 0,
            i <= n,
            out@ + replace_all(s@.skip(i as int), pat@, rep@) == replace_all(s@, pat@, rep@),
        decreases n - i,
    {
        let ghost rest = s@.skip(i as int);
        if n - i >= m && matches_at(s, i, pat) {
            proof {
                assert(rest.take(m as int) =~= s@.subrange(i as int, i + m));
                assert(rest.skip(m as int) =~= s@.skip(i + m));
            }
            let mut k: usize = 0;
            let ghost before = out@;
            while k < rep.len()
                invariant
                    k <= rep@.len(),
                    out@ == before + rep@.subrange(0, k as int),
                decreases rep@.len() - k,
            {
                out.push(rep[k]);
                k = k + 1;
                assert(out@ =~= before + rep@.subrange(0, k as int));
            }
            assert(rep@.subrange(0, k as int) =~= rep@);
            assert(out@ + replace_all(s@.skip(i + m), pat@, rep@) =~= before + (rep@ + replace_all(rest.skip(m as int), pat@, rep@)));
            i = i + m;
        } else {
            proof {
                assert(rest.drop_first() =~= s@.skip(i + 1));
                if rest.len() >= m {
                    assert(rest.take(m as int) =~= s@.subrange(i as int, i + m));
                } else {
                    assert(replace_all(rest, pat@, rep@) == rest);
                    assert(replace_all(rest.drop_first(), pat@, rep@) == rest.drop_first());
                    assert(rest =~= seq![rest[0]] + rest.drop_first());
                }
            }
            let ghost before = out@;
            out.push(s[i]);
            assert(out@ + replace_all(s@.skip(i + 1), pat@, rep@) =~= before + (seq![rest[0]] + replace_all(rest.drop_first(), pat@, rep@)));
            i = i + 1;
        }
    }
    assert(replace_all(s@.skip(i as int), pat@, rep@) =~= Seq::<char>::empty()) by {
        assert(s@.skip(i as int) =~= Seq::<char>::empty());
    }
    assert(out@ =~= replace_all(s@, pat@, rep@));
    out
}

} // verus!

verus! {

/// Views of a list of character vectors.
pub open spec fn char_views(v: Seq<Vec<char>>) -> Seq<Seq<char>> {
    v.map_values(|p: Vec<char>| p@)
}

/// Splits at every `.`, keeping empty parts.
pub fn split_path(s: &Vec<char>) -> (parts: Vec<Vec<char>>)
    ensures
        char_views(parts@) == split_dots(s@),
{
    let mut done: Vec<Vec<char>> = Vec::new();
    let mut cur: Vec<char> = Vec::new();
    let mut i: usize = 0;
    assert(s@.take(0) =~= Seq::<char>::empty());
    assert(char_views(done@).push(cur@) =~= split_dots(s@.take(0)));
    while i < s.len()
        invariant
            i <= s@.len(),
            char_views(done@).push(cur@) == split_dots(s@.take(i as int)),
        decreases s@.len() - i,
    {
        let c = s[i];
        let ghost prefix = s@.take(i as int);
        assert(s@.take(i + 1).drop_last() =~= prefix);
        if c == '.' {
            let ghost before = char_views(done@).push(cur@);
            done.push(cur);
            cur = Vec::new();
            assert(char_views(done@).push(cur@) =~= before.push(Seq::empty()));
        } else {
            let ghost before = char_views(done@).push(cur@);
            cur.push(c);
            assert(char_views(done@).push(cur@) =~= before.update(before.len() - 1, before.last().push(c)));
        }
        i = i + 1;
    }
    assert(s@.take(i as int) =~= s@);
    let ghost fin = char_views(done@).push(cur@);
    done.push(cur);
    assert(char_views(done@) =~= fin);
    done
}

/// Joins the first `k` parts with `.`.
pub fn join_prefix(parts: &Vec<Vec<char>>, k: usize) -> (r: Vec<char>)
    requires
        k <= parts@.len(),
    ensures
        r@ == join(char_views(parts@).take(k as int), seq!['.']),
{
    let ghost views = char_views(parts@);
    let mut r: Vec<char> = Vec::new();
    let mut i: usize = 0;
    assert(views.take(0) =~= Seq::<Seq<char>>::empty());
    while i < k
        invariant
            i <= k <= parts@.len(),
            views == char_views(parts@),
            r@ == join(views.take(i as int), seq!['.']),
        decreases k - i,
    {
        proof {
            lemma_join_push(views.take(i as int), seq!['.'], views[i as int]);
            assert(views.take(i as int).push(views[i as int]) =~= views.take(i + 1));
        }
        let ghost before = r@;
        if i > 0 {
            r.push('.');
        }
        let part = &parts[i];
        let mut j: usize = 0;
        let ghost mid = r@;
        while j < part.len()
            invariant
                j <= part@.len(),
                r@ == mid + part@.subrange(0, j as int),
            decreases part@.len() - j,
        {
            r.push(part[j]);
            j = j + 1;
            assert(r@ =~= mid + part@.subrange(0, j as int));
        }
        assert(part@.subrange(0, j as int) =~= part@);
        assert(r@ =~= if i == 0 { views[i as int] } else { before + seq!['.'] + views[i as int] });
        i = i + 1;
    }
    r
}

/// Reads an array index (see `parse_index`).
pub fn parse_index_exec(s: &Vec<char>) -> (r: Option<usize>)
    ensures
        match r {
            Some(k) => parse_index(s@) == Some(k as nat),
            None => parse_index(s@) is None,
        },
{
    match parse_unsigned_exec(s, usize::MAX as u64) {
        Some(v) => Some(v as usize),
        None => None,
    }
}

/// Follows `parts[from..]` from `value`.
pub fn navigate_json<'a>(value: &'a JsonValue, parts: &Vec<Vec<char>>, from: usize) -> (r: Option<&'a JsonValue>)
    requires
        from <= parts@.len(),
    ensures
        match r {
            Some(x) => navigate(*value, char_views(parts@).skip(from as int)) == Some(*x),
            None => navigate(*value, char_views(parts@).skip(from as int)) is None,
        },
{
    let ghost views = char_views(parts@);
    let mut cur: &'a JsonValue = value;
    let mut i = from;
    while i < parts.len()
        invariant
            from <= i <= parts@.len(),
            views == char_views(parts@),
            navigate(*value, views.skip(from as int)) == navigate(*cur, views.skip(i as int)),
        decreases parts@.len() - i,
    {
        let ghost path = views.skip(i as int);
        assert(path.drop_first() =~= views.skip(i + 1));
        assert(path[0] == parts@[i as int]@);
        match cur {
            JsonValue::Object(entries) => {
                let key = string_of_chars(parts[i].as_slice());
                match find_key(entries, key.as_str()) {
                    Some(k) => {
                        proof {
                            lemma_lookup_index(entries@, key@, k as int);
                        }
                        cur = &entries[k].1;
                    },
                    None => {
                        proof {
                            lemma_lookup_none(entries@, key@);
                        }
                        return None;
                    },
                }
            },
            JsonValue::Array(items) => {
                match parse_index_exec(&parts[i]) {
                    Some(k) => {
                        if k < items.len() {
                            cur = &items[k];
                        } else {
                            return None;
                        }
                    },
                    None => {
                        return None;
                    },
                }
            },
            _ => {
                return None;
            },
        }
        i = i + 1;
    }
    assert(views.skip(i as int) =~= Seq::<Seq<char>>::empty());
    Some(cur)
}

/// The text a resolved value contributes (see `value_text`).
pub fn value_to_string(v: &JsonValue) -> (s: String)
    ensures
        s@ == value_text(*v),
{
    match v {
        JsonValue::String(s) => s.clone(),
        _ => to_json_text(v),
    }
}

} // verus!

verus! {

fn sat_inc(x: usize) -> (r: usize)
    ensures
        r == if x == usize::MAX { x as int } else { x + 1 },
{
    if x == usize::MAX { x } else { x + 1 }
}

/// Levenshtein edit distance between two strings, counted in characters.
pub fn levenshtein_distance(s1: &str, s2: &str) -> (d: usize)
    ensures
        d == lev(s1@, s2@),
{
    let a = chars_of(s1);
    let b = chars_of(s2);
    let n = a.len();
    let m = b.len();
    if n == 0 {
        return m;
    }
    if m == 0 {
        return n;
    }
    let mut prev: Vec<usize> = Vec::new();
    assert(lev(a@.take(0), b@.take(0)) == 0) by {
        assert(a@.take(0).len() == 0);
    }
    prev.push(0);
    let mut j: usize = 0;
    while j < m
        invariant
            j <= m,
            m == b@.len(),
            prev@.len() == j + 1,
            forall|k: int| 0 <= k <= j ==> prev@[k] == lev(a@.take(0), b@.take(k)),
        decreases m - j,
    {
        j = j + 1;
        assert(lev(a@.take(0), b@.take(j as int)) == j) by {
            assert(a@.take(0).len() == 0);
        }
        prev.push(j);
    }
    let mut i: usize = 0;
    while i < n
        invariant
            n == a@.len(),
            m == b@.len(),
            m > 0,
            i <= n,
            prev@.len() == m + 1,
            forall|k: int| 0 <= k <= m ==> prev@[k] == lev(a@.take(i as int), b@.take(k)),
        decreases n - i,
    {
        let mut cur: Vec<usize> = Vec::new();
        assert(lev(a@.take(i + 1), b@.take(0)) == i + 1) by {
            assert(b@.take(0).len() == 0);
        }
        cur.push(i + 1);
        let mut j: usize = 0;
        while j < m
            invariant
                n == a@.len(),
                m == b@.len(),
                i < n,
                j <= m,
                prev@.len() == m + 1,
                forall|k: int| 0 <= k <= m ==> prev@[k] == lev(a@.take(i as int), b@.take(k)),
                cur@.len() == j + 1,
                forall|k: int| 0 <= k <= j ==> cur@[k] == lev(a@.take(i + 1), b@.take(k)),
            decreases m - j,
        {
            j = j + 1;
            let cost: usize = if a[i] == b[j - 1] { 0 } else { 1 };
            let up = sat_inc(prev[j]);
            let left = sat_inc(cur[j - 1]);
            let diag = if cost == 0 { prev[j - 1] } else { sat_inc(prev[j - 1]) };
            let best = if up <= left && up <= diag {
                up
            } else if left <= diag {
                left
            } else {
                diag
            };
            proof {
                let aa = a@.take(i + 1);
                let bb = b@.take(j as int);
                assert(aa.drop_last() =~= a@.take(i as int));
                assert(bb.drop_last() =~= b@.take(j - 1));
                assert(aa.last() == a@[i as int]);
                assert(bb.last() == b@[j - 1]);
                lemma_lev_bound(aa, bb);
            }
            cur.push(best);
        }
        prev = cur;
        i = i + 1;
    }
    assert(a@.take(n as int) =~= a@);
    assert(b@.take(m as int) =~= b@);
    prev[m]
}

} // verus!

verus! {

/// Views of the missing variables collected so far.
pub open spec fn missing_views(m: Seq<(String, Vec<String>)>) -> Seq<Missing> {
    m.map_values(|x: (String, Vec<String>)| (x.0@, string_views(x.1@)))
}

/// What interpolating `template` against `store` gives: the text with every
/// placeholder replaced when all resolve, else the error that names the
/// unresolved ones and the stored names that resemble them.
pub open spec fn interpolation_result(store: Seq<(String, JsonValue)>, template: Seq<char>, r: Result<String, Error>) -> bool {
    let fin = interp_final(store, template);
    match r {
        Ok(s) => fin.1.len() == 0 && s@ == fin.0,
        Err(Error::VariableNotFound { variable, suggestions }) =>
            fin.1.len() > 0
            && variable@ == missing_report(fin.1)
            && string_views(suggestions@) == all_suggestions(fin.1),
        Err(_) => false,
    }
}

/// A template without placeholders comes back unchanged, whatever the store.
pub proof fn law_plain_text_unchanged(store: Seq<(String, JsonValue)>, template: Seq<char>, r: Result<String, Error>)
    requires
        placeholders(template, 0).len() == 0,
        interpolation_result(store, template, r),
    ensures
        r matches Ok(s) && s@ == template,
{
}

/// Replaces `{variable}` placeholders in templates by the values that an
/// execution context holds.
pub struct VariableInterpolator<'a> {
    context: &'a ExecutionContext,
}

impl<'a> VariableInterpolator<'a> {
    /// An interpolator that reads `context`.
    pub fn new(context: &'a ExecutionContext) -> (r: Self)
        ensures
            r.context() == context,
    {
        VariableInterpolator { context }
    }

    /// The context this interpolator reads.
    pub closed spec fn context(&self) -> &'a ExecutionContext {
        self.context
    }

    /// Replaces each placeholder `{path}` of `template` (a dotted path of ASCII
    /// letters, digits and `_`), leftmost first, by the text of the value it
    /// resolves to; every occurrence of the placeholder's text in the result so
    /// far is replaced. Fails when a path does not resolve, naming it (or, when
    /// several do not resolve, all of them) with suggested stored names.
    pub fn interpolate(&self, template: &str) -> (r: Result<String, Error>)
        ensures
            interpolation_result(self.context().context_store@, template@, r),
    {
        let ghost store = self.context.context_store@;
        let t = chars_of(template);
        let ms = find_placeholders(&t);
        let mut result: Vec<char> = t.clone();
        let mut missing: Vec<(String, Vec<String>)> = Vec::new();
        let mut k: usize = 0;
        let tn: usize = t.len();
        proof {
            assert(result@ =~= t@);
        }
        while k < ms.len()
            invariant
                store == self.context.context_store@,
                t@ == template@,
                tn == t@.len(),
                int_pairs(ms@) == placeholders(t@, 0),
                forall|q: int| 0 <= q < ms@.len() ==> (#[trigger] ms@[q]).0 < ms@[q].1 < t@.len(),
                k <= ms@.len(),
                interp_state(store, t@, k as int) == (result@, missing_views(missing@)),
            decreases ms@.len() - k,
        {
            let (s, e) = ms[k];
            assert(int_pairs(ms@)[k as int] == (s as int, e as int));
            let var = sub_chars(&t, s + 1, e);
            let full = sub_chars(&t, s, e + 1);
            let name = string_of_chars(var.as_slice());
            match self.resolve_variable(name.as_str()) {
                Ok(value) => {
                    let vc = chars_of(value.as_str());
                    result = replace_all_chars(&result, &full, &vc);
                },
                Err(err) => {
                    let ghost before = missing@;
                    let sugg = match err {
                        Error::VariableNotFound { variable: _, suggestions } => suggestions,
                        _ => Vec::new(),
                    };
                    missing.push((name, sugg));
                    assert(missing_views(missing@) =~= missing_views(before).push(
                        (var@, suggested_names(store, var@)),
                    ));
                },
            }
            k = k + 1;
        }
        if missing.len() == 0 {
            return Ok(string_of_chars(result.as_slice()));
        }
        let ghost mv = missing_views(missing@);
        assert(mv.len() == missing@.len());
        let mut names: Vec<String> = Vec::new();
        let mut all: Vec<String> = Vec::new();
        let mut q: usize = 0;
        assert(all_suggestions(mv.take(0)) =~= Seq::<Seq<char>>::empty());
        while q < missing.len()
            invariant
                mv == missing_views(missing@),
                q <= missing@.len(),
                string_views(names@) == mv.take(q as int).map_values(|m: Missing| m.0),
                string_views(all@) == all_suggestions(mv.take(q as int)),
            decreases missing@.len() - q,
        {
            let entry = &missing[q];
            let ghost names_before = string_views(names@);
            let ghost all_before = string_views(all@);
            let ghost prev_names = names@;
            let nm = entry.0.clone();
            names.push(nm);
            assert(names@ =~= prev_names.push(nm));
            assert(string_views(names@) =~= string_views(prev_names).push(nm@));
            let mut z: usize = 0;
            while z < entry.1.len()
                invariant
                    z <= entry.1@.len(),
                    string_views(all@) == all_before + string_views(entry.1@).take(z as int),
                decreases entry.1@.len() - z,
            {
                let ghost prev_all = all@;
                let item = entry.1[z].clone();
                assert(item@ == entry.1@[z as int]@);
                all.push(item);
                assert(all@ =~= prev_all.push(item));
                assert(string_views(all@) =~= string_views(prev_all).push(item@));
                z = z + 1;
                assert(string_views(entry.1@).take(z as int) =~= string_views(entry.1@).take(z - 1).push(item@));
                assert(string_views(all@) =~= all_before + string_views(entry.1@).take(z as int));
            }
            proof {
                assert(string_views(entry.1@).take(z as int) =~= string_views(entry.1@));
                assert(mv.take(q + 1).drop_last() =~= mv.take(q as int));
                assert(mv[q as int] == (entry.0@, string_views(entry.1@)));
                assert(mv.take(q + 1).map_values(|m: Missing| m.0) =~= mv.take(q as int).map_values(|m: Missing| m.0).push(mv[q as int].0));
                assert(string_views(names@) =~= mv.take(q + 1).map_values(|m: Missing| m.0));
            }
            q = q + 1;
        }
        assert(mv.take(q as int) =~= mv);
        if missing.len() == 1 {
            let variable = missing[0].0.clone();
            return Err(Error::VariableNotFound { variable, suggestions: all });
        }
        let listed = join_strings(&names, ", ");
        let variable = concat("Multiple variables not found: ", listed.as_str());
        proof {
            assert(names@.map_values(|p: String| p@) =~= mv.map_values(|m: Missing| m.0));
        }
        Err(Error::VariableNotFound { variable, suggestions: all })
    }

    /// The text that `path` resolves to, or the error naming it with the
    /// stored names suggested for it.
    fn resolve_variable(&self, path: &str) -> (r: Result<String, Error>)
        ensures
            match r {
                Ok(s) => resolve(self.context.context_store@, path@) == Some(s@),
                Err(Error::VariableNotFound { variable, suggestions }) =>
                    resolve(self.context.context_store@, path@) is None
                    && variable@ == path@
                    && string_views(suggestions@) == suggested_names(self.context.context_store@, path@),
                Err(_) => false,
            },
    {
        let ghost store = self.context.context_store@;
        match self.context.get_value(path) {
            Some(v) => {
                return Ok(value_to_string(v));
            },
            None => {},
        }
        let pc = chars_of(path);
        let parts = split_path(&pc);
        let ghost views = char_views(parts@);
        if parts.len() > 1 {
            let mut i = parts.len();
            while i >= 1
                invariant
                    i <= parts@.len(),
                    views == char_views(parts@),
                    views == split_dots(path@),
                    store == self.context.context_store@,
                    lookup(store, path@) is None,
                    parts@.len() > 1,
                    views.len() == parts@.len(),
                    resolve_prefix(store, views, parts@.len() as int) == resolve_prefix(store, views, i as int),
                decreases i,
            {
                let key = join_prefix(&parts, i);
                let ks = string_of_chars(key.as_slice());
                match self.context.get_value(ks.as_str()) {
                    Some(v) => {
                        match navigate_json(v, &parts, i) {
                            Some(n) => {
                                assert(resolve_prefix(store, views, i as int) == Some(value_text(*n)));
                                return Ok(value_to_string(n));
                            },
                            None => {},
                        }
                    },
                    None => {},
                }
                i = i - 1;
            }
        }
        let suggestions = self.find_similar_variables(path);
        Err(Error::VariableNotFound { variable: owned(path), suggestions })
    }

    /// Stored names within edit distance 3 of `target`, nearest first (ties in
    /// store order), at most 3.
    fn find_similar_variables(&self, target: &str) -> (r: Vec<String>)
        ensures
            string_views(r@) == suggested_names(self.context.context_store@, target@),
    {
        let store = &self.context.context_store;
        let ghost keys = store_keys(store@);
        let mut dists: Vec<usize> = Vec::new();
        let mut i: usize = 0;
        while i < store.len()
            invariant
                i <= store@.len(),
                keys == store_keys(store@),
                dists@.len() == i,
                forall|k: int| 0 <= k < i ==> dists@[k] == lev(target@, #[trigger] keys[k]),
            decreases store@.len() - i,
        {
            let d = levenshtein_distance(target, store[i].0.as_str());
            dists.push(d);
            i = i + 1;
        }
        let mut near: Vec<String> = Vec::new();
        let mut d: usize = 0;
        let ghost mut prior: Seq<Seq<char>> = Seq::empty();
        while d <= MAX_SUGGESTION_DISTANCE
            invariant
                d <= MAX_SUGGESTION_DISTANCE + 1,
                keys == store_keys(store@),
                dists@.len() == store@.len(),
                forall|k: int| 0 <= k < store@.len() ==> dists@[k] == lev(target@, #[trigger] keys[k]),
                string_views(near@) == prior,
                prior == if d == 0 {
                    Seq::empty()
                } else if d == 1 {
                    keys_at_distance(keys, target@, 0)
                } else if d == 2 {
                    keys_at_distance(keys, target@, 0) + keys_at_distance(keys, target@, 1)
                } else if d == 3 {
                    keys_at_distance(keys, target@, 0) + keys_at_distance(keys, target@, 1)
                        + keys_at_distance(keys, target@, 2)
                } else {
                    keys_at_distance(keys, target@, 0) + keys_at_distance(keys, target@, 1)
                        + keys_at_distance(keys, target@, 2) + keys_at_distance(keys, target@, 3)
                },
            decreases MAX_SUGGESTION_DISTANCE + 1 - d,
        {
            let mut j: usize = 0;
            assert(keys.take(0) =~= Seq::<Seq<char>>::empty());
            while j < store.len()
                invariant
                    j <= store@.len(),
                    keys == store_keys(store@),
                    dists@.len() == store@.len(),
                    forall|k: int| 0 <= k < store@.len() ==> dists@[k] == lev(target@, #[trigger] keys[k]),
                    string_views(near@) == prior + keys_at_distance(keys.take(j as int), target@, d as nat),
                decreases store@.len() - j,
            {
                assert(keys.take(j + 1).drop_last() =~= keys.take(j as int));
                assert(keys.take(j + 1).last() == keys[j as int]);
                if dists[j] == d {
                    let ghost before = string_views(near@);
                    near.push(store[j].0.clone());
                    assert(string_views(near@) =~= before.push(keys[j as int]));
                }
                j = j + 1;
            }
            assert(keys.take(j as int) =~= keys);
            proof {
                prior = prior + keys_at_distance(keys, target@, d as nat);
            }
            d = d + 1;
        }
        if near.len() > MAX_SUGGESTIONS {
            near.truncate(MAX_SUGGESTIONS);
            assert(string_views(near@) =~= prior.take(3));
        }
        near
    }
}

/// A variable name as placeholders write it: segments of ASCII letters,
/// digits and `_`, joined by single dots.
pub open spec fn dotted_name(k: Seq<char>) -> bool {
    &&& k.len() > 0
    &&& forall|i: int| 0 <= i < k.len() ==> {
        let c = #[trigger] k[i];
        ('a' <= c && c <= 'z') || ('A' <= c && c <= 'Z') || ('0' <= c && c <= '9') || c == '_' || c == '.'
    }
    &&& k[0] != '.'
    &&& k[k.len() - 1] != '.'
    &&& forall|i: int| 0 <= i < k.len() - 1 ==> !(#[trigger] k[i] == '.' && k[i + 1] == '.')
}

/// In `{k}`, the run of name characters after the brace reaches the
/// closing brace.
proof fn lemma_run_reaches_brace(t: Seq<char>, k: Seq<char>, i: int)
    requires
        dotted_name(k),
        t == seq!['{'] + k + seq!['}'],
        1 <= i <= k.len() + 1,
    ensures
        run_end(t, i) == k.len() + 1,
    decreases k.len() + 1 - i,
{
    if i <= k.len() {
        assert(t[i] == k[i - 1]);
        assert(is_path_char(t[i]));
        lemma_run_reaches_brace(t, k, i + 1);
    } else {
        assert(t[i] == '}');
    }
}

/// A template that is one placeholder `{p}` of a dotted name becomes the
/// text that `p` resolves to, or names `p` as missing.
proof fn lemma_single_placeholder(store: Seq<(String, JsonValue)>, p: Seq<char>)
    requires
        dotted_name(p),
    ensures
        interp_final(store, seq!['{'] + p + seq!['}']) == match resolve(store, p) {
            Some(val) => (val, Seq::<Missing>::empty()),
            None => (seq!['{'] + p + seq!['}'], seq![(p, suggested_names(store, p))]),
        },
{
    let t = seq!['{'] + p + seq!['}'];
    let e: int = p.len() as int + 1;
    lemma_run_reaches_brace(t, p, 1);
    assert(t.subrange(1, e) =~= p);
    assert forall|i: int| 0 <= i < p.len() implies is_path_char(#[trigger] p[i]) by {
        let c = p[i];
        assert(('a' <= c && c <= 'z') || ('A' <= c && c <= 'Z') || ('0' <= c && c <= '9') || c == '_' || c == '.');
    }
    assert(valid_path(t.subrange(1, e)));
    assert(placeholder_end(t, 0) == Some(e));
    assert(placeholders(t, e + 1).len() == 0);
    assert(placeholders(t, 0) =~= seq![(0int, e)]);
    let m = placeholders(t, 0)[0];
    assert(t.subrange(m.0 + 1, m.1) =~= p);
    assert(t.subrange(m.0, m.1 + 1) =~= t);
    assert(interp_state(store, t, 0) == (t, Seq::<Missing>::empty()));
    assert(interp_final(store, t) == interp_state(store, t, 1));
    match resolve(store, p) {
        Some(val) => {
            assert(t.take(t.len() as int) =~= t);
            assert(t.skip(t.len() as int).len() == 0);
            assert(replace_all(t.skip(t.len() as int), t, val) == t.skip(t.len() as int));
            assert(val + t.skip(t.len() as int) =~= val);
            assert(replace_all(t, t, val) == val);
        },
        None => {
            assert(Seq::<Missing>::empty().push((p, suggested_names(store, p))) =~= seq![(p, suggested_names(store, p))]);
        },
    }
}

/// A placeholder that names a stored value is replaced by the text of that
/// value: for every stored key `k` made of segments of letters, digits and
/// `_` joined by single dots, interpolating `{k}` succeeds with the text of
/// the value stored under `k`.
pub proof fn law_placeholder_of_stored_key(store: Seq<(String, JsonValue)>, k: Seq<char>, v: JsonValue, r: Result<String, Error>)
    requires
        dotted_name(k),
        lookup(store, k) == Some(v),
        interpolation_result(store, seq!['{'] + k + seq!['}'], r),
    ensures
        r matches Ok(s) && s@ == value_text(v),
{
    lemma_single_placeholder(store, k);
}

/// A name segment: letters, digits and `_`, at least one.
pub open spec fn name_segment(a: Seq<char>) -> bool {
    &&& a.len() > 0
    &&& forall|i: int| 0 <= i < a.len() ==> {
        let c = #[trigger] a[i];
        ('a' <= c && c <= 'z') || ('A' <= c && c <= 'Z') || ('0' <= c && c <= '9') || c == '_'
    }
}

/// Splitting a text without dots gives that text alone.
proof fn lemma_split_no_dot(a: Seq<char>)
    requires
        forall|i: int| 0 <= i < a.len() ==> #[trigger] a[i] != '.',
    ensures
        split_dots(a) == seq![a],
    decreases a.len(),
{
    if a.len() > 0 {
        lemma_split_no_dot(a.drop_last());
        assert(a.drop_last().push(a.last()) =~= a);
        assert(seq![a.drop_last()].update(0, a) =~= seq![a]);
    } else {
        assert(a =~= Seq::<char>::empty());
    }
}

/// Splitting `a.b`, for `a` and `b` without dots, gives `a` and `b`.
proof fn lemma_split_two(a: Seq<char>, b: Seq<char>)
    requires
        forall|i: int| 0 <= i < a.len() ==> #[trigger] a[i] != '.',
        forall|i: int| 0 <= i < b.len() ==> #[trigger] b[i] != '.',
    ensures
        split_dots(a + seq!['.'] + b) == seq![a, b],
    decreases b.len(),
{
    let s = a + seq!['.'] + b;
    if b.len() == 0 {
        assert(b =~= Seq::<char>::empty());
        assert(s.drop_last() =~= a);
        lemma_split_no_dot(a);
        assert(seq![a].push(Seq::<char>::empty()) =~= seq![a, b]);
    } else {
        let b0 = b.drop_last();
        assert forall|i: int| 0 <= i < b0.len() implies #[trigger] b0[i] != '.' by {
            assert(b0[i] == b[i]);
        }
        lemma_split_two(a, b0);
        assert(s.drop_last() =~= a + seq!['.'] + b0);
        assert(s.last() == b.last());
        assert(b0.push(b.last()) =~= b);
        assert(seq![a, b0].update(1, b) =~= seq![a, b]);
    }
}

/// Placeholders reach into stored values: when `k` names a stored object
/// with a member `f`, or a stored array with an element at index `f` (in
/// decimal), and nothing is stored under `k.f` itself, interpolating
/// `{k.f}` succeeds with the text of that member or element.
pub proof fn law_placeholder_reaches_into_value(
    store: Seq<(String, JsonValue)>,
    k: Seq<char>,
    f: Seq<char>,
    v: JsonValue,
    n: JsonValue,
    r: Result<String, Error>,
)
    requires
        name_segment(k),
        name_segment(f),
        lookup(store, k) == Some(v),
        lookup(store, k + seq!['.'] + f) is None,
        (v matches JsonValue::Object(entries) && lookup(entries@, f) == Some(n))
            || (v matches JsonValue::Array(items) && exists|idx: nat| #[trigger] decimal_of(idx) == f
                && idx < items@.len() && idx <= usize::MAX && items@[idx as int] == n),
        interpolation_result(store, seq!['{'] + (k + seq!['.'] + f) + seq!['}'], r),
    ensures
        r matches Ok(s) && s@ == value_text(n),
{
    let p = k + seq!['.'] + f;
    assert forall|i: int| 0 <= i < k.len() implies #[trigger] k[i] != '.' by {
        let c = k[i];
        assert(('a' <= c && c <= 'z') || ('A' <= c && c <= 'Z') || ('0' <= c && c <= '9') || c == '_');
    }
    assert forall|i: int| 0 <= i < f.len() implies #[trigger] f[i] != '.' by {
        let c = f[i];
        assert(('a' <= c && c <= 'z') || ('A' <= c && c <= 'Z') || ('0' <= c && c <= '9') || c == '_');
    }
    assert(dotted_name(p)) by {
        assert forall|i: int| 0 <= i < p.len() implies {
            let c = #[trigger] p[i];
            ('a' <= c && c <= 'z') || ('A' <= c && c <= 'Z') || ('0' <= c && c <= '9') || c == '_' || c == '.'
        } by {
            if i < k.len() {
                assert(p[i] == k[i]);
                let c = k[i];
                assert(('a' <= c && c <= 'z') || ('A' <= c && c <= 'Z') || ('0' <= c && c <= '9') || c == '_');
            } else if i > k.len() {
                assert(p[i] == f[i - k.len() - 1]);
                let c = f[i - k.len() - 1];
                assert(('a' <= c && c <= 'z') || ('A' <= c && c <= 'Z') || ('0' <= c && c <= '9') || c == '_');
            }
        }
        assert(p[0] == k[0]);
        assert(p[p.len() - 1] == f[f.len() - 1]);
        assert forall|i: int| 0 <= i < p.len() - 1 implies !(#[trigger] p[i] == '.' && p[i + 1] == '.') by {
            if i < k.len() {
                assert(p[i] == k[i]);
            } else if i == k.len() {
                assert(p[i + 1] == f[0]);
            } else {
                assert(p[i] == f[i - k.len() - 1]);
            }
        }
    }
    lemma_single_placeholder(store, p);
    lemma_split_two(k, f);
    let parts = split_dots(p);
    assert(parts.take(2) =~= parts);
    assert(join(parts.take(2), seq!['.']) == p) by {
        assert(parts.drop_last() =~= seq![k]);
    }
    assert(parts.take(1) =~= seq![k]);
    assert(join(parts.take(1), seq!['.']) == k);
    assert(parts.skip(1) =~= seq![f]);
    assert(seq![f].drop_first() =~= Seq::<Seq<char>>::empty());
    if !(v matches JsonValue::Object(entries) && lookup(entries@, f) == Some(n)) {
        let idx = choose|idx: nat| #[trigger] decimal_of(idx) == f && idx < v->Array_0@.len() && idx <= usize::MAX
            && v->Array_0@[idx as int] == n;
        crate::numbers::lemma_decimal_value(idx);
        assert(f[0] != '+') by {
            assert('0' <= f[0] && f[0] <= '9');
        }
        assert(parse_index(f) == Some(idx));
    }
    let path = seq![f];
    assert(path[0] == f);
    assert(path.drop_first() =~= Seq::<Seq<char>>::empty());
    assert(navigate(n, path.drop_first()) == Some(n));
    assert(navigate(v, path) == Some(n));
    assert(parts.skip(1) == path);
    assert(resolve_prefix(store, parts, 1) == Some(value_text(n)));
    assert(resolve(store, p) == Some(value_text(n)));
}

/// The decimal numeral of `idx`.
pub open spec fn decimal_of(idx: nat) -> Seq<char> {
    crate::text::decimal(idx)
}

} // verus!
