//! Merging the outputs of agents that ran in parallel.

use vstd::prelude::*;
use crate::error::Error;
use crate::text::{concat, decimal, join, join_strings, owned, string_views, usize_text};

verus! {

/// How the outputs of parallel agents are merged into one.
#[derive(Debug, Clone, Copy, PartialEq, Eq, Structural)]
pub enum MergeStrategy {
    /// Concatenate all results with newlines.
    Concat,
    /// Keep the most common result.
    Vote,
    /// Write a synthesis of all results.
    LlmMerge,
}

/// How many times `x` occurs in `s`.
pub open spec fn occurrences(s: Seq<Seq<char>>, x: Seq<char>) -> nat
    decreases s.len(),
{
    if s.len() == 0 {
        0
    } else {
        occurrences(s.drop_last(), x) + if s.last() == x { 1nat } else { 0nat }
    }
}

/// `w` is the first position of `s` whose entry occurs most often.
pub open spec fn is_vote_winner(s: Seq<Seq<char>>, w: int) -> bool {
    &&& 0 <= w < s.len()
    &&& forall|j: int| 0 <= j < s.len() ==> occurrences(s, #[trigger] s[j]) <= occurrences(s, s[w])
    &&& forall|j: int| 0 <= j < w ==> occurrences(s, #[trigger] s[j]) < occurrences(s, s[w])
}

/// Number of different entries of `s`.
pub open spec fn distinct_count(s: Seq<Seq<char>>) -> nat
    decreases s.len(),
{
    if s.len() == 0 {
        0
    } else {
        distinct_count(s.drop_last()) + if s.drop_last().contains(s.last()) { 0nat } else { 1nat }
    }
}

/// The number of unique viewpoints a synthesis reports is the number of
/// different results: the size of the set of results.
pub proof fn law_distinct_count_is_set_size(s: Seq<Seq<char>>)
    ensures
        distinct_count(s) == s.to_set().len(),
    decreases s.len(),
{
    broadcast use vstd::set::group_set_axioms, vstd::seq_lib::seq_to_set_is_finite;

    if s.len() > 0 {
        law_distinct_count_is_set_size(s.drop_last());
        assert(s.drop_last().to_set().insert(s.last()) =~= s.to_set()) by {
            assert forall|x: Seq<char>| s.to_set().contains(x) implies
                s.drop_last().to_set().insert(s.last()).contains(x) by {
                let j = choose|j: int| 0 <= j < s.len() && s[j] == x;
                if j < s.len() - 1 {
                    assert(s.drop_last()[j] == x);
                }
            }
        }
        assert(s.drop_last().to_set().contains(s.last()) == s.drop_last().contains(s.last()));
    } else {
        assert(s.to_set() =~= Set::<Seq<char>>::empty());
    }
}

/// One line per result: `Agent {n} perspective: {result}`, numbered from 1.
pub open spec fn perspectives(rs: Seq<Seq<char>>) -> Seq<char>
    decreases rs.len(),
{
    if rs.len() == 0 {
        Seq::empty()
    } else {
        perspectives(rs.drop_last()) + "Agent "@ + decimal(rs.len()) + " perspective: "@ + rs.last() + "\n"@
    }
}

/// The closing sentence of a synthesis of `rs`.
pub open spec fn consensus_text(rs: Seq<Seq<char>>) -> Seq<char> {
    if distinct_count(rs) == 1 {
        "All agents agree on the result."@
    } else {
        "Multiple perspectives provided ("@ + decimal(distinct_count(rs)) + " unique viewpoints)."@
    }
}

/// The synthesis written for two or more results.
pub open spec fn synthesis_text(rs: Seq<Seq<char>>) -> Seq<char> {
    "Synthesized result from multiple agents:\n\n"@ + perspectives(rs) + "\nConsensus: "@ + consensus_text(rs)
}

/// Number of times `x` occurs in `rs`.
fn count_of(rs: &Vec<String>, x: &str) -> (c: usize)
    ensures
        c == occurrences(string_views(rs@), x@),
{
    let ghost v = string_views(rs@);
    let mut c: usize = 0;
    let mut i: usize = 0;
    while i < rs.len()
        invariant
            v == string_views(rs@),
            i <= rs@.len(),
            c <= i,
            c == occurrences(v.take(i as int), x@),
        decreases rs@.len() - i,
    {
        assert(v.take(i + 1).drop_last() =~= v.take(i as int));
        if crate::text::str_eq(rs[i].as_str(), x) {
            c = c + 1;
        }
        i = i + 1;
    }
    assert(v.take(i as int) =~= v);
    c
}

/// Whether the entry at `i` already occurs before `i`.
fn seen_before(rs: &Vec<String>, i: usize) -> (r: bool)
    requires
        i < rs@.len(),
    ensures
        r == string_views(rs@).take(i as int).contains(rs@[i as int]@),
{
    let ghost v = string_views(rs@);
    let mut j: usize = 0;
    while j < i
        invariant
            v == string_views(rs@),
            i < rs@.len(),
            j <= i,
            forall|k: int| 0 <= k < j ==> v[k] != v[i as int],
        decreases i - j,
    {
        if crate::text::str_eq(rs[j].as_str(), rs[i].as_str()) {
            assert(v.take(i as int)[j as int] == v[i as int]);
            return true;
        }
        j = j + 1;
    }
    assert forall|k: int| 0 <= k < i implies v.take(i as int)[k] != v[i as int] by {
        assert(v.take(i as int)[k] == v[k]);
    }
    false
}

/// Merges the outputs of parallel agents with the given strategy.
pub fn merge_results(results: Vec<String>, strategy: MergeStrategy) -> (r: Result<String, Error>)
    ensures
        ({
            let v = string_views(results@);
            match strategy {
                MergeStrategy::Concat => r matches Ok(s) && s@ == join(v, "\n"@),
                MergeStrategy::Vote => vote_outcome(v, r),
                MergeStrategy::LlmMerge => synthesis_outcome(v, r),
            }
        }),
{
    match strategy {
        MergeStrategy::Concat => concat_results(results),
        MergeStrategy::Vote => vote_results(results),
        MergeStrategy::LlmMerge => llm_merge_results(results),
    }
}

/// What voting on `v` gives: an error for no results, else the first of the
/// most common results.
pub open spec fn vote_outcome(v: Seq<Seq<char>>, r: Result<String, Error>) -> bool {
    if v.len() == 0 {
        r matches Err(Error::Internal(m)) && m@ == "Cannot vote on empty results"@
    } else {
        r matches Ok(s) && exists|w: int| is_vote_winner(v, w) && s@ == v[w]
    }
}

/// What synthesising `v` gives: an error for no results, the result itself
/// for one, else the synthesis text.
pub open spec fn synthesis_outcome(v: Seq<Seq<char>>, r: Result<String, Error>) -> bool {
    if v.len() == 0 {
        r matches Err(Error::Internal(m)) && m@ == "Cannot merge empty results"@
    } else if v.len() == 1 {
        r matches Ok(s) && s@ == v[0]
    } else {
        r matches Ok(s) && s@ == synthesis_text(v)
    }
}

/// The results joined with newlines.
pub fn concat_results(results: Vec<String>) -> (r: Result<String, Error>)
    ensures
        r matches Ok(s) && s@ == join(string_views(results@), "\n"@),
{
    Ok(join_strings(&results, "\n"))
}

/// The most common result; on a tie, the one that comes first.
pub fn vote_results(results: Vec<String>) -> (r: Result<String, Error>)
    ensures
        vote_outcome(string_views(results@), r),
{
    let ghost v = string_views(results@);
    let n = results.len();
    if n == 0 {
        return Err(Error::Internal(owned("Cannot vote on empty results")));
    }
    let mut best: usize = 0;
    let mut best_count: usize = count_of(&results, results[0].as_str());
    let mut i: usize = 1;
    while i < n
        invariant
            v == string_views(results@),
            n == v.len(),
            best < i <= n,
            best_count == occurrences(v, v[best as int]),
            forall|j: int| 0 <= j < i ==> occurrences(v, #[trigger] v[j]) <= best_count,
            forall|j: int| 0 <= j < best ==> occurrences(v, #[trigger] v[j]) < best_count,
        decreases n - i,
    {
        let c = count_of(&results, results[i].as_str());
        if c > best_count {
            best = i;
            best_count = c;
        }
        i = i + 1;
    }
    let w = results[best].clone();
    assert(is_vote_winner(v, best as int));
    Ok(w)
}

/// A synthesis of the results: each agent's perspective, numbered, then
/// whether they agree or how many different viewpoints there are.
pub fn llm_merge_results(results: Vec<String>) -> (r: Result<String, Error>)
    ensures
        synthesis_outcome(string_views(results@), r),
{
    let ghost v = string_views(results@);
    let n = results.len();
    if n == 0 {
        return Err(Error::Internal(owned("Cannot merge empty results")));
    }
    if n == 1 {
        return Ok(results[0].clone());
    }
    let mut lines = String::new();
    let mut unique: usize = 0;
    let mut i: usize = 0;
    while i < n
        invariant
            v == string_views(results@),
            n == v.len(),
            i <= n,
            unique <= i,
            lines@ == perspectives(v.take(i as int)),
            unique == distinct_count(v.take(i as int)),
        decreases n - i,
    {
        let ghost before = lines@;
        assert(v.take(i + 1).drop_last() =~= v.take(i as int));
        let a = concat("Agent ", usize_text(i + 1).as_str());
        let b = concat(a.as_str(), " perspective: ");
        let c = concat(b.as_str(), results[i].as_str());
        let d = concat(c.as_str(), "\n");
        lines = concat(lines.as_str(), d.as_str());
        assert(lines@ == before + ("Agent "@ + decimal((i + 1) as nat) + " perspective: "@ + v[i as int] + "\n"@));
        assert(lines@ =~= perspectives(v.take(i + 1)));
        if !seen_before(&results, i) {
            unique = unique + 1;
        }
        i = i + 1;
    }
    assert(v.take(n as int) =~= v);
    let head = concat("Synthesized result from multiple agents:\n\n", lines.as_str());
    let body = concat(head.as_str(), "\nConsensus: ");
    let tail = if unique == 1 {
        owned("All agents agree on the result.")
    } else {
        let x = concat("Multiple perspectives provided (", usize_text(unique).as_str());
        concat(x.as_str(), " unique viewpoints).")
    };
    let s = concat(body.as_str(), tail.as_str());
    assert(s@ =~= synthesis_text(v));
    Ok(s)
}

} // verus!
