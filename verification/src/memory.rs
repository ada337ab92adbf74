//! How conversation messages are keyed in storage, and which of them are
//! recent.

use vstd::prelude::*;
use crate::numbers::{lemma_decimal_value, lemma_padded_order, lemma_text_before_prefix, lemma_zero_padded_value, parse_unsigned, parse_unsigned_exec, ten_pow, text_before};
use crate::storage::state::is_key_of;
use crate::text::{chars_of, concat, decimal, padded_decimal, string_of_chars, zero_padded};

verus! {

/// The key of the message at `index` of a conversation: the conversation
/// id, `:`, and the index in 10 zero-padded digits.
pub open spec fn message_key_text(conversation_id: Seq<char>, index: nat) -> Seq<char> {
    conversation_id + ":"@ + zero_padded(decimal(index), 10)
}

/// Message keys sort by position: within a conversation of fewer than
/// `10^10` messages, an earlier message's key comes first, as the store
/// orders its keys, so reading a conversation's keys in order reads its
/// messages in the order they were stored.
pub proof fn law_message_keys_sort_by_index(conversation_id: Seq<char>, earlier: nat, later: nat)
    requires
        earlier < later < ten_pow(10),
    ensures
        text_before(message_key_text(conversation_id, earlier), message_key_text(conversation_id, later)),
{
    lemma_padded_order(earlier, later, 10);
    lemma_text_before_prefix(conversation_id + ":"@, zero_padded(decimal(earlier), 10), zero_padded(decimal(later), 10));
}

/// The key of the message at `index` of a conversation.
pub fn message_key(conversation_id: &str, index: usize) -> (k: String)
    ensures
        k@ == message_key_text(conversation_id@, index as nat),
{
    let with_colon = concat(conversation_id, ":");
    concat(with_colon.as_str(), padded_decimal(index as u64, 10).as_str())
}

/// Whether a stored key belongs to a conversation.
pub fn is_message_key_of(key: &str, conversation_id: &str) -> (r: bool)
    ensures
        r == (conversation_id@ + ":"@).is_prefix_of(key@),
{
    is_key_of(key, conversation_id)
}

/// The first position at or after `i` that holds `:` (the length when none does).
pub open spec fn colon_at(s: Seq<char>, i: int) -> int
    decreases s.len() - i,
{
    if i < 0 || i >= s.len() {
        s.len() as int
    } else if s[i] == ':' {
        i
    } else {
        colon_at(s, i + 1)
    }
}

proof fn lemma_colon_at_bounds(s: Seq<char>, i: int)
    requires
        0 <= i <= s.len(),
    ensures
        i <= colon_at(s, i) <= s.len(),
    decreases s.len() - i,
{
    if i < s.len() && s[i] != ':' {
        lemma_colon_at_bounds(s, i + 1);
    }
}

/// A key read back: when it holds exactly one `:`, the text before it and
/// the index after it (which must read as a `usize`).
pub open spec fn parsed_key(key: Seq<char>) -> Option<(Seq<char>, nat)> {
    let p = colon_at(key, 0);
    if p < key.len() && colon_at(key, p + 1) == key.len() {
        match parse_unsigned(key.subrange(p + 1, key.len() as int), usize::MAX as nat) {
            Some(i) => Some((key.subrange(0, p), i)),
            None => None,
        }
    } else {
        None
    }
}

/// The first `:` at or after `i` is at `p` when `p` holds one and nothing
/// between `i` and `p` does (with `p` the length: when nothing after `i` does).
proof fn lemma_colon_at_is(s: Seq<char>, i: int, p: int)
    requires
        0 <= i <= p <= s.len(),
        p < s.len() ==> s[p] == ':',
        forall|j: int| i <= j < p ==> s[j] != ':',
    ensures
        colon_at(s, i) == p,
    decreases p - i,
{
    if i < p {
        lemma_colon_at_is(s, i + 1, p);
    }
}

/// Reading a key back undoes making it: the key of the message at `index` of
/// a conversation whose id holds no `:` reads back as that id and index.
pub proof fn law_message_key_round_trip(conversation_id: Seq<char>, index: nat)
    requires
        !conversation_id.contains(':'),
        index <= usize::MAX,
    ensures
        parsed_key(message_key_text(conversation_id, index)) == Some((conversation_id, index)),
{
    let digits = zero_padded(decimal(index), 10);
    lemma_decimal_value(index);
    lemma_zero_padded_value(decimal(index), 10);
    let key = message_key_text(conversation_id, index);
    let p = conversation_id.len() as int;
    assert(key =~= conversation_id + seq![':'] + digits) by {
        reveal_strlit(":");
    }
    assert forall|j: int| 0 <= j < p implies key[j] != ':' by {
        assert(key[j] == conversation_id[j]);
    }
    lemma_colon_at_is(key, 0, p);
    assert forall|j: int| p + 1 <= j < key.len() implies key[j] != ':' by {
        assert(key[j] == digits[j - p - 1]);
        assert('0' <= digits[j - p - 1] && digits[j - p - 1] <= '9');
    }
    lemma_colon_at_is(key, p + 1, key.len() as int);
    assert(key.subrange(p + 1, key.len() as int) =~= digits);
    assert(key.subrange(0, p) =~= conversation_id);
    assert(digits[0] != '+') by {
        assert('0' <= digits[0] && digits[0] <= '9');
    }
}

/// The first position at or after `from` that holds `:` in `cs`.
fn find_colon(cs: &Vec<char>, from: usize) -> (r: usize)
    requires
        from <= cs@.len(),
    ensures
        r == colon_at(cs@, from as int),
{
    let n = cs.len();
    let mut i = from;
    proof {
        lemma_colon_at_bounds(cs@, from as int);
    }
    while i < n && cs[i] != ':'
        invariant
            n == cs@.len(),
            from <= i <= colon_at(cs@, from as int),
            colon_at(cs@, i as int) == colon_at(cs@, from as int),
            colon_at(cs@, from as int) <= n,
        decreases n - i,
    {
        proof {
            lemma_colon_at_bounds(cs@, i + 1);
        }
        i = i + 1;
    }
    i
}

/// Reads a message key back (see `parsed_key`).
pub fn parse_message_key(key: &str) -> (r: Option<(String, usize)>)
    ensures
        match r {
            Some(x) => parsed_key(key@) == Some((x.0@, x.1 as nat)),
            None => parsed_key(key@) is None,
        },
{
    let cs = chars_of(key);
    let n = cs.len();
    let pos = find_colon(&cs, 0);
    if pos >= n {
        return None;
    }
    if find_colon(&cs, pos + 1) != n {
        return None;
    }
    let mut head: Vec<char> = Vec::new();
    let mut k: usize = 0;
    while k < pos
        invariant
            k <= pos < n,
            n == cs@.len(),
            head@ == cs@.subrange(0, k as int),
        decreases pos - k,
    {
        head.push(cs[k]);
        k = k + 1;
        assert(head@ =~= cs@.subrange(0, k as int));
    }
    let mut tail: Vec<char> = Vec::new();
    let mut j: usize = pos + 1;
    while j < n
        invariant
            pos < n,
            pos + 1 <= j <= n,
            n == cs@.len(),
            tail@ == cs@.subrange(pos + 1, j as int),
        decreases n - j,
    {
        tail.push(cs[j]);
        j = j + 1;
        assert(tail@ =~= cs@.subrange(pos + 1, j as int));
    }
    match parse_unsigned_exec(&tail, usize::MAX as u64) {
        Some(v) => Some((string_of_chars(head.as_slice()), v as usize)),
        None => None,
    }
}

/// The last `limit` items (all of them when there are fewer).
pub fn recent<T>(all: Vec<T>, limit: usize) -> (r: Vec<T>)
    ensures
        r@ == all@.subrange(if all@.len() > limit { all@.len() - limit } else { 0 }, all@.len() as int),
{
    let n = all.len();
    let start = if n > limit { n - limit } else { 0 };
    let mut rest = all;
    let ghost whole = rest@;
    let mut dropped: usize = 0;
    while dropped < start
        invariant
            n == whole.len(),
            start <= n,
            dropped <= start,
            rest@ == whole.subrange(dropped as int, n as int),
        decreases start - dropped,
    {
        rest.remove(0);
        dropped = dropped + 1;
        assert(rest@ =~= whole.subrange(dropped as int, n as int));
    }
    rest
}

} // verus!
