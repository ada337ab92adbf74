//! JSON values as the engine holds them, and their compact text.

use vstd::prelude::*;
use crate::text::{join, lemma_join_push, push_char, owned};
use crate::engine::types::{find_key, lookup};

verus! {

/// A JSON value. Numbers are held as the text that denotes them; object
/// members keep the order in which they were given.
#[derive(Debug, PartialEq)]
pub enum JsonValue {
    Null,
    Bool(bool),
    Number(String),
    String(String),
    Array(Vec<JsonValue>),
    Object(Vec<(String, JsonValue)>),
}

/// Hexadecimal digit (lowercase) for `d` in `0..16`.
pub open spec fn hex_char(d: nat) -> char {
    if d < 10 {
        crate::text::digit_char(d)
    } else if d == 10 { 'a' }
    else if d == 11 { 'b' }
    else if d == 12 { 'c' }
    else if d == 13 { 'd' }
    else if d == 14 { 'e' }
    else { 'f' }
}

/// How one character is written inside a JSON string literal.
pub open spec fn escape_char(c: char) -> Seq<char> {
    if c == '"' {
        seq!['\\', '"']
    } else if c == '\\' {
        seq!['\\', '\\']
    } else if c == '\n' {
        seq!['\\', 'n']
    } else if c == '\r' {
        seq!['\\', 'r']
    } else if c == '\t' {
        seq!['\\', 't']
    } else if c == '\x08' {
        seq!['\\', 'b']
    } else if c == '\x0c' {
        seq!['\\', 'f']
    } else if (c as u32) < 0x20 {
        seq!['\\', 'u', '0', '0', hex_char((c as u32 / 16) as nat), hex_char((c as u32 % 16) as nat)]
    } else {
        seq![c]
    }
}

/// The escaped body of a JSON string literal.
pub open spec fn escape_text(s: Seq<char>) -> Seq<char>
    decreases s.len(),
{
    if s.len() == 0 {
        Seq::empty()
    } else {
        escape_text(s.drop_last()) + escape_char(s.last())
    }
}

/// A JSON string literal for `s`.
pub open spec fn quoted(s: Seq<char>) -> Seq<char> {
    seq!['"'] + escape_text(s) + seq!['"']
}

/// Texts of the elements of an array value.
pub open spec fn array_parts(v: JsonValue) -> Seq<Seq<char>>
    decreases v, 0int,
{
    match v {
        JsonValue::Array(items) => Seq::new(
            items@.len(),
            |i: int|
                if 0 <= i < items@.len() {
                    json_text(items@[i])
                } else {
                    Seq::empty()
                },
        ),
        _ => Seq::empty(),
    }
}

/// Texts of the members (`"key":value`) of an object value.
pub open spec fn object_parts(v: JsonValue) -> Seq<Seq<char>>
    decreases v, 0int,
{
    match v {
        JsonValue::Object(entries) => Seq::new(
            entries@.len(),
            |i: int|
                if 0 <= i < entries@.len() {
                    quoted(entries@[i].0@) + seq![':'] + json_text(entries@[i].1)
                } else {
                    Seq::empty()
                },
        ),
        _ => Seq::empty(),
    }
}

/// Compact JSON text of a value.
pub open spec fn json_text(v: JsonValue) -> Seq<char>
    decreases v, 1int,
{
    match v {
        JsonValue::Null => seq!['n', 'u', 'l', 'l'],
        JsonValue::Bool(b) => if b {
            seq!['t', 'r', 'u', 'e']
        } else {
            seq!['f', 'a', 'l', 's', 'e']
        },
        JsonValue::Number(n) => n@,
        JsonValue::String(s) => quoted(s@),
        JsonValue::Array(items) => seq!['['] + join(array_parts(v), seq![',']) + seq![']'],
        JsonValue::Object(entries) => seq!['{'] + join(object_parts(v), seq![',']) + seq!['}'],
    }
}

fn hex_digit(d: u32) -> (c: char)
    requires
        d < 16,
    ensures
        c == hex_char(d as nat),
{
    if d == 0 { '0' }
    else if d == 1 { '1' }
    else if d == 2 { '2' }
    else if d == 3 { '3' }
    else if d == 4 { '4' }
    else if d == 5 { '5' }
    else if d == 6 { '6' }
    else if d == 7 { '7' }
    else if d == 8 { '8' }
    else if d == 9 { '9' }
    else if d == 10 { 'a' }
    else if d == 11 { 'b' }
    else if d == 12 { 'c' }
    else if d == 13 { 'd' }
    else if d == 14 { 'e' }
    else { 'f' }
}

fn push_escaped(out: &mut String, c: char)
    ensures
        final(out)@ == old(out)@ + escape_char(c),
{
    let ghost start = out@;
    if c == '"' {
        push_char(out, '\\');
        push_char(out, '"');
    } else if c == '\\' {
        push_char(out, '\\');
        push_char(out, '\\');
    } else if c == '\n' {
        push_char(out, '\\');
        push_char(out, 'n');
    } else if c == '\r' {
        push_char(out, '\\');
        push_char(out, 'r');
    } else if c == '\t' {
        push_char(out, '\\');
        push_char(out, 't');
    } else if c == '\x08' {
        push_char(out, '\\');
        push_char(out, 'b');
    } else if c == '\x0c' {
        push_char(out, '\\');
        push_char(out, 'f');
    } else if (c as u32) < 0x20 {
        let code = c as u32;
        push_char(out, '\\');
        push_char(out, 'u');
        push_char(out, '0');
        push_char(out, '0');
        push_char(out, hex_digit(code / 16));
        push_char(out, hex_digit(code % 16));
    } else {
        push_char(out, c);
    }
    assert(out@ =~= start + escape_char(c));
}

/// Appends the JSON string literal for `s` to `out`.
pub fn push_quoted(out: &mut String, s: &str)
    ensures
        final(out)@ == old(out)@ + quoted(s@),
{
    let ghost start = out@;
    push_char(out, '"');
    let n = s.unicode_len();
    let mut i: usize = 0;
    while i < n
        invariant
            n == s@.len(),
            i <= n,
            out@ == start + seq!['"'] + escape_text(s@.subrange(0, i as int)),
        decreases n - i,
    {
        let c = s.get_char(i);
        push_escaped(out, c);
        proof {
            assert(s@.subrange(0, i + 1).drop_last() =~= s@.subrange(0, i as int));
        }
        i = i + 1;
    }
    push_char(out, '"');
    assert(s@.subrange(0, n as int) =~= s@);
    assert(out@ =~= start + quoted(s@));
}

/// The text of an object with one member.
pub proof fn lemma_object_text_one(v: JsonValue)
    requires
        v matches JsonValue::Object(e) && e@.len() == 1,
    ensures
        json_text(v) == seq!['{'] + (quoted(v->Object_0@[0].0@) + seq![':'] + json_text(v->Object_0@[0].1)) + seq!['}'],
{
    let parts = object_parts(v);
    assert(parts.len() == 1);
    assert(join(parts, seq![',']) == parts[0]);
}

/// The text of an object with two members.
pub proof fn lemma_object_text_two(v: JsonValue)
    requires
        v matches JsonValue::Object(e) && e@.len() == 2,
    ensures
        json_text(v) == seq!['{'] + (quoted(v->Object_0@[0].0@) + seq![':'] + json_text(v->Object_0@[0].1)) + seq![',']
            + (quoted(v->Object_0@[1].0@) + seq![':'] + json_text(v->Object_0@[1].1)) + seq!['}'],
{
    let parts = object_parts(v);
    assert(parts.len() == 2);
    assert(parts.drop_last().len() == 1);
    assert(join(parts.drop_last(), seq![',']) == parts[0]);
    assert(join(parts, seq![',']) == join(parts.drop_last(), seq![',']) + seq![','] + parts[1]);
}

/// Appends the compact JSON text of `v` to `out`.
#[verifier::spinoff_prover]
pub fn push_json(out: &mut String, v: &JsonValue)
    ensures
        final(out)@ == old(out)@ + json_text(*v),
    decreases v,
{
    let ghost start = out@;
    match v {
        JsonValue::Null => {
            push_char(out, 'n');
            push_char(out, 'u');
            push_char(out, 'l');
            push_char(out, 'l');
            assert(out@ =~= start + seq!['n', 'u', 'l', 'l']);
            assert(json_text(*v) == seq!['n', 'u', 'l', 'l']);
            assert(out@ =~= start + json_text(*v));
        },
        JsonValue::Bool(b) => {
            if *b {
                push_char(out, 't');
                push_char(out, 'r');
                push_char(out, 'u');
                push_char(out, 'e');
            } else {
                push_char(out, 'f');
                push_char(out, 'a');
                push_char(out, 'l');
                push_char(out, 's');
                push_char(out, 'e');
            }
            assert(out@ =~= start + json_text(*v));
        },
        JsonValue::Number(n) => {
            out.append(n.as_str());
        },
        JsonValue::String(s) => {
            push_quoted(out, s.as_str());
        },
        JsonValue::Array(items) => {
            let ghost parts = array_parts(*v);
            push_char(out, '[');
            let mut i: usize = 0;
            while i < items.len()
                invariant
                    *v == JsonValue::Array(*items),
                    i <= items@.len(),
                    parts.len() == items@.len(),
                    forall|k: int| 0 <= k < items@.len() ==> parts[k] == json_text(#[trigger] items@[k]),
                    out@ == start + seq!['['] + join(parts.take(i as int), seq![',']),
                decreases items@.len() - i,
            {
                proof {
                    lemma_join_push(parts.take(i as int), seq![','], parts[i as int]);
                    assert(parts.take(i as int).push(parts[i as int]) =~= parts.take(i + 1));
                }
                if i > 0 {
                    push_char(out, ',');
                }
                proof {
                    vstd::std_specs::vec::axiom_vec_index_decreases(*items, i as int);
                    assert(decreases_to!(*v => v->Array_0));
                    assert(decreases_to!(*v => items@[i as int]));
                }
                push_json(out, &items[i]);
                i = i + 1;
            }
            assert(parts.take(i as int) =~= parts);
            push_char(out, ']');
            assert(json_text(*v) == seq!['['] + join(parts, seq![',']) + seq![']']);
            assert(out@ =~= start + json_text(*v));
        },
        JsonValue::Object(entries) => {
            let ghost parts = object_parts(*v);
            push_char(out, '{');
            let mut i: usize = 0;
            while i < entries.len()
                invariant
                    *v == JsonValue::Object(*entries),
                    i <= entries@.len(),
                    parts.len() == entries@.len(),
                    forall|k: int| 0 <= k < entries@.len() ==> parts[k] == quoted(entries@[k].0@) + seq![':'] + json_text(#[trigger] entries@[k].1),
                    out@ == start + seq!['{'] + join(parts.take(i as int), seq![',']),
                decreases entries@.len() - i,
            {
                proof {
                    lemma_join_push(parts.take(i as int), seq![','], parts[i as int]);
                    assert(parts.take(i as int).push(parts[i as int]) =~= parts.take(i + 1));
                }
                if i > 0 {
                    push_char(out, ',');
                }
                let entry = &entries[i];
                proof {
                    vstd::std_specs::vec::axiom_vec_index_decreases(*entries, i as int);
                    assert(decreases_to!(*v => v->Object_0));
                    assert(decreases_to!(*entries => entries@[i as int]));
                    assert(decreases_to!(*v => entries@[i as int].1));
                }
                push_quoted(out, entry.0.as_str());
                push_char(out, ':');
                push_json(out, &entry.1);
                i = i + 1;
            }
            assert(parts.take(i as int) =~= parts);
            push_char(out, '}');
            assert(json_text(*v) == seq!['{'] + join(parts, seq![',']) + seq!['}']);
            assert(out@ =~= start + json_text(*v));
        },
    }
}

/// Compact JSON text of a value, as `serde_json` prints it.
pub fn to_json_text(v: &JsonValue) -> (s: String)
    ensures
        s@ == json_text(*v),
{
    let mut s = String::new();
    push_json(&mut s, v);
    assert(s@ =~= json_text(*v));
    s
}

/// The member `key` of an object (the first one, if it repeats).
pub open spec fn member(data: JsonValue, key: Seq<char>) -> Option<JsonValue> {
    match data {
        JsonValue::Object(entries) => lookup(entries@, key),
        _ => None,
    }
}

/// The text of the member `key`, when it is a string.
pub open spec fn text_member(data: JsonValue, key: Seq<char>) -> Option<Seq<char>> {
    match member(data, key) {
        Some(JsonValue::String(s)) => Some(s@),
        _ => None,
    }
}

/// The member `key` of an object, if it has one.
pub fn member_exec<'a>(data: &'a JsonValue, key: &str) -> (r: Option<&'a JsonValue>)
    ensures
        match r {
            Some(v) => member(*data, key@) == Some(*v),
            None => member(*data, key@) is None,
        },
{
    match data {
        JsonValue::Object(entries) => match find_key(entries, key) {
            Some(i) => {
                proof {
                    crate::engine::types::lemma_lookup_index(entries@, key@, i as int);
                }
                Some(&entries[i].1)
            },
            None => {
                proof {
                    crate::engine::types::lemma_lookup_none(entries@, key@);
                }
                None
            },
        },
        _ => None,
    }
}

/// The text of the member `key` of `data`, when it is a string.
pub fn text_member_exec(data: &JsonValue, key: &str) -> (r: Option<String>)
    ensures
        match r {
            Some(s) => text_member(*data, key@) == Some(s@),
            None => text_member(*data, key@) is None,
        },
{
    match data {
        JsonValue::Object(entries) => match find_key(entries, key) {
            Some(i) => {
                proof {
                    crate::engine::types::lemma_lookup_index(entries@, key@, i as int);
                }
                match &entries[i].1 {
                    JsonValue::String(s) => Some(s.clone()),
                    _ => None,
                }
            },
            None => {
                proof {
                    crate::engine::types::lemma_lookup_none(entries@, key@);
                }
                None
            },
        },
        _ => None,
    }
}

/// The value of a hexadecimal digit (either case); 0 for any other
/// character.
pub open spec fn hex_value(c: char) -> nat {
    if '0' <= c && c <= '9' {
        (c as u32 - '0' as u32) as nat
    } else if 'a' <= c && c <= 'f' {
        (c as u32 - 'a' as u32 + 10) as nat
    } else if 'A' <= c && c <= 'F' {
        (c as u32 - 'A' as u32 + 10) as nat
    } else {
        0
    }
}

/// The code of a character.
pub open spec fn code_of(x: char) -> nat {
    x as nat
}

/// The character whose code is `n`.
pub open spec fn char_with_code(n: nat) -> char {
    choose|x: char| #[trigger] code_of(x) == n
}

/// The character that a two-character escape `\e` stands for in JSON.
pub open spec fn unescaped_letter(e: char) -> char {
    if e == 'n' { '\n' }
    else if e == 'r' { '\r' }
    else if e == 't' { '\t' }
    else if e == 'b' { '\x08' }
    else if e == 'f' { '\x0c' }
    else { e }
}

/// The characters that the body of a JSON string literal stands for, read
/// from the left as a JSON parser reads it: `\uXXXX` is the character of
/// that code, `\n`, `\r`, `\t`, `\b`, `\f` the control characters they
/// name, a backslash before any other character that character.
pub open spec fn unescape(t: Seq<char>) -> Seq<char>
    decreases t.len(),
{
    if t.len() == 0 {
        Seq::empty()
    } else if t[0] == '\\' && t.len() >= 2 {
        if t[1] == 'u' && t.len() >= 6 {
            seq![char_with_code(hex_value(t[2]) * 4096 + hex_value(t[3]) * 256 + hex_value(t[4]) * 16 + hex_value(t[5]))]
                + unescape(t.skip(6))
        } else {
            seq![unescaped_letter(t[1])] + unescape(t.skip(2))
        }
    } else {
        seq![t[0]] + unescape(t.skip(1))
    }
}

/// Escaping reads from the left too: the first character's escape comes
/// first.
proof fn lemma_escape_text_front(s: Seq<char>)
    requires
        s.len() > 0,
    ensures
        escape_text(s) == escape_char(s[0]) + escape_text(s.drop_first()),
    decreases s.len(),
{
    if s.len() == 1 {
        assert(s.drop_last().len() == 0);
        assert(escape_text(s.drop_last()) == Seq::<char>::empty());
        assert(s.drop_first().len() == 0);
        assert(escape_text(s.drop_first()) == Seq::<char>::empty());
        assert(s.last() == s[0]);
        assert(escape_text(s) == escape_text(s.drop_last()) + escape_char(s.last()));
        assert(escape_text(s) =~= escape_char(s[0]) + escape_text(s.drop_first()));
    } else {
        lemma_escape_text_front(s.drop_last());
        assert(s.drop_last()[0] == s[0]);
        assert(s.drop_last().drop_first() =~= s.drop_first().drop_last());
        assert(s.drop_first().last() == s.last());
        assert(escape_text(s.drop_first()) == escape_text(s.drop_first().drop_last()) + escape_char(s.drop_first().last()));
        assert(escape_text(s) =~= escape_char(s[0]) + escape_text(s.drop_first()));
    }
}

/// The hexadecimal digits written back give their value.
proof fn lemma_hex_value_of_char(d: nat)
    requires
        d < 16,
    ensures
        hex_value(hex_char(d)) == d,
{
}

/// Reading one escaped character gives that character back.
proof fn lemma_unescape_char(c: char, rest: Seq<char>)
    ensures
        unescape(escape_char(c) + rest) == seq![c] + unescape(rest),
{
    let t = escape_char(c) + rest;
    let e = escape_char(c);
    if c == '"' || c == '\\' || c == '\n' || c == '\r' || c == '\t' || c == '\x08' || c == '\x0c' {
        assert(e.len() == 2);
        assert(t[0] == '\\' && t[1] == e[1]);
        assert(t.skip(2) =~= rest);
    } else if (c as u32) < 0x20 {
        let hi = (c as u32 / 16) as nat;
        let lo = (c as u32 % 16) as nat;
        lemma_hex_value_of_char(hi);
        lemma_hex_value_of_char(lo);
        assert(t[0] == '\\' && t[1] == 'u' && t[2] == '0' && t[3] == '0' && t[4] == hex_char(hi) && t[5] == hex_char(lo));
        assert(t.skip(6) =~= rest);
        let n = hex_value(t[2]) * 4096 + hex_value(t[3]) * 256 + hex_value(t[4]) * 16 + hex_value(t[5]);
        assert(n == c as nat);
        assert(c as nat == n);
        assert(code_of(c) == n);
        let x = char_with_code(n);
        assert(code_of(x) == n);
        assert(x == c);
    } else {
        assert(e =~= seq![c]);
        assert(t[0] == c);
        assert(t.skip(1) =~= rest);
    }
}

/// JSON strings read back: what a JSON parser reads from the body that
/// `quoted` writes for `s` is `s` itself.
pub proof fn law_escaped_text_reads_back(s: Seq<char>)
    ensures
        unescape(escape_text(s)) == s,
    decreases s.len(),
{
    if s.len() == 0 {
        assert(escape_text(s) == Seq::<char>::empty());
    } else {
        lemma_escape_text_front(s);
        law_escaped_text_reads_back(s.drop_first());
        lemma_unescape_char(s[0], escape_text(s.drop_first()));
        assert(seq![s[0]] + s.drop_first() =~= s);
    }
}

/// JSON text is valid JSON: the body of a string literal holds no control
/// character (none below U+0020), and a quote in it always follows a
/// backslash; in particular a line break is written as `\n`.
pub proof fn law_escaped_text_has_no_control_chars(s: Seq<char>)
    ensures
        forall|i: int| 0 <= i < escape_text(s).len() ==> (#[trigger] escape_text(s)[i]) as u32 >= 0x20,
        forall|i: int| 0 <= i < escape_text(s).len() && (#[trigger] escape_text(s)[i]) == '"' ==> i > 0 && escape_text(s)[i - 1] == '\\',
        escape_text(seq!['\n']) == seq!['\\', 'n'],
    decreases s.len(),
{
    reveal_with_fuel(escape_text, 2);
    assert(seq!['\n'].drop_last().len() == 0);
    if s.len() > 0 {
        law_escaped_text_has_no_control_chars(s.drop_last());
        let a = escape_text(s.drop_last());
        let e = escape_char(s.last());
        assert(escape_text(s) == a + e);
        assert forall|i: int| 0 <= i < escape_text(s).len() implies (#[trigger] escape_text(s)[i]) as u32 >= 0x20 by {
            if i < a.len() {
                assert(escape_text(s)[i] == a[i]);
            } else {
                assert(escape_text(s)[i] == e[i - a.len()]);
                let c = s.last();
                if (c as u32) < 0x20 && !(c == '\n' || c == '\r' || c == '\t' || c == '\x08' || c == '\x0c') {
                    let hi = (c as u32 / 16) as nat;
                    let lo = (c as u32 % 16) as nat;
                    assert(hi < 16 && lo < 16);
                }
            }
        }
        assert forall|i: int| 0 <= i < escape_text(s).len() && (#[trigger] escape_text(s)[i]) == '"' implies i > 0 && escape_text(s)[i - 1] == '\\' by {
            if i < a.len() {
                assert(escape_text(s)[i] == a[i]);
                assert(escape_text(s)[i - 1] == a[i - 1]);
            } else {
                assert(escape_text(s)[i] == e[i - a.len()]);
                let c = s.last();
                if (c as u32) < 0x20 && !(c == '\n' || c == '\r' || c == '\t' || c == '\x08' || c == '\x0c') {
                    let hi = (c as u32 / 16) as nat;
                    let lo = (c as u32 % 16) as nat;
                    assert(hi < 16 && lo < 16);
                }
                if i > a.len() {
                    assert(escape_text(s)[i - 1] == e[i - 1 - a.len()]);
                }
            }
        }
    }
}

} // verus!
