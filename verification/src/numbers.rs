//! Reading numbers and booleans from text, as `str::parse` does for unsigned
//! integers and `bool`.

use vstd::prelude::*;
use crate::text::{chars_of, decimal, digit_char, zero_padded};

verus! {

/// Whether every character is an ASCII digit.
pub open spec fn all_digits(s: Seq<char>) -> bool {
    forall|i: int| 0 <= i < s.len() ==> '0' <= #[trigger] s[i] && s[i] <= '9'
}

/// Value of a string of decimal digits.
pub open spec fn digits_value(s: Seq<char>) -> nat
    decreases s.len(),
{
    if s.len() == 0 {
        0
    } else {
        digits_value(s.drop_last()) * 10 + (s.last() as nat - '0' as nat) as nat
    }
}

/// An unsigned integer as `from_str` reads it: an optional `+`, then at
/// least one decimal digit, with a value of at most `max`.
pub open spec fn parse_unsigned(s: Seq<char>, max: nat) -> Option<nat> {
    let d = if s.len() > 0 && s[0] == '+' { s.drop_first() } else { s };
    if d.len() > 0 && all_digits(d) && digits_value(d) <= max {
        Some(digits_value(d))
    } else {
        None
    }
}

/// A boolean as `bool::from_str` reads it: exactly `true` or `false`.
pub open spec fn parse_bool(s: Seq<char>) -> Option<bool> {
    if s == "true"@ {
        Some(true)
    } else if s == "false"@ {
        Some(false)
    } else {
        None
    }
}

/// Decimal notation is made of digits and reads back as the number written.
pub proof fn lemma_decimal_value(n: nat)
    ensures
        all_digits(decimal(n)),
        digits_value(decimal(n)) == n,
        decimal(n).len() > 0,
    decreases n,
{
    let r = n % 10;
    assert(digit_char(r) as nat - '0' as nat == r) by {
        assert(r < 10);
    }
    if n < 10 {
        assert(decimal(n).drop_last() =~= Seq::<char>::empty());
        assert(decimal(n).last() == digit_char(r));
        assert(digits_value(decimal(n)) == digits_value(Seq::<char>::empty()) * 10 + (digit_char(r) as nat - '0' as nat) as nat);
    } else {
        lemma_decimal_value(n / 10);
        let d = decimal(n / 10);
        assert(decimal(n).drop_last() =~= d);
        assert(n == (n / 10) * 10 + r);
        assert(decimal(n).last() == digit_char(r));
        assert(digits_value(decimal(n)) == digits_value(d) * 10 + (digit_char(r) as nat - '0' as nat) as nat);
        assert forall|i: int| 0 <= i < decimal(n).len() implies '0' <= #[trigger] decimal(n)[i] && decimal(n)[i] <= '9' by {
            if i < d.len() {
                assert(decimal(n)[i] == d[i]);
            }
        }
    }
}

/// Zeros in front of a digit string change neither its digits nor its value.
pub proof fn lemma_zero_padded_value(s: Seq<char>, width: nat)
    requires
        all_digits(s),
    ensures
        all_digits(zero_padded(s, width)),
        digits_value(zero_padded(s, width)) == digits_value(s),
        zero_padded(s, width).len() >= s.len(),
{
    if s.len() < width {
        let z = Seq::new((width - s.len()) as nat, |i: int| '0');
        lemma_zeros_then_digits(z, s);
    }
}

/// A run of zeros in front of a digit string leaves its value unchanged.
proof fn lemma_zeros_then_digits(z: Seq<char>, s: Seq<char>)
    requires
        forall|i: int| 0 <= i < z.len() ==> z[i] == '0',
        all_digits(s),
    ensures
        all_digits(z + s),
        digits_value(z + s) == digits_value(s),
    decreases s.len() + z.len(),
{
    assert forall|i: int| 0 <= i < (z + s).len() implies '0' <= #[trigger] (z + s)[i] && (z + s)[i] <= '9' by {
        if i >= z.len() {
            assert((z + s)[i] == s[i - z.len()]);
        }
    }
    if s.len() > 0 {
        let s1 = s.drop_last();
        assert(all_digits(s1)) by {
            assert forall|i: int| 0 <= i < s1.len() implies '0' <= #[trigger] s1[i] && s1[i] <= '9' by {
                assert(s1[i] == s[i]);
            }
        }
        lemma_zeros_then_digits(z, s1);
        assert((z + s).drop_last() =~= z + s1);
        assert((z + s).last() == s.last());
    } else if z.len() > 0 {
        let z1 = z.drop_last();
        assert(z + s =~= z);
        assert(z1 + s =~= z1);
        lemma_zeros_then_digits(z1, s);
        assert(z.drop_last() == z1);
    } else {
        assert(z + s =~= s);
    }
}

/// `a` comes before `b` in the order of texts: at the first position where
/// they differ `a` holds the smaller character, or `a` is a proper prefix of
/// `b` (the order in which a store keeps text keys).
pub open spec fn text_before(a: Seq<char>, b: Seq<char>) -> bool {
    exists|i: int| 0 <= i <= a.len() && i <= b.len() && #[trigger] a.take(i) == b.take(i)
        && ((i == a.len() && i < b.len()) || (i < a.len() && i < b.len() && a[i] < b[i]))
}

/// Ten to the power `k`.
pub open spec fn ten_pow(k: nat) -> nat
    decreases k,
{
    if k == 0 {
        1
    } else {
        10 * ten_pow((k - 1) as nat)
    }
}

/// The characters of a digit string other than its last are digits.
proof fn lemma_all_digits_drop_last(s: Seq<char>)
    requires
        all_digits(s),
        s.len() > 0,
    ensures
        all_digits(s.drop_last()),
{
    assert forall|i: int| 0 <= i < s.drop_last().len() implies '0' <= #[trigger] s.drop_last()[i] && s.drop_last()[i] <= '9' by {
        assert(s.drop_last()[i] == s[i]);
    }
}

/// Two digit strings of one length with one value are the same string.
pub proof fn lemma_digits_same_value(a: Seq<char>, b: Seq<char>)
    requires
        all_digits(a),
        all_digits(b),
        a.len() == b.len(),
        digits_value(a) == digits_value(b),
    ensures
        a == b,
    decreases a.len(),
{
    if a.len() > 0 {
        lemma_all_digits_drop_last(a);
        lemma_all_digits_drop_last(b);
        let da = a.last() as int - '0' as int;
        let db = b.last() as int - '0' as int;
        assert(0 <= da <= 9 && 0 <= db <= 9);
        assert(digits_value(a) == digits_value(a.drop_last()) * 10 + da);
        assert(digits_value(b) == digits_value(b.drop_last()) * 10 + db);
        assert(digits_value(a.drop_last()) == digits_value(b.drop_last()));
        lemma_digits_same_value(a.drop_last(), b.drop_last());
        assert(a.last() == b.last());
        assert(a =~= a.drop_last().push(a.last()));
        assert(b =~= b.drop_last().push(b.last()));
    } else {
        assert(a =~= b);
    }
}

/// Among digit strings of one length, the smaller number comes first as text.
pub proof fn lemma_digits_order(a: Seq<char>, b: Seq<char>)
    requires
        all_digits(a),
        all_digits(b),
        a.len() == b.len(),
        digits_value(a) < digits_value(b),
    ensures
        text_before(a, b),
    decreases a.len(),
{
    lemma_all_digits_drop_last(a);
    lemma_all_digits_drop_last(b);
    let n = a.len() - 1;
    let a1 = a.drop_last();
    let b1 = b.drop_last();
    let da = a.last() as int - '0' as int;
    let db = b.last() as int - '0' as int;
    assert(0 <= da <= 9 && 0 <= db <= 9);
    assert(digits_value(a) == digits_value(a1) * 10 + da);
    assert(digits_value(b) == digits_value(b1) * 10 + db);
    if digits_value(a1) == digits_value(b1) {
        lemma_digits_same_value(a1, b1);
        assert(a.take(n) =~= a1);
        assert(b.take(n) =~= b1);
        assert(a[n] < b[n]);
        assert(a.take(n) == b.take(n));
    } else {
        assert(digits_value(a1) < digits_value(b1));
        lemma_digits_order(a1, b1);
        let i = choose|i: int| 0 <= i <= a1.len() && i <= b1.len() && #[trigger] a1.take(i) == b1.take(i)
            && ((i == a1.len() && i < b1.len()) || (i < a1.len() && i < b1.len() && a1[i] < b1[i]));
        assert(a.take(i) =~= a1.take(i));
        assert(b.take(i) =~= b1.take(i));
        assert(a[i] == a1[i] && b[i] == b1[i]);
    }
}

/// A number below `10^k` (for `k` at least one) takes at most `k` digits.
pub proof fn lemma_decimal_len(n: nat, k: nat)
    requires
        k >= 1,
        n < ten_pow(k),
    ensures
        decimal(n).len() <= k,
    decreases n,
{
    if n >= 10 {
        assert(k >= 2) by {
            if k == 1 {
                assert(ten_pow(1) == 10) by {
                    reveal_with_fuel(ten_pow, 2);
                }
            }
        }
        assert(n / 10 < ten_pow((k - 1) as nat));
        lemma_decimal_len(n / 10, (k - 1) as nat);
    }
}

/// A number below `10^width` written in exactly `width` digits, leading
/// zeros included.
pub proof fn lemma_padded_width(n: nat, width: nat)
    requires
        width >= 1,
        n < ten_pow(width),
    ensures
        zero_padded(decimal(n), width).len() == width,
        all_digits(zero_padded(decimal(n), width)),
        digits_value(zero_padded(decimal(n), width)) == n,
{
    lemma_decimal_len(n, width);
    lemma_decimal_value(n);
    lemma_zero_padded_value(decimal(n), width);
}

/// Zero-padded to a common width that both fit, smaller numbers come first.
pub proof fn lemma_padded_order(m: nat, n: nat, width: nat)
    requires
        width >= 1,
        m < n < ten_pow(width),
    ensures
        text_before(zero_padded(decimal(m), width), zero_padded(decimal(n), width)),
{
    lemma_padded_width(m, width);
    lemma_padded_width(n, width);
    lemma_digits_order(zero_padded(decimal(m), width), zero_padded(decimal(n), width));
}

/// A common beginning keeps the order of two texts.
pub proof fn lemma_text_before_prefix(p: Seq<char>, a: Seq<char>, b: Seq<char>)
    requires
        text_before(a, b),
    ensures
        text_before(p + a, p + b),
{
    let i = choose|i: int| 0 <= i <= a.len() && i <= b.len() && #[trigger] a.take(i) == b.take(i)
        && ((i == a.len() && i < b.len()) || (i < a.len() && i < b.len() && a[i] < b[i]));
    let j = p.len() + i;
    assert((p + a).take(j) =~= p + a.take(i));
    assert((p + b).take(j) =~= p + b.take(i));
    if i < a.len() && i < b.len() {
        assert((p + a)[j] == a[i]);
        assert((p + b)[j] == b[i]);
    }
}

/// A longer digit string is worth at least as much as its prefix.
pub proof fn lemma_digits_monotone(s: Seq<char>, j: int)
    requires
        0 <= j <= s.len(),
    ensures
        digits_value(s.take(j)) <= digits_value(s),
    decreases s.len() - j,
{
    if j < s.len() {
        lemma_digits_monotone(s, j + 1);
        assert(s.take(j + 1).drop_last() =~= s.take(j));
    } else {
        assert(s.take(j) =~= s);
    }
}

/// Reads an unsigned integer of at most `max` (see `parse_unsigned`).
pub fn parse_unsigned_exec(s: &Vec<char>, max: u64) -> (r: Option<u64>)
    ensures
        match r {
            Some(k) => parse_unsigned(s@, max as nat) == Some(k as nat),
            None => parse_unsigned(s@, max as nat) is None,
        },
{
    let n = s.len();
    let start: usize = if n > 0 && s[0] == '+' { 1 } else { 0 };
    let ghost d = if s@.len() > 0 && s@[0] == '+' { s@.drop_first() } else { s@ };
    assert(d =~= s@.skip(start as int));
    if start >= n {
        return None;
    }
    let mut value: u64 = 0;
    let mut i = start;
    assert(d.take(0) =~= Seq::<char>::empty());
    while i < n
        invariant
            n == s@.len(),
            start <= i <= n,
            d == s@.skip(start as int),
            d == (if s@.len() > 0 && s@[0] == '+' { s@.drop_first() } else { s@ }),
            d.len() > 0,
            forall|k: int| 0 <= k < i - start ==> '0' <= #[trigger] d[k] && d[k] <= '9',
            value as nat == digits_value(d.take(i - start)),
            value <= max,
        decreases n - i,
    {
        let c = s[i];
        if !('0' <= c && c <= '9') {
            assert(!all_digits(d)) by {
                assert(d[i - start] == c);
            }
            return None;
        }
        let dv: u64 = (c as u32 - '0' as u32) as u64;
        assert(d.take(i - start + 1).drop_last() =~= d.take(i - start));
        assert(d.take(i - start + 1).last() == c);
        assert(digits_value(d.take(i - start + 1)) == value * 10 + dv);
        if dv > max || value > (max - dv) / 10 {
            proof {
                if dv <= max {
                    assert(value * 10 + dv > max) by (nonlinear_arith)
                        requires value > (max - dv) / 10, dv <= max;
                }
                lemma_digits_monotone(d, i - start + 1);
            }
            return None;
        }
        assert(value * 10 + dv <= max) by (nonlinear_arith)
            requires value <= (max - dv) / 10, dv <= max;
        value = value * 10 + dv;
        i = i + 1;
    }
    assert(d.take(i - start) =~= d);
    Some(value)
}

/// Reads a `usize` (see `parse_unsigned`).
pub fn parse_usize(s: &str) -> (r: Option<usize>)
    ensures
        match r {
            Some(k) => parse_unsigned(s@, usize::MAX as nat) == Some(k as nat),
            None => parse_unsigned(s@, usize::MAX as nat) is None,
        },
{
    match parse_unsigned_exec(&chars_of(s), usize::MAX as u64) {
        Some(v) => Some(v as usize),
        None => None,
    }
}

/// Reads a `u64` (see `parse_unsigned`).
pub fn parse_u64(s: &str) -> (r: Option<u64>)
    ensures
        match r {
            Some(k) => parse_unsigned(s@, u64::MAX as nat) == Some(k as nat),
            None => parse_unsigned(s@, u64::MAX as nat) is None,
        },
{
    parse_unsigned_exec(&chars_of(s), u64::MAX)
}

/// Reads a `u16` (see `parse_unsigned`).
pub fn parse_u16(s: &str) -> (r: Option<u16>)
    ensures
        match r {
            Some(k) => parse_unsigned(s@, u16::MAX as nat) == Some(k as nat),
            None => parse_unsigned(s@, u16::MAX as nat) is None,
        },
{
    match parse_unsigned_exec(&chars_of(s), u16::MAX as u64) {
        Some(v) => Some(v as u16),
        None => None,
    }
}

/// Reads a `bool` (see `parse_bool`).
pub fn parse_bool_exec(s: &str) -> (r: Option<bool>)
    ensures
        r == parse_bool(s@),
{
    if crate::text::str_eq(s, "true") {
        Some(true)
    } else if crate::text::str_eq(s, "false") {
        Some(false)
    } else {
        None
    }
}

} // verus!
