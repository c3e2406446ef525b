//! Decimal numbers in text.

use vstd::prelude::*;

verus! {

pub open spec fn is_digit(c: char) -> bool {
    '0' <= c && c <= '9'
}

pub open spec fn digit_value(c: char) -> nat {
    (c as int - '0' as int) as nat
}

pub open spec fn all_digits(s: Seq<char>) -> bool {
    forall|i: int| 0 <= i < s.len() ==> is_digit(#[trigger] s[i])
}

/// The value of a run of decimal digits.
pub open spec fn digits_value(s: Seq<char>) -> nat
    decreases s.len(),
{
    if s.len() == 0 { 0 } else { digits_value(s.drop_last()) * 10 + digit_value(s.last()) }
}

/// What `str::parse::<u64>` gives: an optional `+`, then at least one digit,
/// with a value that fits.
pub open spec fn parse_u64_spec(s: Seq<char>) -> Option<u64> {
    let d = if s.len() > 0 && s[0] == '+' { s.drop_first() } else { s };
    if d.len() > 0 && all_digits(d) && digits_value(d) <= u64::MAX {
        Some(digits_value(d) as u64)
    } else {
        None
    }
}

/// The value of the digits of `d` when it is a non-empty run of digits
/// whose value fits a `u64`.
pub open spec fn digits_u64_spec(d: Seq<char>) -> Option<u64> {
    if d.len() > 0 && all_digits(d) && digits_value(d) <= u64::MAX {
        Some(digits_value(d) as u64)
    } else {
        None
    }
}

/// Reads the digits of `s` from `start` on.
fn digits_u64(s: &Vec<char>, start: usize) -> (r: Option<u64>)
    requires
        start <= s.len(),
    ensures
        r == digits_u64_spec(s@.subrange(start as int, s.len() as int)),
{
    let ghost d = s@.subrange(start as int, s.len() as int);
    if start >= s.len() {
        return None;
    }
    let mut v: u64 = 0;
    let mut i = start;
    while i < s.len()
        invariant
            start <= i <= s.len(),
            d == s@.subrange(start as int, s.len() as int),
            d.len() > 0,
            all_digits(s@.subrange(start as int, i as int)),
            v as nat == digits_value(s@.subrange(start as int, i as int)),
        decreases s.len() - i,
    {
        let c = s[i];
        let ghost sub_next = s@.subrange(start as int, (i + 1) as int);
        assert(sub_next.drop_last() =~= s@.subrange(start as int, i as int));
        assert(sub_next.last() == c);
        if !('0' <= c && c <= '9') {
            assert(!all_digits(d)) by {
                assert(d[i - start] == c);
            }
            return None;
        }
        let dv = (c as u32 - '0' as u32) as u64;
        assert(dv as nat == digit_value(c));
        if v > (u64::MAX - dv) / 10 {
            // the value of the digits read so far already exceeds the range
            assert(digits_value(sub_next) > u64::MAX) by (nonlinear_arith)
                requires
                    digits_value(sub_next) == v * 10 + dv,
                    v > (u64::MAX - dv) / 10,
                    dv <= 9;
            assert(sub_next == d.subrange(0, (i + 1 - start) as int));
            proof {
                if all_digits(d) {
                    lemma_prefix_value_bound(d, (i + 1 - start) as int);
                    assert(digits_value(d) >= digits_value(sub_next));
                }
            }
            return None;
        }
        assert(v * 10 + dv <= u64::MAX) by (nonlinear_arith)
            requires v <= (u64::MAX - dv) / 10, dv <= 9;
        v = v * 10 + dv;
        assert(all_digits(sub_next)) by {
            assert forall|k: int| 0 <= k < sub_next.len() implies is_digit(#[trigger] sub_next[k]) by {
                if k < sub_next.len() - 1 {
                    assert(sub_next[k] == s@.subrange(start as int, i as int)[k]);
                }
            }
        }
        i = i + 1;
    }
    assert(s@.subrange(start as int, i as int) == d);
    Some(v)
}

/// Parses an unsigned decimal number.
pub fn parse_u64(s: &Vec<char>) -> (r: Option<u64>)
    ensures
        r == parse_u64_spec(s@),
{
    let start: usize = if s.len() > 0 && s[0] == '+' { 1 } else { 0 };
    let ghost d = if s@.len() > 0 && s@[0] == '+' { s@.drop_first() } else { s@ };
    assert(d =~= s@.subrange(start as int, s.len() as int));
    digits_u64(s, start)
}

/// What `str::parse` gives for a signed integer type whose values run
/// from `lo` to `hi`: an optional sign, then at least one digit, with a
/// value in range.
pub open spec fn parse_int_spec(s: Seq<char>, lo: int, hi: int) -> Option<int> {
    let signed = s.len() > 0 && (s[0] == '-' || s[0] == '+');
    let d = if signed { s.drop_first() } else { s };
    if d.len() > 0 && all_digits(d) {
        let v = if s.len() > 0 && s[0] == '-' { -(digits_value(d) as int) } else { digits_value(d) as int };
        if lo <= v <= hi { Some(v) } else { None }
    } else {
        None
    }
}

/// Parses a signed decimal number (`str::parse::<i64>`).
pub fn parse_i64(s: &Vec<char>) -> (r: Option<i64>)
    ensures
        r == match parse_int_spec(s@, i64::MIN as int, i64::MAX as int) { Some(v) => Some(v as i64), None => None },
{
    let signed = s.len() > 0 && (s[0] == '-' || s[0] == '+');
    let neg = s.len() > 0 && s[0] == '-';
    let start: usize = if signed { 1 } else { 0 };
    let ghost d = if signed { s@.drop_first() } else { s@ };
    assert(d =~= s@.subrange(start as int, s.len() as int));
    match digits_u64(s, start) {
        None => {
            proof {
                if d.len() > 0 && all_digits(d) {
                    assert(digits_value(d) > u64::MAX);
                }
            }
            None
        },
        Some(v) => {
            if neg {
                if v <= 9223372036854775808u64 {
                    if v == 9223372036854775808u64 {
                        Some(i64::MIN)
                    } else {
                        Some(-(v as i64))
                    }
                } else {
                    None
                }
            } else {
                if v <= 9223372036854775807u64 {
                    Some(v as i64)
                } else {
                    None
                }
            }
        },
    }
}

/// Parses a signed decimal number (`str::parse::<i32>`).
pub fn parse_i32(s: &Vec<char>) -> (r: Option<i32>)
    ensures
        r == match parse_int_spec(s@, i32::MIN as int, i32::MAX as int) { Some(v) => Some(v as i32), None => None },
{
    match parse_i64(s) {
        Some(v) => {
            if -2147483648i64 <= v && v <= 2147483647i64 {
                Some(v as i32)
            } else {
                None
            }
        },
        None => None,
    }
}

/// The decimal text of an integer, with `-` before a negative one
/// (`i64::to_string`).
pub open spec fn int_text(n: int) -> Seq<char> {
    if n < 0 { seq!['-'] + decimal((-n) as nat) } else { decimal(n as nat) }
}

/// Writes an integer in decimal.
pub fn i64_to_decimal(n: i64) -> (r: Vec<char>)
    ensures
        r@ == int_text(n as int),
{
    if n < 0 {
        let m: u64 = if n == i64::MIN { 9223372036854775808u64 } else { (-n) as u64 };
        let minus = vec!['-'];
        let digits = u64_to_decimal(m);
        let mut r = minus;
        let mut i: usize = 0;
        while i < digits.len()
            invariant
                i <= digits.len(),
                r@ == seq!['-'] + digits@.take(i as int),
            decreases digits.len() - i,
        {
            r.push(digits[i]);
            assert(seq!['-'] + digits@.take(i + 1) =~= (seq!['-'] + digits@.take(i as int)).push(digits@[i as int]));
            i = i + 1;
        }
        assert(digits@.take(digits.len() as int) =~= digits@);
        r
    } else {
        u64_to_decimal(n as u64)
    }
}

proof fn lemma_digit_char(d: nat)
    requires
        d < 10,
    ensures
        is_digit((d + '0' as nat) as char),
        digit_value((d + '0' as nat) as char) == d,
{
    if d == 0 {
        assert((d + '0' as nat) as char == '0');
    } else if d == 1 {
        assert((d + '0' as nat) as char == '1');
    } else if d == 2 {
        assert((d + '0' as nat) as char == '2');
    } else if d == 3 {
        assert((d + '0' as nat) as char == '3');
    } else if d == 4 {
        assert((d + '0' as nat) as char == '4');
    } else if d == 5 {
        assert((d + '0' as nat) as char == '5');
    } else if d == 6 {
        assert((d + '0' as nat) as char == '6');
    } else if d == 7 {
        assert((d + '0' as nat) as char == '7');
    } else if d == 8 {
        assert((d + '0' as nat) as char == '8');
    } else {
        assert((d + '0' as nat) as char == '9');
    }
}

/// The digits of a number read back give the number.
pub proof fn lemma_decimal_reads_back(n: nat)
    ensures
        decimal(n).len() > 0,
        all_digits(decimal(n)),
        digits_value(decimal(n)) == n,
    decreases n,
{
    if n < 10 {
        lemma_digit_char(n);
        let e = decimal(n);
        assert(e.drop_last() =~= Seq::<char>::empty());
        assert(digits_value(e) == digits_value(e.drop_last()) * 10 + digit_value(e.last()));
    } else {
        lemma_digit_char(n % 10);
        lemma_decimal_reads_back(n / 10);
        let d = decimal(n / 10);
        let e = d.push(((n % 10) + '0' as nat) as char);
        assert(e.drop_last() =~= d);
        assert forall|k: int| 0 <= k < e.len() implies is_digit(#[trigger] e[k]) by {
            if k < d.len() {
                assert(e[k] == d[k]);
            }
        }
        assert(digits_value(e) == digits_value(d) * 10 + (n % 10));
        assert((n / 10) * 10 + n % 10 == n);
    }
}

/// Law: an integer written in decimal reads back as itself.
pub proof fn lemma_int_text_round_trip(n: int, lo: int, hi: int)
    requires
        lo <= n <= hi,
    ensures
        parse_int_spec(int_text(n), lo, hi) == Some(n),
{
    if n < 0 {
        let m = (-n) as nat;
        lemma_decimal_reads_back(m);
        let t = seq!['-'] + decimal(m);
        assert(t.drop_first() =~= decimal(m));
    } else {
        lemma_decimal_reads_back(n as nat);
        let t = decimal(n as nat);
        assert(is_digit(t[0]));
    }
}

/// A longer run of digits is worth at least as much as its prefix.
pub proof fn lemma_prefix_value_bound(d: Seq<char>, n: int)
    requires
        0 <= n <= d.len(),
        all_digits(d),
    ensures
        digits_value(d) >= digits_value(d.subrange(0, n)),
    decreases d.len(),
{
    if n < d.len() {
        let e = d.drop_last();
        assert(all_digits(e)) by {
            assert forall|k: int| 0 <= k < e.len() implies is_digit(#[trigger] e[k]) by { assert(e[k] == d[k]); }
        }
        lemma_prefix_value_bound(e, n);
        assert(e.subrange(0, n) =~= d.subrange(0, n));
    } else {
        assert(d.subrange(0, n) =~= d);
    }
}


/// The decimal digits of `n`, most significant first (`"0"` for zero).
pub open spec fn decimal(n: nat) -> Seq<char>
    decreases n,
{
    if n < 10 {
        seq![(n + '0' as nat) as char]
    } else {
        decimal(n / 10).push(((n % 10) + '0' as nat) as char)
    }
}

/// The decimal text of a number (`u64::to_string`).
pub fn u64_to_decimal(n: u64) -> (r: Vec<char>)
    ensures
        r@ == decimal(n as nat),
    decreases n,
{
    if n < 10 {
        let c = char_of_digit(n as u8);
        let v = vec![c];
        assert(v@ =~= seq![c]);
        v
    } else {
        let mut v = u64_to_decimal(n / 10);
        let c = char_of_digit((n % 10) as u8);
        v.push(c);
        v
    }
}

fn char_of_digit(d: u8) -> (c: char)
    requires
        d < 10,
    ensures
        c == ((d as nat) + '0' as nat) as char,
{
    match d {
        0 => '0',
        1 => '1',
        2 => '2',
        3 => '3',
        4 => '4',
        5 => '5',
        6 => '6',
        7 => '7',
        8 => '8',
        _ => '9',
    }
}

} // verus!
