//! Decimal text of integers: formatting as `Display` writes it and parsing as
//! `str::parse` reads it.
use vstd::prelude::*;
use crate::text::chars_of;

verus! {

/// The digit characters, by value.
pub open spec fn digit_chars() -> Seq<char> {
    seq!['0', '1', '2', '3', '4', '5', '6', '7', '8', '9']
}

/// The character of a decimal digit `d` (`d < 10`).
pub open spec fn digit_char(d: nat) -> char
    recommends
        d < 10,
{
    digit_chars()[d as int]
}

/// True when `c` is an ASCII decimal digit.
pub open spec fn is_digit(c: char) -> bool {
    '0' <= c && c <= '9'
}

/// The value of a digit character.
pub open spec fn digit_value(c: char) -> nat
    recommends
        is_digit(c),
{
    ((c as int) - ('0' as int)) as nat
}

/// Every character of `s` is a digit.
pub open spec fn all_digits(s: Seq<char>) -> bool {
    forall|i: int| 0 <= i < s.len() ==> is_digit(#[trigger] s[i])
}

/// The number that the digit string `s` denotes (most significant first).
pub open spec fn digits_value(s: Seq<char>) -> nat
    decreases s.len(),
{
    if s.len() == 0 {
        0
    } else {
        digits_value(s.drop_last()) * 10 + digit_value(s.last())
    }
}

/// The decimal digits of `n`, without leading zeros.
pub open spec fn decimal_nat(n: nat) -> Seq<char>
    decreases n,
{
    if n < 10 {
        seq![digit_char(n)]
    } else {
        decimal_nat(n / 10).push(digit_char(n % 10))
    }
}

/// The decimal text of `n`, with a leading `-` when negative.
pub open spec fn decimal(n: int) -> Seq<char> {
    if n < 0 {
        seq!['-'] + decimal_nat((-n) as nat)
    } else {
        decimal_nat(n as nat)
    }
}

/// An optional `+` followed by one or more digits: the number they denote.
pub open spec fn parse_unsigned(s: Seq<char>) -> Option<nat> {
    let body = if s.len() > 0 && s[0] == '+' { s.drop_first() } else { s };
    if body.len() > 0 && all_digits(body) {
        Some(digits_value(body))
    } else {
        None
    }
}

/// An optional `+` or `-` followed by one or more digits: the number they denote.
pub open spec fn parse_signed(s: Seq<char>) -> Option<int> {
    if s.len() > 0 && s[0] == '-' {
        let body = s.drop_first();
        if body.len() > 0 && all_digits(body) {
            Some(-(digits_value(body) as int))
        } else {
            None
        }
    } else {
        match parse_unsigned(s) {
            Some(v) => Some(v as int),
            None => None,
        }
    }
}

/// What `str::parse::<u64>` gives for `s`.
pub open spec fn parse_u64_spec(s: Seq<char>) -> Option<u64> {
    match parse_unsigned(s) {
        Some(v) => if v <= u64::MAX { Some(v as u64) } else { None },
        None => None,
    }
}

/// What `str::parse::<u32>` gives for `s`.
pub open spec fn parse_u32_spec(s: Seq<char>) -> Option<u32> {
    match parse_unsigned(s) {
        Some(v) => if v <= u32::MAX { Some(v as u32) } else { None },
        None => None,
    }
}

/// What `str::parse::<i32>` gives for `s`.
pub open spec fn parse_i32_spec(s: Seq<char>) -> Option<i32> {
    match parse_signed(s) {
        Some(v) => if i32::MIN <= v <= i32::MAX { Some(v as i32) } else { None },
        None => None,
    }
}

// ---------------------------------------------------------------------------
// Lemmas
// ---------------------------------------------------------------------------

proof fn lemma_digit_char(d: nat)
    requires
        d < 10,
    ensures
        is_digit(digit_char(d)),
        digit_value(digit_char(d)) == d,
{
    assert(digit_chars()[0] == '0');
    assert(digit_chars()[9] == '9');
}

/// The decimal digits of `n` are digits, start with a digit, and denote `n`.
pub proof fn lemma_decimal_nat(n: nat)
    ensures
        decimal_nat(n).len() > 0,
        all_digits(decimal_nat(n)),
        digits_value(decimal_nat(n)) == n,
    decreases n,
{
    if n < 10 {
        lemma_digit_char(n);
        assert(seq![digit_char(n)].drop_last() == Seq::<char>::empty());
        assert(digits_value(Seq::<char>::empty()) == 0);
    } else {
        lemma_decimal_nat(n / 10);
        lemma_digit_char(n % 10);
        let s = decimal_nat(n);
        assert(s.drop_last() == decimal_nat(n / 10));
        assert(s.last() == digit_char(n % 10));
        assert(n == (n / 10) * 10 + n % 10) by (nonlinear_arith);
        assert forall|i: int| 0 <= i < s.len() implies is_digit(#[trigger] s[i]) by {
            if i < s.len() - 1 {
                assert(s[i] == decimal_nat(n / 10)[i]);
            }
        }
    }
}

/// A digit string denotes at least what any of its prefixes denotes.
pub proof fn lemma_prefix_value(s: Seq<char>, k: int)
    requires
        0 <= k <= s.len(),
    ensures
        digits_value(s.take(k)) <= digits_value(s),
    decreases s.len(),
{
    if k < s.len() {
        lemma_prefix_value(s.drop_last(), k);
        assert(s.drop_last().take(k) == s.take(k));
    } else {
        assert(s.take(k) == s);
    }
}

/// `str::parse::<u64>` reads back the decimal text of any `u64`.
pub proof fn lemma_parse_u64_decimal(n: u64)
    ensures
        parse_u64_spec(decimal(n as int)) == Some(n),
{
    lemma_decimal_nat(n as nat);
    let s = decimal_nat(n as nat);
    assert(is_digit(s[0]));
}

/// `str::parse::<u32>` reads back the decimal text of any `u32`.
pub proof fn lemma_parse_u32_decimal(n: u32)
    ensures
        parse_u32_spec(decimal(n as int)) == Some(n),
{
    lemma_decimal_nat(n as nat);
    let s = decimal_nat(n as nat);
    assert(is_digit(s[0]));
}

/// `str::parse::<i32>` reads back the decimal text of any `i32`.
pub proof fn lemma_parse_i32_decimal(n: i32)
    ensures
        parse_i32_spec(decimal(n as int)) == Some(n),
{
    if n < 0 {
        let m = (-n) as nat;
        lemma_decimal_nat(m);
        let s = decimal(n as int);
        assert(s.drop_first() == decimal_nat(m));
    } else {
        lemma_decimal_nat(n as nat);
        let s = decimal_nat(n as nat);
        assert(is_digit(s[0]));
    }
}

// ---------------------------------------------------------------------------
// Formatting
// ---------------------------------------------------------------------------

fn digit_to_char(d: u64) -> (c: char)
    requires
        d < 10,
    ensures
        c == digit_char(d as nat),
{
    match d {
        0 => '0',
        1 => '1',
        2 => '2',
        3 => '3',
        4 => '4',
        5 => '5',
        6 => '6',
        7 => '7',
        8 => '8',
        _ => '9',
    }
}

/// Appends the decimal digits of `n` to `out`.
pub fn push_decimal_u64(out: &mut Vec<char>, n: u64)
    ensures
        final(out)@ == old(out)@ + decimal_nat(n as nat),
    decreases n,
{
    if n >= 10 {
        push_decimal_u64(out, n / 10);
    }
    let c = digit_to_char(n % 10);
    out.push(c);
}

/// Appends the decimal text of `n` to `out`.
pub fn push_decimal_i64(out: &mut Vec<char>, n: i64)
    ensures
        final(out)@ == old(out)@ + decimal(n as int),
{
    if n < 0 {
        out.push('-');
        let m: u64 = if n == i64::MIN { 9223372036854775808u64 } else { (-n) as u64 };
        push_decimal_u64(out, m);
    } else {
        push_decimal_u64(out, n as u64);
    }
}

/// The decimal text of `n` (what `n.to_string()` gives).
pub fn decimal_text_u64(n: u64) -> (r: Vec<char>)
    ensures
        r@ == decimal(n as int),
{
    let mut out: Vec<char> = Vec::new();
    push_decimal_u64(&mut out, n);
    out
}

/// The decimal text of `n` (what `n.to_string()` gives).
pub fn decimal_text_i64(n: i64) -> (r: Vec<char>)
    ensures
        r@ == decimal(n as int),
{
    let mut out: Vec<char> = Vec::new();
    push_decimal_i64(&mut out, n);
    out
}

// ---------------------------------------------------------------------------
// Parsing
// ---------------------------------------------------------------------------

fn char_to_digit(c: char) -> (r: Option<u64>)
    ensures
        r == (if is_digit(c) { Some(digit_value(c) as u64) } else { None::<u64> }),
{
    if '0' <= c && c <= '9' {
        Some((c as u32 - '0' as u32) as u64)
    } else {
        None
    }
}

/// The value of the digits `s[from..]`, when they are one or more digits
/// denoting a number that fits in a `u64`.
fn parse_digits(s: &Vec<char>, from: usize) -> (r: Option<u64>)
    requires
        from <= s.len(),
    ensures
        ({
            let body = s@.skip(from as int);
            r == (if body.len() > 0 && all_digits(body) && digits_value(body) <= u64::MAX {
                Some(digits_value(body) as u64)
            } else {
                None::<u64>
            })
        }),
{
    let ghost body = s@.skip(from as int);
    if from == s.len() {
        return None;
    }
    for i in from..s.len()
        invariant
            from <= s.len(),
            body == s@.skip(from as int),
            forall|k: int| 0 <= k < i - from ==> is_digit(#[trigger] body[k]),
    {
        if char_to_digit(s[i]).is_none() {
            assert(!is_digit(body[i - from]));
            return None;
        }
    }
    assert(all_digits(body));
    let mut acc: u64 = 0;
    for i in from..s.len()
        invariant
            from < s.len(),
            body == s@.skip(from as int),
            all_digits(body),
            acc as nat == digits_value(body.take(i - from)),
    {
        assert(s@[i as int] == body[i - from]);
        assert(is_digit(body[i - from]));
        let d = char_to_digit(s[i]).unwrap();
        proof {
            assert(body.take(i + 1 - from).drop_last() == body.take(i - from));
            assert(body.take(i + 1 - from).last() == body[i - from]);
        }
        match acc.checked_mul(10) {
            Some(a) => match a.checked_add(d) {
                Some(b) => {
                    acc = b;
                },
                None => {
                    proof { lemma_prefix_value(body, i + 1 - from); }
                    return None;
                },
            },
            None => {
                proof { lemma_prefix_value(body, i + 1 - from); }
                return None;
            },
        }
    }
    assert(body.take(s.len() - from) == body);
    Some(acc)
}

/// Where the digits start after an optional leading `+`.
fn unsigned_body_start(s: &Vec<char>) -> (r: usize)
    ensures
        r <= s.len(),
        s@.skip(r as int) == (if s@.len() > 0 && s@[0] == '+' { s@.drop_first() } else { s@ }),
{
    if s.len() > 0 && s[0] == '+' {
        1
    } else {
        assert(s@.skip(0) == s@);
        0
    }
}

/// `s` read as a `u64`, as `str::parse::<u64>` reads it.
pub fn parse_u64_text(s: &str) -> (r: Option<u64>)
    ensures
        r == parse_u64_spec(s@),
{
    let v = chars_of(s);
    let start = unsigned_body_start(&v);
    parse_digits(&v, start)
}

/// `s` read as a `u32`, as `str::parse::<u32>` reads it.
pub fn parse_u32_text(s: &str) -> (r: Option<u32>)
    ensures
        r == parse_u32_spec(s@),
{
    match parse_u64_text(s) {
        Some(v) => if v <= 4294967295u64 { Some(v as u32) } else { None },
        None => {
            None
        },
    }
}

/// `s` read as an `i32`, as `str::parse::<i32>` reads it.
pub fn parse_i32_text(s: &str) -> (r: Option<i32>)
    ensures
        r == parse_i32_spec(s@),
{
    let v = chars_of(s);
    if v.len() > 0 && v[0] == '-' {
        match parse_digits(&v, 1) {
            Some(m) => if m <= 2147483648u64 { Some((-(m as i64)) as i32) } else { None },
            None => None,
        }
    } else {
        let start = unsigned_body_start(&v);
        match parse_digits(&v, start) {
            Some(m) => if m <= 2147483647u64 { Some(m as i32) } else { None },
            None => None,
        }
    }
}

} // verus!
