//! Decimal and binary integer text: parsing with the rules of Rust's
//! `FromStr` / `from_str_radix` for integer types, and decimal rendering.

use vstd::prelude::*;

verus! {

pub open spec fn is_digit_in(c: char, radix: int) -> bool {
    48 <= (c as int) && (c as int) < 48 + radix
}

pub open spec fn digit_value(c: char) -> int {
    c as int - 48
}

pub open spec fn all_digits(s: Seq<char>, radix: int) -> bool {
    forall|i: int| 0 <= i < s.len() ==> is_digit_in(#[trigger] s[i], radix)
}

/// The number written by the digits of `s` in the given radix, most
/// significant first (0 for no digits).
pub open spec fn digits_num(s: Seq<char>, radix: int) -> int
    decreases s.len(),
{
    if s.len() == 0 {
        0
    } else {
        radix * digits_num(s.drop_last(), radix) + digit_value(s.last())
    }
}

/// What Rust's integer parsing (`str::parse` / `from_str_radix` with radix 2 or
/// 10) gives for an integer type whose values are `min..=max`: an optional `+`
/// (or `-` when `signed`), then at least one digit, and a value in range.
pub open spec fn parse_int(s: Seq<char>, radix: int, signed: bool, min: int, max: int) -> Option<int> {
    if s.len() == 0 {
        None
    } else if s.len() == 1 && (s[0] == '+' || s[0] == '-') {
        None
    } else {
        let neg = signed && s[0] == '-';
        let body = if s[0] == '+' || neg { s.drop_first() } else { s };
        let v = if neg { -digits_num(body, radix) } else { digits_num(body, radix) };
        if all_digits(body, radix) && min <= v && v <= max {
            Some(v)
        } else {
            None
        }
    }
}

pub proof fn lemma_digits_num_nonneg(s: Seq<char>, radix: int)
    requires
        all_digits(s, radix),
        radix >= 1,
    ensures
        digits_num(s, radix) >= 0,
    decreases s.len(),
{
    if s.len() > 0 {
        lemma_digits_num_nonneg(s.drop_last(), radix);
        assert(is_digit_in(s[s.len() - 1], radix));
        assert(digits_num(s.drop_last(), radix) * radix >= 0) by (nonlinear_arith)
            requires digits_num(s.drop_last(), radix) >= 0, radix >= 1;
    }
}

/// More digits never make a smaller number.
pub proof fn lemma_digits_num_prefix(s: Seq<char>, k: int, radix: int)
    requires
        0 <= k <= s.len(),
        all_digits(s, radix),
        radix >= 1,
    ensures
        digits_num(s.take(k), radix) <= digits_num(s, radix),
    decreases s.len(),
{
    if k < s.len() {
        assert(all_digits(s.drop_last(), radix));
        lemma_digits_num_prefix(s.drop_last(), k, radix);
        assert(s.drop_last().take(k) == s.take(k));
        lemma_digits_num_nonneg(s.drop_last(), radix);
        assert(is_digit_in(s[s.len() - 1], radix));
        let p = digits_num(s.drop_last(), radix);
        assert(p <= radix * p) by (nonlinear_arith)
            requires p >= 0, radix >= 1;
    } else {
        assert(s.take(k) == s);
    }
}

/// The value of a decimal digit character.
pub fn digit_of(c: char) -> (r: Option<u64>)
    ensures
        r matches Some(d) ==> d < 10 && d == digit_value(c) && is_digit_in(c, 10),
        r is None ==> !is_digit_in(c, 10),
{
    if c == '0' { Some(0) } else if c == '1' { Some(1) } else if c == '2' { Some(2) }
    else if c == '3' { Some(3) } else if c == '4' { Some(4) } else if c == '5' { Some(5) }
    else if c == '6' { Some(6) } else if c == '7' { Some(7) } else if c == '8' { Some(8) }
    else if c == '9' { Some(9) } else { None }
}

/// The magnitude written by `s[start..]`, when it is all digits and at most `limit`.
fn magnitude(s: &Vec<char>, start: usize, radix: u64, limit: u64) -> (r: Option<u64>)
    requires
        start <= s.len(),
        radix == 2 || radix == 10,
    ensures
        ({
            let body = s@.skip(start as int);
            match r {
                Some(v) => all_digits(body, radix as int) && v == digits_num(body, radix as int)
                    && v <= limit,
                None => !(all_digits(body, radix as int) && digits_num(body, radix as int)
                    <= limit),
            }
        }),
{
    let ghost body = s@.skip(start as int);
    let mut acc: u64 = 0;
    let mut k: usize = start;
    while k < s.len()
        invariant
            start <= k <= s.len(),
            radix == 2 || radix == 10,
            body == s@.skip(start as int),
            all_digits(body.take(k - start), radix as int),
            acc == digits_num(body.take(k - start), radix as int),
            acc <= limit,
        decreases s.len() - k,
    {
        let c = s[k];
        let ghost pre = body.take(k - start);
        let ghost nxt = body.take(k - start + 1);
        assert(nxt.drop_last() == pre);
        assert(nxt.last() == c);
        let dig = digit_of(c);
        if dig.is_none() || dig.unwrap() >= radix {
            proof {
                assert(body[k - start] == c);
            }
            return None;
        }
        let d: u64 = dig.unwrap();
        assert(is_digit_in(c, radix as int));
        assert(all_digits(nxt, radix as int)) by {
            assert forall|i: int| 0 <= i < nxt.len() implies is_digit_in(#[trigger] nxt[i], radix as int) by {
                if i < nxt.len() - 1 {
                    assert(nxt[i] == pre[i]);
                } else {
                    assert(nxt[i] == c);
                }
            }
        }
        if d > limit || acc > (limit - d) / radix {
            proof {
                let nv = digits_num(nxt, radix as int);
                assert(nv == radix * acc + d);
                if d <= limit {
                    assert(acc * radix > limit - d) by (nonlinear_arith)
                        requires acc > (limit - d) / (radix as int), radix >= 2, d <= limit;
                }
                if all_digits(body, radix as int) {
                    lemma_digits_num_prefix(body, k - start + 1, radix as int);
                }
            }
            return None;
        }
        assert(acc * radix + d <= limit) by (nonlinear_arith)
            requires acc <= (limit - d) / (radix as int), radix >= 2, d <= limit;
        assert(digits_num(nxt, radix as int) == radix * acc + d);
        assert(acc * radix == radix * acc) by (nonlinear_arith);
        acc = acc * radix + d;
        k = k + 1;
    }
    assert(body.take(k - start) == body);
    Some(acc)
}

/// Parses an unsigned integer of at most `max` (`u64`/`u16` `FromStr`, radix 10;
/// `from_str_radix(_, 2)` for radix 2).
pub fn parse_unsigned(s: &Vec<char>, radix: u64, max: u64) -> (r: Option<u64>)
    requires
        radix == 2 || radix == 10,
    ensures
        r matches Some(v) ==> parse_int(s@, radix as int, false, 0, max as int) == Some(v as int),
        r is None ==> parse_int(s@, radix as int, false, 0, max as int) is None,
{
    if s.len() == 0 {
        return None;
    }
    if s.len() == 1 && (s[0] == '+' || s[0] == '-') {
        return None;
    }
    let start: usize = if s[0] == '+' { 1 } else { 0 };
    assert(s@.skip(0) == s@);
    let r = magnitude(s, start, radix, max);
    proof {
        let body = s@.skip(start as int);
        if s@[0] == '+' {
            assert(body == s@.drop_first());
        }
        if all_digits(body, radix as int) {
            lemma_digits_num_nonneg(body, radix as int);
        }
    }
    r
}

/// Parses a signed integer in `-(neg_max)..=pos_max` (`i64`/`i16` `FromStr`).
pub fn parse_signed(s: &Vec<char>, neg_max: u64, pos_max: u64) -> (r: Option<(bool, u64)>)
    ensures
        r matches Some((neg, m)) ==> parse_int(s@, 10, true, -(neg_max as int), pos_max as int)
            == Some(if neg { -(m as int) } else { m as int }) && (neg ==> m > 0),
        r is None ==> parse_int(s@, 10, true, -(neg_max as int), pos_max as int) is None,
{
    if s.len() == 0 {
        return None;
    }
    if s.len() == 1 && (s[0] == '+' || s[0] == '-') {
        return None;
    }
    let neg = s[0] == '-';
    let start: usize = if s[0] == '+' || neg { 1 } else { 0 };
    let limit = if neg { neg_max } else { pos_max };
    assert(s@.skip(0) == s@);
    let r = magnitude(s, start, 10, limit);
    proof {
        let body = s@.skip(start as int);
        if start == 1 {
            assert(body == s@.drop_first());
        }
        if all_digits(body, 10) {
            lemma_digits_num_nonneg(body, 10);
        }
    }
    match r {
        Some(m) => {
            if neg && m == 0 {
                Some((false, 0))
            } else {
                Some((neg, m))
            }
        },
        None => None,
    }
}

pub fn parse_i64(s: &Vec<char>) -> (r: Option<i64>)
    ensures
        r matches Some(v) ==> parse_int(s@, 10, true, i64::MIN as int, i64::MAX as int) == Some(v as int),
        r is None ==> parse_int(s@, 10, true, i64::MIN as int, i64::MAX as int) is None,
{
    match parse_signed(s, 0x8000_0000_0000_0000u64, 0x7fff_ffff_ffff_ffffu64) {
        Some((neg, m)) => {
            if neg {
                if m == 0x8000_0000_0000_0000u64 {
                    Some(i64::MIN)
                } else {
                    Some(-(m as i64))
                }
            } else {
                Some(m as i64)
            }
        },
        None => None,
    }
}

pub fn parse_i16(s: &Vec<char>) -> (r: Option<i16>)
    ensures
        r matches Some(v) ==> parse_int(s@, 10, true, i16::MIN as int, i16::MAX as int) == Some(v as int),
        r is None ==> parse_int(s@, 10, true, i16::MIN as int, i16::MAX as int) is None,
{
    match parse_signed(s, 0x8000u64, 0x7fffu64) {
        Some((neg, m)) => {
            if neg {
                Some(-(m as i32) as i16)
            } else {
                Some(m as i16)
            }
        },
        None => None,
    }
}

pub fn parse_u64(s: &Vec<char>) -> (r: Option<u64>)
    ensures
        r matches Some(v) ==> parse_int(s@, 10, false, 0, u64::MAX as int) == Some(v as int),
        r is None ==> parse_int(s@, 10, false, 0, u64::MAX as int) is None,
{
    parse_unsigned(s, 10, u64::MAX)
}

pub fn parse_u16(s: &Vec<char>) -> (r: Option<u16>)
    ensures
        r matches Some(v) ==> parse_int(s@, 10, false, 0, u16::MAX as int) == Some(v as int),
        r is None ==> parse_int(s@, 10, false, 0, u16::MAX as int) is None,
{
    match parse_unsigned(s, 10, 0xffff) {
        Some(v) => Some(v as u16),
        None => None,
    }
}

/// `u8::from_str_radix(s, 2)`.
pub fn parse_u8_binary(s: &Vec<char>) -> (r: Option<u8>)
    ensures
        r matches Some(v) ==> parse_int(s@, 2, false, 0, u8::MAX as int) == Some(v as int),
        r is None ==> parse_int(s@, 2, false, 0, u8::MAX as int) is None,
{
    match parse_unsigned(s, 2, 0xff) {
        Some(v) => Some(v as u8),
        None => None,
    }
}

// ── Decimal rendering ───────────────────────────────────────────────────────

pub open spec fn digit_char(d: int) -> char {
    if d == 0 { '0' } else if d == 1 { '1' } else if d == 2 { '2' } else if d == 3 { '3' }
    else if d == 4 { '4' } else if d == 5 { '5' } else if d == 6 { '6' } else if d == 7 { '7' }
    else if d == 8 { '8' } else { '9' }
}

pub fn digit_char_of(d: u64) -> (c: char)
    requires
        d < 10,
    ensures
        c == digit_char(d as int),
{
    if d == 0 { '0' } else if d == 1 { '1' } else if d == 2 { '2' } else if d == 3 { '3' }
    else if d == 4 { '4' } else if d == 5 { '5' } else if d == 6 { '6' } else if d == 7 { '7' }
    else if d == 8 { '8' } else { '9' }
}

/// Decimal digits of a natural number, no leading zeros (`"0"` for zero).
pub open spec fn dec(n: nat) -> Seq<char>
    decreases n,
{
    if n < 10 {
        seq![digit_char(n as int)]
    } else {
        dec(n / 10).push(digit_char((n % 10) as int))
    }
}

/// Decimal text of an integer, with `-` before negative ones (`Display` for
/// integers).
pub open spec fn int_text(n: int) -> Seq<char> {
    if n < 0 {
        seq!['-'] + dec((-n) as nat)
    } else {
        dec(n as nat)
    }
}

pub fn dec_u64(n: u64) -> (out: Vec<char>)
    ensures
        out@ == dec(n as nat),
    decreases n,
{
    let c = digit_char_of(n % 10);
    if n < 10 {
        vec![c]
    } else {
        let mut v = dec_u64(n / 10);
        v.push(c);
        v
    }
}

pub fn text_i64(n: i64) -> (out: Vec<char>)
    ensures
        out@ == int_text(n as int),
{
    if n < 0 {
        let m: u64 = if n == i64::MIN { 0x8000_0000_0000_0000u64 } else { (-n) as u64 };
        let mut out = vec!['-'];
        let digits = dec_u64(m);
        crate::text::extend_chars(&mut out, &digits);
        out
    } else {
        dec_u64(n as u64)
    }
}

pub proof fn lemma_dec_digits(n: nat)
    ensures
        all_digits(dec(n), 10),
        digits_num(dec(n), 10) == n,
        dec(n).len() >= 1,
        is_digit_in(dec(n)[0], 10),
    decreases n,
{
    assert(digit_value(digit_char((n % 10) as int)) == n % 10);
    if n < 10 {
        assert(dec(n).drop_last() =~= Seq::<char>::empty());
        assert(digits_num(Seq::<char>::empty(), 10) == 0);
        assert(dec(n).last() == digit_char(n as int));
        assert(digits_num(dec(n), 10) == 10 * digits_num(dec(n).drop_last(), 10) + digit_value(dec(n).last()));
    } else {
        lemma_dec_digits(n / 10);
        let s = dec(n);
        assert(s.drop_last() == dec(n / 10));
        assert(s.last() == digit_char((n % 10) as int));
        assert(n == 10 * (n / 10) + n % 10) by (nonlinear_arith);
        assert(digits_num(s, 10) == 10 * digits_num(s.drop_last(), 10) + digit_value(s.last()));
        assert forall|i: int| 0 <= i < s.len() implies is_digit_in(#[trigger] s[i], 10) by {
            if i < s.len() - 1 {
                assert(s[i] == dec(n / 10)[i]);
            }
        }
    }
}

/// Reading back the decimal text of a value in range gives the value.
pub proof fn lemma_parse_int_text(n: int, signed: bool, min: int, max: int)
    requires
        min <= n <= max,
        signed || n >= 0,
    ensures
        parse_int(int_text(n), 10, signed, min, max) == Some(n),
{
    if n < 0 {
        let m = (-n) as nat;
        lemma_dec_digits(m);
        let s = int_text(n);
        assert(s.drop_first() == dec(m));
        assert(s.len() >= 2);
    } else {
        lemma_dec_digits(n as nat);
    }
}

} // verus!
