//! Size-string parsing and human-readable size formatting.
//!
//! A size string is an optional sign, a run of decimal digits, and an
//! optional unit suffix. The `k`/`K` and `m`/`M` prefixes are accepted in
//! either case; `G`, `T`, `P`, `E`, `Z`, `Y` only in upper case. A prefix
//! may be followed by `B` (decimal, base 1000) or `iB` (binary, base 1024);
//! a bare prefix means base 1024. A value that does not fit a signed
//! 64-bit integer is rejected.
//!
//! Formatting prints values below 1024 as a bare integer; larger values
//! are scaled to the largest unit that keeps them below 1024, with one
//! decimal digit (rounded up) while the scaled value is below ten.

use vstd::prelude::*;

verus! {

pub open spec fn is_dec_digit(c: char) -> bool {
    '0' <= c && c <= '9'
}

pub open spec fn dec_digit_val(c: char) -> int {
    c as int - '0' as int
}

/// Index of the first non-digit character at or after `from`.
pub open spec fn digits_end(s: Seq<char>, from: int) -> int
    decreases s.len() - from,
{
    if from < 0 || from >= s.len() {
        s.len() as int
    } else if is_dec_digit(s[from]) {
        digits_end(s, from + 1)
    } else {
        from
    }
}

/// Numeric value of the digit run `s[from..to)`.
pub open spec fn digits_val(s: Seq<char>, from: int, to: int) -> int
    decreases to - from,
{
    if from >= to {
        0
    } else {
        digits_val(s, from, to - 1) * 10 + dec_digit_val(s[to - 1])
    }
}

pub open spec fn sign_len(s: Seq<char>) -> int {
    if s.len() > 0 && (s[0] == '+' || s[0] == '-') {
        1
    } else {
        0
    }
}

/// Index just after the optional sign and the digit run.
pub open spec fn num_end(s: Seq<char>) -> int {
    digits_end(s, sign_len(s))
}

/// The signed value of the numeric prefix, as a mathematical integer.
pub open spec fn prefix_val(s: Seq<char>) -> int {
    if s.len() > 0 && s[0] == '-' {
        -digits_val(s, 1, num_end(s))
    } else {
        digits_val(s, sign_len(s), num_end(s))
    }
}

/// The numeric prefix is present and fits a signed 64-bit integer.
pub open spec fn prefix_ok(s: Seq<char>) -> bool {
    num_end(s) > sign_len(s) && i64::MIN <= prefix_val(s) <= i64::MAX
}

/// Power of 1000 or 1024 selected by a unit prefix character; zero for
/// any character that is not a unit prefix.
pub open spec fn suffix_power(c: char) -> int {
    if c == 'k' || c == 'K' {
        1
    } else if c == 'm' || c == 'M' {
        2
    } else if c == 'G' {
        3
    } else if c == 'T' {
        4
    } else if c == 'P' {
        5
    } else if c == 'E' {
        6
    } else if c == 'Z' {
        7
    } else if c == 'Y' {
        8
    } else {
        0
    }
}

pub open spec fn pow_int(b: int, e: nat) -> int
    decreases e,
{
    if e == 0 {
        1
    } else {
        b * pow_int(b, (e - 1) as nat)
    }
}

/// The characters of `s` from `pos` on form a valid unit suffix
/// (possibly empty): a unit prefix character alone, or followed by `B`
/// or by `iB`.
pub open spec fn suffix_ok_at(s: Seq<char>, pos: int) -> bool {
    let len = s.len() as int;
    pos == len || (suffix_power(s[pos]) > 0 && (pos + 1 == len || (pos + 2 == len && s[pos + 1]
        == 'B') || (pos + 3 == len && s[pos + 1] == 'i' && s[pos + 2] == 'B')))
}

/// The multiplier the suffix starting at `pos` selects: 1 for no suffix,
/// base 1000 for a `B` suffix, base 1024 otherwise.
pub open spec fn multiplier_at(s: Seq<char>, pos: int) -> int {
    let len = s.len() as int;
    if pos == len {
        1
    } else {
        let base: int = if pos + 2 == len {
            1000
        } else {
            1024
        };
        pow_int(base, suffix_power(s[pos]) as nat)
    }
}

/// The mathematical value a size string denotes: prefix times multiplier.
pub open spec fn size_value(s: Seq<char>) -> int {
    prefix_val(s) * multiplier_at(s, num_end(s))
}

/// A size string parses successfully: a well-formed numeric prefix, a
/// well-formed suffix, and a scaled value in the signed 64-bit range.
pub open spec fn parse_size_valid(s: Seq<char>) -> bool {
    prefix_ok(s) && suffix_ok_at(s, num_end(s)) && i64::MIN <= size_value(s) <= i64::MAX
}

/// The diagnostic text parsing failure produces for input `s`.
pub open spec fn parse_size_err_msg(s: Seq<char>) -> Seq<char> {
    if !prefix_ok(s) {
        "invalid argument '"@ + s + "'"@
    } else if !suffix_ok_at(s, num_end(s)) {
        "invalid suffix in argument '"@ + s + "'"@
    } else {
        "argument '"@ + s + "' too large"@
    }
}

fn err_invalid(input: &str) -> (r: String)
    ensures
        r@ == "invalid argument '"@ + input@ + "'"@,
{
    let mut m = String::from_str("invalid argument '");
    m.append(input);
    m.append("'");
    m
}

fn err_suffix(input: &str) -> (r: String)
    ensures
        r@ == "invalid suffix in argument '"@ + input@ + "'"@,
{
    let mut m = String::from_str("invalid suffix in argument '");
    m.append(input);
    m.append("'");
    m
}

fn err_too_large(input: &str) -> (r: String)
    ensures
        r@ == "argument '"@ + input@ + "' too large"@,
{
    let mut m = String::from_str("argument '");
    m.append(input);
    m.append("' too large");
    m
}

fn digit_at(s: &str, i: usize) -> (r: bool)
    ensures
        r == (i < s@.len() && is_dec_digit(s@[i as int])),
{
    if i >= s.unicode_len() {
        false
    } else {
        let c = s.get_char(i);
        '0' <= c && c <= '9'
    }
}

/// Parses a size string into a byte count.
///
/// Returns the scaled value exactly when the string is a well-formed
/// size that fits a signed 64-bit integer, and otherwise an error
/// message naming the failure: a malformed or oversized numeric prefix,
/// an unrecognized suffix, or a scaled value out of range.
pub fn parse_size(input: &str) -> (r: Result<i64, String>)
    ensures
        parse_size_valid(input@) ==> (r matches Ok(v) && v == size_value(input@)),
        !parse_size_valid(input@) ==> (r matches Err(m) && m@ == parse_size_err_msg(input@)),
{
    let ghost s = input@;
    let n = input.unicode_len();
    let mut i: usize = 0;
    let mut negative: bool = false;
    if n > 0 {
        let c0 = input.get_char(0);
        if c0 == '+' {
            i = 1;
        } else if c0 == '-' {
            negative = true;
            i = 1;
        }
    }
    let start_x: usize = i;
    let ghost start = i as int;
    proof {
        assert(start == sign_len(s));
    }
    // Largest magnitude the sign admits in a signed 64-bit integer.
    let limit: u64 = if negative {
        9223372036854775808
    } else {
        9223372036854775807
    };
    let mut mag: u64 = 0;
    let mut too_big: bool = false;
    loop
        invariant
            s == input@,
            n == s.len(),
            sign_len(s) <= start <= i <= n,
            start == sign_len(s),
            negative <==> (s.len() > 0 && s[0] == '-'),
            limit == if negative { 9223372036854775808u64 } else { 9223372036854775807u64 },
            digits_end(s, start) == digits_end(s, i as int),
            !too_big ==> mag == digits_val(s, start, i as int) && mag <= limit,
            too_big ==> digits_val(s, start, i as int) > limit,
        ensures
            s == input@,
            n == s.len(),
            sign_len(s) <= start <= i <= n,
            digits_end(s, start) == i,
            !too_big ==> mag == digits_val(s, start, i as int) && mag <= limit,
            too_big ==> digits_val(s, start, i as int) > limit,
        decreases n - i,
    {
        if !digit_at(input, i) {
            proof {
                assert(digits_end(s, i as int) == i);
            }
            break;
        }
        let c = input.get_char(i);
        let d: u64 = ((c as u32) - 48) as u64;
        proof {
            assert(d == dec_digit_val(s[i as int]));
            assert(digits_val(s, start, i + 1) == digits_val(s, start, i as int) * 10
                + dec_digit_val(s[i as int]));
        }
        if !too_big {
            if mag <= (limit - d) / 10 {
                proof {
                    assert(mag * 10 + d <= limit) by (nonlinear_arith)
                        requires
                            mag <= (limit - d) / 10,
                            d <= 9,
                            d <= limit,
                    ;
                }
                mag = mag * 10 + d;
            } else {
                proof {
                    assert(mag * 10 + d > limit) by (nonlinear_arith)
                        requires
                            mag > (limit - d) / 10,
                            d <= 9,
                            d <= limit,
                    ;
                }
                too_big = true;
            }
        } else {
            proof {
                assert(digits_val(s, start, i as int) * 10 + d > limit) by (nonlinear_arith)
                    requires
                        digits_val(s, start, i as int) > limit,
                        d >= 0,
                        limit > 0,
                ;
            }
        }
        i += 1;
    }
    proof {
        assert(digits_end(s, i as int) == i);
        assert(num_end(s) == i);
    }
    if i == start_x {
        // no digits at all
        return Err(err_invalid(input));
    }
    if too_big {
        // the numeric prefix itself exceeds the signed 64-bit range
        proof {
            if negative {
                assert(prefix_val(s) == -digits_val(s, start, i as int));
            } else {
                assert(prefix_val(s) == digits_val(s, start, i as int));
            }
        }
        return Err(err_invalid(input));
    }
    proof {
        if negative {
            assert(prefix_val(s) == -digits_val(s, start, i as int));
        } else {
            assert(prefix_val(s) == digits_val(s, start, i as int));
        }
        assert(prefix_ok(s));
    }
    if i == n {
        // no suffix: the prefix is the value
        let v: i64 = if negative {
            if mag == 9223372036854775808 {
                i64::MIN
            } else {
                -(mag as i64)
            }
        } else {
            mag as i64
        };
        proof {
            assert(multiplier_at(s, num_end(s)) == 1);
        }
        return Ok(v);
    }
    let c = input.get_char(i);
    let power: u32 = if c == 'k' || c == 'K' {
        1
    } else if c == 'm' || c == 'M' {
        2
    } else if c == 'G' {
        3
    } else if c == 'T' {
        4
    } else if c == 'P' {
        5
    } else if c == 'E' {
        6
    } else if c == 'Z' {
        7
    } else if c == 'Y' {
        8
    } else {
        return Err(err_suffix(input));
    };
    let rest_len = n - i;
    let base: u64 = if rest_len == 1 {
        1024
    } else if rest_len == 2 {
        if input.get_char(i + 1) == 'B' {
            1000
        } else {
            return Err(err_suffix(input));
        }
    } else if rest_len == 3 {
        if input.get_char(i + 1) == 'i' && input.get_char(i + 2) == 'B' {
            1024
        } else {
            return Err(err_suffix(input));
        }
    } else {
        return Err(err_suffix(input));
    };
    proof {
        assert(suffix_ok_at(s, i as int));
    }
    let b128: u128 = base as u128;
    proof {
        reveal_with_fuel(pow_int, 9);
    }
    let m: u128 = if power == 1 {
        b128
    } else if power == 2 {
        b128 * b128
    } else if power == 3 {
        b128 * b128 * b128
    } else if power == 4 {
        b128 * b128 * b128 * b128
    } else if power == 5 {
        b128 * b128 * b128 * b128 * b128
    } else if power == 6 {
        b128 * b128 * b128 * b128 * b128 * b128
    } else if power == 7 {
        b128 * b128 * b128 * b128 * b128 * b128 * b128
    } else {
        b128 * b128 * b128 * b128 * b128 * b128 * b128 * b128
    };
    proof {
        assert(m == multiplier_at(s, i as int));
        assert(m >= 1);
    }
    let bound: u128 = limit as u128;
    if (mag as u128) > bound / m {
        proof {
            assert((mag as u128) * m > bound) by (nonlinear_arith)
                requires
                    (mag as u128) > bound / m,
                    m >= 1,
            ;
            assert((-(mag as int)) * (m as int) == -((mag as int) * (m as int)))
                by (nonlinear_arith);
            if negative {
                assert(size_value(s) == -((mag as int) * (m as int)));
            } else {
                assert(size_value(s) == (mag as int) * (m as int));
            }
        }
        return Err(err_too_large(input));
    }
    proof {
        assert((mag as u128) * m <= bound) by (nonlinear_arith)
            requires
                (mag as u128) <= bound / m,
                m >= 1,
        ;
    }
    let prod: u128 = (mag as u128) * m;
    let v: i64 = if negative {
        if prod == 9223372036854775808 {
            i64::MIN
        } else {
            -((prod as u64) as i64)
        }
    } else {
        prod as i64
    };
    proof {
        assert((-(mag as int)) * (m as int) == -((mag as int) * (m as int))) by (nonlinear_arith);
        if negative {
            assert(size_value(s) == -((mag as int) * (m as int)));
        } else {
            assert(size_value(s) == (mag as int) * (m as int));
        }
    }
    Ok(v)
}


/// The character for one decimal digit.
pub open spec fn dec_char(d: int) -> char {
    if d == 0 {
        '0'
    } else if d == 1 {
        '1'
    } else if d == 2 {
        '2'
    } else if d == 3 {
        '3'
    } else if d == 4 {
        '4'
    } else if d == 5 {
        '5'
    } else if d == 6 {
        '6'
    } else if d == 7 {
        '7'
    } else if d == 8 {
        '8'
    } else {
        '9'
    }
}

/// Decimal text of a non-negative value.
pub open spec fn dec_str(v: int) -> Seq<char>
    decreases v,
{
    if v < 10 {
        seq![dec_char(v)]
    } else {
        dec_str(v / 10) + seq![dec_char(v % 10)]
    }
}

fn push_digit(out: &mut String, d: u64)
    requires
        d < 10,
    ensures
        final(out)@ == old(out)@ + seq![dec_char(d as int)],
{
    proof {
        reveal_strlit("0");
        reveal_strlit("1");
        reveal_strlit("2");
        reveal_strlit("3");
        reveal_strlit("4");
        reveal_strlit("5");
        reveal_strlit("6");
        reveal_strlit("7");
        reveal_strlit("8");
        reveal_strlit("9");
    }
    if d == 0 {
        out.append("0");
    } else if d == 1 {
        out.append("1");
    } else if d == 2 {
        out.append("2");
    } else if d == 3 {
        out.append("3");
    } else if d == 4 {
        out.append("4");
    } else if d == 5 {
        out.append("5");
    } else if d == 6 {
        out.append("6");
    } else if d == 7 {
        out.append("7");
    } else if d == 8 {
        out.append("8");
    } else {
        out.append("9");
    }
}

fn append_decimal(out: &mut String, v: u64)
    ensures
        final(out)@ == old(out)@ + dec_str(v as int),
    decreases v,
{
    if v < 10 {
        push_digit(out, v);
    } else {
        append_decimal(out, v / 10);
        push_digit(out, v % 10);
        proof {
            assert(out@ == old(out)@ + (dec_str(v as int / 10) + seq![dec_char(v as int % 10)]));
        }
    }
}

/// Decimal text of a value, as a string.
pub fn u64_to_string(v: u64) -> (r: String)
    ensures
        r@ == dec_str(v as int),
{
    let mut out = String::new();
    append_decimal(&mut out, v);
    out
}

/// The unit letter for each power of 1024.
pub open spec fn unit_char(p: int) -> char {
    if p == 1 {
        'K'
    } else if p == 2 {
        'M'
    } else if p == 3 {
        'G'
    } else if p == 4 {
        'T'
    } else if p == 5 {
        'P'
    } else if p == 6 {
        'E'
    } else if p == 7 {
        'Z'
    } else {
        'Y'
    }
}

fn push_unit(out: &mut String, p: u32)
    requires
        1 <= p <= 8,
    ensures
        final(out)@ == old(out)@ + seq![unit_char(p as int)],
{
    proof {
        reveal_strlit("K");
        reveal_strlit("M");
        reveal_strlit("G");
        reveal_strlit("T");
        reveal_strlit("P");
        reveal_strlit("E");
        reveal_strlit("Z");
        reveal_strlit("Y");
    }
    if p == 1 {
        out.append("K");
    } else if p == 2 {
        out.append("M");
    } else if p == 3 {
        out.append("G");
    } else if p == 4 {
        out.append("T");
    } else if p == 5 {
        out.append("P");
    } else if p == 6 {
        out.append("E");
    } else if p == 7 {
        out.append("Z");
    } else {
        out.append("Y");
    }
}

/// Rounding a scaled value up at the given number of 1024-powers:
/// the number of tenths, rounded toward positive infinity.
pub open spec fn ceil_div(a: int, d: int) -> int {
    a / d + if a % d == 0 {
        0int
    } else {
        1int
    }
}

/// The scaled text of a value at unit power `p` and beyond: one decimal
/// digit while the rounded tenths stay below one hundred, the rounded
/// whole number while it stays below 1024, and otherwise the next unit.
pub open spec fn fmt_scaled(v: int, p: int) -> Seq<char>
    decreases 9 - p,
{
    let d = pow_int(1024, p as nat);
    let t = ceil_div(v * 10, d);
    if t < 100 {
        dec_str(t / 10) + seq!['.'] + seq![dec_char(t % 10)] + seq![unit_char(p)]
    } else {
        let w = ceil_div(v, d);
        if w < 1024 || p >= 8 {
            dec_str(w) + seq![unit_char(p)]
        } else {
            fmt_scaled(v, p + 1)
        }
    }
}

/// The human-readable form of a byte count: a bare integer below 1024,
/// and otherwise the value scaled to the largest fitting unit.
pub open spec fn format_size_spec(v: int) -> Seq<char> {
    if v < 1024 {
        dec_str(v)
    } else {
        fmt_scaled(v, 1)
    }
}

fn scaled_tenths(v: u64, d: u64) -> (t: u128)
    requires
        d >= 1,
    ensures
        t == ceil_div(v as int * 10, d as int),
{
    let a: u128 = (v as u128) * 10;
    let q = a / (d as u128);
    let rem = a % (d as u128);
    if rem == 0 {
        q
    } else {
        q + 1
    }
}

fn scaled_whole(v: u64, d: u64) -> (w: u64)
    requires
        d >= 2,
    ensures
        w == ceil_div(v as int, d as int),
{
    let q = v / d;
    let rem = v % d;
    if rem == 0 {
        q
    } else {
        proof {
            assert(q < v) by (nonlinear_arith)
                requires
                    q == v / d,
                    d >= 2,
                    v % d != 0,
            ;
        }
        q + 1
    }
}

fn tenths_string(t: u64, p: u32) -> (r: String)
    requires
        t < 100,
        1 <= p <= 8,
    ensures
        r@ == dec_str(t as int / 10) + seq!['.'] + seq![dec_char(t as int % 10)] + seq![
            unit_char(p as int),
        ],
{
    let mut out = u64_to_string(t / 10);
    proof {
        reveal_strlit(".");
    }
    out.append(".");
    push_digit(&mut out, t % 10);
    push_unit(&mut out, p);
    out
}

/// Formats a byte count for human-readable output.
///
/// Values below 1024 print as a bare integer. Larger values are scaled
/// by powers of 1024 to the largest unit that keeps the rounded-up
/// value below 1024; a scaled value below ten keeps one decimal digit,
/// also rounded up.
pub fn format_size(v: u64) -> (r: String)
    ensures
        r@ == format_size_spec(v as int),
{
    if v < 1024 {
        return u64_to_string(v);
    }
    let mut p: u32 = 1;
    let mut d: u64 = 1024;
    proof {
        reveal_with_fuel(pow_int, 7);
    }
    while p < 6
        invariant
            v >= 1024,
            1 <= p <= 6,
            d == pow_int(1024, p as nat),
            d >= 1024,
            d <= 0x1000000000000000,
            fmt_scaled(v as int, 1) == fmt_scaled(v as int, p as int),
        decreases 6 - p,
    {
        let t = scaled_tenths(v, d);
        if t < 100 {
            return tenths_string(t as u64, p);
        }
        let w = scaled_whole(v, d);
        if w < 1024 {
            let mut out = u64_to_string(w);
            push_unit(&mut out, p);
            return out;
        }
        proof {
            reveal_with_fuel(pow_int, 7);
            assert(fmt_scaled(v as int, p as int) == fmt_scaled(v as int, p + 1));
        }
        p = p + 1;
        d = d * 1024;
    }
    // p == 6: the exabyte scale always fits a 64-bit count
    let t = scaled_tenths(v, d);
    if t < 100 {
        return tenths_string(t as u64, p);
    }
    let w = scaled_whole(v, d);
    proof {
        assert(d == 0x1000000000000000);
        assert(v as int / d as int <= 15) by (nonlinear_arith)
            requires
                d == 0x1000000000000000u64,
                v <= 0xffffffffffffffffu64,
        ;
        assert(w < 1024);
    }
    let mut out = u64_to_string(w);
    push_unit(&mut out, p);
    out
}


/// Ceiling division by 1024, the block-style rounding of the default
/// (non-human-readable) size report field.
pub fn div_ceil_1024(v: u64) -> (r: u64)
    ensures
        r == (v + 1023) / 1024,
{
    let q = v / 1024;
    let rem = v % 1024;
    if rem == 0 {
        q
    } else {
        assert(q + 1 == (v + 1023) / 1024) by (nonlinear_arith)
            requires
                q == v / 1024,
                rem == v % 1024,
                rem != 0,
        ;
        q + 1
    }
}

} // verus!
