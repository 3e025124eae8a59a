//! Canonical string forms of property values: decimal strings for 32-bit
//! integers and `true`/`false` for booleans, with verified parsing and
//! printing that round-trip exactly.

use vstd::prelude::*;
use crate::names::push_char;
use crate::names::str_eq;

verus! {

/// A decimal digit character.
pub open spec fn is_digit(c: char) -> bool {
    48 <= c as int <= 57
}

/// Numeric value of a digit character.
pub open spec fn digit_val(c: char) -> int {
    c as int - 48
}

/// The digit character for a value in `0..=9`.
pub open spec fn digit_char(d: int) -> char {
    if d == 0 {
        '0'
    } else if d == 1 {
        '1'
    } else if d == 2 {
        '2'
    } else if d == 3 {
        '3'
    } else if d == 4 {
        '4'
    } else if d == 5 {
        '5'
    } else if d == 6 {
        '6'
    } else if d == 7 {
        '7'
    } else if d == 8 {
        '8'
    } else {
        '9'
    }
}

/// Every character of `s` is a decimal digit.
pub open spec fn all_digits(s: Seq<char>) -> bool {
    forall|i: int| 0 <= i < s.len() ==> is_digit(s[i])
}

/// Value of a digit string read most-significant first.
pub open spec fn digits_val(s: Seq<char>) -> int
    decreases s.len(),
{
    if s.len() == 0 {
        0
    } else {
        10 * digits_val(s.drop_last()) + digit_val(s.last())
    }
}

/// Canonical decimal digit string of a non-negative integer: no sign, no
/// leading zeros (except the single digit `0` itself).
pub open spec fn dec_str(n: nat) -> Seq<char>
    decreases n,
{
    if n < 10 {
        seq![digit_char(n as int)]
    } else {
        dec_str((n / 10) as nat).push(digit_char((n % 10) as int))
    }
}

/// Canonical string of an `i32`: a `-` sign for negative values, then the
/// decimal digits of the magnitude.
pub open spec fn i32_str(v: i32) -> Seq<char> {
    if v < 0 {
        seq!['-'] + dec_str((-(v as int)) as nat)
    } else {
        dec_str(v as nat)
    }
}

/// What parsing a decimal integer string yields: an optional single `+` or
/// `-` sign followed by one or more digits, rejected when empty, malformed,
/// or out of the `i32` range.
pub open spec fn parse_i32_spec(s: Seq<char>) -> Option<i32> {
    let neg = s.len() > 0 && s[0] == '-';
    let digits = if s.len() > 0 && (s[0] == '-' || s[0] == '+') {
        s.skip(1)
    } else {
        s
    };
    if digits.len() == 0 || !all_digits(digits) {
        None
    } else {
        let m = digits_val(digits);
        let v = if neg {
            -m
        } else {
            m
        };
        if v < i32::MIN as int || v > i32::MAX as int {
            None
        } else {
            Some(v as i32)
        }
    }
}

/// Canonical string of a boolean.
pub open spec fn bool_str(b: bool) -> Seq<char> {
    if b {
        "true"@
    } else {
        "false"@
    }
}

/// What parsing a boolean string yields: exactly `true` or `false`.
pub open spec fn parse_bool_spec(s: Seq<char>) -> Option<bool> {
    if s == "true"@ {
        Some(true)
    } else if s == "false"@ {
        Some(false)
    } else {
        None
    }
}

fn is_digit_exec(c: char) -> (r: bool)
    ensures
        r == is_digit(c),
{
    let u = c as u32;
    48 <= u && u <= 57
}

fn digit_char_exec(d: u64) -> (r: char)
    requires
        d < 10,
    ensures
        r == digit_char(d as int),
{
    if d == 0 {
        '0'
    } else if d == 1 {
        '1'
    } else if d == 2 {
        '2'
    } else if d == 3 {
        '3'
    } else if d == 4 {
        '4'
    } else if d == 5 {
        '5'
    } else if d == 6 {
        '6'
    } else if d == 7 {
        '7'
    } else if d == 8 {
        '8'
    } else {
        '9'
    }
}

/// Parses a decimal integer string into an `i32`; `None` exactly on strings
/// that are empty, malformed, or whose value lies outside the `i32` range.
pub fn parse_i32(s: &str) -> (r: Option<i32>)
    ensures
        r == parse_i32_spec(s@),
{
    let n: usize = s.unicode_len();
    let mut start: usize = 0;
    let mut neg: bool = false;
    if n > 0 {
        let c0 = s.get_char(0);
        if c0 == '-' {
            neg = true;
            start = 1;
        } else if c0 == '+' {
            start = 1;
        }
    }
    let ghost digits: Seq<char> = if s@.len() > 0 && (s@[0] == '-' || s@[0] == '+') {
        s@.skip(1)
    } else {
        s@
    };
    proof {
        assert(digits =~= s@.subrange(start as int, n as int));
    }
    if start == n {
        return None;
    }
    let mut i: usize = start;
    let mut val: u64 = 0;
    while i < n
        invariant
            n == s@.len(),
            start <= i <= n,
            digits =~= s@.subrange(start as int, n as int),
            digits == (if s@.len() > 0 && (s@[0] == '-' || s@[0] == '+') {
                s@.skip(1)
            } else {
                s@
            }),
            all_digits(s@.subrange(start as int, i as int)),
            val <= 21474836489,
            digits_val(s@.subrange(start as int, i as int)) <= 0x8000_0000 ==> val == digits_val(
                s@.subrange(start as int, i as int),
            ),
            (digits_val(s@.subrange(start as int, i as int)) > 0x8000_0000) <==> (val
                > 0x8000_0000),
        decreases n - i,
    {
        let c = s.get_char(i);
        if !is_digit_exec(c) {
            proof {
                assert(digits[i - start] == s@[i as int]);
                assert(!is_digit(digits[i - start]));
                assert(!all_digits(digits));
            }
            return None;
        }
        let d: u64 = (c as u32 - 48) as u64;
        proof {
            let pre = s@.subrange(start as int, i as int);
            let post = s@.subrange(start as int, i + 1);
            assert(post.drop_last() =~= pre);
            assert(post.last() == s@[i as int]);
        }
        if val <= 0x8000_0000 {
            val = val * 10 + d;
        }
        i = i + 1;
    }
    proof {
        assert(s@.subrange(start as int, n as int) =~= digits);
    }
    if neg {
        if val <= 0x8000_0000 {
            let m: i64 = val as i64;
            Some((-m) as i32)
        } else {
            None
        }
    } else {
        if val <= 0x7fff_ffff {
            Some(val as i32)
        } else {
            None
        }
    }
}

/// Prints a non-negative magnitude as its canonical decimal digit string.
fn dec_to_string(mag0: u64) -> (r: Vec<char>)
    ensures
        r@ == dec_str(mag0 as nat),
{
    let mut ds: Vec<char> = Vec::new();
    let mut mag: u64 = mag0;
    proof {
        assert(dec_str(mag0 as nat) =~= dec_str(mag0 as nat) + ds@.reverse());
    }
    loop
        invariant_except_break
            mag <= mag0,
            mag == 0 ==> ds@.len() == 0,
            dec_str(mag0 as nat) =~= dec_str(mag as nat) + ds@.reverse(),
        ensures
            dec_str(mag0 as nat) =~= ds@.reverse(),
        decreases mag,
    {
        let d: u64 = mag % 10;
        let ghost old_ds = ds@;
        let ghost old_mag = mag as nat;
        ds.push(digit_char_exec(d));
        mag = mag / 10;
        proof {
            assert(ds@.reverse() =~= seq![digit_char(d as int)] + old_ds.reverse());
            if old_mag >= 10 {
                assert(dec_str(old_mag) == dec_str(old_mag / 10).push(
                    digit_char((old_mag % 10) as int),
                ));
                assert(dec_str(old_mag / 10).push(digit_char((old_mag % 10) as int)) =~= dec_str(
                    old_mag / 10,
                ) + seq![digit_char((old_mag % 10) as int)]);
                assert(dec_str(mag0 as nat) =~= dec_str(mag as nat) + ds@.reverse());
            } else {
                assert(dec_str(old_mag) =~= seq![digit_char(old_mag as int)]);
                assert(dec_str(mag0 as nat) =~= ds@.reverse());
            }
        }
        if mag == 0 {
            break;
        }
    }
    let mut r: Vec<char> = Vec::new();
    let k: usize = ds.len();
    let mut j: usize = 0;
    while j < k
        invariant
            k == ds@.len(),
            0 <= j <= k,
            r@ =~= ds@.reverse().take(j as int),
        decreases k - j,
    {
        r.push(ds[k - 1 - j]);
        proof {
            assert(r@ =~= ds@.reverse().take(j + 1));
        }
        j = j + 1;
    }
    proof {
        assert(ds@.reverse().take(k as int) =~= ds@.reverse());
    }
    r
}

/// Prints an `i32` in its canonical decimal form.
pub fn i32_to_canonical(v: i32) -> (r: String)
    ensures
        r@ == i32_str(v),
{
    let neg: bool = v < 0;
    let mag: u64 = if v < 0 {
        (-(v as i64)) as u64
    } else {
        v as u64
    };
    let ds = dec_to_string(mag);
    let mut r: String = String::new();
    if neg {
        push_char(&mut r, '-');
    }
    let ghost prefix = r@;
    let k: usize = ds.len();
    let mut j: usize = 0;
    while j < k
        invariant
            k == ds@.len(),
            0 <= j <= k,
            r@ =~= prefix + ds@.take(j as int),
        decreases k - j,
    {
        push_char(&mut r, ds[j]);
        proof {
            assert(prefix + ds@.take(j + 1) =~= (prefix + ds@.take(j as int)).push(ds@[j as int]));
        }
        j = j + 1;
    }
    proof {
        assert(ds@.take(k as int) =~= ds@);
        if neg {
            assert(r@ =~= seq!['-'] + dec_str(mag as nat));
        } else {
            assert(prefix =~= Seq::<char>::empty());
            assert(r@ =~= dec_str(mag as nat));
        }
    }
    r
}

/// Prints a boolean in its canonical form.
pub fn bool_to_canonical(b: bool) -> (r: String)
    ensures
        r@ == bool_str(b),
{
    if b {
        let mut r: String = String::new();
        push_char(&mut r, 't');
        push_char(&mut r, 'r');
        push_char(&mut r, 'u');
        push_char(&mut r, 'e');
        proof {
            reveal_strlit("true");
            assert(r@ =~= "true"@);
        }
        r
    } else {
        let mut r: String = String::new();
        push_char(&mut r, 'f');
        push_char(&mut r, 'a');
        push_char(&mut r, 'l');
        push_char(&mut r, 's');
        push_char(&mut r, 'e');
        proof {
            reveal_strlit("false");
            assert(r@ =~= "false"@);
        }
        r
    }
}

/// Parses a boolean string; `None` exactly on strings other than `true` and
/// `false`.
pub fn parse_bool(s: &str) -> (r: Option<bool>)
    ensures
        r == parse_bool_spec(s@),
{
    if str_eq(s, "true") {
        Some(true)
    } else if str_eq(s, "false") {
        Some(false)
    } else {
        None
    }
}

/// Every character of a canonical digit string is a digit, and its value is
/// the printed magnitude.
pub proof fn lemma_dec_str_val(n: nat)
    ensures
        all_digits(dec_str(n)),
        digits_val(dec_str(n)) == n,
        dec_str(n).len() >= 1,
    decreases n,
{
    if n < 10 {
        let s = dec_str(n);
        assert(s =~= seq![digit_char(n as int)]);
        assert(s.drop_last() =~= Seq::<char>::empty());
        assert(digits_val(Seq::<char>::empty()) == 0);
        assert(digit_val(digit_char(n as int)) == n);
    } else {
        vstd::arithmetic::div_mod::lemma_fundamental_div_mod(n as int, 10);
        lemma_dec_str_val((n / 10) as nat);
        let p = dec_str((n / 10) as nat);
        let s = dec_str(n);
        assert(s =~= p.push(digit_char((n % 10) as int)));
        assert(s.drop_last() =~= p);
        assert(s.last() == digit_char((n % 10) as int));
        assert(digits_val(s) == 10 * (n / 10) + n % 10);
    }
}

/// Round trip for integers: parsing the canonical string of any `i32` gives
/// back exactly that value.
pub proof fn lemma_i32_round_trip(v: i32)
    ensures
        parse_i32_spec(i32_str(v)) == Some(v),
{
    if v < 0 {
        let mag = (-(v as int)) as nat;
        lemma_dec_str_val(mag);
        let s = i32_str(v);
        assert(s[0] == '-');
        assert(s.skip(1) =~= dec_str(mag));
        assert(digits_val(s.skip(1)) == mag);
    } else {
        let mag = v as nat;
        lemma_dec_str_val(mag);
        let s = i32_str(v);
        assert(s =~= dec_str(mag));
        assert(is_digit(s[0]));
        assert(s[0] != '-' && s[0] != '+') by {
            if s[0] == '-' {
                assert(s[0] as int == 45);
            }
            if s[0] == '+' {
                assert(s[0] as int == 43);
            }
        }
        assert(digits_val(s) == mag);
    }
}

/// Round trip for booleans: parsing the canonical string of a boolean gives
/// back exactly that boolean.
pub proof fn lemma_bool_round_trip(b: bool)
    ensures
        parse_bool_spec(bool_str(b)) == Some(b),
{
    reveal_strlit("true");
    reveal_strlit("false");
    assert("true"@.len() == 4);
    assert("false"@.len() == 5);
}

} // verus!
