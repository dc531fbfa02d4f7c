//! Signed decimal numerals: parsing a lexeme into a 32-bit integer and
//! rendering integers back to decimal text for diagnostics and output.

use vstd::prelude::*;

verus! {

/// Whether `c` is an ASCII decimal digit.
pub open spec fn is_digit(c: char) -> bool {
    48 <= c as int <= 57
}

/// The numeric value of an ASCII decimal digit.
pub open spec fn digit_value(c: char) -> int {
    c as int - 48
}

/// The digit character for a value in 0..9.
pub open spec fn digit_char(d: int) -> char {
    if d == 0 {
        '0'
    } else if d == 1 {
        '1'
    } else if d == 2 {
        '2'
    } else if d == 3 {
        '3'
    } else if d == 4 {
        '4'
    } else if d == 5 {
        '5'
    } else if d == 6 {
        '6'
    } else if d == 7 {
        '7'
    } else if d == 8 {
        '8'
    } else {
        '9'
    }
}

/// Whether every character of `s` is an ASCII decimal digit.
pub open spec fn all_digits(s: Seq<char>) -> bool {
    forall|i: int| 0 <= i < s.len() ==> is_digit(s[i])
}

/// The value of a string of decimal digits, most significant first.
pub open spec fn digits_value(s: Seq<char>) -> int
    decreases s.len(),
{
    if s.len() == 0 {
        0
    } else {
        digits_value(s.drop_last()) * 10 + digit_value(s.last())
    }
}

/// What parsing a lexeme as a signed decimal 32-bit integer yields: an
/// optional sign, then at least one digit, and a value within `i32` range.
pub open spec fn parse_i32_spec(w: Seq<char>) -> Option<i32> {
    let signed = w.len() > 0 && (w[0] == '-' || w[0] == '+');
    let neg = w.len() > 0 && w[0] == '-';
    let body = if signed {
        w.skip(1)
    } else {
        w
    };
    if body.len() == 0 || !all_digits(body) {
        None
    } else {
        let m = digits_value(body);
        if neg {
            if m <= 0x8000_0000 {
                Some((-m) as i32)
            } else {
                None
            }
        } else {
            if m <= 0x7fff_ffff {
                Some(m as i32)
            } else {
                None
            }
        }
    }
}

/// The decimal rendering of a non-negative integer.
pub open spec fn dec_nat(n: nat) -> Seq<char>
    decreases n,
{
    if n < 10 {
        seq![digit_char(n as int)]
    } else {
        dec_nat(n / 10).push(digit_char((n % 10) as int))
    }
}

/// The decimal rendering of a signed 32-bit integer.
pub open spec fn dec_i32(v: i32) -> Seq<char> {
    if v >= 0 {
        dec_nat(v as nat)
    } else {
        seq!['-'] + dec_nat((-(v as int)) as nat)
    }
}

/// A digit string is never negative.
pub proof fn lemma_digits_value_nonneg(s: Seq<char>)
    requires
        all_digits(s),
    ensures
        digits_value(s) >= 0,
    decreases s.len(),
{
    if s.len() > 0 {
        assert(all_digits(s.drop_last()));
        lemma_digits_value_nonneg(s.drop_last());
    }
}

/// Extending a digit string can only keep or grow its value.
pub proof fn lemma_digits_value_prefix_le(s: Seq<char>, k: int)
    requires
        all_digits(s),
        0 <= k <= s.len(),
    ensures
        digits_value(s.take(k)) <= digits_value(s),
    decreases s.len() - k,
{
    if k < s.len() {
        lemma_digits_value_prefix_le(s, k + 1);
        let t = s.take(k + 1);
        assert(t.drop_last() =~= s.take(k));
        assert(all_digits(s.take(k)));
        lemma_digits_value_nonneg(s.take(k));
        assert(digits_value(t) == digits_value(s.take(k)) * 10 + digit_value(t.last()));
        assert(digits_value(s.take(k)) * 10 >= digits_value(s.take(k))) by (nonlinear_arith)
            requires
                digits_value(s.take(k)) >= 0,
        ;
    } else {
        assert(s.take(k) =~= s);
    }
}

/// Parse a lexeme as a signed decimal 32-bit integer, exactly when it has
/// the shape an optional sign then one or more digits and the value fits.
pub fn parse_i32(w: &Vec<char>) -> (r: Option<i32>)
    ensures
        r == parse_i32_spec(w@),
{
    let ghost gw = w@;
    if w.len() == 0 {
        return None;
    }
    let first = w[0];
    let signed = first == '-' || first == '+';
    let neg = first == '-';
    let start: usize = if signed {
        1
    } else {
        0
    };
    let ghost body = if signed {
        gw.skip(1)
    } else {
        gw
    };
    if w.len() == start {
        assert(body.len() == 0);
        return None;
    }
    let limit: u64 = if neg {
        0x8000_0000
    } else {
        0x7fff_ffff
    };
    let mut acc: u64 = 0;
    let mut i: usize = start;
    while i < w.len()
        invariant
            start <= i <= w.len(),
            start <= 1,
            w@ == gw,
            (start == 1) == (gw.len() > 0 && (gw[0] == '-' || gw[0] == '+')),
            neg == (gw.len() > 0 && gw[0] == '-'),
            limit == (if neg { 0x8000_0000u64 } else { 0x7fff_ffffu64 }),
            body == (if start == 1 { gw.skip(1) } else { gw }),
            body.len() > 0,
            all_digits(body.take(i - start)),
            acc as int == digits_value(body.take(i - start)),
            acc <= limit,
        decreases w.len() - i,
    {
        let c = w[i];
        proof {
            assert(body =~= gw.subrange(start as int, gw.len() as int));
            assert(gw.subrange(start as int, gw.len() as int)[i - start] == gw[i as int]);
            assert(body[i - start] == c);
        }
        if c < '0' || c > '9' {
            assert(!is_digit(body[i - start]));
            return None;
        }
        let cu = c as u32;
        let d = (cu - 48) as u64;
        proof {
            let prev = body.take(i - start);
            let ext = body.take(i + 1 - start);
            assert(ext.drop_last() =~= prev);
            assert(ext.last() == body[i - start]);
            assert(is_digit(c));
            assert forall|j: int| 0 <= j < ext.len() implies is_digit(ext[j]) by {
                if j < i - start {
                    assert(is_digit(prev[j]));
                    assert(ext[j] == prev[j]);
                } else {
                    assert(ext[j] == c);
                }
            }
            assert(digits_value(ext) == digits_value(prev) * 10 + digit_value(c));
        }
        acc = acc * 10 + d;
        i = i + 1;
        if acc > limit {
            proof {
                if all_digits(body) {
                    lemma_digits_value_prefix_le(body, i - start);
                }
            }
            return None;
        }
    }
    assert(body.take(i - start) =~= body);
    let m = acc;
    if neg {
        if m == 0x8000_0000 {
            Some(i32::MIN)
        } else {
            Some(-(m as i32))
        }
    } else {
        Some(m as i32)
    }
}

/// The one-character string for a digit value in 0..9.
fn digit_str(d: u32) -> (s: &'static str)
    requires
        d < 10,
    ensures
        s@ == seq![digit_char(d as int)],
{
    proof {
        reveal_strlit("0");
        reveal_strlit("1");
        reveal_strlit("2");
        reveal_strlit("3");
        reveal_strlit("4");
        reveal_strlit("5");
        reveal_strlit("6");
        reveal_strlit("7");
        reveal_strlit("8");
        reveal_strlit("9");
    }
    let s: &'static str = if d == 0 {
        "0"
    } else if d == 1 {
        "1"
    } else if d == 2 {
        "2"
    } else if d == 3 {
        "3"
    } else if d == 4 {
        "4"
    } else if d == 5 {
        "5"
    } else if d == 6 {
        "6"
    } else if d == 7 {
        "7"
    } else if d == 8 {
        "8"
    } else {
        "9"
    };
    proof {
        assert(s@ =~= seq![digit_char(d as int)]);
    }
    s
}

/// Render a non-negative integer in decimal.
pub fn u32_to_decimal(n: u32) -> (s: String)
    ensures
        s@ == dec_nat(n as nat),
    decreases n,
{
    if n < 10 {
        String::from_str(digit_str(n))
    } else {
        proof {
            assert(n / 10 < n) by (nonlinear_arith)
                requires
                    n >= 10,
            ;
        }
        let mut s = u32_to_decimal(n / 10);
        s.append(digit_str(n % 10));
        s
    }
}

/// Render a signed 32-bit integer in decimal, with a leading minus sign
/// when negative.
pub fn i32_to_decimal(v: i32) -> (s: String)
    ensures
        s@ == dec_i32(v),
{
    if v >= 0 {
        u32_to_decimal(v as u32)
    } else {
        let mag: u32 = if v == i32::MIN {
            0x8000_0000
        } else {
            (-v) as u32
        };
        let mut s = String::from_str("-");
        let tail = u32_to_decimal(mag);
        s.append(tail.as_str());
        proof {
            reveal_strlit("-");
            assert("-"@ =~= seq!['-']);
        }
        s
    }
}

} // verus!
