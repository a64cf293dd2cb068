//! Decimal text to integer conversion and integer to decimal text
//! rendering, with exact specifications.
//!
//! The accepted grammar mirrors the standard library's integer parsing:
//! an optional leading `+` or `-` sign followed by one or more ASCII
//! digits, and the resulting value must fit the target type.

use vstd::prelude::*;

verus! {

/// An ASCII decimal digit.
pub open spec fn is_digit(c: char) -> bool {
    48 <= c as int && c as int <= 57
}

/// The numeric value of one ASCII digit.
pub open spec fn digit_val(c: char) -> int {
    c as int - 48
}

/// Every character of `s` is an ASCII digit.
pub open spec fn all_digits(s: Seq<char>) -> bool {
    forall|k: int| 0 <= k < s.len() ==> is_digit(s[k])
}

/// The value of a digit string read most significant digit first.
pub open spec fn digits_val(s: Seq<char>) -> int
    decreases s.len(),
{
    if s.len() == 0 {
        0
    } else {
        digits_val(s.drop_last()) * 10 + digit_val(s.last())
    }
}

/// The digits of an optionally signed integer literal.
pub open spec fn int_body(s: Seq<char>) -> Seq<char> {
    if s.len() > 0 && (s[0] == '+' || s[0] == '-') {
        s.drop_first()
    } else {
        s
    }
}

/// The sign of an optionally signed integer literal.
pub open spec fn int_sign(s: Seq<char>) -> int {
    if s.len() > 0 && s[0] == '-' {
        -1
    } else {
        1
    }
}

/// The mathematical value denoted by `s`, meaningful when `is_int_text(s)`.
pub open spec fn int_value(s: Seq<char>) -> int {
    int_sign(s) * digits_val(int_body(s))
}

/// `s` is an optional sign followed by at least one digit.
pub open spec fn is_int_text(s: Seq<char>) -> bool {
    int_body(s).len() > 0 && all_digits(int_body(s))
}

/// `s` denotes a value representable as an `i32`.
pub open spec fn is_i32_text(s: Seq<char>) -> bool {
    is_int_text(s) && i32::MIN <= int_value(s) <= i32::MAX
}

/// `s` denotes a value representable as an `i64`.
pub open spec fn is_i64_text(s: Seq<char>) -> bool {
    is_int_text(s) && i64::MIN <= int_value(s) <= i64::MAX
}

proof fn lemma_digits_val_nonneg(s: Seq<char>)
    requires
        all_digits(s),
    ensures
        digits_val(s) >= 0,
    decreases s.len(),
{
    if s.len() > 0 {
        assert(forall|k: int| 0 <= k < s.drop_last().len() ==> s.drop_last()[k] == s[k]);
        lemma_digits_val_nonneg(s.drop_last());
        assert(is_digit(s.last()));
    }
}

/// A digit string is worth at least as much as any of its prefixes.
proof fn lemma_digits_val_prefix(s: Seq<char>, j: int)
    requires
        all_digits(s),
        0 <= j <= s.len(),
    ensures
        digits_val(s) >= digits_val(s.take(j)),
    decreases s.len() - j,
{
    if j == s.len() {
        assert(s.take(j) =~= s);
    } else {
        lemma_digits_val_prefix(s, j + 1);
        assert(s.take(j + 1).drop_last() =~= s.take(j));
        assert(forall|k: int| 0 <= k < s.take(j).len() ==> s.take(j)[k] == s[k]);
        lemma_digits_val_nonneg(s.take(j));
        assert(is_digit(s[j]));
        assert(digits_val(s.take(j + 1)) == digits_val(s.take(j)) * 10 + digit_val(s[j]));
    }
}

/// Parses `s` as a decimal `i32`, exactly when `s` is an optionally
/// signed digit string whose value fits.
pub fn parse_i32(s: &str) -> (r: Option<i32>)
    ensures
        r is Some <==> is_i32_text(s@),
        r matches Some(v) ==> v as int == int_value(s@),
{
    let n = s.unicode_len();
    if n == 0 {
        return None;
    }
    let c0 = s.get_char(0);
    let neg = c0 == '-';
    let start: usize = if c0 == '-' || c0 == '+' {
        1
    } else {
        0
    };
    if start >= n {
        return None;
    }
    let ghost body = s@.subrange(start as int, n as int);
    proof {
        assert(body =~= int_body(s@));
    }
    let mut acc: u64 = 0;
    let mut k: usize = start;
    while k < n
        invariant
            start <= k <= n,
            n == s@.len(),
            start < n,
            body == int_body(s@),
            body.len() == n - start,
            acc == digits_val(body.take(k - start)),
            all_digits(body.take(k - start)),
            acc <= 0x8000_0000,
            (s@[0] == '-' || s@[0] == '+') <==> start == 1,
            neg <==> s@[0] == '-',
        decreases n - k,
    {
        let c = s.get_char(k);
        let u = c as u32;
        if u < 48 || u > 57 {
            proof {
                assert(body[k - start] == s@[k as int]);
                assert(!is_digit(body[k - start]));
            }
            return None;
        }
        proof {
            assert(body.take(k + 1 - start).drop_last() =~= body.take(k - start));
            assert(body.take(k + 1 - start).last() == s@[k as int]);
        }
        acc = acc * 10 + (u - 48) as u64;
        k = k + 1;
        if acc > 0x8000_0000 {
            proof {
                if all_digits(body) {
                    lemma_digits_val_prefix(body, k - start);
                    lemma_digits_val_nonneg(body.take(k - start));
                    assert(digits_val(body) > 0x8000_0000);
                }
            }
            return None;
        }
    }
    proof {
        assert(body.take(n - start) =~= body);
        lemma_digits_val_nonneg(body);
        assert(is_int_text(s@));
    }
    if neg {
        if acc == 0x8000_0000 {
            Some(i32::MIN)
        } else {
            Some(-(acc as i32))
        }
    } else {
        if acc > 0x7FFF_FFFF {
            proof {
                assert(int_value(s@) > i32::MAX);
            }
            None
        } else {
            Some(acc as i32)
        }
    }
}

/// Parses `s` as a decimal `i64`, exactly when `s` is an optionally
/// signed digit string whose value fits.
pub fn parse_i64(s: &str) -> (r: Option<i64>)
    ensures
        r is Some <==> is_i64_text(s@),
        r matches Some(v) ==> v as int == int_value(s@),
{
    let n = s.unicode_len();
    if n == 0 {
        return None;
    }
    let c0 = s.get_char(0);
    let neg = c0 == '-';
    let start: usize = if c0 == '-' || c0 == '+' {
        1
    } else {
        0
    };
    if start >= n {
        return None;
    }
    let ghost body = s@.subrange(start as int, n as int);
    proof {
        assert(body =~= int_body(s@));
    }
    let mut acc: u128 = 0;
    let mut k: usize = start;
    while k < n
        invariant
            start <= k <= n,
            n == s@.len(),
            start < n,
            body == int_body(s@),
            body.len() == n - start,
            acc == digits_val(body.take(k - start)),
            all_digits(body.take(k - start)),
            acc <= 0x8000_0000_0000_0000,
            (s@[0] == '-' || s@[0] == '+') <==> start == 1,
            neg <==> s@[0] == '-',
        decreases n - k,
    {
        let c = s.get_char(k);
        let u = c as u32;
        if u < 48 || u > 57 {
            proof {
                assert(body[k - start] == s@[k as int]);
                assert(!is_digit(body[k - start]));
            }
            return None;
        }
        proof {
            assert(body.take(k + 1 - start).drop_last() =~= body.take(k - start));
            assert(body.take(k + 1 - start).last() == s@[k as int]);
        }
        acc = acc * 10 + (u - 48) as u128;
        k = k + 1;
        if acc > 0x8000_0000_0000_0000 {
            proof {
                if all_digits(body) {
                    lemma_digits_val_prefix(body, k - start);
                    lemma_digits_val_nonneg(body.take(k - start));
                    assert(digits_val(body) > 0x8000_0000_0000_0000);
                }
            }
            return None;
        }
    }
    proof {
        assert(body.take(n - start) =~= body);
        lemma_digits_val_nonneg(body);
        assert(is_int_text(s@));
    }
    if neg {
        if acc == 0x8000_0000_0000_0000 {
            Some(i64::MIN)
        } else {
            Some(-(acc as i64))
        }
    } else {
        if acc > 0x7FFF_FFFF_FFFF_FFFF {
            proof {
                assert(int_value(s@) > i64::MAX);
            }
            None
        } else {
            Some(acc as i64)
        }
    }
}

/// The character of one decimal digit value.
pub open spec fn digit_char(d: int) -> char {
    if d == 0 {
        '0'
    } else if d == 1 {
        '1'
    } else if d == 2 {
        '2'
    } else if d == 3 {
        '3'
    } else if d == 4 {
        '4'
    } else if d == 5 {
        '5'
    } else if d == 6 {
        '6'
    } else if d == 7 {
        '7'
    } else if d == 8 {
        '8'
    } else {
        '9'
    }
}

/// The decimal digit string of a non-negative value, most significant first.
pub open spec fn dec_digits(n: int) -> Seq<char>
    recommends
        n >= 0,
    decreases n,
{
    if n < 10 {
        seq![digit_char(n)]
    } else {
        dec_digits(n / 10).push(digit_char(n % 10))
    }
}

/// The decimal rendering of an integer, with a leading `-` when negative.
pub open spec fn fmt_int(n: int) -> Seq<char> {
    if n < 0 {
        seq!['-'] + dec_digits(-n)
    } else {
        dec_digits(n)
    }
}

fn digit_str(d: u64) -> (r: &'static str)
    requires
        d < 10,
    ensures
        r@ =~= seq![digit_char(d as int)],
{
    match d {
        0 => {
            proof {
                reveal_strlit("0");
            }
            "0"
        },
        1 => {
            proof {
                reveal_strlit("1");
            }
            "1"
        },
        2 => {
            proof {
                reveal_strlit("2");
            }
            "2"
        },
        3 => {
            proof {
                reveal_strlit("3");
            }
            "3"
        },
        4 => {
            proof {
                reveal_strlit("4");
            }
            "4"
        },
        5 => {
            proof {
                reveal_strlit("5");
            }
            "5"
        },
        6 => {
            proof {
                reveal_strlit("6");
            }
            "6"
        },
        7 => {
            proof {
                reveal_strlit("7");
            }
            "7"
        },
        8 => {
            proof {
                reveal_strlit("8");
            }
            "8"
        },
        _ => {
            proof {
                reveal_strlit("9");
            }
            "9"
        },
    }
}

/// Renders an unsigned value in decimal.
pub fn fmt_u64(n: u64) -> (r: String)
    ensures
        r@ == dec_digits(n as int),
    decreases n,
{
    if n < 10 {
        let r = String::from_str(digit_str(n));
        proof {
            assert(r@ =~= dec_digits(n as int));
        }
        r
    } else {
        let mut r = fmt_u64(n / 10);
        r.append(digit_str(n % 10));
        proof {
            assert(r@ =~= dec_digits(n as int));
        }
        r
    }
}

/// Renders a signed value in decimal, with a leading `-` when negative.
pub fn fmt_i64(n: i64) -> (r: String)
    ensures
        r@ == fmt_int(n as int),
{
    if n >= 0 {
        fmt_u64(n as u64)
    } else {
        let mag: u64 = if n == i64::MIN {
            0x8000_0000_0000_0000u64
        } else {
            (-n) as u64
        };
        let mut r = String::from_str("-");
        let tail = fmt_u64(mag);
        r.append(tail.as_str());
        proof {
            reveal_strlit("-");
            assert(r@ =~= fmt_int(n as int));
        }
        r
    }
}

} // verus!
