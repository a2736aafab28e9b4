//! Decimal text for the integers the archiver prints and parses: segment
//! indices, representation identifiers, bandwidths and attribute values.

use vstd::prelude::*;
use vstd::string::*;

verus! {

/// The character for one decimal digit value.
pub open spec fn spec_digit_char(d: int) -> char {
    if d == 0 {
        '0'
    } else if d == 1 {
        '1'
    } else if d == 2 {
        '2'
    } else if d == 3 {
        '3'
    } else if d == 4 {
        '4'
    } else if d == 5 {
        '5'
    } else if d == 6 {
        '6'
    } else if d == 7 {
        '7'
    } else if d == 8 {
        '8'
    } else {
        '9'
    }
}

/// Decimal rendering of a non-negative integer, most significant digit first.
pub open spec fn spec_u64_string(n: int) -> Seq<char>
    decreases n,
{
    if n < 10 {
        seq![spec_digit_char(n)]
    } else {
        spec_u64_string(n / 10).push(spec_digit_char(n % 10))
    }
}

/// Decimal rendering of a signed integer: a minus sign before the magnitude.
pub open spec fn spec_i64_string(n: int) -> Seq<char> {
    if n < 0 {
        seq!['-'] + spec_u64_string(-n)
    } else {
        spec_u64_string(n)
    }
}

pub fn digit_str(d: u64) -> (r: &'static str)
    requires
        d < 10,
    ensures
        r@ == seq![spec_digit_char(d as int)],
{
    let r: &'static str = if d == 0 {
        "0"
    } else if d == 1 {
        "1"
    } else if d == 2 {
        "2"
    } else if d == 3 {
        "3"
    } else if d == 4 {
        "4"
    } else if d == 5 {
        "5"
    } else if d == 6 {
        "6"
    } else if d == 7 {
        "7"
    } else if d == 8 {
        "8"
    } else {
        "9"
    };
    proof {
        reveal_strlit("0");
        reveal_strlit("1");
        reveal_strlit("2");
        reveal_strlit("3");
        reveal_strlit("4");
        reveal_strlit("5");
        reveal_strlit("6");
        reveal_strlit("7");
        reveal_strlit("8");
        reveal_strlit("9");
        assert(r@ =~= seq![spec_digit_char(d as int)]);
    }
    r
}

/// Renders `n` in decimal.
pub fn u64_to_string(n: u64) -> (r: String)
    ensures
        r@ == spec_u64_string(n as int),
    decreases n,
{
    if n < 10 {
        String::from_str(digit_str(n))
    } else {
        let prefix = u64_to_string(n / 10);
        let r = prefix.concat(digit_str(n % 10));
        proof {
            assert(r@ =~= spec_u64_string(n as int));
        }
        r
    }
}

/// Renders `n` in decimal, with a leading minus sign when negative.
pub fn i64_to_string(n: i64) -> (r: String)
    ensures
        r@ == spec_i64_string(n as int),
{
    if n >= 0 {
        u64_to_string(n as u64)
    } else {
        let wide: i128 = n as i128;
        let magnitude: u64 = (-wide) as u64;
        proof {
            assert(magnitude as int == -(n as int));
        }
        let digits = u64_to_string(magnitude);
        let r = String::from_str("-").concat(digits.as_str());
        proof {
            reveal_strlit("-");
            assert(r@ =~= spec_i64_string(n as int));
        }
        r
    }
}

/// Whether `c` is a decimal digit.
pub open spec fn spec_is_digit(c: char) -> bool {
    48 <= c as u32 <= 57
}

/// The value of one decimal digit character.
pub open spec fn spec_digit_val(c: char) -> int {
    c as u32 - 48
}

/// Whether every character of `s` is a decimal digit.
pub open spec fn spec_all_digits(s: Seq<char>) -> bool {
    forall|i: int| 0 <= i < s.len() ==> spec_is_digit(#[trigger] s[i])
}

/// The numeric value of a digit string, most significant digit first.
pub open spec fn spec_digits_val(s: Seq<char>) -> int
    decreases s.len(),
{
    if s.len() == 0 {
        0
    } else {
        spec_digits_val(s.drop_last()) * 10 + spec_digit_val(s.last())
    }
}

/// A digit string's value is non-negative, and extending a digit string never
/// shrinks its value.
proof fn lemma_digits_val_bounds(s: Seq<char>, i: int)
    requires
        spec_all_digits(s),
        0 <= i <= s.len(),
    ensures
        spec_digits_val(s.take(i)) >= 0,
        spec_digits_val(s) >= spec_digits_val(s.take(i)),
    decreases s.len() - i,
{
    if i == 0 {
        assert(s.take(0).len() == 0);
        if s.len() > 0 {
            lemma_digits_val_bounds(s, 1);
            assert(s.take(1).drop_last() =~= s.take(0));
            assert(spec_digits_val(s.take(1)) >= 0);
        }
    } else if i < s.len() {
        lemma_digits_val_bounds(s, i + 1);
        assert(s.take(i + 1).drop_last() =~= s.take(i));
        assert(spec_digit_val(s.take(i + 1).last()) >= 0);
        assert(spec_digits_val(s.take(i + 1)) == spec_digits_val(s.take(i)) * 10 + spec_digit_val(
            s.take(i + 1).last(),
        ));
        lemma_take_prefix_nonneg(s, i);
        assert(spec_digits_val(s.take(i + 1)) >= spec_digits_val(s.take(i)));
    } else {
        assert(s.take(i) =~= s);
        lemma_take_prefix_nonneg(s, i);
    }
}

/// Every prefix of a digit string has a non-negative value.
proof fn lemma_take_prefix_nonneg(s: Seq<char>, i: int)
    requires
        spec_all_digits(s),
        0 <= i <= s.len(),
    ensures
        spec_digits_val(s.take(i)) >= 0,
    decreases i,
{
    if i > 0 {
        lemma_take_prefix_nonneg(s, i - 1);
        assert(s.take(i).drop_last() =~= s.take(i - 1));
        assert(spec_digit_val(s.take(i).last()) >= 0);
    }
}

/// Whether `s` is a decimal string whose value fits in a `u64`.
pub open spec fn spec_valid_u64(s: Seq<char>) -> bool {
    &&& s.len() > 0
    &&& spec_all_digits(s)
    &&& spec_digits_val(s) <= u64::MAX
}

/// Parses an unsigned decimal string; `None` on an empty string, a non-digit
/// character, or a value above `u64::MAX`.
pub fn parse_u64(s: &str) -> (r: Option<u64>)
    ensures
        match r {
            Some(v) => spec_valid_u64(s@) && v as int == spec_digits_val(s@),
            None => !spec_valid_u64(s@),
        },
{
    let n = s.unicode_len();
    if n == 0 {
        return None;
    }
    let mut acc: u64 = 0;
    let mut i: usize = 0;
    while i < n
        invariant
            0 <= i <= n,
            n == s@.len(),
            spec_all_digits(s@.take(i as int)),
            acc as int == spec_digits_val(s@.take(i as int)),
        decreases n - i,
    {
        let c = s.get_char(i);
        let cv = c as u32;
        if cv < 48 || cv > 57 {
            proof {
                assert(!spec_is_digit(s@[i as int]));
            }
            return None;
        }
        let d = (cv - 48) as u64;
        if acc > (u64::MAX - d) / 10 {
            proof {
                assert(s@.take(i as int + 1).drop_last() =~= s@.take(i as int));
                assert(spec_digits_val(s@.take(i as int + 1)) == acc as int * 10 + d as int);
                assert(acc as int * 10 + d as int > u64::MAX) by {
                    assert(acc as int >= (u64::MAX - d) / 10 as int + 1);
                };
                if spec_all_digits(s@) {
                    lemma_digits_val_bounds(s@, i as int + 1);
                    assert(spec_digits_val(s@) > u64::MAX);
                }
            }
            return None;
        }
        acc = acc * 10 + d;
        proof {
            assert(s@.take(i as int + 1).drop_last() =~= s@.take(i as int));
        }
        i = i + 1;
    }
    proof {
        assert(s@.take(n as int) =~= s@);
    }
    Some(acc)
}

/// Whether `s` is a decimal string, with an optional sign, whose value fits in
/// an `i64`.
pub open spec fn spec_valid_i64(s: Seq<char>) -> bool {
    if s.len() > 0 && s[0] == '-' {
        &&& s.len() > 1
        &&& spec_all_digits(s.skip(1))
        &&& spec_digits_val(s.skip(1)) <= 0x8000_0000_0000_0000
    } else if s.len() > 0 && s[0] == '+' {
        &&& s.len() > 1
        &&& spec_all_digits(s.skip(1))
        &&& spec_digits_val(s.skip(1)) <= i64::MAX
    } else {
        &&& s.len() > 0
        &&& spec_all_digits(s)
        &&& spec_digits_val(s) <= i64::MAX
    }
}

/// The value of a signed decimal string.
pub open spec fn spec_i64_val(s: Seq<char>) -> int {
    if s.len() > 0 && s[0] == '-' {
        -spec_digits_val(s.skip(1))
    } else if s.len() > 0 && s[0] == '+' {
        spec_digits_val(s.skip(1))
    } else {
        spec_digits_val(s)
    }
}

/// Parses a signed decimal string as `i64::from_str` does: an optional `+` or
/// `-` sign, then one or more digits, rejecting values out of range.
pub fn parse_i64(s: &str) -> (r: Option<i64>)
    ensures
        match r {
            Some(v) => spec_valid_i64(s@) && v as int == spec_i64_val(s@),
            None => !spec_valid_i64(s@),
        },
{
    let n = s.unicode_len();
    if n == 0 {
        return None;
    }
    let c0 = s.get_char(0);
    if c0 == '-' {
        let rest = s.substring_char(1, n);
        match parse_u64(rest) {
            Some(m) => {
                if m <= 0x8000_0000_0000_0000u64 {
                    let wide: i128 = -(m as i128);
                    Some(wide as i64)
                } else {
                    None
                }
            },
            None => None,
        }
    } else if c0 == '+' {
        let rest = s.substring_char(1, n);
        match parse_u64(rest) {
            Some(m) => {
                if m <= i64::MAX as u64 {
                    Some(m as i64)
                } else {
                    None
                }
            },
            None => None,
        }
    } else {
        match parse_u64(s) {
            Some(m) => {
                if m <= i64::MAX as u64 {
                    proof {
                        assert(s@.len() > 0 && s@[0] != '-' && s@[0] != '+');
                    }
                    Some(m as i64)
                } else {
                    None
                }
            },
            None => None,
        }
    }
}

} // verus!
