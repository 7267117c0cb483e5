//! Parsing of string-encoded integers, matching the standard decimal
//! grammar: an optional sign, then one or more digits, and the value must
//! fit the target type.

use vstd::prelude::*;

verus! {

/// Whether `c` is a decimal digit.
pub open spec fn is_dec_digit(c: char) -> bool {
    '0' <= c <= '9'
}

/// The numeric value of a digit character.
pub open spec fn digit_val(c: char) -> nat {
    (c as nat - '0' as nat) as nat
}

/// Whether every character of `s` is a decimal digit.
pub open spec fn all_digits(s: Seq<char>) -> bool {
    forall|i: int| 0 <= i < s.len() ==> is_dec_digit(#[trigger] s[i])
}

/// The value of a digit string, most significant digit first.
pub open spec fn digits_val(s: Seq<char>) -> nat
    decreases s.len(),
{
    if s.len() == 0 {
        0
    } else {
        digits_val(s.drop_last()) * 10 + digit_val(s.last())
    }
}

/// The digit part of an integer literal: everything after an optional
/// leading sign character.
pub open spec fn digits_part(s: Seq<char>) -> Seq<char> {
    if s.len() > 0 && (s[0] == '+' || s[0] == '-') {
        s.drop_first()
    } else {
        s
    }
}

/// Whether `s` is a well-formed unsigned or signed integer literal:
/// an optional sign followed by at least one digit.
pub open spec fn is_int_literal(s: Seq<char>) -> bool {
    digits_part(s).len() > 0 && all_digits(digits_part(s))
}

/// The mathematical value of an integer literal.
pub open spec fn int_literal_val(s: Seq<char>) -> int {
    if s.len() > 0 && s[0] == '-' {
        -(digits_val(digits_part(s)) as int)
    } else {
        digits_val(digits_part(s)) as int
    }
}

/// What parsing `s` as a `u32` returns: the value when `s` is a non-negative
/// integer literal that fits, `None` otherwise.
pub open spec fn spec_parse_u32(s: Seq<char>) -> Option<u32> {
    if is_int_literal(s) && !(s.len() > 0 && s[0] == '-') && int_literal_val(s) <= u32::MAX {
        Some(int_literal_val(s) as u32)
    } else {
        None
    }
}

/// What parsing `s` as an `i32` returns: the value when `s` is an integer
/// literal that fits, `None` otherwise.
pub open spec fn spec_parse_i32(s: Seq<char>) -> Option<i32> {
    if is_int_literal(s) && i32::MIN <= int_literal_val(s) <= i32::MAX {
        Some(int_literal_val(s) as i32)
    } else {
        None
    }
}

/// An integer literal consists of sign and digit characters only, all ASCII.
proof fn lemma_literal_is_ascii(s: &str)
    requires
        is_int_literal(s@),
    ensures
        vstd::string::is_ascii(s),
{
    let v = s@;
    assert forall|i: int| 0 <= i < v.len() implies '\0' <= #[trigger] v[i] <= '\u{7f}' by {
        if v.len() > 0 && (v[0] == '+' || v[0] == '-') {
            if i != 0 {
                assert(digits_part(v)[i - 1] == v[i]);
                assert(is_dec_digit(v[i]));
            }
        } else {
            assert(digits_part(v)[i] == v[i]);
            assert(is_dec_digit(v[i]));
        }
    }
}

/// The value of a digit string never shrinks when more digits follow.
proof fn lemma_digits_val_prefix(s: Seq<char>, i: int)
    requires
        0 <= i <= s.len(),
    ensures
        digits_val(s.subrange(0, i)) <= digits_val(s),
    decreases s.len() - i,
{
    if i < s.len() {
        lemma_digits_val_prefix(s, i + 1);
        assert(s.subrange(0, i + 1).drop_last() =~= s.subrange(0, i));
        assert(digits_val(s.subrange(0, i + 1)) == digits_val(s.subrange(0, i)) * 10 + digit_val(
            s.subrange(0, i + 1).last(),
        ));
    } else {
        assert(s.subrange(0, i) =~= s);
    }
}

/// Accumulates the value of the digit characters `s[from..]`, bailing out on
/// the first non-digit or when the value exceeds `u32::MAX`.
fn parse_digits(s: &str, from: usize) -> (r: Option<u32>)
    requires
        s.is_ascii(),
        from <= s@.len(),
    ensures
        ({
            let d = s@.subrange(from as int, s@.len() as int);
            match r {
                Some(v) => d.len() > 0 && all_digits(d) && digits_val(d) == v,
                None => d.len() == 0 || !all_digits(d) || digits_val(d) > u32::MAX,
            }
        }),
{
    let ghost d = s@.subrange(from as int, s@.len() as int);
    let n = s.as_bytes().len();
    proof {
        vstd::string::is_ascii_spec_bytes(s);
        assert(n == s@.len());
    }
    if from >= n {
        return None;
    }
    let mut acc: u32 = 0;
    let mut i = from;
    while i < n
        invariant
            s.is_ascii(),
            from <= i <= n,
            n == s@.len(),
            d == s@.subrange(from as int, s@.len() as int),
            all_digits(d.subrange(0, i - from)),
            acc == digits_val(d.subrange(0, i - from)),
        decreases n - i,
    {
        let b = s.get_ascii(i);
        proof {
            assert(s@[i as int] == b as char);
            assert(d[i - from] == s@[i as int]);
        }
        if b < 48 || b > 57 {
            proof {
                assert(!is_dec_digit(d[i - from]));
            }
            return None;
        }
        let dv: u32 = (b - 48) as u32;
        proof {
            assert(is_dec_digit(d[i - from]));
            assert(digit_val(d[i - from]) == dv);
        }
        if acc > (u32::MAX - dv) / 10 {
            proof {
                assert(d.subrange(0, i - from + 1).drop_last() =~= d.subrange(0, i - from));
                assert(digits_val(d.subrange(0, i - from + 1)) == acc * 10 + dv);
                assert(digits_val(d.subrange(0, i - from + 1)) > u32::MAX);
                lemma_digits_val_prefix(d, i - from + 1);
            }
            return None;
        }
        proof {
            assert(d.subrange(0, i - from + 1).drop_last() =~= d.subrange(0, i - from));
        }
        acc = acc * 10 + dv;
        i = i + 1;
    }
    proof {
        assert(d.subrange(0, i - from) =~= d);
    }
    Some(acc)
}

/// Parses `s` as a non-negative 32-bit integer, exactly when `s` is an
/// optional `'+'` followed by digits whose value fits a `u32`.
pub fn parse_u32(s: &str) -> (r: Option<u32>)
    ensures
        r == spec_parse_u32(s@),
{
    if !s.is_ascii() {
        proof {
            if is_int_literal(s@) {
                lemma_literal_is_ascii(s);
            }
        }
        return None;
    }
    let n = s.as_bytes().len();
    proof {
        vstd::string::is_ascii_spec_bytes(s);
    }
    if n == 0 {
        return None;
    }
    let first = s.get_ascii(0);
    proof {
        assert(s@[0] == first as char);
    }
    if first == 45 {
        return None;
    }
    let start: usize = if first == 43 {
        1
    } else {
        0
    };
    proof {
        assert(s@.subrange(start as int, s@.len() as int) =~= digits_part(s@));
    }
    match parse_digits(s, start) {
        Some(v) => Some(v),
        None => None,
    }
}

/// Parses `s` as a signed 32-bit integer, exactly when `s` is an optional
/// sign followed by digits whose value fits an `i32`.
pub fn parse_i32(s: &str) -> (r: Option<i32>)
    ensures
        r == spec_parse_i32(s@),
{
    if !s.is_ascii() {
        proof {
            if is_int_literal(s@) {
                lemma_literal_is_ascii(s);
            }
        }
        return None;
    }
    let n = s.as_bytes().len();
    proof {
        vstd::string::is_ascii_spec_bytes(s);
    }
    if n == 0 {
        return None;
    }
    let first = s.get_ascii(0);
    proof {
        assert(s@[0] == first as char);
    }
    let negative = first == 45;
    let start: usize = if first == 43 || first == 45 {
        1
    } else {
        0
    };
    proof {
        assert(s@.subrange(start as int, s@.len() as int) =~= digits_part(s@));
    }
    match parse_digits(s, start) {
        Some(v) => {
            if negative {
                if v > 2147483648 {
                    None
                } else if v == 2147483648 {
                    Some(i32::MIN)
                } else {
                    Some(-(v as i32))
                }
            } else {
                if v > 2147483647 {
                    None
                } else {
                    Some(v as i32)
                }
            }
        },
        None => {
            proof {
                let ghost dp = digits_part(s@);
                if is_int_literal(s@) && i32::MIN <= int_literal_val(s@) <= i32::MAX {
                    assert(digits_val(dp) <= 2147483648);
                }
            }
            None
        },
    }
}

} // verus!
