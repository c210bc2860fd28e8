//! Decimal text: reading a duration out of the input buffer and printing
//! one into a label, with a proof that the two agree.

use vstd::prelude::*;
use vstd::string::StrSliceExecFns;
use vstd::string::StringExecFns;

verus! {

/// Whether `c` is a decimal digit.
pub open spec fn is_digit(c: char) -> bool {
    '0' as u32 <= c as u32 <= '9' as u32
}

/// The numeric value of a digit character; meaningful only on digits.
pub open spec fn digit_val(c: char) -> int
    recommends
        is_digit(c),
{
    c as u32 - '0' as u32
}

/// Whether every character of `s` is a decimal digit.
pub open spec fn all_digits(s: Seq<char>) -> bool {
    forall|i: int| 0 <= i < s.len() ==> is_digit(#[trigger] s[i])
}

/// The numeric value of a digit string, most significant digit first.
pub open spec fn dec_val(s: Seq<char>) -> int
    recommends
        all_digits(s),
    decreases s.len(),
{
    if s.len() == 0 {
        0
    } else {
        dec_val(s.drop_last()) * 10 + digit_val(s.last())
    }
}

/// The digit character for a value below ten.
pub open spec fn digit_char(d: int) -> char
    recommends
        0 <= d < 10,
{
    if d == 0 {
        '0'
    } else if d == 1 {
        '1'
    } else if d == 2 {
        '2'
    } else if d == 3 {
        '3'
    } else if d == 4 {
        '4'
    } else if d == 5 {
        '5'
    } else if d == 6 {
        '6'
    } else if d == 7 {
        '7'
    } else if d == 8 {
        '8'
    } else {
        '9'
    }
}

/// The decimal text of a non-negative number: no sign, no leading zero
/// except on zero itself.
pub open spec fn dec_str(n: int) -> Seq<char>
    recommends
        0 <= n,
    decreases n,
{
    if n < 10 {
        seq![digit_char(n)]
    } else {
        dec_str(n / 10).push(digit_char(n % 10))
    }
}

/// The value of a digit string is non-negative.
pub proof fn lemma_dec_val_nonneg(s: Seq<char>)
    requires
        all_digits(s),
    ensures
        dec_val(s) >= 0,
    decreases s.len(),
{
    if s.len() > 0 {
        assert(all_digits(s.drop_last()));
        lemma_dec_val_nonneg(s.drop_last());
    }
}

/// The value of a prefix of a digit string is at most the value of the
/// whole string.
pub proof fn lemma_dec_val_prefix_le(s: Seq<char>, i: int)
    requires
        all_digits(s),
        0 <= i <= s.len(),
    ensures
        dec_val(s.subrange(0, i)) <= dec_val(s),
    decreases s.len() - i,
{
    if i == s.len() {
        assert(s.subrange(0, i) =~= s);
    } else {
        let shorter = s.subrange(0, i);
        let longer = s.subrange(0, i + 1);
        assert(longer.drop_last() =~= shorter);
        assert(all_digits(shorter));
        lemma_dec_val_nonneg(shorter);
        assert(dec_val(longer) == dec_val(shorter) * 10 + digit_val(s[i]));
        assert(dec_val(shorter) <= dec_val(longer));
        lemma_dec_val_prefix_le(s, i + 1);
    }
}

/// The digit part of a decimal literal: the string with one optional
/// leading `'+'` sign removed.
pub open spec fn digits_part(s: Seq<char>) -> Seq<char> {
    if s.len() > 0 && s[0] == '+' {
        s.subrange(1, s.len() as int)
    } else {
        s
    }
}

/// Whether `s` is a decimal `usize` literal, in the grammar the duration
/// buffer is parsed by: an optional leading `'+'`, then one or more
/// digits.
pub open spec fn is_dec_literal(s: Seq<char>) -> bool {
    digits_part(s).len() > 0 && all_digits(digits_part(s))
}

/// Whether `s` parses as a `usize`: a decimal literal whose value is in
/// range.
pub open spec fn parses_as_usize(s: Seq<char>) -> bool {
    is_dec_literal(s) && dec_val(digits_part(s)) <= usize::MAX
}

/// Parses a non-negative decimal integer, as the duration entered in the
/// input form is parsed: an optional leading `'+'`, then one or more
/// digits. Returns `Some` exactly when the string is such a literal and
/// its value fits in `usize`, and then the parsed value.
pub fn parse_usize(s: &str) -> (result: Option<usize>)
    ensures
        match result {
            Some(n) => parses_as_usize(s@) && n == dec_val(digits_part(s@)),
            None => !parses_as_usize(s@),
        },
{
    let len = s.unicode_len();
    let mut start: usize = 0;
    if len > 0 && s.get_char(0) == '+' {
        start = 1;
    }
    let ghost digits = digits_part(s@);
    proof {
        assert(digits =~= s@.subrange(start as int, len as int));
    }
    if start >= len {
        return None;
    }
    let mut acc: usize = 0;
    let mut i: usize = start;
    while i < len
        invariant
            start <= i <= len,
            len == s@.len(),
            digits == digits_part(s@),
            digits == s@.subrange(start as int, len as int),
            forall|j: int| 0 <= j < i - start ==> is_digit(#[trigger] digits[j]),
            acc == dec_val(digits.subrange(0, i - start)),
        decreases len - i,
    {
        let ghost k = i - start;
        let c = s.get_char(i);
        let v = c as u32;
        proof {
            assert(digits[k] == s@[i as int]);
        }
        if v < 48 || v > 57 {
            assert(!is_digit(digits[k]));
            return None;
        }
        let d = (v - 48) as usize;
        proof {
            assert(digits.subrange(0, k + 1).drop_last() =~= digits.subrange(0, k));
            assert(digits.subrange(0, k + 1).last() == digits[k]);
        }
        if acc > (usize::MAX - d) / 10 {
            proof {
                let bound = (usize::MAX - d) as int;
                vstd::arithmetic::div_mod::lemma_fundamental_div_mod(bound, 10);
                vstd::arithmetic::div_mod::lemma_mod_bound(bound, 10);
                assert(acc * 10 + d > usize::MAX);
                if all_digits(digits) {
                    lemma_dec_val_prefix_le(digits, k + 1);
                }
            }
            return None;
        }
        proof {
            let bound = (usize::MAX - d) as int;
            vstd::arithmetic::div_mod::lemma_fundamental_div_mod(bound, 10);
            vstd::arithmetic::div_mod::lemma_mod_bound(bound, 10);
            assert(acc * 10 + d <= usize::MAX);
        }
        acc = acc * 10 + d;
        i += 1;
    }
    proof {
        assert(digits.subrange(0, len - start) =~= digits);
    }
    Some(acc)
}

/// The one-character string for a digit value.
fn digit_str(d: usize) -> (s: &'static str)
    requires
        d < 10,
    ensures
        s@ == seq![digit_char(d as int)],
{
    proof {
        reveal_strlit("0");
        reveal_strlit("1");
        reveal_strlit("2");
        reveal_strlit("3");
        reveal_strlit("4");
        reveal_strlit("5");
        reveal_strlit("6");
        reveal_strlit("7");
        reveal_strlit("8");
        reveal_strlit("9");
    }
    let s: &'static str = match d {
        0 => "0",
        1 => "1",
        2 => "2",
        3 => "3",
        4 => "4",
        5 => "5",
        6 => "6",
        7 => "7",
        8 => "8",
        _ => "9",
    };
    proof {
        assert(s@ =~= seq![digit_char(d as int)]);
    }
    s
}

/// Prints a number in decimal, as the duration label does.
pub fn format_usize(n: usize) -> (s: String)
    ensures
        s@ == dec_str(n as int),
    decreases n,
{
    if n < 10 {
        String::from_str(digit_str(n))
    } else {
        let mut s = format_usize(n / 10);
        s.append(digit_str(n % 10));
        proof {
            assert(s@ =~= dec_str(n as int));
        }
        s
    }
}

/// Printing a number and reading it back is the identity: the decimal
/// text of `n` is a non-empty digit string whose value is `n` again.
pub proof fn lemma_dec_str_val(n: int)
    requires
        0 <= n,
    ensures
        all_digits(dec_str(n)),
        dec_str(n).len() > 0,
        dec_val(dec_str(n)) == n,
    decreases n,
{
    if n < 10 {
        let s = dec_str(n);
        reveal_with_fuel(dec_val, 2);
        assert(s.drop_last() =~= Seq::<char>::empty());
        assert(dec_val(s) == digit_val(digit_char(n)));
    } else {
        lemma_dec_str_val(n / 10);
        let prefix = dec_str(n / 10);
        let s = dec_str(n);
        assert(s.drop_last() =~= prefix);
        assert(dec_val(s) == dec_val(prefix) * 10 + digit_val(digit_char(n % 10)));
    }
}

} // verus!
