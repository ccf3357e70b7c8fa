//! Decimal numerals: formatting a `u64` as its decimal string and reading
//! one back. The record store assigns identifiers with `u64_to_string`, and
//! the form logic reads amount fields with `parse_u64_or_zero`.

use vstd::prelude::*;
use vstd::string::*;

verus! {

/// The character for a single decimal digit (`d < 10`).
pub open spec fn digit_char(d: nat) -> char {
    if d == 0 {
        '0'
    } else if d == 1 {
        '1'
    } else if d == 2 {
        '2'
    } else if d == 3 {
        '3'
    } else if d == 4 {
        '4'
    } else if d == 5 {
        '5'
    } else if d == 6 {
        '6'
    } else if d == 7 {
        '7'
    } else if d == 8 {
        '8'
    } else {
        '9'
    }
}

/// The numeric value of a decimal digit character; ten for any other character.
pub open spec fn digit_val(c: char) -> nat {
    if c == '0' {
        0
    } else if c == '1' {
        1
    } else if c == '2' {
        2
    } else if c == '3' {
        3
    } else if c == '4' {
        4
    } else if c == '5' {
        5
    } else if c == '6' {
        6
    } else if c == '7' {
        7
    } else if c == '8' {
        8
    } else if c == '9' {
        9
    } else {
        10
    }
}

pub open spec fn is_digit(c: char) -> bool {
    digit_val(c) < 10
}

/// The canonical decimal representation of a natural number: most
/// significant digit first, no leading zeros (zero itself is "0").
pub open spec fn decimal_of(n: nat) -> Seq<char>
    decreases n,
{
    if n < 10 {
        seq![digit_char(n)]
    } else {
        decimal_of(n / 10).push(digit_char(n % 10))
    }
}

/// The numeric value of a string of digit characters, most significant first.
pub open spec fn digits_val(s: Seq<char>) -> nat
    decreases s.len(),
{
    if s.len() == 0 {
        0
    } else {
        digits_val(s.drop_last()) * 10 + digit_val(s.last())
    }
}

/// Reading back the decimal representation of `n` yields `n`: `decimal_of`
/// is a section of `digits_val`, so distinct numbers have distinct numerals.
pub proof fn lemma_decimal_of_val(n: nat)
    ensures
        digits_val(decimal_of(n)) == n,
    decreases n,
{
    if n < 10 {
        assert(digits_val(Seq::<char>::empty()) == 0);
        assert(decimal_of(n) == seq![digit_char(n)]);
        assert(decimal_of(n).drop_last() =~= Seq::<char>::empty());
        assert(decimal_of(n).last() == digit_char(n));
        assert(digits_val(decimal_of(n)) == digit_val(digit_char(n)));
    } else {
        lemma_decimal_of_val(n / 10);
        assert(decimal_of(n).drop_last() =~= decimal_of(n / 10));
        assert(decimal_of(n).last() == digit_char(n % 10));
        assert(digits_val(decimal_of(n)) == (n / 10) * 10 + n % 10);
    }
}

/// Distinct numbers have distinct decimal numerals.
pub proof fn lemma_decimal_of_injective(a: nat, b: nat)
    requires
        decimal_of(a) == decimal_of(b),
    ensures
        a == b,
{
    lemma_decimal_of_val(a);
    lemma_decimal_of_val(b);
}

/// Reading a prefix of a digit string never yields more than the whole.
pub proof fn lemma_digits_val_prefix_le(s: Seq<char>, i: int)
    requires
        0 <= i <= s.len(),
    ensures
        digits_val(s.take(i)) <= digits_val(s),
    decreases s.len() - i,
{
    if i < s.len() {
        assert(s.take(i + 1).drop_last() =~= s.take(i));
        assert(digits_val(s.take(i + 1)) == digits_val(s.take(i)) * 10 + digit_val(s[i]));
        lemma_digits_val_prefix_le(s, i + 1);
    } else {
        assert(s.take(i) =~= s);
    }
}

fn digit_str(d: u64) -> (r: &'static str)
    requires
        d < 10,
    ensures
        r@ == seq![digit_char(d as nat)],
{
    proof {
        reveal_strlit("0");
        reveal_strlit("1");
        reveal_strlit("2");
        reveal_strlit("3");
        reveal_strlit("4");
        reveal_strlit("5");
        reveal_strlit("6");
        reveal_strlit("7");
        reveal_strlit("8");
        reveal_strlit("9");
    }
    let r: &'static str = if d == 0 {
        "0"
    } else if d == 1 {
        "1"
    } else if d == 2 {
        "2"
    } else if d == 3 {
        "3"
    } else if d == 4 {
        "4"
    } else if d == 5 {
        "5"
    } else if d == 6 {
        "6"
    } else if d == 7 {
        "7"
    } else if d == 8 {
        "8"
    } else {
        "9"
    };
    proof {
        assert(r@ =~= seq![digit_char(d as nat)]);
    }
    r
}

/// Formats `n` as its decimal numeral.
pub fn u64_to_string(n: u64) -> (r: String)
    ensures
        r@ == decimal_of(n as nat),
    decreases n,
{
    if n < 10 {
        let r = digit_str(n).to_owned();
        proof {
            assert(r@ =~= decimal_of(n as nat));
        }
        r
    } else {
        let prefix = u64_to_string(n / 10);
        let r = prefix.concat(digit_str(n % 10));
        proof {
            assert(r@ =~= decimal_of((n as nat) / 10).push(digit_char((n as nat) % 10)));
        }
        r
    }
}

/// Every character of a non-empty string is a decimal digit.
pub open spec fn is_digit_string(s: Seq<char>) -> bool {
    s.len() > 0 && forall|i: int| 0 <= i < s.len() ==> is_digit(s[i])
}

/// The digit part of a numeral: an optional leading '+' sign is dropped.
pub open spec fn numeral_digits(s: Seq<char>) -> Seq<char> {
    if s.len() > 0 && s[0] == '+' {
        s.subrange(1, s.len() as int)
    } else {
        s
    }
}

/// A numeral that fits in a `u64`: an optional leading '+' sign, then one
/// or more decimal digits, with a value of at most `u64::MAX`.
pub open spec fn is_u64_numeral(s: Seq<char>) -> bool {
    is_digit_string(numeral_digits(s)) && digits_val(numeral_digits(s)) <= u64::MAX
}

/// The value a form field holds after input `s`: the numeral's value, or
/// zero when `s` is not a numeral that fits.
pub open spec fn parse_u64_spec(s: Seq<char>) -> u64 {
    if is_u64_numeral(s) {
        digits_val(numeral_digits(s)) as u64
    } else {
        0
    }
}

/// The numeric value of a digit character; ten for any other character.
pub fn digit_of_char(c: char) -> (d: u64)
    ensures
        d == digit_val(c),
{
    if c == '0' {
        0
    } else if c == '1' {
        1
    } else if c == '2' {
        2
    } else if c == '3' {
        3
    } else if c == '4' {
        4
    } else if c == '5' {
        5
    } else if c == '6' {
        6
    } else if c == '7' {
        7
    } else if c == '8' {
        8
    } else if c == '9' {
        9
    } else {
        10
    }
}

/// Reads a decimal numeral, yielding zero for anything else — the
/// convention the forms use for their amount fields.
pub fn parse_u64_or_zero(s: &str) -> (r: u64)
    ensures
        r == parse_u64_spec(s@),
{
    let len = s.unicode_len();
    if len == 0 {
        return 0;
    }
    let first = s.get_char(0);
    let start: usize = if first == '+' {
        1
    } else {
        0
    };
    if start == len {
        return 0;
    }
    let ghost digits = numeral_digits(s@);
    proof {
        assert(digits.len() == len - start);
    }
    let mut acc: u64 = 0;
    let mut i: usize = start;
    while i < len
        invariant
            start <= i <= len,
            len == s@.len(),
            start == 1 ==> s@.len() > 0 && s@[0] == '+',
            start == 0 ==> !(s@.len() > 0 && s@[0] == '+'),
            start < len,
            digits == numeral_digits(s@),
            digits.len() == len - start,
            forall|j: int| start <= j < i ==> is_digit(s@[j]),
            acc == digits_val(digits.take(i - start)),
        decreases len - i,
    {
        let c = s.get_char(i);
        let d = digit_of_char(c);
        proof {
            assert(digits[i - start] == s@[i as int]);
            assert(digits.take(i - start + 1).drop_last() =~= digits.take(i - start));
            assert(digits_val(digits.take(i - start + 1)) == acc * 10 + digit_val(s@[i as int]));
        }
        if d >= 10 {
            proof {
                assert(!is_digit(digits[i - start]));
            }
            return 0;
        }
        if acc > u64::MAX / 10 {
            proof {
                assert(acc * 10 > (u64::MAX / 10) * 10 + 9 >= u64::MAX);
                lemma_digits_val_prefix_le(digits, i - start + 1);
            }
            return 0;
        }
        let acc10 = acc * 10;
        if d > u64::MAX - acc10 {
            proof {
                lemma_digits_val_prefix_le(digits, i - start + 1);
            }
            return 0;
        }
        acc = acc10 + d;
        i = i + 1;
    }
    proof {
        assert(digits.take(i - start) =~= digits);
        assert(forall|k: int|
            0 <= k < digits.len() ==> digits[k] == s@[k + start] && is_digit(digits[k]));
        assert(is_digit_string(digits));
    }
    acc
}

} // verus!
