//! Which texts are numbers.

use vstd::prelude::*;

use crate::text::chars_of;

verus! {

broadcast use vstd::string::group_string_axioms;

pub open spec fn is_digit(c: char) -> bool {
    '0' <= c && c <= '9'
}

pub open spec fn is_sign(c: char) -> bool {
    c == '+' || c == '-'
}

/// Nothing but digits stands in `s` from `from` to `to`.
pub open spec fn digits(s: Seq<char>, from: int, to: int) -> bool {
    forall|k: int| from <= k < to ==> is_digit(#[trigger] s[k])
}

/// Where the text behind an optional sign begins.
pub open spec fn after_sign(s: Seq<char>, from: int) -> int {
    if from < s.len() && is_sign(s[from]) {
        from + 1
    } else {
        from
    }
}

/// `c` in lower case, if it is an ASCII letter.
pub open spec fn lower(c: char) -> char {
    if 'A' <= c && c <= 'Z' {
        ((c as u32) + 32) as char
    } else {
        c
    }
}

/// From `from` on `s` spells `word`, in upper or lower case.
pub open spec fn spells(s: Seq<char>, from: int, word: Seq<char>) -> bool {
    &&& s.len() - from == word.len()
    &&& forall|k: int| 0 <= k < word.len() ==> lower(s[from + k]) == #[trigger] word[k]
}

/// The digits before an exponent: `i` ends the integer part and `j` the
/// fraction. At least one of the two has a digit.
pub open spec fn is_mantissa(s: Seq<char>, from: int, i: int, j: int) -> bool {
    &&& from <= i <= j <= s.len()
    &&& digits(s, from, i)
    &&& if j == i {
        from < i
    } else {
        s[i] == '.' && digits(s, i + 1, j) && (from < i || i + 1 < j)
    }
}

/// From `from` to its end `s` is an exponent: an `e`, a sign if one is
/// wanted, and digits.
pub open spec fn is_exponent(s: Seq<char>, from: int) -> bool {
    &&& 0 <= from < s.len()
    &&& s[from] == 'e' || s[from] == 'E'
    &&& after_sign(s, from + 1) < s.len()
    &&& digits(s, after_sign(s, from + 1), s.len() as int)
}

/// From `from` to its end `s` is digits with an optional point and exponent.
pub open spec fn is_decimal(s: Seq<char>, from: int) -> bool {
    exists|i: int, j: int| #[trigger]
        is_mantissa(s, from, i, j) && (j == s.len() || is_exponent(s, j))
}

/// The texts that stand for a floating-point number: an optional sign, and
/// either a decimal number or `inf`, `infinity` or `nan` in any case.
pub open spec fn is_float(s: Seq<char>) -> bool {
    let from = after_sign(s, 0);
    ||| spells(s, from, seq!['i', 'n', 'f'])
    ||| spells(s, from, seq!['i', 'n', 'f', 'i', 'n', 'i', 't', 'y'])
    ||| spells(s, from, seq!['n', 'a', 'n'])
    ||| is_decimal(s, from)
}

/// The number that the digits of `s` from `from` to `to` stand for.
pub open spec fn digits_value(s: Seq<char>, from: int, to: int) -> nat
    decreases to - from,
{
    if to <= from {
        0
    } else {
        digits_value(s, from, to - 1) * 10 + (s[to - 1] as nat - '0' as nat) as nat
    }
}

/// The largest number whose negative is a 64-bit integer.
pub const MOST_NEGATIVE: u64 = 9_223_372_036_854_775_808;

/// The largest 64-bit integer.
pub const MOST_POSITIVE: u64 = 9_223_372_036_854_775_807;

/// The texts that stand for a 64-bit integer: an optional sign and at least
/// one digit, of a number that fits.
pub open spec fn is_integer(s: Seq<char>) -> bool {
    let from = after_sign(s, 0);
    &&& from < s.len()
    &&& digits(s, from, s.len() as int)
    &&& digits_value(s, from, s.len() as int) <= if s[0] == '-' {
        MOST_NEGATIVE as nat
    } else {
        MOST_POSITIVE as nat
    }
}

fn char_is_digit(c: char) -> (r: bool)
    ensures
        r == is_digit(c),
{
    '0' <= c && c <= '9'
}

fn skip_sign(cs: &Vec<char>, from: usize) -> (r: usize)
    requires
        from <= cs.len(),
    ensures
        r == after_sign(cs@, from as int),
        from <= r <= cs.len(),
{
    if from < cs.len() && (cs[from] == '+' || cs[from] == '-') {
        from + 1
    } else {
        from
    }
}

/// Finds the end of a run of digits.
fn skip_digits(cs: &Vec<char>, from: usize) -> (r: usize)
    requires
        from <= cs.len(),
    ensures
        from <= r <= cs.len(),
        digits(cs@, from as int, r as int),
        r < cs.len() ==> !is_digit(cs@[r as int]),
{
    let mut i: usize = from;
    while i < cs.len() && char_is_digit(cs[i])
        invariant
            from <= i <= cs.len(),
            digits(cs@, from as int, i as int),
        decreases cs.len() - i,
    {
        i += 1;
    }
    i
}

/// Compares a character with a lower-case letter, whatever its own case.
fn is_letter(c: char, small: char, large: char) -> (r: bool)
    requires
        'a' <= small && small <= 'z',
        large as u32 + 32 == small as u32,
    ensures
        r == (lower(c) == small),
{
    c == small || c == large
}

fn spells_special(cs: &Vec<char>, from: usize) -> (r: bool)
    requires
        from <= cs.len(),
    ensures
        r == (spells(cs@, from as int, seq!['i', 'n', 'f']) || spells(
            cs@,
            from as int,
            seq!['i', 'n', 'f', 'i', 'n', 'i', 't', 'y'],
        ) || spells(cs@, from as int, seq!['n', 'a', 'n'])),
{
    let n: usize = cs.len() - from;
    let ghost inf = seq!['i', 'n', 'f'];
    let ghost infinity = seq!['i', 'n', 'f', 'i', 'n', 'i', 't', 'y'];
    let ghost nan = seq!['n', 'a', 'n'];
    if n == 3 {
        let a = is_letter(cs[from], 'i', 'I') && is_letter(cs[from + 1], 'n', 'N') && is_letter(
            cs[from + 2],
            'f',
            'F',
        );
        let b = is_letter(cs[from], 'n', 'N') && is_letter(cs[from + 1], 'a', 'A') && is_letter(
            cs[from + 2],
            'n',
            'N',
        );
        proof {
            assert(inf[0] == 'i' && inf[1] == 'n' && inf[2] == 'f');
            assert(nan[0] == 'n' && nan[1] == 'a' && nan[2] == 'n');
            assert(a == spells(cs@, from as int, inf));
            assert(b == spells(cs@, from as int, nan));
        }
        a || b
    } else if n == 8 {
        let a = is_letter(cs[from], 'i', 'I') && is_letter(cs[from + 1], 'n', 'N') && is_letter(
            cs[from + 2],
            'f',
            'F',
        ) && is_letter(cs[from + 3], 'i', 'I') && is_letter(cs[from + 4], 'n', 'N') && is_letter(
            cs[from + 5],
            'i',
            'I',
        ) && is_letter(cs[from + 6], 't', 'T') && is_letter(cs[from + 7], 'y', 'Y');
        proof {
            assert(infinity[0] == 'i' && infinity[1] == 'n' && infinity[2] == 'f' && infinity[3]
                == 'i' && infinity[4] == 'n' && infinity[5] == 'i' && infinity[6] == 't'
                && infinity[7] == 'y');
            assert(a == spells(cs@, from as int, infinity));
        }
        a
    } else {
        false
    }
}

fn ends_as_exponent(cs: &Vec<char>, from: usize) -> (r: bool)
    requires
        from < cs.len(),
    ensures
        r == is_exponent(cs@, from as int),
{
    if cs[from] != 'e' && cs[from] != 'E' {
        return false;
    }
    let start = skip_sign(cs, from + 1);
    start < cs.len() && skip_digits(cs, start) == cs.len()
}

/// A mantissa that ends where the text ends or an exponent begins is as long
/// as it can be.
proof fn mantissa_is_unique(s: Seq<char>, from: int, i: int, j: int, i2: int, j2: int)
    requires
        0 <= from <= i <= s.len(),
        digits(s, from, i),
        i < s.len() ==> !is_digit(s[i]),
        i < s.len() && s[i] == '.' ==> i < j <= s.len() && digits(s, i + 1, j) && (j < s.len()
            ==> !is_digit(s[j])),
        !(i < s.len() && s[i] == '.') ==> j == i,
        is_mantissa(s, from, i2, j2),
        j2 == s.len() || is_exponent(s, j2),
    ensures
        i == i2,
        j == j2,
{
    if i2 < i {
        assert(is_digit(s[i2]));
    }
    if i < i2 {
        assert(is_digit(s[i]));
    }
    if i < s.len() && s[i] == '.' {
        if j2 == i {
            assert(is_exponent(s, j2));
        }
        if j2 < j && i < j2 {
            assert(is_digit(s[j2]));
        }
        if j < j2 {
            assert(is_digit(s[j]));
        }
    }
}

fn ends_as_decimal(cs: &Vec<char>, from: usize) -> (r: bool)
    requires
        from <= cs.len(),
    ensures
        r == is_decimal(cs@, from as int),
{
    let i = skip_digits(cs, from);
    let mut j: usize = i;
    if i < cs.len() && cs[i] == '.' {
        j = skip_digits(cs, i + 1);
    }
    let some_digit = from < i || (j > i && i + 1 < j);
    let r = some_digit && (j == cs.len() || ends_as_exponent(cs, j));
    proof {
        if r {
            assert(is_mantissa(cs@, from as int, i as int, j as int));
        }
        if is_decimal(cs@, from as int) {
            let (i2, j2) = choose|i2: int, j2: int| #[trigger]
                is_mantissa(cs@, from as int, i2, j2) && (j2 == cs@.len() || is_exponent(cs@, j2));
            mantissa_is_unique(cs@, from as int, i as int, j as int, i2, j2);
        }
    }
    r
}

/// Whether a text stands for a floating-point number.
pub fn parses_as_float(input: &str) -> (r: bool)
    ensures
        r == is_float(input@),
{
    let cs = chars_of(input);
    let from = skip_sign(&cs, 0);
    spells_special(&cs, from) || ends_as_decimal(&cs, from)
}

/// More digits make no smaller number.
proof fn digits_value_grows(s: Seq<char>, from: int, to: int, end: int)
    requires
        from <= to <= end,
    ensures
        digits_value(s, from, to) <= digits_value(s, from, end),
    decreases end - to,
{
    if to < end {
        digits_value_grows(s, from, to, end - 1);
    }
}

/// Whether a text stands for a 64-bit integer.
pub fn parses_as_integer(input: &str) -> (r: bool)
    ensures
        r == is_integer(input@),
{
    let cs = chars_of(input);
    let from = skip_sign(&cs, 0);
    if from >= cs.len() {
        return false;
    }
    let limit: u64 = if cs[0] == '-' {
        MOST_NEGATIVE
    } else {
        MOST_POSITIVE
    };
    let mut value: u64 = 0;
    let mut i: usize = from;
    while i < cs.len()
        invariant
            from <= i <= cs.len(),
            from < cs.len(),
            cs@ == input@,
            from == after_sign(cs@, 0),
            limit == if cs@[0] == '-' {
                MOST_NEGATIVE
            } else {
                MOST_POSITIVE
            },
            digits(cs@, from as int, i as int),
            value == digits_value(cs@, from as int, i as int),
            value <= limit,
        decreases cs.len() - i,
    {
        let c = cs[i];
        if !char_is_digit(c) {
            assert(!is_digit(cs@[i as int]));
            return false;
        }
        let d: u64 = (c as u32 - '0' as u32) as u64;
        assert(digits_value(cs@, from as int, i + 1) == value * 10 + d);
        if value > (limit - d) / 10 {
            proof {
                digits_value_grows(cs@, from as int, i + 1, cs@.len() as int);
            }
            return false;
        }
        value = value * 10 + d;
        i += 1;
    }
    true
}

} // verus!
