//! Which texts are numbers, and what kinds are called.

use vstd::prelude::*;

#[allow(unused_imports)]
use crate::commands::env_add::is_value_for;
#[allow(unused_imports)]
use crate::laws::lines::numbers_read_back;
#[allow(unused_imports)]
use crate::models::{env_spec, CmdVarKind, EnvKind};
#[allow(unused_imports)]
use crate::number::{
    after_sign, digits, digits_value, is_decimal, is_digit, is_exponent, is_float, is_integer,
    is_mantissa, lower, spells,
};
#[allow(unused_imports)]
use crate::placeholder::kind_of_letter;
#[allow(unused_imports)]
use crate::text::{begins_with, decimal, signed_decimal};

verus! {

broadcast use vstd::string::group_string_axioms;

/// A text of digits only, and at least one.
pub open spec fn is_digits(s: Seq<char>) -> bool {
    s.len() > 0 && forall|i: int| 0 <= i < s.len() ==> '0' <= #[trigger] s[i] && s[i] <= '9'
}

/// A text with a sign in front, or without.
pub open spec fn signed(sign: Option<bool>, s: Seq<char>) -> Seq<char> {
    match sign {
        None => s,
        Some(false) => seq!['+'] + s,
        Some(true) => seq!['-'] + s,
    }
}

proof fn digits_hold(s: Seq<char>, from: int, d: Seq<char>)
    requires
        0 <= from,
        from + d.len() <= s.len(),
        is_digits(d),
        forall|i: int| 0 <= i < d.len() ==> s[from + i] == #[trigger] d[i],
    ensures
        digits(s, from, from + d.len()),
{
    assert forall|k: int| from <= k < from + d.len() implies is_digit(#[trigger] s[k]) by {
        assert(s[from + (k - from)] == d[k - from]);
    }
}

/// The value of digits does not depend on where they stand.
proof fn value_moves(s: Seq<char>, from: int, d: Seq<char>, n: int)
    requires
        0 <= from,
        0 <= n <= d.len(),
        from + n <= s.len(),
        forall|i: int| 0 <= i < n ==> s[from + i] == #[trigger] d[i],
    ensures
        digits_value(s, from, from + n) == digits_value(d, 0, n),
    decreases n,
{
    if n > 0 {
        value_moves(s, from, d, n - 1);
        assert(s[from + (n - 1)] == d[n - 1]);
    }
}

/// A text of digits, with a sign or without, is an integer exactly if its
/// number fits into 64 bits. Every such number is an integer when written out.
pub proof fn integers_are_digits_that_fit(sign: Option<bool>, d: Seq<char>)
    requires
        is_digits(d),
    ensures
        is_integer(signed(sign, d)) <==> digits_value(d, 0, d.len() as int) <= if sign == Some(
            true,
        ) {
            9_223_372_036_854_775_808nat
        } else {
            9_223_372_036_854_775_807nat
        },
{
    let s = signed(sign, d);
    let from: int = if sign is None {
        0
    } else {
        1
    };
    assert(d[0] != '+' && d[0] != '-');
    assert(after_sign(s, 0) == from);
    assert forall|i: int| 0 <= i < d.len() implies s[from + i] == #[trigger] d[i] by {}
    digits_hold(s, from, d);
    value_moves(s, from, d, d.len() as int);
    assert(from + d.len() == s.len());
}

/// Every 64-bit integer is one when it is written out, and no larger number is.
pub proof fn written_integers_are_integers(n: int)
    ensures
        is_integer(signed_decimal(n)) <==> -9_223_372_036_854_775_808 <= n
            <= 9_223_372_036_854_775_807,
{
    let m = if n < 0 {
        (-n) as nat
    } else {
        n as nat
    };
    numbers_read_back(m);
    let d = decimal(m);
    assert forall|i: int| 0 <= i < d.len() implies '0' <= #[trigger] d[i] && d[i]
            <= '9' by {
        assert(is_digit(d[i]));
    }
    let sign = if n < 0 {
        Some(true)
    } else {
        None
    };
    assert(signed_decimal(n) == signed(sign, d));
    integers_are_digits_that_fit(sign, d);
}

/// An integer holds nothing but digits behind its sign. What holds anything
/// else, or no digit, is none.
pub proof fn integers_hold_digits_only(s: Seq<char>)
    requires
        is_integer(s),
    ensures
        is_digits(s) || (s.len() > 1 && (s[0] == '+' || s[0] == '-') && is_digits(s.skip(1))),
        is_float(s),
{
    let from = after_sign(s, 0);
    assert(is_mantissa(s, from, s.len() as int, s.len() as int));
    if from == 0 {
        assert forall|i: int| 0 <= i < s.len() implies '0' <= #[trigger] s[i] && s[i]
            <= '9' by {
            assert(is_digit(s[i]));
        }
    } else {
        let rest = s.skip(1);
        assert forall|i: int| 0 <= i < rest.len() implies '0' <= #[trigger] rest[i] && rest[i]
            <= '9' by {
            assert(is_digit(s[i + 1]));
        }
    }
}

/// The digits before an exponent, written with a point or without.
pub open spec fn is_plain(m: Seq<char>) -> bool {
    ||| is_digits(m)
    ||| exists|a: Seq<char>, b: Seq<char>|
        m == #[trigger] pointed(a, b) && (a.len() == 0 || is_digits(a)) && (b.len() == 0
            || is_digits(b)) && a.len() + b.len() > 0
}

/// Two texts with a point between them.
pub open spec fn pointed(a: Seq<char>, b: Seq<char>) -> Seq<char> {
    a + seq!['.'] + b
}

proof fn plain_is_mantissa(s: Seq<char>, from: int, m: Seq<char>) -> (i: int)
    requires
        0 <= from,
        from + m.len() <= s.len(),
        is_plain(m),
        forall|k: int| 0 <= k < m.len() ==> s[from + k] == #[trigger] m[k],
    ensures
        is_mantissa(s, from, i, from + m.len()),
        m.len() > 0,
        m[0] != '+',
        m[0] != '-',
{
    if is_digits(m) {
        digits_hold(s, from, m);
        from + m.len()
    } else {
        let (a, b) = choose|a: Seq<char>, b: Seq<char>|
            m == #[trigger] pointed(a, b) && (a.len() == 0 || is_digits(a)) && (b.len() == 0
                || is_digits(b)) && a.len() + b.len() > 0;
        let i = from + a.len();
        if a.len() > 0 {
            assert forall|k: int| 0 <= k < a.len() implies s[from + k] == #[trigger] a[k] by {
                assert(m[k] == a[k]);
            }
            digits_hold(s, from, a);
        }
        assert(m[a.len() as int] == '.');
        assert(s[from + a.len()] == '.');
        if b.len() > 0 {
            assert forall|k: int| 0 <= k < b.len() implies s[i + 1 + k] == #[trigger] b[k] by {
                assert(m[a.len() + 1 + k] == b[k]);
                assert(s[from + (a.len() + 1 + k)] == m[a.len() + 1 + k]);
            }
            digits_hold(s, i + 1, b);
        }
        assert(from + m.len() == i + 1 + b.len());
        assert(m[0] == if a.len() > 0 {
            a[0]
        } else {
            '.'
        });
        i
    }
}

/// Digits with a point anywhere among them or without, with a sign or without,
/// are a number, and so is that with an exponent.
pub proof fn written_decimals_are_numbers(
    sign: Option<bool>,
    m: Seq<char>,
    large: bool,
    exponent_sign: Option<bool>,
    e: Seq<char>,
)
    requires
        is_plain(m),
        is_digits(e),
    ensures
        is_float(signed(sign, m)),
        is_float(
            signed(
                sign,
                m + seq![
                    if large {
                        'E'
                    } else {
                        'e'
                    },
                ] + signed(exponent_sign, e),
            ),
        ),
{
    let from: int = if sign is None {
        0
    } else {
        1
    };
    let s = signed(sign, m);
    assert forall|k: int| 0 <= k < m.len() implies s[from + k] == #[trigger] m[k] by {}
    let i = plain_is_mantissa(s, from, m);
    assert(after_sign(s, 0) == from);
    assert(is_mantissa(s, from, i, s.len() as int));
    let letter = if large {
        'E'
    } else {
        'e'
    };
    let x = signed(exponent_sign, e);
    let t = signed(sign, m + seq![letter] + x);
    assert forall|k: int| 0 <= k < m.len() implies t[from + k] == #[trigger] m[k] by {}
    let j = plain_is_mantissa(t, from, m);
    assert(after_sign(t, 0) == from);
    let at = from + m.len();
    assert(t[at] == letter);
    let start = at + 1 + if exponent_sign is None {
        0int
    } else {
        1int
    };
    assert(e[0] != '+' && e[0] != '-');
    assert forall|k: int| 0 <= k < x.len() implies t[at + 1 + k] == #[trigger] x[k] by {}
    assert(x.len() > 0);
    assert(t[at + 1 + 0] == x[0]);
    assert(after_sign(t, at + 1) == start);
    assert forall|k: int| 0 <= k < e.len() implies t[start + k] == #[trigger] e[k] by {
        if exponent_sign is None {
            assert(x[k] == e[k]);
        } else {
            assert(x[k + 1] == e[k]);
            assert(t[at + 1 + (k + 1)] == x[k + 1]);
        }
    }
    digits_hold(t, start, e);
    assert(start + e.len() == t.len());
    assert(is_exponent(t, at));
    assert(is_mantissa(t, from, j, at));
}

/// A number holds nothing but digits, signs, a point and letters, and unless
/// it is infinite or none at all it holds a digit. So nothing with a space, an
/// empty text or a mere sign is a number.
pub proof fn numbers_hold_digits(s: Seq<char>)
    requires
        is_float(s),
    ensures
        s.len() > 0,
        forall|i: int|
            0 <= i < s.len() ==> {
                let c = #[trigger] s[i];
                ||| 0x30 <= c as u32 <= 0x39
                ||| c == '+' || c == '-' || c == '.'
                ||| 0x41 <= c as u32 <= 0x5a || 0x61 <= c as u32 <= 0x7a
            },
        (exists|i: int| 0 <= i < s.len() && 0x30 <= (#[trigger] s[i]) as u32 <= 0x39) || (exists|
            i: int,
        |
            0 <= i < s.len() && (#[trigger] s[i] == 'n' || s[i] == 'N')),
{
    let from = after_sign(s, 0);
    if is_decimal(s, from) {
        let (i, j) = choose|i: int, j: int| #[trigger]
            is_mantissa(s, from, i, j) && (j == s.len() || is_exponent(s, j));
        assert forall|k: int| 0 <= k < s.len() implies {
            let c = #[trigger] s[k];
            ||| 0x30 <= c as u32 <= 0x39
            ||| c == '+' || c == '-' || c == '.'
            ||| 0x41 <= c as u32 <= 0x5a || 0x61 <= c as u32 <= 0x7a
        } by {
            if from <= k < i {
                assert(is_digit(s[k]));
            } else if i < k < j {
                assert(is_digit(s[k]));
            } else if j < k {
                if after_sign(s, j + 1) <= k {
                    assert(is_digit(s[k]));
                }
            }
        }
        if from < i {
            assert(is_digit(s[from]));
        } else {
            assert(is_digit(s[i + 1]));
        }
    } else {
        let inf = seq!['i', 'n', 'f'];
        let infinity = seq!['i', 'n', 'f', 'i', 'n', 'i', 't', 'y'];
        let nan = seq!['n', 'a', 'n'];
        let word = if spells(s, from, inf) {
            inf
        } else if spells(s, from, infinity) {
            infinity
        } else {
            nan
        };
        assert(spells(s, from, word));
        assert forall|k: int| 0 <= k < s.len() implies {
            let c = #[trigger] s[k];
            ||| 0x30 <= c as u32 <= 0x39
            ||| c == '+' || c == '-' || c == '.'
            ||| 0x41 <= c as u32 <= 0x5a || 0x61 <= c as u32 <= 0x7a
        } by {
            if k >= from {
                assert(lower(s[from + (k - from)]) == word[k - from]);
                let c = word[k - from];
                assert(c == 'i' || c == 'n' || c == 'f' || c == 't' || c == 'y' || c == 'a');
            }
        }
        assert(lower(s[from + 0]) == word[0]);
        assert(lower(s[from + 1]) == word[1]);
        if word[0] == 'n' {
            assert(s[from] == 'n' || s[from] == 'N');
        } else {
            assert(word[1] == 'n');
            assert(s[from + 1] == 'n' || s[from + 1] == 'N');
        }
    }
}

/// What is called infinite or no number, in letters of any case, is a number
/// too.
pub proof fn special_numbers_are_numbers(sign: Option<bool>, word: Seq<char>)
    requires
        ({
            let small = Seq::new(word.len(), |i: int| lower(word[i]));
            small == "inf"@ || small == "infinity"@ || small == "nan"@
        }),
    ensures
        is_float(signed(sign, word)),
{
    reveal_strlit("inf");
    reveal_strlit("infinity");
    reveal_strlit("nan");
    let small = Seq::new(word.len(), |i: int| lower(word[i]));
    let s = signed(sign, word);
    let from: int = if sign is None {
        0
    } else {
        1
    };
    let target = if small == "inf"@ {
        seq!['i', 'n', 'f']
    } else if small == "infinity"@ {
        seq!['i', 'n', 'f', 'i', 'n', 'i', 't', 'y']
    } else {
        seq!['n', 'a', 'n']
    };
    assert(small =~= target);
    assert(lower(word[0]) == small[0]);
    assert(word[0] != '+' && word[0] != '-');
    assert(after_sign(s, 0) == from);
    assert forall|k: int| 0 <= k < target.len() implies lower(s[from + k]) == #[trigger] target[k] by {
        assert(small[k] == lower(word[k]));
    }
    assert(spells(s, from, target));
}

/// A text or a secret may be anything, a whole number is an integer, and any
/// other number is a number.
pub proof fn numbers_are_checked_by_kind(value: Seq<char>)
    ensures
        is_value_for(EnvKind::Secret, value),
        is_value_for(EnvKind::Text, value),
        is_value_for(EnvKind::NumberInt, value) <==> is_integer(value),
        is_value_for(EnvKind::NumberFloat, value) <==> is_float(value),
{
}

/// What the kinds of envs are called, and nothing else is the name of one.
pub proof fn env_kinds_have_their_names(s: Seq<char>)
    ensures
        EnvKind::of_text("secret"@) == Some(EnvKind::Secret),
        EnvKind::of_text("text"@) == Some(EnvKind::Text),
        EnvKind::of_text("number_float"@) == Some(EnvKind::NumberFloat),
        EnvKind::of_text("number_int"@) == Some(EnvKind::NumberInt),
        s != "secret"@ && s != "text"@ && s != "number_float"@ && s != "number_int"@
            ==> EnvKind::of_text(s) is None,
        forall|kind: EnvKind| EnvKind::of_text(#[trigger] kind.text()) == Some(kind),
{
    assert forall|kind: EnvKind| EnvKind::of_text(#[trigger] kind.text()) == Some(kind) by {
        crate::models::env_kind_round_trip(kind);
    }
    crate::models::env_kind_round_trip(EnvKind::Secret);
    crate::models::env_kind_round_trip(EnvKind::Text);
    crate::models::env_kind_round_trip(EnvKind::NumberFloat);
    crate::models::env_kind_round_trip(EnvKind::NumberInt);
    assert(EnvKind::Secret.text() == "secret"@);
    assert(EnvKind::Text.text() == "text"@);
    assert(EnvKind::NumberFloat.text() == "number_float"@);
    assert(EnvKind::NumberInt.text() == "number_int"@);
}

/// What the kinds of variables are called, and which letter stands for which.
pub proof fn variable_kinds_have_their_names(s: Seq<char>, c: char)
    ensures
        CmdVarKind::of_text("secret"@) == Some(CmdVarKind::Secret),
        CmdVarKind::of_text("text"@) == Some(CmdVarKind::Text),
        CmdVarKind::of_text("number"@) == Some(CmdVarKind::Number),
        s != "secret"@ && s != "text"@ && s != "number"@ ==> CmdVarKind::of_text(s) is None,
        forall|kind: CmdVarKind| CmdVarKind::of_text(#[trigger] kind.text()) == Some(kind),
        kind_of_letter('s') == Some(CmdVarKind::Secret),
        kind_of_letter('t') == Some(CmdVarKind::Text),
        kind_of_letter('n') == Some(CmdVarKind::Number),
        c != 's' && c != 't' && c != 'n' ==> kind_of_letter(c) is None,
{
    assert forall|kind: CmdVarKind| CmdVarKind::of_text(#[trigger] kind.text()) == Some(kind) by {
        crate::models::cmd_var_kind_round_trip(kind);
    }
    crate::models::cmd_var_kind_round_trip(CmdVarKind::Secret);
    crate::models::cmd_var_kind_round_trip(CmdVarKind::Text);
    crate::models::cmd_var_kind_round_trip(CmdVarKind::Number);
    assert(CmdVarKind::Secret.text() == "secret"@);
    assert(CmdVarKind::Text.text() == "text"@);
    assert(CmdVarKind::Number.text() == "number"@);
}

/// A secret fills a secret, a text a text, and either kind of number a number.
pub proof fn envs_fill_variables_of_their_kind(env_kind: EnvKind, kind: CmdVarKind)
    ensures
        env_kind.fills() == kind <==> match kind {
            CmdVarKind::Secret => env_kind == EnvKind::Secret,
            CmdVarKind::Text => env_kind == EnvKind::Text,
            CmdVarKind::Number => env_kind == EnvKind::NumberFloat || env_kind
                == EnvKind::NumberInt,
        },
{
}

/// A prefix before the name of a new env says its kind and is no part of the
/// name. Without one of them the env is a text of that whole name.
pub proof fn prefixes_say_the_kind_of_an_env(name: Seq<char>)
    ensures
        env_spec("s:"@ + name) == (EnvKind::Secret, name),
        env_spec("t:"@ + name) == (EnvKind::Text, name),
        env_spec("nf:"@ + name) == (EnvKind::NumberFloat, name),
        env_spec("ni:"@ + name) == (EnvKind::NumberInt, name),
        (forall|rest: Seq<char>| name != #[trigger] ("s:"@ + rest)) && (forall|rest: Seq<char>|
            name != #[trigger] ("t:"@ + rest)) && (forall|rest: Seq<char>|
            name != #[trigger] ("nf:"@ + rest)) && (forall|rest: Seq<char>|
            name != #[trigger] ("ni:"@ + rest)) ==> env_spec(name) == (EnvKind::Text, name),
{
    reveal_strlit("s:");
    reveal_strlit("t:");
    reveal_strlit("nf:");
    reveal_strlit("ni:");
    let s = "s:"@ + name;
    let t = "t:"@ + name;
    let nf = "nf:"@ + name;
    let ni = "ni:"@ + name;
    assert(s.take(2) =~= seq!['s', ':'] && s.skip(2) =~= name);
    assert(t.take(2) =~= seq!['t', ':'] && t.skip(2) =~= name);
    assert(t.take(2)[0] == 't');
    assert(nf.take(3) =~= seq!['n', 'f', ':'] && nf.skip(3) =~= name);
    assert(nf.take(2)[0] == 'n');
    assert(ni.take(3) =~= seq!['n', 'i', ':'] && ni.skip(3) =~= name);
    assert(ni.take(2)[0] == 'n' && ni.take(3)[1] == 'i');
    if begins_with(name, seq!['s', ':']) {
        assert(name.take(2)[0] == name[0] && name.take(2)[1] == name[1]);
        assert(name =~= "s:"@ + name.skip(2));
    }
    if begins_with(name, seq!['t', ':']) {
        assert(name.take(2)[0] == name[0] && name.take(2)[1] == name[1]);
        assert(name =~= "t:"@ + name.skip(2));
    }
    if begins_with(name, seq!['n', 'f', ':']) {
        assert(name.take(3)[0] == name[0] && name.take(3)[1] == name[1] && name.take(3)[2]
            == name[2]);
        assert(name =~= "nf:"@ + name.skip(3));
    }
    if begins_with(name, seq!['n', 'i', ':']) {
        assert(name.take(3)[0] == name[0] && name.take(3)[1] == name[1] && name.take(3)[2]
            == name[2]);
        assert(name =~= "ni:"@ + name.skip(3));
    }
}

} // verus!
