//! Decimal rendering of unsigned integers.

use vstd::prelude::*;
use vstd::arithmetic::div_mod::lemma_div_denominator;

verus! {

/// The character of the decimal digit `d` (for `d >= 10`, the digit `9`).
pub open spec fn digit_char(d: nat) -> char {
    if d == 0 {
        '0'
    } else if d == 1 {
        '1'
    } else if d == 2 {
        '2'
    } else if d == 3 {
        '3'
    } else if d == 4 {
        '4'
    } else if d == 5 {
        '5'
    } else if d == 6 {
        '6'
    } else if d == 7 {
        '7'
    } else if d == 8 {
        '8'
    } else {
        '9'
    }
}

/// The value of a decimal digit character (0 for any other character).
pub open spec fn digit_value(c: char) -> nat {
    if c == '1' {
        1
    } else if c == '2' {
        2
    } else if c == '3' {
        3
    } else if c == '4' {
        4
    } else if c == '5' {
        5
    } else if c == '6' {
        6
    } else if c == '7' {
        7
    } else if c == '8' {
        8
    } else if c == '9' {
        9
    } else {
        0
    }
}

/// The shortest decimal rendering of `n`: no sign, no leading zero.
pub open spec fn decimal(n: nat) -> Seq<char>
    decreases n,
{
    if n < 10 {
        seq![digit_char(n)]
    } else {
        decimal(n / 10).push(digit_char(n % 10))
    }
}

/// The number that a string of decimal digits denotes.
pub open spec fn decimal_value(s: Seq<char>) -> nat
    decreases s.len(),
{
    if s.len() == 0 {
        0
    } else {
        decimal_value(s.drop_last()) * 10 + digit_value(s.last())
    }
}

/// Whether every character of `s` is one of `0` to `9`.
pub open spec fn all_digits(s: Seq<char>) -> bool {
    forall|i: int| 0 <= i < s.len() ==> '0' <= #[trigger] s[i] <= '9'
}

/// Each digit is read back as itself.
proof fn lemma_digit_round_trip(d: nat)
    requires
        d < 10,
    ensures
        digit_value(digit_char(d)) == d,
        '0' <= digit_char(d) <= '9',
        digit_char(d) == '0' ==> d == 0,
{
}

/// Reading back the decimal rendering of `n` gives `n`; the rendering is a
/// non-empty string of digits that starts with `0` only when it is `0`.
pub proof fn lemma_decimal_round_trip(n: nat)
    ensures
        decimal_value(decimal(n)) == n,
        decimal(n).len() >= 1,
        all_digits(decimal(n)),
        decimal(n)[0] == '0' ==> n == 0,
    decreases n,
{
    lemma_digit_round_trip(n % 10);
    if n < 10 {
        assert(decimal(n).drop_last() =~= Seq::<char>::empty());
        assert(decimal_value(Seq::<char>::empty()) == 0);
        assert(decimal(n).last() == digit_char(n));
    } else {
        lemma_decimal_round_trip(n / 10);
        let d = decimal(n);
        assert(d.drop_last() =~= decimal(n / 10));
        assert(d[0] == decimal(n / 10)[0]);
        assert(d.last() == digit_char(n % 10));
        assert(decimal_value(d) == decimal_value(decimal(n / 10)) * 10 + digit_value(d.last()));
        assert(n == (n / 10) * 10 + n % 10);
    }
}

/// Two numbers with the same decimal rendering are equal.
pub proof fn lemma_decimal_injective(m: nat, n: nat)
    ensures
        decimal(m) == decimal(n) ==> m == n,
{
    lemma_decimal_round_trip(m);
    lemma_decimal_round_trip(n);
}

/// The one-character string of the decimal digit `d`.
fn digit_str(d: usize) -> (s: &'static str)
    requires
        d < 10,
    ensures
        s@ == seq![digit_char(d as nat)],
{
    if d == 0 {
        proof { reveal_strlit("0"); }
        "0"
    } else if d == 1 {
        proof { reveal_strlit("1"); }
        "1"
    } else if d == 2 {
        proof { reveal_strlit("2"); }
        "2"
    } else if d == 3 {
        proof { reveal_strlit("3"); }
        "3"
    } else if d == 4 {
        proof { reveal_strlit("4"); }
        "4"
    } else if d == 5 {
        proof { reveal_strlit("5"); }
        "5"
    } else if d == 6 {
        proof { reveal_strlit("6"); }
        "6"
    } else if d == 7 {
        proof { reveal_strlit("7"); }
        "7"
    } else if d == 8 {
        proof { reveal_strlit("8"); }
        "8"
    } else {
        proof { reveal_strlit("9"); }
        "9"
    }
}

/// Appends the decimal rendering of `n` to `out`.
pub fn append_decimal(out: &mut String, n: usize)
    ensures
        final(out)@ == old(out)@ + decimal(n as nat),
    decreases n,
{
    if n >= 10 {
        append_decimal(out, n / 10);
    }
    let ghost before = out@;
    out.append(digit_str(n % 10));
    proof {
        if n >= 10 {
            assert(decimal(n as nat) == decimal((n / 10) as nat).push(digit_char((n % 10) as nat)));
            assert(out@ =~= old(out)@ + decimal(n as nat));
        } else {
            assert(out@ =~= old(out)@ + decimal(n as nat));
        }
    }
}

/// The decimal rendering of `n`, as `n.to_string()` gives it.
pub fn decimal_string(n: usize) -> (s: String)
    ensures
        s@ == decimal(n as nat),
{
    let mut s = String::new();
    append_decimal(&mut s, n);
    assert(s@ =~= decimal(n as nat));
    s
}

/// Ten to the power `k`.
pub open spec fn pow10(k: nat) -> nat
    decreases k,
{
    if k == 0 {
        1
    } else {
        10 * pow10((k - 1) as nat)
    }
}

/// The character code of each decimal digit is that of `0` plus the digit.
proof fn lemma_digit_code(d: nat)
    requires
        d < 10,
    ensures
        digit_char(d) as int == 48 + d,
{
}

/// The decimal rendering of `n` has as many digits as `n` needs and no more
/// (`n < 10^len`, and `10^(len-1) <= n` unless it is the single digit of a
/// number below ten), and its digit at position `i` is the digit of `n` of
/// weight `10^(len-1-i)`.
pub proof fn lemma_decimal_positional(n: nat)
    ensures
        decimal(n).len() >= 1,
        n < pow10(decimal(n).len()),
        decimal(n).len() > 1 ==> pow10((decimal(n).len() - 1) as nat) <= n,
        forall|i: int|
            0 <= i < decimal(n).len() ==> #[trigger] decimal(n)[i] as int == 48 + (n / pow10(
                (decimal(n).len() - 1 - i) as nat,
            )) % 10,
    decreases n,
{
    lemma_digit_code(n % 10);
    if n < 10 {
        assert(pow10(1) == 10 * pow10(0));
        assert(decimal(n)[0] == digit_char(n));
        assert(n / pow10(0) == n);
    } else {
        let m = n / 10;
        lemma_decimal_positional(m);
        let d = decimal(m);
        let len = d.len();
        assert(decimal(n) == d.push(digit_char(n % 10)));
        assert(pow10(len + 1) == 10 * pow10(len));
        assert(n < pow10(len + 1)) by (nonlinear_arith)
            requires
                m == n / 10,
                m < pow10(len),
                pow10(len + 1) == 10 * pow10(len),
        ;
        if len > 1 {
            assert(pow10(len) == 10 * pow10((len - 1) as nat));
            assert(pow10(len) <= n) by (nonlinear_arith)
                requires
                    m == n / 10,
                    pow10((len - 1) as nat) <= m,
                    pow10(len) == 10 * pow10((len - 1) as nat),
            ;
        } else {
            assert(pow10(1) == 10 * pow10(0));
        }
        assert forall|i: int| 0 <= i < decimal(n).len() implies #[trigger] decimal(n)[i] as int
            == 48 + (n / pow10((decimal(n).len() - 1 - i) as nat)) % 10 by {
            if i < len {
                let k = (len - 1 - i) as nat;
                assert(decimal(n)[i] == d[i]);
                assert(d[i] as int == 48 + (m / pow10(k)) % 10);
                lemma_pow10_positive(k);
                lemma_div_denominator(n as int, 10, pow10(k) as int);
                assert(pow10(k + 1) == 10 * pow10(k));
                assert((decimal(n).len() - 1 - i) as nat == k + 1);
            } else {
                assert(decimal(n)[i] == digit_char(n % 10));
                assert(pow10(0) == 1);
                assert(n / 1 == n);
            }
        }
    }
}

/// Powers of ten are positive.
proof fn lemma_pow10_positive(k: nat)
    ensures
        pow10(k) > 0,
    decreases k,
{
    if k > 0 {
        lemma_pow10_positive((k - 1) as nat);
    }
}

} // verus!
