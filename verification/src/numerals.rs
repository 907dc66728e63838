//! Numbers written out in digits.
use vstd::arithmetic::div_mod::lemma_mod_breakdown;
use vstd::arithmetic::power::{lemma_pow0, lemma_pow_positive, pow};
use vstd::prelude::*;

verus! {

/// The digit that stands for `d`, which is less than 16.
pub open spec fn digit(d: nat) -> char {
    seq!['0', '1', '2', '3', '4', '5', '6', '7', '8', '9', 'a', 'b', 'c', 'd', 'e', 'f'][d as int]
}

/// `n` in decimal digits, the first of which is 0 only if `n` is.
pub open spec fn decimal(n: nat) -> Seq<char>
    decreases n,
{
    if n < 10 {
        seq![digit(n)]
    } else {
        decimal(n / 10).push(digit(n % 10))
    }
}

/// The last `width` of the digits of `n` to the given base, with zeros where it has fewer.
pub open spec fn padded(n: nat, base: nat, width: nat) -> Seq<char>
    decreases width,
{
    if width == 0 {
        seq![]
    } else {
        padded(n / base, base, (width - 1) as nat).push(digit(n % base))
    }
}

/// The digit that stands for `d`.
fn digit_char(d: u32) -> (c: char)
    requires
        d < 16,
    ensures
        c == digit(d as nat),
{
    match d {
        0 => '0',
        1 => '1',
        2 => '2',
        3 => '3',
        4 => '4',
        5 => '5',
        6 => '6',
        7 => '7',
        8 => '8',
        9 => '9',
        10 => 'a',
        11 => 'b',
        12 => 'c',
        13 => 'd',
        14 => 'e',
        _ => 'f',
    }
}

/// Adds `n` in decimal digits to the end of `text`.
pub fn push_decimal(text: &mut String, n: u32)
    ensures
        final(text)@ == old(text)@ + decimal(n as nat),
    decreases n,
{
    if n >= 10 {
        push_decimal(text, n / 10);
    }
    text.push(digit_char(n % 10));
    assert(text@ =~= old(text)@ + decimal(n as nat));
}

/// Adds the last `width` digits of `n` to the end of `text`.
pub fn push_padded(text: &mut String, n: u32, base: u32, width: u32)
    requires
        2 <= base <= 16,
    ensures
        final(text)@ == old(text)@ + padded(n as nat, base as nat, width as nat),
    decreases width,
{
    if width > 0 {
        push_padded(text, n / base, base, width - 1);
        text.push(digit_char(n % base));
    }
    assert(text@ =~= old(text)@ + padded(n as nat, base as nat, width as nat));
}

/// The number that a digit stands for.
pub open spec fn digit_value(c: char) -> int {
    if '0' <= c <= '9' {
        c as int - '0' as int
    } else {
        c as int - 'a' as int + 10
    }
}

/// The number that a row of digits stands for.
pub open spec fn value_of(digits: Seq<char>, base: nat) -> int
    decreases digits.len(),
{
    if digits.len() == 0 {
        0
    } else {
        base * value_of(digits.drop_last(), base) + digit_value(digits.last())
    }
}

/// Whether a row holds nothing but decimal digits and the letters `a` to `f`.
pub open spec fn holds_digits(digits: Seq<char>) -> bool {
    forall|i: int|
        0 <= i < digits.len() ==> '0' <= #[trigger] digits[i] <= '9' || 'a' <= digits[i] <= 'f'
}

/// What is written to a width has that many digits, and they read back as the number, less what
/// the width has no room for.
pub proof fn law_padded_reads_back(n: nat, base: nat, width: nat)
    requires
        2 <= base <= 16,
    ensures
        padded(n, base, width).len() == width,
        holds_digits(padded(n, base, width)),
        value_of(padded(n, base, width), base) == n as int % pow(base as int, width),
    decreases width,
{
    if width == 0 {
        lemma_pow0(base as int);
    } else {
        let shorter = (width - 1) as nat;
        law_padded_reads_back(n / base, base, shorter);
        let digits = padded(n, base, width);
        assert(digits.drop_last() =~= padded(n / base, base, shorter));
        assert(0 <= n % base < base) by (nonlinear_arith)
            requires
                base > 0,
        ;
        assert(digit_value(digits.last()) == n % base);
        lemma_pow_positive(base as int, shorter);
        lemma_mod_breakdown(n as int, base as int, pow(base as int, shorter));
        assert(pow(base as int, width) == base * pow(base as int, shorter)) by {
            reveal(pow);
        }
        assert forall|i: int| 0 <= i < digits.len() implies '0' <= #[trigger] digits[i] <= '9'
            || 'a' <= digits[i] <= 'f' by {
            if i < digits.len() - 1 {
                assert(digits[i] == digits.drop_last()[i]);
            }
        }
    }
}

/// What is written in decimal reads back as the number, and begins with 0 only if the number is 0.
pub proof fn law_decimal_reads_back(n: nat)
    ensures
        decimal(n).len() > 0,
        holds_digits(decimal(n)),
        value_of(decimal(n), 10) == n,
        n > 0 ==> decimal(n)[0] != '0',
        n == 0 ==> decimal(n) == seq!['0'],
    decreases n,
{
    reveal_with_fuel(value_of, 2);
    if n >= 10 {
        law_decimal_reads_back(n / 10);
        let digits = decimal(n);
        assert(digits.drop_last() =~= decimal(n / 10));
        assert(digits[0] == decimal(n / 10)[0]);
        assert forall|i: int| 0 <= i < digits.len() implies '0' <= #[trigger] digits[i] <= '9'
            || 'a' <= digits[i] <= 'f' by {
            if i < digits.len() - 1 {
                assert(digits[i] == digits.drop_last()[i]);
            }
        }
    }
}

} // verus!
