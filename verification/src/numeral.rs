//! Positional numerals: sequences of digits, the most significant one first.

use vstd::arithmetic::div_mod;
use vstd::prelude::*;

verus! {

/// Every digit is one of base `base`.
pub open spec fn in_base(digits: Seq<int>, base: int) -> bool {
    forall|i: int| 0 <= i < digits.len() ==> 0 <= #[trigger] digits[i] < base
}

/// The number that `digits` stands for in base `base`.
pub open spec fn value(digits: Seq<int>, base: int) -> int
    decreases digits.len(),
{
    if digits.len() == 0 {
        0
    } else {
        value(digits.drop_last(), base) * base + digits.last()
    }
}

/// The digits of `n` in base `base`, without leading zeros; none for zero.
pub open spec fn digits_of(n: int, base: int) -> Seq<int>
    decreases n,
{
    if n <= 0 || base < 2 {
        seq![]
    } else {
        proof {
            div_mod::lemma_div_decreases(n, base);
        }
        digits_of(n / base, base).push(n % base)
    }
}

/// `n` zero digits.
pub open spec fn zeros(n: nat) -> Seq<int> {
    Seq::new(n, |i: int| 0int)
}

/// The number of zero digits before the first other digit.
pub open spec fn leading_zeros(digits: Seq<int>) -> nat
    decreases digits.len(),
{
    if digits.len() == 0 || digits[0] != 0 {
        0
    } else {
        1 + leading_zeros(digits.drop_first())
    }
}

/// `digits` written in base `to` instead of base `from`: the same number, behind as many leading
/// zeros.
pub open spec fn rebase(digits: Seq<int>, from: int, to: int) -> Seq<int> {
    zeros(leading_zeros(digits)) + digits_of(value(digits, from), to)
}

/// The digits of a number stand for it, are digits of the base and do not begin with zero.
pub proof fn lemma_digits_of(n: int, base: int)
    requires
        n >= 0,
        base >= 2,
    ensures
        in_base(digits_of(n, base), base),
        value(digits_of(n, base), base) == n,
        n > 0 ==> digits_of(n, base).len() > 0 && digits_of(n, base)[0] != 0,
    decreases n,
{
    if n > 0 {
        div_mod::lemma_div_decreases(n, base);
        div_mod::lemma_fundamental_div_mod(n, base);
        assert(n / base >= 0) by (nonlinear_arith)
            requires
                n > 0,
                base >= 2,
        ;
        lemma_digits_of(n / base, base);
        let d = digits_of(n, base);
        assert(d.drop_last() =~= digits_of(n / base, base));
        assert(0 <= n % base < base) by (nonlinear_arith)
            requires
                base >= 2,
        ;
        assert(value(d.drop_last(), base) * base == base * (n / base)) by (nonlinear_arith)
            requires
                value(d.drop_last(), base) == n / base,
        ;
        if n / base == 0 {
            assert(base * (n / base) == 0) by (nonlinear_arith)
                requires
                    n / base == 0,
            ;
        }
    }
}

/// Digits that do not begin with zero are the digits of the number that they stand for.
pub proof fn lemma_digits_of_value(digits: Seq<int>, base: int)
    requires
        base >= 2,
        in_base(digits, base),
        digits.len() > 0 ==> digits[0] != 0,
    ensures
        digits_of(value(digits, base), base) == digits,
        digits.len() > 0 ==> value(digits, base) > 0,
    decreases digits.len(),
{
    if digits.len() > 0 {
        let init = digits.drop_last();
        let last = digits.last();
        assert forall|i: int| 0 <= i < init.len() implies 0 <= #[trigger] init[i] < base by {
            assert(init[i] == digits[i]);
        }
        lemma_digits_of_value(init, base);
        let q = value(init, base);
        let n = q * base + last;
        assert(0 <= digits[digits.len() - 1] < base);
        if init.len() == 0 {
            assert(q == 0);
            assert(last == digits[0]);
        }
        assert(q >= 0);
        assert(n > 0) by (nonlinear_arith)
            requires
                n == q * base + last,
                base >= 2,
                0 <= last,
                q > 0 || (q == 0 && last > 0),
        ;
        div_mod::lemma_fundamental_div_mod_converse(n, base, q, last);
        assert(digits_of(n, base) == digits_of(q, base).push(last));
        assert(init.push(last) =~= digits);
    }
}

/// A numeral of digits in the base is not negative.
pub proof fn lemma_value_nonnegative(digits: Seq<int>, base: int)
    requires
        base >= 2,
        in_base(digits, base),
    ensures
        value(digits, base) >= 0,
    decreases digits.len(),
{
    if digits.len() > 0 {
        let init = digits.drop_last();
        assert forall|i: int| 0 <= i < init.len() implies 0 <= #[trigger] init[i] < base by {
            assert(init[i] == digits[i]);
        }
        lemma_value_nonnegative(init, base);
        assert(0 <= digits[digits.len() - 1]);
        assert(value(init, base) * base >= 0) by (nonlinear_arith)
            requires
                value(init, base) >= 0,
                base >= 2,
        ;
    }
}

/// Leading zeros do not change the number.
pub proof fn lemma_value_zeros(n: nat, digits: Seq<int>, base: int)
    ensures
        value(zeros(n) + digits, base) == value(digits, base),
    decreases n + digits.len(),
{
    let all = zeros(n) + digits;
    if digits.len() > 0 {
        assert(all.drop_last() =~= zeros(n) + digits.drop_last());
        lemma_value_zeros(n, digits.drop_last(), base);
    } else if n > 0 {
        let fewer = (n - 1) as nat;
        assert(all.drop_last() =~= zeros(fewer) + digits);
        lemma_value_zeros(fewer, digits, base);
        assert(value(all.drop_last(), base) == 0);
        assert(0 * base == 0);
    } else {
        assert(all =~= digits);
    }
}

/// Zeros written before digits that do not begin with zero are exactly the leading zeros.
pub proof fn lemma_leading_zeros_of_zeros(n: nat, digits: Seq<int>)
    requires
        digits.len() > 0 ==> digits[0] != 0,
    ensures
        leading_zeros(zeros(n) + digits) == n,
    decreases n,
{
    let all = zeros(n) + digits;
    if n > 0 {
        let fewer = (n - 1) as nat;
        assert(all.drop_first() =~= zeros(fewer) + digits);
        lemma_leading_zeros_of_zeros(fewer, digits);
    } else {
        assert(all =~= digits);
    }
}

/// Digits are their leading zeros and a rest that does not begin with zero.
pub proof fn lemma_leading_zeros_split(digits: Seq<int>)
    ensures
        leading_zeros(digits) <= digits.len(),
        digits == zeros(leading_zeros(digits)) + digits.skip(leading_zeros(digits) as int),
        leading_zeros(digits) < digits.len() ==> digits[leading_zeros(digits) as int] != 0,
    decreases digits.len(),
{
    let n = leading_zeros(digits);
    if digits.len() == 0 || digits[0] != 0 {
        assert(digits =~= zeros(n) + digits.skip(n as int));
    } else {
        let rest = digits.drop_first();
        lemma_leading_zeros_split(rest);
        let m = leading_zeros(rest);
        assert forall|i: int| 0 <= i < n implies digits[i] == 0 by {
            if i > 0 {
                assert(rest[i - 1] == (zeros(m) + rest.skip(m as int))[i - 1]);
            }
        }
        assert(digits =~= zeros(n) + digits.skip(n as int));
    }
}

/// Digits written in another base are digits of that base.
pub proof fn lemma_rebase_in_base(digits: Seq<int>, from: int, to: int)
    requires
        from >= 2,
        to >= 2,
        in_base(digits, from),
    ensures
        in_base(rebase(digits, from, to), to),
{
    lemma_value_nonnegative(digits, from);
    lemma_digits_of(value(digits, from), to);
}

/// Writing digits in another base and back gives the digits again.
pub proof fn lemma_rebase_round_trip(digits: Seq<int>, from: int, to: int)
    requires
        from >= 2,
        to >= 2,
        in_base(digits, from),
    ensures
        rebase(rebase(digits, from, to), to, from) == digits,
{
    let n = leading_zeros(digits);
    let rest = digits.skip(n as int);
    lemma_leading_zeros_split(digits);
    lemma_value_nonnegative(digits, from);
    let v = value(digits, from);
    lemma_digits_of(v, to);
    let written = digits_of(v, to);
    lemma_leading_zeros_of_zeros(n, written);
    lemma_value_zeros(n, written, to);
    lemma_value_zeros(n, rest, from);
    assert forall|i: int| 0 <= i < rest.len() implies 0 <= #[trigger] rest[i] < from by {
        assert(rest[i] == digits[i + n]);
    }
    lemma_digits_of_value(rest, from);
}

/// In a smaller base a number has no fewer digits, nor has a larger number in the same base.
pub proof fn lemma_digits_of_len(n: int, base: int, m: int, larger: int)
    requires
        0 <= m <= n,
        2 <= base <= larger,
    ensures
        digits_of(m, larger).len() <= digits_of(n, base).len(),
    decreases m,
{
    if m > 0 {
        div_mod::lemma_div_decreases(m, larger);
        div_mod::lemma_div_decreases(n, base);
        assert(0 <= m / larger <= n / base) by (nonlinear_arith)
            requires
                0 < m <= n,
                2 <= base <= larger,
        ;
        lemma_digits_of_len(n / base, base, m / larger, larger);
    }
}

/// Written in a smaller base, digits become no fewer.
pub proof fn lemma_rebase_len(digits: Seq<int>, from: int, to: int)
    requires
        2 <= to <= from,
        in_base(digits, from),
    ensures
        digits.len() <= rebase(digits, from, to).len(),
{
    let n = leading_zeros(digits);
    let rest = digits.skip(n as int);
    lemma_leading_zeros_split(digits);
    lemma_value_nonnegative(digits, from);
    lemma_value_zeros(n, rest, from);
    assert forall|i: int| 0 <= i < rest.len() implies 0 <= #[trigger] rest[i] < from by {
        assert(rest[i] == digits[i + n]);
    }
    lemma_digits_of_value(rest, from);
    let v = value(digits, from);
    lemma_digits_of_len(v, to, v, from);
}

/// A numeral without digits stands for zero, and another digit makes a number the base times as
/// large, and adds the digit.
pub proof fn law_value(digits: Seq<int>, digit: int, base: int)
    ensures
        value(Seq::<int>::empty(), base) == 0,
        value(digits.push(digit), base) == value(digits, base) * base + digit,
{
    assert(digits.push(digit).drop_last() =~= digits);
}

} // verus!
