//! Numbers as strings of decimal digits, and strings of decimal digits as numbers.

use vstd::prelude::*;
use vstd::string::*;
use crate::text::{
    all_digits,
    digit_char,
    digit_of,
    digit_str,
    digit_value,
    is_digit,
    lemma_digit_char,
};

verus! {

/// Ten to the power `n`.
pub open spec fn pow10(n: nat) -> nat
    decreases n,
{
    if n == 0 {
        1
    } else {
        10 * pow10((n - 1) as nat)
    }
}

/// The number that the decimal digits `s` denote; leading zeros are allowed
/// and the empty string denotes zero.
pub open spec fn digits_value(s: Seq<char>) -> nat
    decreases s.len(),
{
    if s.len() == 0 {
        0
    } else {
        10 * digits_value(s.drop_last()) + digit_value(s.last())
    }
}

/// The decimal digits of `n`, without leading zeros.
pub open spec fn decimal_text(n: nat) -> Seq<char>
    decreases n,
{
    if n < 10 {
        seq![digit_char(n as int)]
    } else {
        decimal_text(n / 10).push(digit_char((n % 10) as int))
    }
}

/// What follows the whole part when `f` thousandths are written as a decimal
/// fraction: nothing for zero, else a point and up to three digits, of which
/// the last is not zero.
pub open spec fn fraction_text(f: nat) -> Seq<char>
    recommends
        f < 1000,
{
    if f == 0 {
        Seq::<char>::empty()
    } else if f % 100 == 0 {
        seq!['.', digit_char((f / 100) as int)]
    } else if f % 10 == 0 {
        seq!['.', digit_char((f / 100) as int), digit_char((f / 10 % 10) as int)]
    } else {
        seq![
            '.',
            digit_char((f / 100) as int),
            digit_char((f / 10 % 10) as int),
            digit_char((f % 10) as int),
        ]
    }
}

/// The shortest decimal text of `milli` thousandths: `73725` is `73.725`,
/// `500` is `0.5` and `100000` is `100`.
pub open spec fn milli_text(milli: nat) -> Seq<char> {
    decimal_text(milli / 1000) + fraction_text(milli % 1000)
}

/// A power of ten is positive.
pub proof fn lemma_pow10_positive(n: nat)
    ensures
        pow10(n) > 0,
    decreases n,
{
    if n > 0 {
        lemma_pow10_positive((n - 1) as nat);
    }
}

/// A string of `n` digits denotes a number below ten to the `n`.
pub proof fn lemma_digits_value_bound(s: Seq<char>)
    requires
        all_digits(s),
    ensures
        digits_value(s) < pow10(s.len()),
    decreases s.len(),
{
    if s.len() > 0 {
        lemma_digits_value_bound(s.drop_last());
        assert(is_digit(s.last()));
    }
}

/// The value of a digit string from the value of what follows its first digit.
pub proof fn lemma_digits_value_first(s: Seq<char>)
    requires
        s.len() > 0,
    ensures
        digits_value(s) == digit_value(s[0]) * pow10((s.len() - 1) as nat) + digits_value(
            s.drop_first(),
        ),
    decreases s.len(),
{
    let d = digit_value(s[0]) as int;
    if s.len() == 1 {
        assert(s.drop_last().len() == 0);
        assert(s.drop_first().len() == 0);
        assert(s.last() == s[0]);
        assert(pow10(0) == 1);
        assert(d * 1 == d);
        assert(digits_value(s.drop_last()) == 0);
        assert(digits_value(s.drop_first()) == 0);
    } else {
        let init = s.drop_last();
        let rest = s.drop_first();
        lemma_digits_value_first(init);
        assert(init.drop_first() == rest.drop_last());
        assert(init[0] == s[0]);
        assert(rest.last() == s.last());
        let p = pow10((s.len() - 2) as nat) as int;
        assert(pow10((s.len() - 1) as nat) == 10 * p);
        assert(digits_value(init) == d * p + digits_value(init.drop_first()));
        assert(digits_value(rest) == 10 * digits_value(rest.drop_last()) + digit_value(
            rest.last(),
        ));
        assert(10 * (d * p) == d * (10 * p)) by (nonlinear_arith);
    }
}

/// The decimal text of a number is made of digits and denotes that number.
pub proof fn lemma_decimal_text(n: nat)
    ensures
        decimal_text(n).len() >= 1,
        all_digits(decimal_text(n)),
        digits_value(decimal_text(n)) == n,
        n < 10 ==> decimal_text(n).len() == 1,
        10 <= n < 100 ==> decimal_text(n).len() == 2,
        100 <= n < 1000 ==> decimal_text(n).len() == 3,
    decreases n,
{
    let t = decimal_text(n);
    if n < 10 {
        lemma_digit_char(n as int);
        assert(t.drop_last().len() == 0);
        assert(digits_value(t.drop_last()) == 0);
    } else {
        lemma_decimal_text(n / 10);
        lemma_digit_char((n % 10) as int);
        assert(t.drop_last() == decimal_text(n / 10));
        assert forall|i: int| 0 <= i < t.len() implies is_digit(#[trigger] t[i]) by {
            if i < t.len() - 1 {
                assert(t[i] == decimal_text(n / 10)[i]);
            }
        }
    }
}

/// The values of strings of one, two and three digits.
pub proof fn lemma_digits_value_short(a: char, b: char, c: char)
    ensures
        digits_value(seq![a]) == digit_value(a),
        digits_value(seq![a, b]) == 10 * digit_value(a) + digit_value(b),
        digits_value(seq![a, b, c]) == 100 * digit_value(a) + 10 * digit_value(b) + digit_value(c),
{
    let one = seq![a];
    let two = seq![a, b];
    let three = seq![a, b, c];
    assert(one.drop_last() =~= Seq::<char>::empty());
    assert(digits_value(one.drop_last()) == 0);
    assert(digits_value(one) == digit_value(a));
    assert(two.drop_last() =~= one);
    assert(digits_value(two) == 10 * digit_value(a) + digit_value(b));
    assert(three.drop_last() =~= two);
}

/// What follows the whole part of a number with thousandths is a point and
/// one to three digits, and the digits denote the thousandths.
pub proof fn lemma_fraction_text(f: nat)
    requires
        0 < f < 1000,
    ensures
        2 <= fraction_text(f).len() <= 4,
        fraction_text(f)[0] == '.',
        all_digits(fraction_text(f).skip(1)),
        digits_value(fraction_text(f).skip(1)) * pow10((4 - fraction_text(f).len()) as nat) == f,
{
    let t = fraction_text(f);
    let places = t.skip(1);
    let d2 = digit_char((f / 100) as int);
    let d1 = digit_char((f / 10 % 10) as int);
    let d0 = digit_char((f % 10) as int);
    lemma_digit_char((f / 100) as int);
    lemma_digit_char((f / 10 % 10) as int);
    lemma_digit_char((f % 10) as int);
    lemma_digits_value_short(d2, d1, d0);
    reveal_with_fuel(pow10, 4);
    assert(pow10(0) == 1 && pow10(1) == 10 && pow10(2) == 100);
    if f % 100 == 0 {
        assert(places =~= seq![d2]);
        assert(t.len() == 2);
        assert(digits_value(places) == f / 100);
        assert(digits_value(places) * pow10(2) == f);
    } else if f % 10 == 0 {
        assert(places =~= seq![d2, d1]);
        assert(t.len() == 3);
        assert(digits_value(places) == f / 10);
        assert(digits_value(places) * pow10(1) == f);
    } else {
        assert(places =~= seq![d2, d1, d0]);
        assert(t.len() == 4);
        assert(digits_value(places) == f);
        assert(digits_value(places) * pow10(0) == f);
    }
}

/// The value of the digits between `from` and `to`, where there is at least
/// one character there and all of them are digits.
pub fn parse_digits(chars: &Vec<char>, from: usize, to: usize) -> (value: Option<u32>)
    requires
        from <= to <= chars.len(),
        to - from <= 9,
    ensures
        value is Some <==> from < to && all_digits(chars@.subrange(from as int, to as int)),
        value matches Some(v) ==> v == digits_value(chars@.subrange(from as int, to as int)),
{
    if from == to {
        return None;
    }
    let ghost s = chars@.subrange(from as int, to as int);
    let mut acc: u32 = 0;
    let mut i: usize = from;
    while i < to
        invariant
            from <= i <= to <= chars.len(),
            to - from <= 9,
            s == chars@.subrange(from as int, to as int),
            all_digits(s.take(i - from)),
            acc == digits_value(s.take(i - from)),
            acc < pow10((i - from) as nat),
        decreases to - i,
    {
        let ghost seen = s.take(i - from);
        let ghost next = s.take(i - from + 1);
        proof {
            assert(next.drop_last() == seen);
            assert(next.last() == chars@[i as int]);
            lemma_pow10_up_to_nine((i - from) as nat);
        }
        match digit_of(chars[i]) {
            Some(d) => {
                acc = 10 * acc + d as u32;
                proof {
                    assert forall|k: int| 0 <= k < next.len() implies is_digit(
                        #[trigger] next[k],
                    ) by {
                        if k < next.len() - 1 {
                            assert(next[k] == seen[k]);
                        }
                    }
                }
            },
            None => {
                proof {
                    assert(s[i - from] == chars@[i as int]);
                    assert(!is_digit(s[i - from]));
                }
                return None;
            },
        }
        i += 1;
    }
    proof {
        assert(s.take(to - from) == s);
    }
    Some(acc)
}

/// Ten to a power of at most nine fits in 32 bits.
pub proof fn lemma_pow10_up_to_nine(n: nat)
    requires
        n <= 9,
    ensures
        pow10(n) <= 1_000_000_000,
        n <= 8 ==> pow10(n) <= 100_000_000,
{
    reveal_with_fuel(pow10, 11);
}

/// Appends the decimal digits of `n` to `out`.
pub fn push_decimal(out: &mut String, n: u32)
    ensures
        final(out)@ == old(out)@ + decimal_text(n as nat),
    decreases n,
{
    if n >= 10 {
        push_decimal(out, n / 10);
    }
    out.append(digit_str((n % 10) as u8));
    proof {
        let digit = seq![digit_char((n % 10) as int)];
        if n >= 10 {
            assert(decimal_text(n as nat) == decimal_text((n / 10) as nat) + digit);
            assert(old(out)@ + decimal_text((n / 10) as nat) + digit == old(out)@ + (decimal_text(
                (n / 10) as nat,
            ) + digit));
        }
    }
}

/// Appends to `out` the point and the digits that stand for `f` thousandths,
/// and nothing where `f` is zero.
pub fn push_fraction(out: &mut String, f: u32)
    requires
        f < 1000,
    ensures
        final(out)@ == old(out)@ + fraction_text(f as nat),
{
    proof {
        reveal_strlit(".");
    }
    let ghost before = out@;
    if f == 0 {
        assert(before + Seq::<char>::empty() == before);
        return ;
    }
    out.append(".");
    out.append(digit_str((f / 100) as u8));
    if f % 100 != 0 {
        out.append(digit_str((f / 10 % 10) as u8));
        if f % 10 != 0 {
            out.append(digit_str((f % 10) as u8));
        }
    }
    assert(out@ == before + fraction_text(f as nat));
}

/// Appends the shortest decimal text of `milli` thousandths to `out`.
pub fn push_milli(out: &mut String, milli: u32)
    ensures
        final(out)@ == old(out)@ + milli_text(milli as nat),
{
    let ghost before = out@;
    push_decimal(out, milli / 1000);
    push_fraction(out, milli % 1000);
    assert(out@ == before + (decimal_text((milli / 1000) as nat) + fraction_text(
        (milli % 1000) as nat,
    )));
}

} // verus!
