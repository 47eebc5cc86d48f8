//! Recognisers: executable functions that decide whether the characters
//! between two indices belong to a notation, and compute what they denote.

use vstd::prelude::*;
use crate::grammar::{
    alpha_value,
    are_channels,
    arguments,
    channel_value,
    doubled,
    expanded_hex,
    first_index,
    is_alpha,
    is_call,
    is_percent_channel,
    is_percent_number,
    is_plain_channel,
    is_pointed,
    lemma_first_index,
    pair_value,
    parse_hex,
    parse_rgb,
    parse_rgba,
    parse_xrgba,
    percent_number_milli,
    pointed_milli,
    rgb_name,
    rgba_name,
    split,
    trim_start,
    Channels,
};
use crate::number::{
    digits_value,
    lemma_digits_value_bound,
    lemma_digits_value_first,
    lemma_pow10_positive,
    parse_digits,
    pow10,
};
use crate::text::{
    all_digits,
    all_hex_digits,
    ascii_lower,
    digit_of,
    hex_digit_of,
    is_digit,
    is_hex_digit,
    is_space_char,
    lowered,
    to_ascii_lower,
};
use crate::units::{percentage_milli_to_u8, round_div};
use vstd::arithmetic::div_mod::{
    lemma_div_denominator,
    lemma_div_plus_one,
    lemma_fundamental_div_mod,
    lemma_fundamental_div_mod_converse,
    lemma_mod_bound,
};

verus! {

/// The index at which `c` first stands between `from` and `to`, or `to`.
pub fn find_char(chars: &Vec<char>, from: usize, to: usize, c: char) -> (at: usize)
    requires
        from <= to <= chars.len(),
    ensures
        from <= at <= to,
        at - from == first_index(chars@.subrange(from as int, to as int), c),
{
    let mut i: usize = from;
    while i < to && chars[i] != c
        invariant
            from <= i <= to <= chars.len(),
            first_index(chars@.subrange(from as int, to as int), c) == (i - from) + first_index(
                chars@.subrange(i as int, to as int),
                c,
            ),
        decreases to - i,
    {
        proof {
            let rest = chars@.subrange(i as int, to as int);
            assert(rest[0] == chars@[i as int]);
            assert(rest.drop_first() == chars@.subrange(i + 1, to as int));
        }
        i += 1;
    }
    proof {
        let rest = chars@.subrange(i as int, to as int);
        if i < to {
            assert(rest[0] == chars@[i as int]);
        }
    }
    i
}

/// The index at which the white space that begins at `from` ends.
pub fn skip_spaces(chars: &Vec<char>, from: usize, to: usize) -> (at: usize)
    requires
        from <= to <= chars.len(),
    ensures
        from <= at <= to,
        chars@.subrange(at as int, to as int) == trim_start(
            chars@.subrange(from as int, to as int),
        ),
{
    let mut i: usize = from;
    while i < to && is_space_char(chars[i])
        invariant
            from <= i <= to <= chars.len(),
            trim_start(chars@.subrange(from as int, to as int)) == trim_start(
                chars@.subrange(i as int, to as int),
            ),
        decreases to - i,
    {
        proof {
            let rest = chars@.subrange(i as int, to as int);
            assert(rest[0] == chars@[i as int]);
            assert(rest.drop_first() == chars@.subrange(i + 1, to as int));
        }
        i += 1;
    }
    proof {
        let rest = chars@.subrange(i as int, to as int);
        if i < to {
            assert(rest[0] == chars@[i as int]);
        }
    }
    i
}

/// Where each argument between `from` and `to` begins and ends.
pub fn scan_arguments(chars: &Vec<char>, from: usize, to: usize) -> (ranges: Vec<(usize, usize)>)
    requires
        from <= to <= chars.len(),
    ensures
        ranges@.len() == arguments(chars@.subrange(from as int, to as int)).len(),
        forall|k: int|
            0 <= k < ranges@.len() ==> {
                &&& from <= (#[trigger] ranges@[k]).0 <= ranges@[k].1 <= to
                &&& chars@.subrange(ranges@[k].0 as int, ranges@[k].1 as int) == arguments(
                    chars@.subrange(from as int, to as int),
                )[k]
            },
{
    let ghost body = chars@.subrange(from as int, to as int);
    let mut ranges: Vec<(usize, usize)> = Vec::new();
    let mut start: usize = from;
    let ghost mut done: Seq<Seq<char>> = Seq::empty();
    loop
        invariant_except_break
            split(body, ',') == done + split(chars@.subrange(start as int, to as int), ','),
            ranges@.len() == done.len(),
            forall|k: int|
                0 <= k < ranges@.len() ==> {
                    &&& from <= (#[trigger] ranges@[k]).0 <= ranges@[k].1 <= to
                    &&& chars@.subrange(ranges@[k].0 as int, ranges@[k].1 as int) == if k == 0 {
                        done[k]
                    } else {
                        trim_start(done[k])
                    }
                },
        invariant
            from <= start <= to <= chars.len(),
            body == chars@.subrange(from as int, to as int),
        ensures
            ranges@.len() == split(body, ',').len(),
            forall|k: int|
                0 <= k < ranges@.len() ==> {
                    &&& from <= (#[trigger] ranges@[k]).0 <= ranges@[k].1 <= to
                    &&& chars@.subrange(ranges@[k].0 as int, ranges@[k].1 as int) == if k == 0 {
                        split(body, ',')[k]
                    } else {
                        trim_start(split(body, ',')[k])
                    }
                },
        decreases to - start,
    {
        let ghost rest = chars@.subrange(start as int, to as int);
        let end: usize = find_char(chars, start, to, ',');
        let first: usize = if ranges.len() == 0 {
            start
        } else {
            skip_spaces(chars, start, end)
        };
        let ghost piece = chars@.subrange(start as int, end as int);
        let ghost old_ranges = ranges@;
        ranges.push((first, end));
        proof {
            lemma_first_index(rest, ',');
            assert(rest.take(end - start) == piece);
            assert forall|k: int| 0 <= k < ranges@.len() implies {
                &&& from <= (#[trigger] ranges@[k]).0 <= ranges@[k].1 <= to
                &&& chars@.subrange(ranges@[k].0 as int, ranges@[k].1 as int) == if k == 0 {
                    done.push(piece)[k]
                } else {
                    trim_start(done.push(piece)[k])
                }
            } by {
                if k < old_ranges.len() {
                    assert(ranges@[k] == old_ranges[k]);
                }
            }
        }
        if end == to {
            proof {
                assert(split(rest, ',') == seq![rest]);
                assert(piece == rest);
                assert(done + seq![rest] == done.push(piece));
            }
            break ;
        }
        proof {
            assert(rest.skip(end - start + 1) == chars@.subrange(end + 1, to as int));
            let tail = split(chars@.subrange(end + 1, to as int), ',');
            assert(split(rest, ',') == seq![piece] + tail);
            assert(done + (seq![piece] + tail) == done.push(piece) + tail);
            done = done.push(piece);
        }
        start = end + 1;
    }
    proof {
        let pieces = split(body, ',');
        let a = arguments(body);
        assert(a.len() == pieces.len());
        assert forall|k: int| 0 <= k < ranges@.len() implies chars@.subrange(
            (#[trigger] ranges@[k]).0 as int,
            ranges@[k].1 as int,
        ) == a[k] by {}
    }
    ranges
}

/// The unit in which a channel is written.
#[derive(Clone, Copy, Debug, PartialEq, Eq, Structural)]
pub enum Unit {
    /// An integer from 0 to 255.
    Plain,
    /// A percentage of 255.
    Percent,
}

/// The channel written between `from` and `to` as a plain integer.
pub fn scan_plain_channel(chars: &Vec<char>, from: usize, to: usize) -> (value: Option<u8>)
    requires
        from <= to <= chars.len(),
    ensures
        value is Some <==> is_plain_channel(chars@.subrange(from as int, to as int)),
        value matches Some(v) ==> v == digits_value(chars@.subrange(from as int, to as int)),
{
    if to - from > 6 {
        return None;
    }
    match parse_digits(chars, from, to) {
        Some(v) => {
            if v <= 255 {
                Some(v as u8)
            } else {
                None
            }
        },
        None => None,
    }
}

/// Where a point stands after `whole` digits and none stands before it, the
/// text is a number only as one that is pointed after `whole` digits.
proof fn lemma_point_decides(t: Seq<char>, whole: int)
    requires
        1 <= whole <= 3,
        whole < t.len(),
        t[whole] == '.',
        forall|j: int| 1 <= j < whole ==> t[j] != '.',
    ensures
        is_percent_number(t) <==> is_pointed(t, whole),
        is_pointed(t, whole) ==> percent_number_milli(t) == pointed_milli(t, whole),
{
    assert forall|j: int| 1 <= j <= 3 && j != whole implies !is_pointed(t, j) by {
        if is_pointed(t, j) && j > whole {
            assert(t.take(j)[whole] == '.');
            assert(is_digit(t.take(j)[whole]));
        }
    }
    if all_digits(t) {
        assert(is_digit(t[whole]));
    }
}

/// Where no point stands after one, two or three characters, the text is a
/// number only as a string of digits.
proof fn lemma_no_point(t: Seq<char>)
    requires
        forall|j: int| 1 <= j <= 3 && j < t.len() ==> t[j] != '.',
    ensures
        is_percent_number(t) <==> 1 <= t.len() <= 6 && all_digits(t),
        percent_number_milli(t) == 1000 * digits_value(t),
{
    assert(!is_pointed(t, 1) && !is_pointed(t, 2) && !is_pointed(t, 3));
}

/// Thousand times the number written between `from` and `to` with a point
/// after `whole` digits.
fn scan_pointed(chars: &Vec<char>, from: usize, to: usize, whole: usize) -> (milli: Option<u32>)
    requires
        from <= to <= chars.len(),
        1 <= whole <= 3,
        whole < to - from,
        chars[from + whole] == '.',
    ensures
        milli is Some <==> is_pointed(chars@.subrange(from as int, to as int), whole as int),
        milli matches Some(m) ==> m == pointed_milli(
            chars@.subrange(from as int, to as int),
            whole as int,
        ),
{
    let ghost t = chars@.subrange(from as int, to as int);
    let ghost front = chars@.subrange(from as int, from + whole);
    let ghost places = chars@.subrange(from + whole + 1, to as int);
    proof {
        assert(t[whole as int] == '.');
        assert(t.take(whole as int) == front);
        assert(t.skip(whole + 1) == places);
    }
    let len: usize = to - from;
    if len < whole + 2 || len > whole + 4 {
        return None;
    }
    let front_value = parse_digits(chars, from, from + whole);
    let places_value = parse_digits(chars, from + whole + 1, to);
    match (front_value, places_value) {
        (Some(w), Some(p)) => {
            let count: usize = to - (from + whole + 1);
            let scale: u32 = if count == 1 {
                100
            } else if count == 2 {
                10
            } else {
                1
            };
            proof {
                lemma_digits_value_bound(front);
                lemma_digits_value_bound(places);
                reveal_with_fuel(pow10, 4);
                assert(scale == pow10((3 - places.len()) as nat));
                assert(p * scale < 1000) by (nonlinear_arith)
                    requires
                        (p < 10 && scale == 100) || (p < 100 && scale == 10) || (p < 1000 && scale
                            == 1),
                ;
            }
            Some(1000 * w + p * scale)
        },
        _ => None,
    }
}

/// Thousand times the number written between `from` and `to`, in the form
/// that a percentage is written in.
pub fn scan_percent_number(chars: &Vec<char>, from: usize, to: usize) -> (milli: Option<u32>)
    requires
        from <= to <= chars.len(),
    ensures
        milli is Some <==> is_percent_number(chars@.subrange(from as int, to as int)),
        milli matches Some(m) ==> m == percent_number_milli(
            chars@.subrange(from as int, to as int),
        ),
{
    let ghost t = chars@.subrange(from as int, to as int);
    let len: usize = to - from;
    proof {
        assert forall|j: int| 0 <= j < len implies t[j] == chars@[from + j] by {}
    }
    if len > 1 && chars[from + 1] == '.' {
        proof {
            lemma_point_decides(t, 1);
        }
        scan_pointed(chars, from, to, 1)
    } else if len > 2 && chars[from + 2] == '.' {
        proof {
            lemma_point_decides(t, 2);
        }
        scan_pointed(chars, from, to, 2)
    } else if len > 3 && chars[from + 3] == '.' {
        proof {
            lemma_point_decides(t, 3);
        }
        scan_pointed(chars, from, to, 3)
    } else {
        proof {
            lemma_no_point(t);
        }
        if len > 6 {
            return None;
        }
        match parse_digits(chars, from, to) {
            Some(v) => {
                proof {
                    lemma_digits_value_bound(t);
                    reveal_with_fuel(pow10, 7);
                }
                Some(1000 * v)
            },
            None => None,
        }
    }
}

/// The channel written between `from` and `to`, and its unit.
pub fn scan_channel(chars: &Vec<char>, from: usize, to: usize) -> (channel: Option<(Unit, u8)>)
    requires
        from <= to <= chars.len(),
    ensures
        match channel {
            Some((Unit::Plain, v)) => {
                &&& is_plain_channel(chars@.subrange(from as int, to as int))
                &&& v == channel_value(chars@.subrange(from as int, to as int))
            },
            Some((Unit::Percent, v)) => {
                &&& is_percent_channel(chars@.subrange(from as int, to as int))
                &&& v == channel_value(chars@.subrange(from as int, to as int))
            },
            None => {
                &&& !is_plain_channel(chars@.subrange(from as int, to as int))
                &&& !is_percent_channel(chars@.subrange(from as int, to as int))
            },
        },
{
    let ghost t = chars@.subrange(from as int, to as int);
    if from < to && chars[to - 1] == '%' {
        proof {
            assert(t.last() == '%');
            assert(t.drop_last() == chars@.subrange(from as int, to - 1));
            if all_digits(t) {
                assert(is_digit(t[t.len() - 1]));
            }
        }
        match scan_percent_number(chars, from, to - 1) {
            Some(milli) => {
                if milli <= 100_000 {
                    Some((Unit::Percent, percentage_milli_to_u8(milli)))
                } else {
                    None
                }
            },
            None => None,
        }
    } else {
        proof {
            if from < to {
                assert(t.last() == chars@[to - 1]);
            }
        }
        match scan_plain_channel(chars, from, to) {
            Some(v) => Some((Unit::Plain, v)),
            None => None,
        }
    }
}

/// Dividing by ten times `p` is dividing by `p` and then by ten.
proof fn lemma_carry_step(d: int, v: int, p: int)
    requires
        0 <= d,
        0 <= v,
        0 < p,
    ensures
        (510 * (d * p + v)) / (10 * p) == (510 * d + (510 * v) / p) / 10,
{
    let q = (510 * v) / p;
    let r = (510 * v) % p;
    lemma_fundamental_div_mod(510 * v, p);
    lemma_mod_bound(510 * v, p);
    let x = 510 * (d * p + v);
    assert(x == (510 * d + q) * p + r) by (nonlinear_arith)
        requires
            x == 510 * (d * p + v),
            510 * v == p * q + r,
    ;
    lemma_fundamental_div_mod_converse(x, p, 510 * d + q, r);
    assert(x >= 0) by (nonlinear_arith)
        requires
            x == 510 * (d * p + v),
            d >= 0,
            p > 0,
            v >= 0,
    ;
    lemma_div_denominator(x, p, 10);
    assert(p * 10 == 10 * p);
}

/// Rounding a quotient is adding one to twice the quotient, cut off, and halving.
proof fn lemma_round_from_carry(v: int, p: int)
    requires
        0 <= v,
        0 < p,
    ensures
        round_div(255 * v, p) == ((510 * v) / p + 1) / 2,
{
    let x = 510 * v + p;
    lemma_div_denominator(x, p, 2);
    lemma_div_plus_one(510 * v, p);
    assert(p * 2 == 2 * p);
    assert(2 * (255 * v) + p == x);
}

/// The channel written between `from` and `to` as a fraction of 255.
pub fn scan_alpha(chars: &Vec<char>, from: usize, to: usize) -> (value: Option<u8>)
    requires
        from <= to <= chars.len(),
    ensures
        value is Some <==> is_alpha(chars@.subrange(from as int, to as int)),
        value matches Some(v) ==> v == alpha_value(chars@.subrange(from as int, to as int)),
{
    let ghost t = chars@.subrange(from as int, to as int);
    if to - from < 3 {
        return None;
    }
    let lead = digit_of(chars[from]);
    if lead.is_none() || chars[from + 1] != '.' {
        proof {
            assert(t[0] == chars@[from as int]);
            assert(t[1] == chars@[from + 1]);
        }
        return None;
    }
    let ghost places = chars@.subrange(from + 2, to as int);
    proof {
        assert(t.skip(2) == places);
        assert(t[0] == chars@[from as int]);
        assert(t[1] == chars@[from + 1]);
    }
    // Twice 255 times the fraction, cut off at the decimal point: the carry
    // that leaves the places when they are multiplied by 510 from the right.
    let mut carry: u32 = 0;
    let mut zero: bool = true;
    let mut i: usize = to;
    while i > from + 2
        invariant
            from + 2 <= i <= to <= chars.len(),
            places == chars@.subrange(from + 2, to as int),
            places == chars@.subrange(from as int, to as int).skip(2),
            all_digits(chars@.subrange(i as int, to as int)),
            carry == (510 * (digits_value(chars@.subrange(i as int, to as int)) as int)) / (pow10(
                (to - i) as nat,
            ) as int),
            carry < 510,
            zero <==> digits_value(chars@.subrange(i as int, to as int)) == 0,
        decreases i,
    {
        let ghost seen = chars@.subrange(i as int, to as int);
        let ghost next = chars@.subrange(i - 1, to as int);
        proof {
            assert(next.drop_first() == seen);
            assert(next[0] == chars@[i - 1]);
        }
        match digit_of(chars[i - 1]) {
            Some(d) => {
                proof {
                    let p = pow10((to - i) as nat) as int;
                    let v = digits_value(seen) as int;
                    lemma_pow10_positive((to - i) as nat);
                    lemma_digits_value_first(next);
                    lemma_digits_value_bound(seen);
                    lemma_carry_step(d as int, v, p);
                    assert(pow10((to - i + 1) as nat) == 10 * p);
                    assert(digits_value(next) == d * p + v);
                    assert forall|k: int| 0 <= k < next.len() implies is_digit(
                        #[trigger] next[k],
                    ) by {
                        if k > 0 {
                            assert(next[k] == seen[k - 1]);
                        }
                    }
                    assert(d * p >= 0) by (nonlinear_arith)
                        requires
                            d >= 0,
                            p > 0,
                    ;
                    assert(d > 0 ==> d * p > 0) by (nonlinear_arith)
                        requires
                            d >= 0,
                            p > 0,
                    ;
                    assert(d == 0 ==> d * p == 0) by (nonlinear_arith);
                }
                carry = (510 * (d as u32) + carry) / 10;
                zero = zero && d == 0;
            },
            None => {
                proof {
                    assert(places[i - 1 - (from + 2)] == chars@[i - 1]);
                }
                return None;
            },
        }
        i -= 1;
    }
    proof {
        lemma_pow10_positive(places.len());
        lemma_round_from_carry(digits_value(places) as int, pow10(places.len()) as int);
    }
    match lead {
        Some(0) => Some(((carry + 1) / 2) as u8),
        Some(1) => {
            if zero {
                Some(255)
            } else {
                None
            }
        },
        _ => None,
    }
}

/// Whether `chars` are a call of `name`.
pub fn scan_call(chars: &Vec<char>, name: &Vec<char>) -> (call: bool)
    ensures
        call == is_call(chars@, name@),
{
    let n: usize = name.len();
    if chars.len() < 2 || chars.len() - 2 < n {
        return false;
    }
    if chars[n] != '(' || chars[chars.len() - 1] != ')' {
        return false;
    }
    let ghost front = lowered(chars@.take(n as int));
    let mut i: usize = 0;
    while i < n
        invariant
            i <= n == name.len(),
            n + 2 <= chars.len(),
            front == lowered(chars@.take(n as int)),
            forall|k: int| 0 <= k < i ==> front[k] == name@[k],
        decreases n - i,
    {
        if to_ascii_lower(chars[i]) != name[i] {
            proof {
                assert(front[i as int] == ascii_lower(chars@[i as int]));
            }
            return false;
        }
        i += 1;
    }
    proof {
        assert(front =~= name@);
    }
    true
}

/// The three letters `rgb`.
pub fn rgb_letters() -> (name: Vec<char>)
    ensures
        name@ == rgb_name(),
{
    let mut name: Vec<char> = Vec::new();
    name.push('r');
    name.push('g');
    name.push('b');
    assert(name@ =~= rgb_name());
    name
}

/// The four letters `rgba`.
pub fn rgba_letters() -> (name: Vec<char>)
    ensures
        name@ == rgba_name(),
{
    let mut name: Vec<char> = rgb_letters();
    name.push('a');
    assert(name@ =~= rgba_name());
    name
}

/// The three channels written between the given indices, where they are
/// channels in one unit.
pub fn scan_channels(
    chars: &Vec<char>,
    red: (usize, usize),
    green: (usize, usize),
    blue: (usize, usize),
) -> (channels: Option<(u8, u8, u8)>)
    requires
        red.0 <= red.1 <= chars.len(),
        green.0 <= green.1 <= chars.len(),
        blue.0 <= blue.1 <= chars.len(),
    ensures
        channels is Some <==> are_channels(
            chars@.subrange(red.0 as int, red.1 as int),
            chars@.subrange(green.0 as int, green.1 as int),
            chars@.subrange(blue.0 as int, blue.1 as int),
        ),
        channels matches Some(c) ==> {
            &&& c.0 == channel_value(chars@.subrange(red.0 as int, red.1 as int))
            &&& c.1 == channel_value(chars@.subrange(green.0 as int, green.1 as int))
            &&& c.2 == channel_value(chars@.subrange(blue.0 as int, blue.1 as int))
        },
{
    let r = scan_channel(chars, red.0, red.1);
    let g = scan_channel(chars, green.0, green.1);
    let b = scan_channel(chars, blue.0, blue.1);
    match (r, g, b) {
        (Some((Unit::Plain, r)), Some((Unit::Plain, g)), Some((Unit::Plain, b))) => Some((r, g, b)),
        (Some((Unit::Percent, r)), Some((Unit::Percent, g)), Some((Unit::Percent, b))) => Some(
            (r, g, b),
        ),
        _ => None,
    }
}

/// What `chars` denote as a call of `rgb`.
pub fn scan_rgb(chars: &Vec<char>) -> (channels: Option<Channels>)
    ensures
        channels == parse_rgb(chars@),
{
    let name = rgb_letters();
    if !scan_call(chars, &name) {
        return None;
    }
    let ranges = scan_arguments(chars, 4, chars.len() - 1);
    if ranges.len() != 3 {
        return None;
    }
    match scan_channels(chars, ranges[0], ranges[1], ranges[2]) {
        Some((r, g, b)) => Some((r, g, b, 255)),
        None => None,
    }
}

/// What `chars` denote as a call of `rgba`.
pub fn scan_rgba(chars: &Vec<char>) -> (channels: Option<Channels>)
    ensures
        channels == parse_rgba(chars@),
{
    let name = rgba_letters();
    if !scan_call(chars, &name) {
        return None;
    }
    let ranges = scan_arguments(chars, 5, chars.len() - 1);
    if ranges.len() != 4 {
        return None;
    }
    let alpha = scan_alpha(chars, ranges[3].0, ranges[3].1);
    match (scan_channels(chars, ranges[0], ranges[1], ranges[2]), alpha) {
        (Some((r, g, b)), Some(a)) => Some((r, g, b, a)),
        _ => None,
    }
}

/// The value of the hexadecimal digits `high` and `low`.
pub fn scan_pair(high: char, low: char) -> (value: Option<u8>)
    ensures
        value is Some <==> is_hex_digit(high) && is_hex_digit(low),
        value matches Some(v) ==> v == pair_value(high, low),
{
    match (hex_digit_of(high), hex_digit_of(low)) {
        (Some(h), Some(l)) => Some(16 * h + l),
        _ => None,
    }
}

/// What `chars` denote as hexadecimal notation.
pub fn scan_hex(chars: &Vec<char>) -> (channels: Option<Channels>)
    ensures
        channels == parse_hex(chars@),
{
    let n: usize = chars.len();
    if !(n == 4 || n == 5 || n == 7 || n == 9) || chars[0] != '#' {
        return None;
    }
    let ghost digits = chars@.skip(1);
    let ghost long = expanded_hex(chars@);
    proof {
        assert forall|i: int| 0 <= i < digits.len() implies digits[i] == chars@[i + 1] by {}
        if n <= 5 {
            assert forall|i: int| 1 <= i < long.len() implies long[i] == chars@[(i - 1) / 2 + 1] by {
                assert(long[i] == doubled(digits)[i - 1]);
            }
        }
    }
    let short: bool = n <= 5;
    let red = if short {
        scan_pair(chars[1], chars[1])
    } else {
        scan_pair(chars[1], chars[2])
    };
    let green = if short {
        scan_pair(chars[2], chars[2])
    } else {
        scan_pair(chars[3], chars[4])
    };
    let blue = if short {
        scan_pair(chars[3], chars[3])
    } else {
        scan_pair(chars[5], chars[6])
    };
    let alpha = if n == 5 {
        scan_pair(chars[4], chars[4])
    } else if n == 9 {
        scan_pair(chars[7], chars[8])
    } else {
        Some(255)
    };
    match (red, green, blue, alpha) {
        (Some(r), Some(g), Some(b), Some(a)) => {
            proof {
                assert forall|i: int| 0 <= i < digits.len() implies is_hex_digit(
                    #[trigger] digits[i],
                ) by {
                    assert(digits[i] == chars@[i + 1]);
                }
            }
            Some((r, g, b, a))
        },
        _ => {
            proof {
                if all_hex_digits(digits) {
                    assert forall|i: int| 1 <= i < n implies is_hex_digit(chars@[i]) by {
                        assert(digits[i - 1] == chars@[i]);
                    }
                }
            }
            None
        },
    }
}

/// What `chars` denote as slash-separated notation.
pub fn scan_xrgba(chars: &Vec<char>) -> (channels: Option<Channels>)
    ensures
        channels == parse_xrgba(chars@),
{
    if chars.len() != 11 || chars[2] != '/' || chars[5] != '/' || chars[8] != '/' {
        return None;
    }
    let red = scan_pair(chars[0], chars[1]);
    let green = scan_pair(chars[3], chars[4]);
    let blue = scan_pair(chars[6], chars[7]);
    let alpha = scan_pair(chars[9], chars[10]);
    match (red, green, blue, alpha) {
        (Some(r), Some(g), Some(b), Some(a)) => Some((r, g, b, a)),
        _ => None,
    }
}

} // verus!
