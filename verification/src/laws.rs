//! What holds of writing a colour and reading it again.

use vstd::prelude::*;
use crate::grammar::{
    alpha_value,
    are_channels,
    arguments,
    call_body,
    channel_value,
    doubled,
    expanded_hex,
    is_alpha,
    is_call,
    is_hex_text,
    is_percent_channel,
    is_percent_number,
    is_plain_channel,
    is_pointed,
    is_rgb_text,
    is_rgba_text,
    is_xrgba_text,
    lemma_split_first,
    lemma_split_whole,
    pair_value,
    parse_hex,
    parse_rgb,
    parse_rgba,
    parse_xrgba,
    percent_number_milli,
    pointed_milli,
    rgb_name,
    rgba_name,
    split,
    xrgba_channels,
    Channels,
};
use crate::number::{
    decimal_text,
    digits_value,
    fraction_text,
    lemma_decimal_text,
    lemma_fraction_text,
    milli_text,
    pow10,
};
use crate::render::{
    alpha_text,
    hex8_text,
    hex_pair,
    hex_text,
    percentages_text,
    rgb_call,
    rgb_percentage_text,
    rgb_stripped_text,
    rgb_text,
    rgba_call,
    rgba_percentage_text,
    rgba_text,
    xrgba_text,
};
use crate::text::{
    all_hex_digits,
    ascii_lower,
    hex_digit_value,
    is_digit,
    is_hex_digit,
    is_space,
    lemma_digit_char,
    lemma_hex_digit_value,
    lowered,
};
use crate::traits::opaque;
use crate::units::{
    fraction_channel_rounded,
    fraction_milli,
    law_fraction_round_trip,
    law_percentage_round_trip,
    percentage_milli,
};

verus! {

/// The two digits that a channel is written with are hexadecimal digits in
/// lower case, and their value is the channel.
pub proof fn lemma_hex_pair(channel: u8)
    ensures
        hex_pair(channel).len() == 2,
        is_hex_digit(hex_pair(channel)[0]),
        is_hex_digit(hex_pair(channel)[1]),
        pair_value(hex_pair(channel)[0], hex_pair(channel)[1]) == channel,
        lowered(hex_pair(channel)) == hex_pair(channel),
{
    lemma_digit_char(channel as int / 16);
    lemma_digit_char(channel as int % 16);
    assert(lowered(hex_pair(channel)) =~= hex_pair(channel));
}

/// The value of two hexadecimal digits is written with those digits in
/// lower case.
pub proof fn lemma_pair_text(high: char, low: char)
    requires
        is_hex_digit(high),
        is_hex_digit(low),
    ensures
        hex_pair(pair_value(high, low)) == seq![ascii_lower(high), ascii_lower(low)],
{
    lemma_hex_digit_value(high);
    lemma_hex_digit_value(low);
    let value = pair_value(high, low);
    assert(value as int / 16 == hex_digit_value(high));
    assert(value as int % 16 == hex_digit_value(low));
}

/// Read as slash-separated notation and written as `rr/gg/bb/aa`, a text
/// is found again in lower case.
pub proof fn law_xrgba_text_round_trip(s: Seq<char>)
    requires
        is_xrgba_text(s),
    ensures
        xrgba_text(xrgba_channels(s)) == lowered(s),
{
    lemma_pair_text(s[0], s[1]);
    lemma_pair_text(s[3], s[4]);
    lemma_pair_text(s[6], s[7]);
    lemma_pair_text(s[9], s[10]);
    assert(xrgba_text(xrgba_channels(s)) =~= lowered(s));
}

/// Written as `#rrggbbaa` and read as hexadecimal notation, four channels
/// are found again.
pub proof fn law_hex8_round_trip(c: Channels)
    ensures
        parse_hex(hex8_text(c)) == Some(c),
{
    let s = hex8_text(c);
    lemma_hex_pair(c.0);
    lemma_hex_pair(c.1);
    lemma_hex_pair(c.2);
    lemma_hex_pair(c.3);
    assert(s =~= seq![
        '#',
        hex_pair(c.0)[0],
        hex_pair(c.0)[1],
        hex_pair(c.1)[0],
        hex_pair(c.1)[1],
        hex_pair(c.2)[0],
        hex_pair(c.2)[1],
        hex_pair(c.3)[0],
        hex_pair(c.3)[1],
    ]);
    assert(all_hex_digits(s.skip(1)));
}

/// Written as `#rrggbb` and read as hexadecimal notation, the colour
/// channels are found again, and alpha is 255.
pub proof fn law_hex_round_trip(c: Channels)
    ensures
        parse_hex(hex_text(c)) == Some(opaque(c)),
{
    let s = hex_text(c);
    lemma_hex_pair(c.0);
    lemma_hex_pair(c.1);
    lemma_hex_pair(c.2);
    assert(s =~= seq![
        '#',
        hex_pair(c.0)[0],
        hex_pair(c.0)[1],
        hex_pair(c.1)[0],
        hex_pair(c.1)[1],
        hex_pair(c.2)[0],
        hex_pair(c.2)[1],
    ]);
    assert(all_hex_digits(s.skip(1)));
}

/// Written as `rr/gg/bb/aa` and read as slash-separated notation, four
/// channels are found again; the text is in lower case.
pub proof fn law_xrgba_round_trip(c: Channels)
    ensures
        parse_xrgba(xrgba_text(c)) == Some(c),
        lowered(xrgba_text(c)) == xrgba_text(c),
{
    let s = xrgba_text(c);
    lemma_hex_pair(c.0);
    lemma_hex_pair(c.1);
    lemma_hex_pair(c.2);
    lemma_hex_pair(c.3);
    assert(s =~= seq![
        hex_pair(c.0)[0],
        hex_pair(c.0)[1],
        '/',
        hex_pair(c.1)[0],
        hex_pair(c.1)[1],
        '/',
        hex_pair(c.2)[0],
        hex_pair(c.2)[1],
        '/',
        hex_pair(c.3)[0],
        hex_pair(c.3)[1],
    ]);
    assert(lowered(hex_pair(c.0))[0] == hex_pair(c.0)[0]);
    assert(lowered(hex_pair(c.0))[1] == hex_pair(c.0)[1]);
    assert(lowered(hex_pair(c.1))[0] == hex_pair(c.1)[0]);
    assert(lowered(hex_pair(c.1))[1] == hex_pair(c.1)[1]);
    assert(lowered(hex_pair(c.2))[0] == hex_pair(c.2)[0]);
    assert(lowered(hex_pair(c.2))[1] == hex_pair(c.2)[1]);
    assert(lowered(hex_pair(c.3))[0] == hex_pair(c.3)[0]);
    assert(lowered(hex_pair(c.3))[1] == hex_pair(c.3)[1]);
    assert(lowered(s) =~= s);
}

/// A short hexadecimal text denotes what its long form denotes.
pub proof fn law_shorthand(s: Seq<char>)
    requires
        is_hex_text(s),
    ensures
        is_hex_text(expanded_hex(s)),
        parse_hex(expanded_hex(s)) == parse_hex(s),
{
    let long = expanded_hex(s);
    if s.len() <= 5 {
        let digits = s.skip(1);
        assert forall|i: int| 0 <= i < long.skip(1).len() implies is_hex_digit(
            #[trigger] long.skip(1)[i],
        ) by {
            assert(long.skip(1)[i] == doubled(digits)[i]);
            assert(is_hex_digit(digits[i / 2]));
        }
        assert(expanded_hex(long) == long);
    }
}

/// `#xyz` denotes what `#xxyyzz` denotes, whatever the three characters are.
pub proof fn law_shorthand_three(x: char, y: char, z: char)
    ensures
        parse_hex(seq!['#', x, y, z]) == parse_hex(seq!['#', x, x, y, y, z, z]),
{
    let short = seq!['#', x, y, z];
    let long = seq!['#', x, x, y, y, z, z];
    assert(expanded_hex(short) =~= long);
    if is_hex_text(short) {
        law_shorthand(short);
    } else if is_hex_text(long) {
        assert forall|i: int| 0 <= i < short.skip(1).len() implies is_hex_digit(
            #[trigger] short.skip(1)[i],
        ) by {
            assert(is_hex_digit(long.skip(1)[2 * i]));
        }
    }
}

/// `#xyzw` denotes what `#xxyyzzww` denotes, whatever the four characters are.
pub proof fn law_shorthand_four(x: char, y: char, z: char, w: char)
    ensures
        parse_hex(seq!['#', x, y, z, w]) == parse_hex(seq!['#', x, x, y, y, z, z, w, w]),
{
    let short = seq!['#', x, y, z, w];
    let long = seq!['#', x, x, y, y, z, z, w, w];
    assert(expanded_hex(short) =~= long);
    if is_hex_text(short) {
        law_shorthand(short);
    } else if is_hex_text(long) {
        assert forall|i: int| 0 <= i < short.skip(1).len() implies is_hex_digit(
            #[trigger] short.skip(1)[i],
        ) by {
            assert(is_hex_digit(long.skip(1)[2 * i]));
        }
    }
}

/// Whether `t` can stand as an argument as it is: it is not empty, holds
/// no comma and does not begin with white space.
pub open spec fn is_argument(t: Seq<char>) -> bool {
    &&& t.len() > 0
    &&& !is_space(t[0])
    &&& forall|i: int| 0 <= i < t.len() ==> t[i] != ','
}

/// Three arguments joined by commas are the arguments of the joined text.
pub proof fn lemma_arguments_three(a: Seq<char>, b: Seq<char>, c: Seq<char>)
    requires
        is_argument(a),
        is_argument(b),
        is_argument(c),
    ensures
        arguments(a + seq![','] + b + seq![','] + c) == seq![a, b, c],
{
    let body = a + seq![','] + b + seq![','] + c;
    assert(body =~= a + seq![','] + (b + seq![','] + c));
    lemma_split_first(a, b + seq![','] + c, ',');
    lemma_split_first(b, c, ',');
    lemma_split_whole(c, ',');
    assert(split(body, ',') =~= seq![a, b, c]);
    assert(arguments(body) =~= seq![a, b, c]);
}

/// Four arguments joined by commas are the arguments of the joined text.
pub proof fn lemma_arguments_four(a: Seq<char>, b: Seq<char>, c: Seq<char>, d: Seq<char>)
    requires
        is_argument(a),
        is_argument(b),
        is_argument(c),
        is_argument(d),
    ensures
        arguments(a + seq![','] + b + seq![','] + c + seq![','] + d) == seq![a, b, c, d],
{
    let body = a + seq![','] + b + seq![','] + c + seq![','] + d;
    let tail = b + seq![','] + c + seq![','] + d;
    assert(body =~= a + seq![','] + tail);
    assert(tail =~= b + seq![','] + (c + seq![','] + d));
    lemma_split_first(a, tail, ',');
    lemma_split_first(b, c + seq![','] + d, ',');
    lemma_split_first(c, d, ',');
    lemma_split_whole(d, ',');
    assert(split(body, ',') =~= seq![a, b, c, d]);
    assert(arguments(body) =~= seq![a, b, c, d]);
}

/// A channel in decimal digits is an argument, and is read as that channel.
pub proof fn lemma_plain_channel(channel: u8)
    ensures
        is_argument(decimal_text(channel as nat)),
        is_plain_channel(decimal_text(channel as nat)),
        channel_value(decimal_text(channel as nat)) == channel,
{
    let t = decimal_text(channel as nat);
    lemma_decimal_text(channel as nat);
    assert(is_digit(t[0]));
    assert(is_digit(t.last()));
    assert forall|i: int| 0 <= i < t.len() implies t[i] != ',' by {
        assert(is_digit(t[i]));
    }
}

/// The text between the brackets of a call is its body.
pub proof fn lemma_rgb_call(inner: Seq<char>)
    ensures
        is_call(rgb_call(inner), rgb_name()),
        call_body(rgb_call(inner), rgb_name()) == inner,
{
    let s = rgb_call(inner);
    assert(lowered(s.take(3)) =~= rgb_name());
    assert(s.subrange(4, s.len() - 1) =~= inner);
}

/// The text between the brackets of a call with alpha is its body.
pub proof fn lemma_rgba_call(inner: Seq<char>, alpha: u8)
    ensures
        is_call(rgba_call(inner, alpha), rgba_name()),
        call_body(rgba_call(inner, alpha), rgba_name()) == inner + seq![','] + alpha_text(alpha),
{
    let s = rgba_call(inner, alpha);
    assert(lowered(s.take(4)) =~= rgba_name());
    assert(s.subrange(5, s.len() - 1) =~= inner + seq![','] + alpha_text(alpha));
}

/// A call of `rgb` with three arguments that are channels in one unit
/// denotes those channels.
pub proof fn lemma_rgb_call_reads(red: Seq<char>, green: Seq<char>, blue: Seq<char>)
    requires
        is_argument(red),
        is_argument(green),
        is_argument(blue),
        are_channels(red, green, blue),
    ensures
        parse_rgb(rgb_call(red + seq![','] + green + seq![','] + blue)) == Some(
            (channel_value(red), channel_value(green), channel_value(blue), 255u8),
        ),
{
    let inner = red + seq![','] + green + seq![','] + blue;
    lemma_rgb_call(inner);
    lemma_arguments_three(red, green, blue);
}

/// A call of `rgba` with three arguments that are channels in one unit and
/// a fourth that is an alpha denotes those channels.
pub proof fn lemma_rgba_call_reads(
    red: Seq<char>,
    green: Seq<char>,
    blue: Seq<char>,
    alpha: u8,
)
    requires
        is_argument(red),
        is_argument(green),
        is_argument(blue),
        is_argument(alpha_text(alpha)),
        are_channels(red, green, blue),
        is_alpha(alpha_text(alpha)),
    ensures
        parse_rgba(rgba_call(red + seq![','] + green + seq![','] + blue, alpha)) == Some(
            (
                channel_value(red),
                channel_value(green),
                channel_value(blue),
                alpha_value(alpha_text(alpha)),
            ),
        ),
{
    let inner = red + seq![','] + green + seq![','] + blue;
    lemma_rgba_call(inner, alpha);
    lemma_arguments_four(red, green, blue, alpha_text(alpha));
}

/// Written as `rgb(r,g,b)` and read as a call of `rgb`, the colour
/// channels are found again, and alpha is 255.
pub proof fn law_rgb_round_trip(c: Channels)
    ensures
        parse_rgb(rgb_text(c)) == Some(opaque(c)),
{
    lemma_plain_channel(c.0);
    lemma_plain_channel(c.1);
    lemma_plain_channel(c.2);
    lemma_rgb_call_reads(
        decimal_text(c.0 as nat),
        decimal_text(c.1 as nat),
        decimal_text(c.2 as nat),
    );
}

/// An alpha that is neither 0 nor 255, written as a fraction, is an
/// argument, and is read as that alpha.
pub proof fn lemma_alpha(alpha: u8)
    requires
        0 < alpha < 255,
    ensures
        is_argument(alpha_text(alpha)),
        is_alpha(alpha_text(alpha)),
        alpha_value(alpha_text(alpha)) == alpha,
{
    let milli = fraction_milli(alpha) as nat;
    law_fraction_round_trip(alpha);
    let t = alpha_text(alpha);
    let tail = fraction_text(milli);
    assert(milli / 1000 == 0 && milli % 1000 == milli);
    assert(decimal_text(0) =~= seq!['0']);
    assert(t =~= seq!['0'] + tail);
    lemma_fraction_text(milli);
    let places = t.skip(2);
    assert(places =~= tail.skip(1));
    assert(t[0] == '0');
    assert(t[1] == tail[0]);
    assert forall|i: int| 0 <= i < t.len() implies t[i] != ',' by {
        if i >= 2 {
            assert(t[i] == places[i - 2]);
            assert(is_digit(places[i - 2]));
        }
    }
    lemma_rounding_of_places(digits_value(places) as int, places.len() as int, milli as int);
}

/// The channel nearest to a fraction of up to three places is the channel
/// nearest to its thousandths.
proof fn lemma_rounding_of_places(value: int, count: int, milli: int)
    requires
        1 <= count <= 3,
        0 <= value,
        value * pow10((3 - count) as nat) == milli,
    ensures
        fraction_channel_rounded(value, pow10(count as nat) as int) == fraction_channel_rounded(
            milli,
            1000,
        ),
{
    reveal_with_fuel(pow10, 4);
    assert(pow10(0) == 1 && pow10(1) == 10 && pow10(2) == 100 && pow10(3) == 1000);
    let whole = fraction_channel_rounded(milli, 1000);
    assert(whole == (510 * milli + 1000) / 2000);
    let scale = pow10((3 - count) as nat) as int;
    assert(value * scale == milli);
    if count == 1 {
        assert(value * scale == value * 100) by (nonlinear_arith)
            requires
                scale == 100,
        ;
        assert(milli == value * 100);
        assert(fraction_channel_rounded(value, 10) == (510 * value + 10) / 20);
        assert(fraction_channel_rounded(value, 10) == whole);
    } else if count == 2 {
        assert(value * scale == value * 10) by (nonlinear_arith)
            requires
                scale == 10,
        ;
        assert(milli == value * 10);
        assert(fraction_channel_rounded(value, 100) == (510 * value + 100) / 200);
        assert(fraction_channel_rounded(value, 100) == whole);
    } else {
        assert(value * scale == value) by (nonlinear_arith)
            requires
                scale == 1,
        ;
    }
}

/// Written as `rgba(r,g,b,a)` and read as a call of `rgba`, four channels
/// are found again, unless alpha is 0 or 255: those are written `0` and `1`,
/// without the decimal point that an alpha is read with.
pub proof fn law_rgba_round_trip(c: Channels)
    requires
        0 < c.3 < 255,
    ensures
        parse_rgba(rgba_text(c)) == Some(c),
{
    lemma_plain_channel(c.0);
    lemma_plain_channel(c.1);
    lemma_plain_channel(c.2);
    lemma_alpha(c.3);
    lemma_rgba_call_reads(
        decimal_text(c.0 as nat),
        decimal_text(c.1 as nat),
        decimal_text(c.2 as nat),
        c.3,
    );
}

/// The text of a channel as a percentage of three decimal places.
pub open spec fn percent_text(channel: u8) -> Seq<char> {
    milli_text(percentage_milli(channel) as nat).push('%')
}

/// The decimal text of a number of thousandths below a thousand units is a
/// number as a percentage is written with, and denotes that number.
pub proof fn lemma_milli_text(milli: nat)
    requires
        milli < 1_000_000,
    ensures
        is_percent_number(milli_text(milli)),
        percent_number_milli(milli_text(milli)) == milli,
        is_digit(milli_text(milli)[0]),
        forall|i: int| 0 <= i < milli_text(milli).len() ==> milli_text(milli)[i] != ',',
{
    let number = milli_text(milli);
    let whole = decimal_text(milli / 1000);
    let tail = fraction_text(milli % 1000);
    lemma_decimal_text(milli / 1000);
    assert(number =~= whole + tail);
    assert(is_digit(whole[0]));
    assert forall|j: int| 0 <= j < whole.len() implies is_digit(#[trigger] number[j]) by {
        assert(number[j] == whole[j]);
    }
    if milli % 1000 == 0 {
        assert(number =~= whole);
        assert(number.len() > 1 ==> is_digit(number[1]));
        assert(number.len() > 2 ==> is_digit(number[2]));
        assert(!is_pointed(number, 1) && !is_pointed(number, 2) && !is_pointed(number, 3));
        assert forall|i: int| 0 <= i < number.len() implies number[i] != ',' by {
            assert(is_digit(number[i]));
        }
    } else {
        lemma_fraction_text(milli % 1000);
        let k = whole.len() as int;
        assert(number.take(k) =~= whole);
        assert(number.skip(k + 1) =~= tail.skip(1));
        assert(number[k] == tail[0]);
        assert(is_pointed(number, k));
        assert forall|j: int| 1 <= j < k implies !is_pointed(number, j) by {
            assert(is_digit(number[j]));
        }
        assert(percent_number_milli(number) == pointed_milli(number, k));
        assert forall|i: int| 0 <= i < number.len() implies number[i] != ',' by {
            if i > k {
                assert(number[i] == tail.skip(1)[i - k - 1]);
                assert(is_digit(tail.skip(1)[i - k - 1]));
            } else if i < k {
                assert(is_digit(number[i]));
            }
        }
    }
}

/// A channel written as a percentage of three decimal places is an
/// argument, and is read as that channel.
pub proof fn lemma_percent_channel(channel: u8)
    ensures
        is_argument(percent_text(channel)),
        is_percent_channel(percent_text(channel)),
        channel_value(percent_text(channel)) == channel,
{
    law_percentage_round_trip(channel);
    let milli = percentage_milli(channel) as nat;
    let number = milli_text(milli);
    let t = percent_text(channel);
    lemma_milli_text(milli);
    assert(t.drop_last() =~= number);
    assert(t.last() == '%');
    assert(t[0] == number[0]);
    assert forall|i: int| 0 <= i < t.len() implies t[i] != ',' by {
        if i < number.len() {
            assert(t[i] == number[i]);
        }
    }
}

/// The three percentages of a colour are its channels as percentages with
/// commas between them.
proof fn lemma_percentages_text(c: Channels)
    ensures
        percentages_text(c) == percent_text(c.0) + seq![','] + percent_text(c.1) + seq![',']
            + percent_text(c.2),
{
    assert(percentages_text(c) =~= percent_text(c.0) + seq![','] + percent_text(c.1) + seq![',']
        + percent_text(c.2));
}

/// Three percentages of three decimal places are channels in one unit.
proof fn lemma_percent_channels(c: Channels)
    ensures
        is_argument(percent_text(c.0)),
        is_argument(percent_text(c.1)),
        is_argument(percent_text(c.2)),
        are_channels(percent_text(c.0), percent_text(c.1), percent_text(c.2)),
        channel_value(percent_text(c.0)) == c.0,
        channel_value(percent_text(c.1)) == c.1,
        channel_value(percent_text(c.2)) == c.2,
{
    lemma_percent_channel(c.0);
    lemma_percent_channel(c.1);
    lemma_percent_channel(c.2);
}

/// Written as `rgb(r%,g%,b%)` with three decimal places and read as a call
/// of `rgb`, the colour channels are found again, and alpha is 255.
pub proof fn law_rgb_percentage_round_trip(c: Channels)
    ensures
        parse_rgb(rgb_percentage_text(c)) == Some(opaque(c)),
{
    lemma_percent_channels(c);
    lemma_percentages_text(c);
    lemma_rgb_call_reads(percent_text(c.0), percent_text(c.1), percent_text(c.2));
}

/// Written as `rgba(r%,g%,b%,a)` with three decimal places and read as a
/// call of `rgba`, four channels are found again, unless alpha is 0 or 255.
pub proof fn law_rgba_percentage_round_trip(c: Channels)
    requires
        0 < c.3 < 255,
    ensures
        parse_rgba(rgba_percentage_text(c)) == Some(c),
{
    lemma_percent_channels(c);
    lemma_percentages_text(c);
    lemma_alpha(c.3);
    lemma_rgba_call_reads(percent_text(c.0), percent_text(c.1), percent_text(c.2), c.3);
}

/// An alpha of 0 or of 255 is written without a decimal point, so what
/// `rgba(r,g,b,a)` is written as is then no call of `rgba`.
pub proof fn law_rgba_whole_alpha(c: Channels)
    requires
        c.3 == 0 || c.3 == 255,
    ensures
        parse_rgba(rgba_text(c)) is None,
{
    lemma_plain_channel(c.0);
    lemma_plain_channel(c.1);
    lemma_plain_channel(c.2);
    law_fraction_round_trip(c.3);
    let a = alpha_text(c.3);
    let milli = fraction_milli(c.3) as nat;
    assert(a =~= decimal_text(milli / 1000));
    assert(a.len() == 1);
    assert(is_digit(a[0])) by {
        lemma_decimal_text(milli / 1000);
    }
    assert(is_argument(a));
    lemma_rgba_call(rgb_stripped_text(c), c.3);
    lemma_arguments_four(
        decimal_text(c.0 as nat),
        decimal_text(c.1 as nat),
        decimal_text(c.2 as nat),
        a,
    );
}

/// A text is of one notation at most.
pub proof fn law_one_notation(s: Seq<char>)
    ensures
        !(is_hex_text(s) && is_rgb_text(s)),
        !(is_hex_text(s) && is_rgba_text(s)),
        !(is_hex_text(s) && is_xrgba_text(s)),
        !(is_rgb_text(s) && is_rgba_text(s)),
        !(is_rgb_text(s) && is_xrgba_text(s)),
        !(is_rgba_text(s) && is_xrgba_text(s)),
{
    if is_hex_text(s) {
        assert(s[0] == '#');
    }
    if is_call(s, rgb_name()) {
        assert(lowered(s.take(3))[0] == 'r');
        assert(s[3] == '(');
    }
    if is_call(s, rgba_name()) {
        assert(lowered(s.take(4))[0] == 'r');
        assert(lowered(s.take(4))[3] == 'a');
    }
}

} // verus!
