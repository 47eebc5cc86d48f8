use colorconv::color::Color;
use colorconv::traits::{FromString, FromTuple, MakeString};
use colorconv::utils::{
    check_hex, check_rgb, check_rgba, check_xrgba, classify, expand_hex, hex_to_tuple_alpha,
};

/// Colours that between them hold every value in every channel.
fn samples() -> Vec<Color> {
    let mut colours = Vec::new();
    for v in 0..=255u8 {
        colours.push(Color::from_tuple_alpha((
            v,
            255 - v,
            v ^ 0x5a,
            v.wrapping_mul(7).wrapping_add(3),
        )));
        colours.push(Color::from_tuple_alpha((v.rotate_left(4), v, v, v)));
    }
    colours
}

fn opaque(c: Color) -> Color {
    Color { alpha: 255, ..c }
}

#[test]
fn hex8_round_trip() {
    for c in samples() {
        assert_eq!(Color::from_hex8(&c.hex8()), Ok(c));
        assert_eq!(Color::from_hex8(&format!("#{}", c.hex8_stripped())), Ok(c));
    }
}

#[test]
fn hex_round_trip_gives_the_opaque_colour() {
    for c in samples() {
        assert_eq!(Color::from_hex(&c.hex()), Ok(opaque(c)));
        assert_eq!(Color::from_hex8(&c.hex()), Ok(opaque(c)));
        assert_eq!(Color::from_hex(&c.hex8()), Ok(opaque(c)));
    }
}

#[test]
fn xrgba_round_trip() {
    for c in samples() {
        assert_eq!(Color::from_xrgba(&c.xrgba()), Ok(c));
    }
}

#[test]
fn rgb_round_trip() {
    for c in samples() {
        assert_eq!(Color::from_rgb(&c.rgb()), Ok(opaque(c)));
    }
}

#[test]
fn rgb_percentage_round_trip() {
    for c in samples() {
        assert_eq!(Color::from_rgb(&c.rgb_percentage()), Ok(opaque(c)));
    }
}

#[test]
fn rgba_round_trip_for_fractional_alpha() {
    for c in samples() {
        if 0 < c.alpha && c.alpha < 255 {
            assert_eq!(Color::from_rgba(&c.rgba()), Ok(c));
            assert_eq!(Color::from_rgba(&c.rgba_percentage()), Ok(c));
        }
    }
}

#[test]
fn rgba_with_whole_alpha_is_written_without_a_point() {
    for alpha in [0u8, 255] {
        let c = Color::from_tuple_alpha((1, 2, 3, alpha));
        let text = c.rgba();
        assert_eq!(text, format!("rgba(1,2,3,{})", alpha / 255));
        assert!(Color::from_rgba(&text).is_err());
    }
}

#[test]
fn shorthand_denotes_what_its_long_form_denotes() {
    assert_eq!(Color::from_hex("#abc"), Color::from_hex("#aabbcc"));
    assert_eq!(Color::from_hex8("#abcd"), Color::from_hex8("#aabbccdd"));
    assert_eq!(
        Color::from_hex8("#abcd").unwrap(),
        Color::from_tuple_alpha((0xaa, 0xbb, 0xcc, 0xdd))
    );
    let digits = "0123456789abcdefABCDEF";
    for x in digits.chars() {
        for y in digits.chars() {
            for z in ['0', '9', 'a', 'F'] {
                let short = format!("#{x}{y}{z}");
                let long = format!("#{x}{x}{y}{y}{z}{z}");
                assert_eq!(hex_to_tuple_alpha(&short), {
                    let denoted = hex_to_tuple_alpha(&long);
                    assert!(denoted.is_ok());
                    denoted
                });
                assert_eq!(expand_hex(&short).unwrap(), long);
                let short = format!("#{z}{x}{y}{x}");
                let long = format!("#{z}{z}{x}{x}{y}{y}{x}{x}");
                assert_eq!(hex_to_tuple_alpha(&short), hex_to_tuple_alpha(&long));
                assert_eq!(expand_hex(&short).unwrap(), long);
            }
        }
    }
}

#[test]
fn shorthand_with_an_illegal_digit_is_refused_in_both_forms() {
    assert!(hex_to_tuple_alpha("#ag0").is_err());
    assert!(hex_to_tuple_alpha("#aagg00").is_err());
}

#[test]
fn a_text_is_of_one_notation_at_most() {
    let mut texts: Vec<String> = vec![
        String::new(),
        String::from("red"),
        String::from("#abc"),
        String::from("ab/cd/ef/01"),
        String::from("rgb(1,2,3)"),
        String::from("rgba(1,2,3,0.5)"),
        String::from("rgb(1,2,3,0.5)"),
    ];
    for c in samples().into_iter().take(40) {
        texts.extend([
            c.hex(),
            c.hex8(),
            c.hex_stripped(),
            c.rgb(),
            c.rgb_stripped(),
            c.rgb_percentage(),
            c.rgb_percentage_rounded(),
            c.rgba(),
            c.rgba_percentage(),
            c.xrgba(),
        ]);
    }
    for text in texts {
        let kinds = [
            check_hex(&text),
            check_rgb(&text),
            check_rgba(&text),
            check_xrgba(&text),
        ];
        let count = kinds.iter().filter(|&&k| k).count();
        assert!(count <= 1, "{text}");
        let expected = match kinds {
            [true, _, _, _] => 0,
            [_, true, _, _] => 1,
            [_, _, true, _] => 2,
            [_, _, _, true] => 3,
            _ => 9,
        };
        assert_eq!(classify(&text), expected, "{text}");
    }
}

#[test]
fn written_notations_are_of_their_own_kind() {
    for c in samples() {
        assert_eq!(classify(&c.hex()), 0);
        assert_eq!(classify(&c.hex8()), 0);
        assert_eq!(classify(&c.rgb()), 1);
        assert_eq!(classify(&c.rgb_percentage()), 1);
        assert_eq!(classify(&c.rgb_percentage_rounded()), 1);
        assert_eq!(classify(&c.xrgba()), 3);
        let fractional = 0 < c.alpha && c.alpha < 255;
        assert_eq!(classify(&c.rgba()), if fractional { 2 } else { 9 });
    }
}
