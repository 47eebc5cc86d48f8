use colorconv::color::Color;
use colorconv::traits::{
    ComponentAsFraction, ComponentAsHexString, ComponentAsPercentage, ComponentAsu8, FromString,
    FromTuple, MakeString, ToTuple,
};

#[test]
fn from_tests() {
    let pink_hex = Color::from_hex("#ffbcca").unwrap();
    let pink_rgb = Color::from_rgb("rgb(255, 188, 202)").unwrap();
    let pink_rgba = Color::from_rgba("rgba(255, 188, 202, 1.0)").unwrap();
    let pink_xrgba = Color::from_xrgba("ff/bc/ca/ff").unwrap();
    assert_eq!(pink_hex, pink_rgb);
    assert_eq!(pink_hex, pink_rgba);
    assert_eq!(pink_hex, pink_xrgba);

    let aqua_hex = Color::from_hex8("#0fffff55").unwrap();
    let aqua_rgb = Color::from_rgb("rgb(5.883%,100%,100%)").unwrap();
    let aqua_rgba = Color::from_rgba("rgba(15,255,255,0.33334)").unwrap();
    let aqua_xrgba = Color::from_xrgba("0f/ff/ff/55").unwrap();
    assert_eq!(aqua_hex.red, aqua_rgb.red);
    assert_eq!(aqua_hex.green, aqua_rgb.green);
    assert_eq!(aqua_hex.blue, aqua_rgb.blue);
    assert_eq!(aqua_hex, aqua_rgba);
    assert_eq!(aqua_hex, aqua_xrgba);
}

#[test]
fn to_tests() {
    let green_blue = Color {
        red: 188,
        green: 255,
        blue: 245,
        alpha: 255,
    };
    assert_eq!(green_blue.hex(), "#bcfff5");
    assert_eq!(green_blue.hex8(), "#bcfff5ff");
    assert_eq!(green_blue.rgb(), "rgb(188,255,245)");
    assert_eq!(green_blue.rgb_percentage(), "rgb(73.725%,100%,96.078%)");
    assert_eq!(green_blue.rgb_percentage_rounded(), "rgb(74%,100%,96%)");
    assert_eq!(green_blue.rgba(), "rgba(188,255,245,1)");
    assert_eq!(green_blue.rgba_percentage(), "rgba(73.725%,100%,96.078%,1)");
    assert_eq!(green_blue.rgba_percentage_rounded(), "rgba(74%,100%,96%,1)");
    assert_eq!(green_blue.xrgba(), "bc/ff/f5/ff");

    let mint = Color {
        red: 171,
        green: 247,
        blue: 136,
        alpha: 128,
    };
    assert_eq!(mint.hex(), "#abf788");
    assert_eq!(mint.hex8(), "#abf78880");
    assert_eq!(mint.rgb(), "rgb(171,247,136)");
    assert_eq!(mint.rgb_percentage(), "rgb(67.059%,96.863%,53.333%)");
    assert_eq!(mint.rgb_percentage_rounded(), "rgb(67%,97%,53%)");
    assert_eq!(mint.rgb_stripped(), "171,247,136");
    assert_eq!(mint.rgba(), "rgba(171,247,136,0.502)");
    assert_eq!(mint.rgba_stripped(), "171,247,136,0.502");
    assert_eq!(
        mint.rgba_percentage(),
        "rgba(67.059%,96.863%,53.333%,0.502)"
    );
    assert_eq!(mint.rgba_percentage_rounded(), "rgba(67%,97%,53%,0.502)");
    assert_eq!(mint.xrgba(), "ab/f7/88/80");
}

#[test]
fn component_tests() {
    let orange = Color::from_hex8("#ff5500af").unwrap();
    assert_eq!(orange.red_u8(), 255);
    assert!(orange.red_hex().eq("ff"));
    assert!((1.0 - orange.red_fraction_milli() as f32 / 1000.0).abs() < f32::EPSILON);
    assert!((0.686 - orange.alpha_fraction_milli() as f32 / 1000.0).abs() < f32::EPSILON);
}

#[test]
fn stripped_hex_forms_have_no_hash() {
    let mint = Color {
        red: 171,
        green: 247,
        blue: 136,
        alpha: 128,
    };
    assert_eq!(mint.hex_stripped(), "abf788");
    assert_eq!(mint.hex8_stripped(), "abf78880");
}

#[test]
fn every_component_form_of_one_colour() {
    let c = Color {
        red: 0,
        green: 5,
        blue: 188,
        alpha: 175,
    };
    assert_eq!(
        (c.red_u8(), c.green_u8(), c.blue_u8(), c.alpha_u8()),
        (0, 5, 188, 175)
    );
    assert_eq!(c.red_hex(), "00");
    assert_eq!(c.green_hex(), "05");
    assert_eq!(c.blue_hex(), "bc");
    assert_eq!(c.alpha_hex(), "af");
    assert_eq!(c.red_percentage_milli(), 0);
    assert_eq!(c.green_percentage_milli(), 1961);
    assert_eq!(c.blue_percentage_milli(), 73725);
    assert_eq!(c.alpha_percentage_milli(), 68627);
    assert_eq!(c.red_percentage_rounded(), 0);
    assert_eq!(c.green_percentage_rounded(), 2);
    assert_eq!(c.blue_percentage_rounded(), 74);
    assert_eq!(c.alpha_percentage_rounded(), 69);
    assert_eq!(c.red_fraction_milli(), 0);
    assert_eq!(c.green_fraction_milli(), 20);
    assert_eq!(c.blue_fraction_milli(), 737);
    assert_eq!(c.alpha_fraction_milli(), 686);
}

#[test]
fn default_is_opaque_black() {
    let black = Color {
        red: 0,
        green: 0,
        blue: 0,
        alpha: 255,
    };
    assert_eq!(Color::default(), black);
    assert_eq!(Color::new(), black);
    assert_eq!(Color::new().to_string(), "#000000");
}

#[test]
fn tuples_go_in_and_out() {
    let c = Color::from_tuple((1, 2, 3));
    assert_eq!(c.to_tuple_alpha(), (1, 2, 3, 255));
    let d = Color::from_tuple_alpha((1, 2, 3, 4));
    assert_eq!(d.to_tuple(), (1, 2, 3));
    assert_eq!(d.to_tuple_alpha(), (1, 2, 3, 4));
}

#[test]
fn colours_are_ordered_as_their_channels() {
    let a = Color::from_tuple_alpha((1, 2, 3, 4));
    let b = Color::from_tuple_alpha((1, 2, 4, 0));
    let c = Color::from_tuple_alpha((2, 0, 0, 0));
    assert!(a < b && b < c);
    let mut sorted = vec![c, a, b];
    sorted.sort();
    assert_eq!(sorted, vec![a, b, c]);
    let mut shades = std::collections::BTreeMap::new();
    shades.insert(a, "first");
    shades.insert(Color::from_tuple_alpha((1, 2, 3, 4)), "again");
    assert_eq!(shades.len(), 1);
}

#[test]
fn from_hex_drops_alpha_and_from_hex8_keeps_it() {
    assert_eq!(
        Color::from_hex("#0fffff55").unwrap().to_tuple_alpha(),
        (15, 255, 255, 255)
    );
    assert_eq!(
        Color::from_hex8("#0fffff55").unwrap().to_tuple_alpha(),
        (15, 255, 255, 85)
    );
    assert_eq!(
        Color::from_hex8("#0fffff").unwrap().to_tuple_alpha(),
        (15, 255, 255, 255)
    );
}

#[test]
fn the_four_notations_of_one_colour_agree() {
    let hex = Color::from_hex("#ffbcca");
    assert_eq!(hex, Color::from_rgb("rgb(255,188,202)"));
    assert_eq!(hex, Color::from_rgba("rgba(255,188,202,1.0)"));
    assert_eq!(hex, Color::from_xrgba("ff/bc/ca/ff"));
}

#[test]
fn a_colour_is_not_read_from_another_notation() {
    assert!(Color::from_hex("rgb(1,2,3)").is_err());
    assert!(Color::from_hex8("ff/bc/ca/ff").is_err());
    assert!(Color::from_rgb("rgba(1,2,3,0.5)").is_err());
    assert!(Color::from_rgba("rgb(1,2,3)").is_err());
    assert!(Color::from_xrgba("#ffbccaff").is_err());
}

#[test]
fn less_than_agrees_with_sorting_order() {
    let values = [0u8, 1, 127, 255];
    let mut colours = Vec::new();
    for r in values {
        for g in values {
            for b in values {
                for a in values {
                    colours.push(Color::from_tuple_alpha((r, g, b, a)));
                }
            }
        }
    }
    for x in &colours {
        for y in &colours {
            assert_eq!(x.partial_cmp(y), Some(x.cmp(y)));
            assert_eq!(
                x.partial_cmp(y),
                x.to_tuple_alpha().partial_cmp(&y.to_tuple_alpha())
            );
            assert_eq!(x < y, x.to_tuple_alpha() < y.to_tuple_alpha());
        }
    }
}
