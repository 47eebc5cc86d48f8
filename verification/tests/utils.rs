use colorconv::error::{Grammar, InvalidFormat};
use colorconv::utils::{
    check_hex, check_rgb, check_rgba, check_xrgba, classify, expand_hex, hex_to_tuple,
    hex_to_tuple_alpha, rgb_to_tuple, rgba_to_tuple_alpha, xrgba_to_tuple, xrgba_to_tuple_alpha,
    HEX, RGB, RGBA, UNSUPPORTED, XRGBA,
};

fn refused(input: &str, grammar: Grammar) -> InvalidFormat {
    InvalidFormat {
        input: String::from(input),
        grammar,
    }
}

#[test]
fn hex_has_three_four_six_or_eight_digits() {
    for good in ["#abc", "#abcd", "#aabbcc", "#aabbccdd", "#ABC", "#AbCdEf", "#09afAF", "#0000"] {
        assert!(check_hex(good), "{good}");
    }
    for bad in [
        "", "#", "#a", "#ab", "#abcde", "#abcdefa", "#abcdefabc", "abc", "aabbcc", "#ggg",
        "#00xx00", "#aabbcc ", " #aabbcc", "x#aabbcc", "#aabbccx", "##abc", "#ab c", "#ａbc",
    ] {
        assert!(!check_hex(bad), "{bad}");
    }
}

#[test]
fn xrgba_is_four_pairs_between_slashes() {
    for good in ["ff/bc/ca/ff", "FF/BC/CA/FF", "00/00/00/00", "0f/Ff/fF/55"] {
        assert!(check_xrgba(good), "{good}");
    }
    for bad in [
        "", "ff/bc/ca", "ff/bc/ca/", "ff/bc/ca/f", "ff/bc/ca/fff", "ff/bc/ca/ff/", "/ff/bc/ca/ff",
        "f/bc/ca/ff", "ff-bc-ca-ff", "ff/bc/ca/fg", "ff/bc/ca/ff ", "[ff/bc/ca/ff]",
        "ff/bc/ca/ff/00", "ffbccaff",
    ] {
        assert!(!check_xrgba(bad), "{bad}");
    }
}

#[test]
fn rgb_takes_three_channels_in_one_unit() {
    for good in [
        "rgb(255,188,202)",
        "rgb(255, 188, 202)",
        "rgb(0,0,0)",
        "RGB(1,2,3)",
        "rGb(1,2,3)",
        "rgb(1,   2,\t3)",
        "rgb(1,\u{a0}2,\u{2003}3)",
        "rgb(007,000255,0)",
        "rgb(5.883%,100%,100%)",
        "rgb(0%, 50.5%, 100.000%)",
        "rgb(0100%,000100%,1%)",
        "rgb(99.999%,0.001%,12.34%)",
    ] {
        assert!(check_rgb(good), "{good}");
    }
    for bad in [
        "",
        "rgb()",
        "rgb(1,2)",
        "rgb(1,2,3,4)",
        "rgb(1,2,3",
        "rgb1,2,3)",
        "rgb (1,2,3)",
        "rgb( 1,2,3)",
        "rgb(1 ,2,3)",
        "rgb(1,2,3 )",
        "rgb(1,2,3) ",
        " rgb(1,2,3)",
        "xrgb(1,2,3)",
        "rgba(1,2,3)",
        "rgb(256,0,0)",
        "rgb(0,0,1000)",
        "rgb(0000255,0,0)",
        "rgb(-1,0,0)",
        "rgb(+1,0,0)",
        "rgb(1.5,2,3)",
        "rgb(a,b,c)",
        "rgb(,,)",
        "rgb(1,,3)",
        "rgb(100.001%,0%,0%)",
        "rgb(101%,0%,0%)",
        "rgb(1.%,0%,0%)",
        "rgb(.5%,0%,0%)",
        "rgb(1.2345%,0%,0%)",
        "rgb(1234.5%,0%,0%)",
        "rgb(1.2.3%,0%,0%)",
        "rgb(%,%,%)",
        "rgb(1%%,0%,0%)",
        "rgb(١,٢,٣)",
    ] {
        assert!(!check_rgb(bad), "{bad}");
    }
}

#[test]
fn rgb_refuses_mixed_units() {
    assert!(!check_rgb("rgb(255,50%,10)"));
    assert!(!check_rgb("rgb(50%,50%,10)"));
    assert!(!check_rgb("rgb(1,2,3%)"));
    assert_eq!(
        rgb_to_tuple("rgb(255,50%,10)"),
        Err(refused("rgb(255,50%,10)", Grammar::Rgb))
    );
    assert!(!check_rgba("rgba(255,50%,10,0.5)"));
}

#[test]
fn rgba_takes_three_channels_and_a_fraction() {
    for good in [
        "rgba(255,188,202,1.0)",
        "rgba(255, 188, 202, 1.0)",
        "RGBA(1,2,3,0.5)",
        "rgBa(1,2,3,0.0)",
        "rgba(1,2,3,0.33334)",
        "rgba(1,2,3,1.00000)",
        "rgba(1,2,3,0.99999999999999999999999999)",
        "rgba(10%,20%,30%,0.25)",
        "rgba(1,2,3,\u{3000}0.5)",
    ] {
        assert!(check_rgba(good), "{good}");
    }
    for bad in [
        "",
        "rgba(1,2,3)",
        "rgba(1,2,3,)",
        "rgba(1,2,3,1)",
        "rgba(1,2,3,0)",
        "rgba(1,2,3,.5)",
        "rgba(1,2,3,0.)",
        "rgba(1,2,3,00.5)",
        "rgba(1,2,3,10.5)",
        "rgba(1,2,3,2.0)",
        "rgba(1,2,3,1.001)",
        "rgba(1,2,3,1.0000000000000000000001)",
        "rgba(1,2,3,0.5%)",
        "rgba(1,2,3,50%)",
        "rgba(1,2,3,0.5,0.5)",
        "rgba(1,2,3,0.5) ",
        "rgba(1,2,3,0.5 )",
        "rgba(256,2,3,0.5)",
        "rgb(1,2,3,0.5)",
        "rgba(1,2,3,-0.5)",
        "rgba(1,2,3,0.5e1)",
    ] {
        assert!(!check_rgba(bad), "{bad}");
    }
}

#[test]
fn rgba_refuses_an_alpha_above_one() {
    assert!(!check_rgba("rgba(0,0,0,1.5)"));
    assert_eq!(
        rgba_to_tuple_alpha("rgba(0,0,0,1.5)"),
        Err(refused("rgba(0,0,0,1.5)", Grammar::Rgba))
    );
}

#[test]
fn classify_numbers_the_notations() {
    assert_eq!((HEX, RGB, RGBA, XRGBA, UNSUPPORTED), (0, 1, 2, 3, 9));
    assert_eq!(classify("#abc"), 0);
    assert_eq!(classify("#aabbccdd"), 0);
    assert_eq!(classify("rgb(1,2,3)"), 1);
    assert_eq!(classify("rgb(1%,2%,3%)"), 1);
    assert_eq!(classify("rgba(1,2,3,0.5)"), 2);
    assert_eq!(classify("ff/bc/ca/ff"), 3);
    for other in ["", "red", "#abcde", "rgb(1,2)", "rgb(256,0,0)", "rgb(255,50%,10)", "rgba(0,0,0,1.5)", "ff/bc/ca"] {
        assert_eq!(classify(other), 9, "{other}");
    }
}

#[test]
fn expand_hex_doubles_short_forms() {
    assert_eq!(expand_hex("#abc").unwrap(), "#aabbcc");
    assert_eq!(expand_hex("#aBcD").unwrap(), "#aaBBccDD");
    assert_eq!(expand_hex("#0f9").unwrap(), "#00ff99");
    assert_eq!(expand_hex("#aabbcc").unwrap(), "#aabbcc");
    assert_eq!(expand_hex("#AABBCCDD").unwrap(), "#AABBCCDD");
    assert_eq!(expand_hex("#ab"), Err(refused("#ab", Grammar::Hex)));
    assert_eq!(expand_hex("abc"), Err(refused("abc", Grammar::Hex)));
}

#[test]
fn hex_channels_of_each_form() {
    assert_eq!(hex_to_tuple("#ffbcca"), Ok((255, 188, 202)));
    assert_eq!(hex_to_tuple("#FFBCCA"), Ok((255, 188, 202)));
    assert_eq!(hex_to_tuple("#0fffff55"), Ok((15, 255, 255)));
    assert_eq!(hex_to_tuple("#abc"), Ok((0xaa, 0xbb, 0xcc)));
    assert_eq!(hex_to_tuple("#abcd"), Ok((0xaa, 0xbb, 0xcc)));
    assert_eq!(hex_to_tuple_alpha("#0fffff55"), Ok((15, 255, 255, 85)));
    assert_eq!(hex_to_tuple_alpha("#ffbcca"), Ok((255, 188, 202, 255)));
    assert_eq!(hex_to_tuple_alpha("#abc"), Ok((0xaa, 0xbb, 0xcc, 255)));
    assert_eq!(hex_to_tuple_alpha("#abcd"), Ok((0xaa, 0xbb, 0xcc, 0xdd)));
    assert_eq!(hex_to_tuple_alpha("#0009"), Ok((0, 0, 0, 0x99)));
}

#[test]
fn hex_with_an_illegal_character_is_refused() {
    assert_eq!(hex_to_tuple("#00xx00"), Err(refused("#00xx00", Grammar::Hex)));
    assert_eq!(
        hex_to_tuple_alpha("#00xx00"),
        Err(refused("#00xx00", Grammar::Hex))
    );
    assert_eq!(
        hex_to_tuple("#00xx00").unwrap_err().to_string(),
        "Invalid hex: #00xx00"
    );
}

#[test]
fn rgb_channels_plain_and_percent() {
    assert_eq!(rgb_to_tuple("rgb(255,188,202)"), Ok((255, 188, 202)));
    assert_eq!(rgb_to_tuple("rgb(255, 188, 202)"), Ok((255, 188, 202)));
    assert_eq!(rgb_to_tuple("rgb(007,000255,0)"), Ok((7, 255, 0)));
    assert_eq!(rgb_to_tuple("rgb(5.883%,100%,100%)"), Ok((15, 255, 255)));
    assert_eq!(rgb_to_tuple("rgb(0%,50%,100.000%)"), Ok((0, 128, 255)));
    assert_eq!(rgb_to_tuple("rgb(73.725%,96.078%,0.392%)"), Ok((188, 245, 1)));
    assert_eq!(rgb_to_tuple("rgb(15.49%,0.195%,0.196%)"), Ok((40, 0, 1)));
    assert_eq!(rgb_to_tuple("rgb(0100%,000050%,1.5%)"), Ok((255, 128, 4)));
    assert_eq!(
        rgb_to_tuple("rgb(256,0,0)"),
        Err(refused("rgb(256,0,0)", Grammar::Rgb))
    );
    assert_eq!(
        rgb_to_tuple("rgb(256,0,0)").unwrap_err().to_string(),
        "Invalid rgb: rgb(256,0,0)"
    );
}

#[test]
fn rgba_alpha_is_rounded_to_the_nearest_channel() {
    assert_eq!(
        rgba_to_tuple_alpha("rgba(255, 188, 202, 1.0)"),
        Ok((255, 188, 202, 255))
    );
    assert_eq!(
        rgba_to_tuple_alpha("rgba(15,255,255,0.33334)"),
        Ok((15, 255, 255, 85))
    );
    for (alpha, expected) in [
        ("0.0", 0u8),
        ("0.001", 0),
        ("0.00196", 0),
        ("0.00197", 1),
        ("0.5", 128),
        ("0.498", 127),
        ("0.502", 128),
        ("0.4999999999999999999999999999999", 127),
        ("0.50000000000000000000000000000000", 128),
        ("0.998", 254),
        ("0.999", 255),
        ("0.99999999999999999999", 255),
        ("1.0", 255),
        ("1.0000000000", 255),
    ] {
        let text = format!("rgba(1,2,3,{alpha})");
        assert_eq!(rgba_to_tuple_alpha(&text), Ok((1, 2, 3, expected)), "{alpha}");
    }
    assert_eq!(
        rgba_to_tuple_alpha("rgba(10%,20%,30%,0.25)"),
        Ok((26, 51, 77, 64))
    );
    assert_eq!(
        rgba_to_tuple_alpha("rgba(1,2,3,1)").unwrap_err().to_string(),
        "Invalid rgba: rgba(1,2,3,1)"
    );
}

#[test]
fn xrgba_channels_by_position() {
    assert_eq!(xrgba_to_tuple("ff/bc/ca/ff"), Ok((255, 188, 202)));
    assert_eq!(xrgba_to_tuple("0f/ff/ff/55"), Ok((15, 255, 255)));
    assert_eq!(xrgba_to_tuple_alpha("0f/ff/ff/55"), Ok((15, 255, 255, 85)));
    assert_eq!(xrgba_to_tuple_alpha("0F/FF/Ff/55"), Ok((15, 255, 255, 85)));
    assert_eq!(
        xrgba_to_tuple("ff/bc/ca"),
        Err(refused("ff/bc/ca", Grammar::Xrgba))
    );
    assert_eq!(
        xrgba_to_tuple_alpha("ff/bc/ca/f"),
        Err(refused("ff/bc/ca/f", Grammar::Xrgba))
    );
    assert_eq!(
        xrgba_to_tuple_alpha("ff/bc/ca/f").unwrap_err().to_string(),
        "Invalid xrgba: ff/bc/ca/f"
    );
}

#[test]
fn grammar_names() {
    assert_eq!(Grammar::Hex.name(), "hex");
    assert_eq!(Grammar::Rgb.name(), "rgb");
    assert_eq!(Grammar::Rgba.name(), "rgba");
    assert_eq!(Grammar::Xrgba.name(), "xrgba");
}

#[test]
fn an_error_keeps_the_text_as_given() {
    let text = "  rgb(1,2,3)\n";
    let error = rgb_to_tuple(text).unwrap_err();
    assert_eq!(error.input, text);
    assert_eq!(error.grammar, Grammar::Rgb);
    assert_eq!(error.clone(), error);
    assert_eq!(InvalidFormat::new(text, Grammar::Rgb), error);
}

#[test]
fn long_input_is_read_in_one_pass() {
    let spaces = " ".repeat(200_000);
    let text = format!("rgb(1,{spaces}2,{spaces}3)");
    assert_eq!(rgb_to_tuple(&text), Ok((1, 2, 3)));
    let places = "9".repeat(200_000);
    let text = format!("rgba(1,2,3,0.{places})");
    assert_eq!(rgba_to_tuple_alpha(&text), Ok((1, 2, 3, 255)));
    let commas = ",".repeat(200_000);
    assert!(!check_rgb(&format!("rgb({commas})")));
}
