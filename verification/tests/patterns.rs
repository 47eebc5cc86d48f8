//! The validators on whole texts against the patterns of the notations,
//! matched from the first character to the last.

use colorconv::utils::{check_hex, check_rgb, check_rgba, check_xrgba};
use regex::Regex;

const HEX: &str = r"#[a-fA-F0-9]{8}|#[a-fA-F0-9]{6}|#[a-fA-F0-9]{4}|#[a-fA-F0-9]{3}";
const XRGBA: &str = r"[a-fA-F0-9]{2}/[a-fA-F0-9]{2}/[a-fA-F0-9]{2}/[a-fA-F0-9]{2}";
const RGB: &str = r"[rR][gG][bB]\(((?:\d{1,3}\.?)?\d{1,3}%?),\s*?((?:\d{1,3}\.?)?\d{1,3}%?),\s*?((?:\d{1,3}\.?)?\d{1,3}%?)\)";
const RGBA: &str = r"[rR][gG][bB][aA]\(((?:\d{1,3}\.?)?\d{1,3}%?),\s*?((?:\d{1,3}\.?)?\d{1,3}%?),\s*?((?:\d{1,3}\.?)?\d{1,3}%?),\s*?(\d{1}\.\d{1,})\)";

fn whole(pattern: &str) -> Regex {
    Regex::new(&format!(r"\A(?:{pattern})\z")).unwrap()
}

fn channel_in_range(token: &str) -> bool {
    match token.strip_suffix('%') {
        Some(number) => match number.parse::<f32>() {
            Ok(value) => (0.0f32..=100.0f32).contains(&value),
            Err(_) => false,
        },
        None => token.parse::<u8>().is_ok(),
    }
}

fn one_unit(tokens: &[&str]) -> bool {
    let percent = tokens.iter().filter(|t| t.ends_with('%')).count();
    percent == 0 || percent == tokens.len()
}

fn rgb_by_pattern(pattern: &Regex, text: &str) -> bool {
    match pattern.captures(text) {
        Some(found) => {
            let tokens = [&found[1], &found[2], &found[3]];
            one_unit(&tokens) && tokens.iter().all(|t| channel_in_range(t))
        }
        None => false,
    }
}

fn rgba_by_pattern(pattern: &Regex, text: &str) -> bool {
    match pattern.captures(text) {
        Some(found) => {
            let tokens = [&found[1], &found[2], &found[3]];
            let alpha = match found[4].parse::<f32>() {
                Ok(value) => (0.0f32..=1.0f32).contains(&value),
                Err(_) => false,
            };
            one_unit(&tokens) && tokens.iter().all(|t| channel_in_range(t)) && alpha
        }
        None => false,
    }
}

const CHANNELS: [&str; 30] = [
    "0", "7", "007", "255", "256", "999", "000255", "0000255", "1.5", "100%", "100.0%",
    "100.001%", "0%", "5.883%", "50.5%", "999%", "0100%", "000100%", "1234567%", "1.%", ".5%",
    "%", "", "1e2", "٣", "٣%", "12.345%", "1.2345%", "12.3.4%", "-1",
];

const GAPS: [&str; 8] = ["", " ", "   ", "\t", "\u{a0}", "\u{2003}\n", "x", "\u{200b}"];

const ALPHAS: [&str; 20] = [
    "0.0", "1.0", "0.5", "1.5", "0.33334", "1.000", "1.001", "0.999999999", "2.0", "9.9", "1",
    "0", ".5", "0.", "10.5", "0.5e1", "0.٣", "0.5%", "", "0.000000000000000000001",
];

#[test]
fn hex_agrees_with_its_pattern() {
    let pattern = whole(HEX);
    let digits = ["0", "9", "a", "f", "A", "F", "g", "G", "#", " ", "/", "é"];
    let mut texts: Vec<String> = vec![String::new(), String::from("#")];
    for length in 1..=9 {
        for (i, first) in digits.iter().enumerate() {
            let body: String = (0..length).map(|k| digits[(i + k * 5) % 6]).collect();
            texts.push(format!("#{body}"));
            texts.push(body.clone());
            texts.push(format!("#{first}{}", &body[1..]));
            texts.push(format!("#{}{first}", &body[1..]));
            texts.push(format!("{first}#{body}"));
        }
    }
    for text in texts {
        assert_eq!(check_hex(&text), pattern.is_match(&text), "{text:?}");
    }
}

#[test]
fn xrgba_agrees_with_its_pattern() {
    let pattern = whole(XRGBA);
    let pairs = ["00", "ff", "FF", "aB", "0", "000", "g0", "0g", "", "/", "f/", "é0"];
    let mut texts: Vec<String> = Vec::new();
    for a in pairs {
        for b in pairs {
            texts.push(format!("{a}/{b}/9a/0F"));
            texts.push(format!("12/{a}/{b}/cd"));
            texts.push(format!("12/34/{a}/{b}"));
            texts.push(format!("{a}/{b}"));
            texts.push(format!("{a}/{b}/{a}"));
            texts.push(format!("{a}-{b}-{a}-{b}"));
            texts.push(format!("{a}/{b}/{a}/{b}/{a}"));
        }
    }
    for text in texts {
        assert_eq!(check_xrgba(&text), pattern.is_match(&text), "{text:?}");
    }
}

#[test]
fn rgb_agrees_with_its_pattern_over_channels() {
    let pattern = whole(RGB);
    for a in CHANNELS {
        for b in CHANNELS {
            for c in ["0", "255", "256", "50%", "100.001%", "", "1.5"] {
                for text in [
                    format!("rgb({a},{b},{c})"),
                    format!("rgb({c},{a}, {b})"),
                    format!("RGB({b},{c},{a})"),
                ] {
                    assert_eq!(check_rgb(&text), rgb_by_pattern(&pattern, &text), "{text:?}");
                }
            }
        }
    }
}

#[test]
fn rgb_agrees_with_its_pattern_over_shapes() {
    let pattern = whole(RGB);
    let names = ["rgb", "RGB", "rGb", "Rgb", "rgba", "rg", "xrgb", "", "ｒgb", "rgb "];
    let mut texts: Vec<String> = Vec::new();
    for name in names {
        for gap in GAPS {
            texts.push(format!("{name}(1,{gap}2,{gap}3)"));
            texts.push(format!("{name}(1%,{gap}2%,{gap}3%)"));
            texts.push(format!("{name}({gap}1,2,3)"));
            texts.push(format!("{name}(1{gap},2,3)"));
            texts.push(format!("{name}(1,2,3{gap})"));
            texts.push(format!("{name}(1,2,3){gap}"));
            texts.push(format!("{gap}{name}(1,2,3)"));
            texts.push(format!("{name}{gap}(1,2,3)"));
            texts.push(format!("{name}(1,{gap}{gap}2,3)"));
        }
        texts.push(format!("{name}(1,2)"));
        texts.push(format!("{name}(1,2,3,4)"));
        texts.push(format!("{name}(1,2,3"));
        texts.push(format!("{name}1,2,3)"));
        texts.push(format!("{name}[1,2,3]"));
        texts.push(format!("{name}(1;2;3)"));
        texts.push(format!("{name}(1,2,3))"));
        texts.push(format!("{name}((1,2,3)"));
        texts.push(format!("{name}()"));
        texts.push(format!("{name}(,,)"));
    }
    for text in texts {
        assert_eq!(check_rgb(&text), rgb_by_pattern(&pattern, &text), "{text:?}");
    }
}

#[test]
fn rgba_agrees_with_its_pattern() {
    let pattern = whole(RGBA);
    let mut texts: Vec<String> = Vec::new();
    for alpha in ALPHAS {
        for a in CHANNELS {
            texts.push(format!("rgba({a},0,255,{alpha})"));
            texts.push(format!("rgba(0%,{a},100%, {alpha})"));
        }
        for gap in GAPS {
            texts.push(format!("rgba(1,{gap}2,{gap}3,{gap}{alpha})"));
            texts.push(format!("RgBa(1,2,3,{alpha}{gap})"));
            texts.push(format!("rgba(1,2,3{gap},{alpha})"));
            texts.push(format!("rgba(1,2,3,{alpha}){gap}"));
        }
        texts.push(format!("rgba(1,2,{alpha})"));
        texts.push(format!("rgba(1,2,3,4,{alpha})"));
        texts.push(format!("rgb(1,2,3,{alpha})"));
        texts.push(format!("rgba(1,2,3,{alpha}"));
    }
    for text in texts {
        assert_eq!(check_rgba(&text), rgba_by_pattern(&pattern, &text), "{text:?}");
    }
}

#[test]
fn alpha_is_compared_with_one_exactly() {
    // In single precision these two are the same number, and are both 1.
    let text = "rgba(1,2,3,1.0000000000000000000001)";
    assert!(rgba_by_pattern(&whole(RGBA), text));
    assert!(!check_rgba(text));
    assert!(check_rgba("rgba(1,2,3,1.0000000000000000000000)"));
}

#[test]
fn what_surrounds_a_text_counts() {
    // The patterns alone are found inside a longer text; the validators
    // take the text as a whole.
    let inside = Regex::new(HEX).unwrap();
    assert!(inside.is_match("x#aabbccyy"));
    assert!(!check_hex("x#aabbccyy"));
    assert!(!check_hex("#aabbccyy"));
}
