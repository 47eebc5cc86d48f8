use colorconv::error::Grammar;
use colorconv::xrgba::Xrgba;

#[test]
fn xrgba_from_hex() {
    let blue = Xrgba::from_hex("#0000ff").unwrap();
    assert!(blue.to_string().eq("00/00/ff/ff"));
}

#[test]
fn xrgba_to_hex() {
    let blue = Xrgba::from_xrgba("00/00/ff/ff").unwrap();
    assert!(blue.to_hex().eq("#0000ff"));
}

#[test]
fn xrgba_to_string() {
    let blue = Xrgba::from_xrgba("00/00/ff/ff").unwrap();
    assert!(blue.to_string().eq("00/00/ff/ff"));
}

#[test]
fn xrgba_default_is_opaque_black() {
    assert_eq!(Xrgba::default().to_string(), "00/00/00/ff");
}

#[test]
fn xrgba_from_hex_keeps_alpha_and_lowers_case() {
    let c = Xrgba::from_hex("#AbCdEf80").unwrap();
    assert_eq!(c.to_string(), "ab/cd/ef/80");
    assert_eq!(c.to_hex(), "#abcdef");
    assert_eq!(c.to_hex8(), "#abcdef80");
    assert_eq!((c.red(), c.green(), c.blue()), ("ab", "cd", "ef"));
}

#[test]
fn xrgba_from_hex_refuses_short_and_malformed_forms() {
    for bad in ["#abc", "#abcd", "0000ff", "#0000fg", "", "#0000ff0"] {
        let error = Xrgba::from_hex(bad).unwrap_err();
        assert_eq!(error.input, bad);
        assert_eq!(error.grammar, Grammar::Hex);
    }
}

#[test]
fn xrgba_from_xrgba_lowers_case_and_refuses_other_text() {
    assert_eq!(
        Xrgba::from_xrgba("AB/Cd/eF/09").unwrap().to_string(),
        "ab/cd/ef/09"
    );
    for bad in ["ab/cd/ef", "ab/cd/ef/0", "ab/cd/ef/091", "ab-cd-ef-09", "#abcdef09", ""] {
        let error = Xrgba::from_xrgba(bad).unwrap_err();
        assert_eq!(error.input, bad);
        assert_eq!(error.grammar, Grammar::Xrgba);
    }
}

#[test]
fn xrgba_setters_replace_one_pair() {
    let mut c = Xrgba::from_xrgba("00/11/22/33").unwrap();
    c.set_red("Aa").unwrap();
    assert_eq!(c.to_string(), "aa/11/22/33");
    c.set_green("bb").unwrap();
    assert_eq!(c.to_string(), "aa/bb/22/33");
    c.set_blue("cC").unwrap();
    assert_eq!(c.to_string(), "aa/bb/cc/33");
    c.set_alpha("0d").unwrap();
    assert_eq!(c.to_string(), "aa/bb/cc/0d");
    assert_eq!(c.to_hex8(), "#aabbcc0d");
}

#[test]
fn xrgba_setters_refuse_what_is_no_pair() {
    let mut c = Xrgba::from_xrgba("00/11/22/33").unwrap();
    for bad in ["", "a", "abc", "g0", "0/", "a/b"] {
        for which in 0..4 {
            let result = match which {
                0 => c.set_red(bad),
                1 => c.set_green(bad),
                2 => c.set_blue(bad),
                _ => c.set_alpha(bad),
            };
            let error = result.unwrap_err();
            assert_eq!(error.input, bad);
            assert_eq!(error.grammar, Grammar::Xrgba);
            assert_eq!(c.to_string(), "00/11/22/33");
        }
    }
}

#[test]
fn xrgba_round_trip_through_hex8() {
    for v in 0..=255u8 {
        let hex = format!("#{:02x}{:02x}{:02x}{:02x}", v, 255 - v, v ^ 0xa5, v.rotate_left(3));
        assert_eq!(Xrgba::from_hex(&hex).unwrap().to_hex8(), hex);
    }
}

#[test]
fn xrgba_clone_and_string() {
    let c = Xrgba::from_hex("#102030").unwrap();
    let d = c.clone();
    assert_eq!(String::from(&d), "10/20/30/ff");
    assert_eq!(c.to_string(), d.to_string());
}
