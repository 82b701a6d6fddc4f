use simple_base64::prelude::BASE64_STANDARD_NO_PAD;
use simple_base64::Engine;
use visit_stats::cell::{cell_to_json, integer_text, display_text, Cell, JsonCell};

#[test]
fn null_displays_empty() {
    assert_eq!(display_text(&Cell::Null), "");
}

#[test]
fn integer_displays_decimal() {
    assert_eq!(display_text(&Cell::Integer(0)), "0");
    assert_eq!(display_text(&Cell::Integer(42)), "42");
    assert_eq!(display_text(&Cell::Integer(-7)), "-7");
    assert_eq!(display_text(&Cell::Integer(1000)), "1000");
}

#[test]
fn integer_text_extremes_round_trip() {
    for v in [i64::MIN, i64::MAX, -1, 0, 1, 10, 99, -100, 1234567890123] {
        let t = integer_text(v);
        assert_eq!(t, v.to_string());
        assert_eq!(t.parse::<i64>().unwrap(), v);
    }
}

#[test]
fn real_and_text_display_verbatim() {
    let real = 52.1672f64;
    let shown = display_text(&Cell::Real(real.to_string()));
    assert_eq!(shown, "52.1672");
    assert_eq!(shown.parse::<f64>().unwrap(), real);
    assert_eq!(display_text(&Cell::Text("Warsaw".to_string())), "Warsaw");
}

#[test]
fn binary_displays_unpadded_base64() {
    let bytes = b"some bytes".to_vec();
    let shown = display_text(&Cell::Binary(bytes.clone()));
    assert_eq!(shown, "c29tZSBieXRlcw");
    assert_eq!(BASE64_STANDARD_NO_PAD.decode(&shown).unwrap(), bytes);
    assert_eq!(display_text(&Cell::Binary(vec![])), "");
    assert_eq!(display_text(&Cell::Binary(vec![0xff])), "/w");
}

#[test]
fn json_cells_keep_values() {
    assert!(matches!(cell_to_json(&Cell::Null), JsonCell::Null));
    assert!(matches!(cell_to_json(&Cell::Integer(-3)), JsonCell::Integer(-3)));
    match cell_to_json(&Cell::Real("60.3183".to_string())) {
        JsonCell::Real(t) => assert_eq!(t, "60.3183"),
        _ => panic!("expected a number"),
    }
    match cell_to_json(&Cell::Text("hel".to_string())) {
        JsonCell::Text(t) => assert_eq!(t, "hel"),
        _ => panic!("expected a string"),
    }
    let bytes = vec![1u8, 2, 3, 4];
    match cell_to_json(&Cell::Binary(bytes.clone())) {
        JsonCell::Base64Object(t) => {
            assert_eq!(t, "AQIDBA");
            assert_eq!(BASE64_STANDARD_NO_PAD.decode(&t).unwrap(), bytes);
        }
        _ => panic!("expected a base64 object"),
    }
}
