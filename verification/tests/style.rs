use bevy_svg_map::color::{to_color, Color};
use bevy_svg_map::error::{MalformedValue, Property, SvgError};
use bevy_svg_map::style::{LineCap, LineJoin, SvgStyle};

#[test]
fn style_parse_default() {
    let style = SvgStyle::default();
    assert_eq!(style.stroke(255).unwrap().unwrap(), Color::black());
}

#[test]
fn test_stroke_width() {
    let style = SvgStyle::default();
    assert_eq!(f64::from_bits(style.stroke_width().unwrap().bits) as f32, 0.264583);
}

#[test]
fn default_style_is_black_at_full_opacity() {
    let style = SvgStyle::default();
    assert_eq!(style.get("stroke-opacity"), Some("1"));
    assert_eq!(
        style.stroke(255),
        Ok(Some(Color { red: 0, green: 0, blue: 0, alpha: 255 }))
    );
    assert_eq!(f64::from_bits(style.stroke_width().unwrap().bits), 0.264583);
    assert_eq!(style.fill(255), Ok(None));
    assert_eq!(style.stroke_linecap(), Some(LineCap::Butt));
    assert_eq!(style.stroke_linejoin(), Some(LineJoin::Miter));
}

#[test]
fn alpha_is_the_one_handed_in() {
    let style = SvgStyle::from("stroke:#000000;fill:#ffffff;stroke-opacity:0.5");
    assert_eq!(style.get("stroke-opacity"), Some("0.5"));
    assert_eq!(style.get("fill-opacity"), None);
    assert_eq!(style.stroke(187).unwrap().unwrap().alpha, 187);
    assert_eq!(style.stroke(0).unwrap().unwrap().alpha, 0);
    assert_eq!(
        style.fill(255),
        Ok(Some(Color { red: 255, green: 255, blue: 255, alpha: 255 }))
    );
}

#[test]
fn opacity_that_is_no_number_is_kept_as_written() {
    let style = SvgStyle::from("stroke:#102030;stroke-opacity:half");
    assert_eq!(style.get("stroke-opacity"), Some("half"));
    assert_eq!(
        style.stroke(255),
        Ok(Some(Color { red: 0x10, green: 0x20, blue: 0x30, alpha: 255 }))
    );
}

#[test]
fn style_get_returns_raw_value() {
    let style = SvgStyle::parse("fill:none;stroke:#000000");
    assert_eq!(style.get("fill"), Some("none"));
    assert_eq!(style.get("stroke"), Some("#000000"));
    assert_eq!(style.get("stroke-width"), None);
    assert!(style.has("fill"));
    assert!(!style.has("stroke-width"));
    assert_eq!(style.panic_access("stroke"), "#000000");
}

#[test]
fn every_key_round_trips() {
    let pairs = [
        ("fill", "none"),
        ("stroke", "#ff0000"),
        ("stroke-width", "2px"),
        ("", "empty key"),
        ("empty-value", ""),
        ("link", "url(#a:b)"),
    ];
    let mut text = String::new();
    for (i, (key, value)) in pairs.iter().enumerate() {
        if i > 0 {
            text.push(';');
        }
        text.push_str(key);
        text.push(':');
        text.push_str(value);
    }
    let style = SvgStyle::from(text.as_str());
    for (key, value) in pairs.iter() {
        assert_eq!(style.get(key), Some(*value));
    }
    assert_eq!(style.get("stroke-linecap"), None);
}

#[test]
fn value_is_split_at_the_first_colon() {
    let style = SvgStyle::from("a:b:c;d:e");
    assert_eq!(style.get("a"), Some("b:c"));
    assert_eq!(style.get("d"), Some("e"));
}

#[test]
fn piece_without_colon_is_skipped() {
    let style = SvgStyle::from("fill:none;garbage;;stroke:red;");
    assert_eq!(style.get("fill"), Some("none"));
    assert_eq!(style.get("stroke"), Some("red"));
    assert_eq!(style.get("garbage"), None);
    assert_eq!(style.get(""), None);
}

#[test]
fn empty_style_holds_nothing() {
    let style = SvgStyle::from("");
    assert_eq!(style.get(""), None);
    assert_eq!(style.get("fill"), None);
    assert_eq!(style.stroke_width(), None);
}

#[test]
fn last_value_of_a_key_wins() {
    let style = SvgStyle::from("stroke:red;stroke:blue");
    assert_eq!(style.get("stroke"), Some("blue"));
    assert_eq!(
        style.stroke(255),
        Ok(Some(Color { red: 0, green: 0, blue: 255, alpha: 255 }))
    );
}

#[test]
fn keys_and_values_are_not_trimmed() {
    let style = SvgStyle::from("fill: none; stroke:red");
    assert_eq!(style.get("fill"), Some(" none"));
    assert_eq!(style.get(" stroke"), Some("red"));
    assert_eq!(style.get("stroke"), None);
}

#[test]
fn missing_stroke_is_an_error() {
    let style = SvgStyle::from("fill:#00ff00");
    assert_eq!(style.stroke(255), Err(SvgError::MissingStyleProperty(Property::Stroke)));
    assert_eq!(
        style.fill(10),
        Ok(Some(Color { red: 0, green: 255, blue: 0, alpha: 10 }))
    );
}

#[test]
fn missing_fill_is_an_error() {
    let style = SvgStyle::from("stroke:#00ff00");
    assert_eq!(style.fill(255), Err(SvgError::MissingStyleProperty(Property::Fill)));
}

#[test]
fn paint_that_is_no_color_is_absent() {
    let style = SvgStyle::from("stroke:none;fill:url(#gradient)");
    assert_eq!(style.stroke(255), Ok(None));
    assert_eq!(style.fill(255), Ok(None));
    let odd = SvgStyle::from("stroke:inherit;fill:not-a-color");
    assert_eq!(odd.stroke(255), Ok(None));
    assert_eq!(odd.fill(255), Ok(None));
}

#[test]
fn colors_are_read_in_every_notation() {
    assert_eq!(to_color("#ff0000", 255), Some(Color::red()));
    assert_eq!(to_color("red", 255), Some(Color::red()));
    assert_eq!(to_color("#f00", 255), Some(Color::red()));
    assert_eq!(to_color("rgb(255, 0, 0)", 255), Some(Color::red()));
    assert_eq!(to_color("  black ", 255), Some(Color::black()));
    assert_eq!(
        to_color("#0a141e", 7),
        Some(Color { red: 10, green: 20, blue: 30, alpha: 7 })
    );
    assert_eq!(to_color("none", 255), None);
    assert_eq!(to_color("", 255), None);
    assert_eq!(to_color("#12345", 255), None);
}

#[test]
fn color_from_paint_joins_the_channels() {
    assert_eq!(
        Color::from_paint(Some((1, 2, 3)), 4),
        Some(Color { red: 1, green: 2, blue: 3, alpha: 4 })
    );
    assert_eq!(Color::from_paint(None, 4), None);
}

#[test]
fn stroke_width_ignores_the_unit() {
    let px = SvgStyle::from("stroke-width:2px");
    assert_eq!(f64::from_bits(px.stroke_width().unwrap().bits), 2.0);
    let bare = SvgStyle::from("stroke-width:0.5");
    assert_eq!(f64::from_bits(bare.stroke_width().unwrap().bits), 0.5);
    let mm = SvgStyle::from("stroke-width:1.5mm");
    assert_eq!(f64::from_bits(mm.stroke_width().unwrap().bits), 1.5);
}

#[test]
fn stroke_width_absent_or_unreadable() {
    assert_eq!(SvgStyle::from("stroke:red").stroke_width(), None);
    assert_eq!(SvgStyle::from("stroke-width:wide").stroke_width(), None);
    assert_eq!(SvgStyle::from("stroke-width:2 px").stroke_width(), None);
}

#[test]
fn dasharray_is_a_number_list() {
    let style = SvgStyle::from("stroke:#000000;stroke-dasharray:3,1");
    let list = style.stroke_dasharray().unwrap().unwrap();
    assert_eq!(list.len(), 2);
    assert_eq!(f64::from_bits(list[0].bits), 3f64);
    assert_eq!(list.iter().map(|n| f64::from_bits(n.bits)).sum::<f64>(), 4f64);
}

#[test]
fn dasharray_absent_or_malformed() {
    assert_eq!(SvgStyle::from("stroke:#000000").stroke_dasharray(), Ok(None));
    assert_eq!(
        SvgStyle::from("stroke-dasharray:3,x").stroke_dasharray(),
        Err(MalformedValue)
    );
}

#[test]
fn linecap_literals() {
    let style = SvgStyle::from("stroke-linecap:butt;stroke-linejoin:miter");
    assert_eq!(style.stroke_linecap().unwrap(), LineCap::Butt);
    assert_eq!(SvgStyle::from("stroke-linecap:round").stroke_linecap(), Some(LineCap::Round));
    assert_eq!(SvgStyle::from("stroke-linecap:square").stroke_linecap(), Some(LineCap::Square));
    assert_eq!(SvgStyle::from("stroke-linecap:flat").stroke_linecap(), None);
    assert_eq!(SvgStyle::from("stroke-linecap:Butt").stroke_linecap(), None);
    assert_eq!(SvgStyle::from("stroke:red").stroke_linecap(), None);
}

#[test]
fn linejoin_literals() {
    let style = SvgStyle::from("stroke-linecap:butt;stroke-linejoin:miter");
    assert_eq!(style.stroke_linejoin().unwrap(), LineJoin::Miter);
    assert_eq!(SvgStyle::from("stroke-linejoin:round").stroke_linejoin(), Some(LineJoin::Round));
    assert_eq!(SvgStyle::from("stroke-linejoin:bevel").stroke_linejoin(), Some(LineJoin::Bevel));
    assert_eq!(SvgStyle::from("stroke-linejoin:butt").stroke_linejoin(), Some(LineJoin::Bevel));
    assert_eq!(
        SvgStyle::from("stroke-linejoin:miter-clip").stroke_linejoin(),
        Some(LineJoin::MiterClip)
    );
    assert_eq!(
        SvgStyle::from("stroke-linejoin:miterclip").stroke_linejoin(),
        Some(LineJoin::MiterClip)
    );
    assert_eq!(SvgStyle::from("stroke-linejoin:arcs").stroke_linejoin(), None);
    assert_eq!(SvgStyle::from("stroke:red").stroke_linejoin(), None);
}

#[test]
fn identity_is_kept_beside_the_properties() {
    let plain = SvgStyle::from("stroke:red");
    assert_eq!(plain.id(), None);
    assert_eq!(plain.class(), None);
    let named = plain.with_identity(Some("wall".to_string()), Some("solid".to_string()));
    assert_eq!(named.id(), Some("wall"));
    assert_eq!(named.class(), Some("solid"));
    assert_eq!(named.get("stroke"), Some("red"));
}

#[test]
fn text_beyond_ascii_is_read_by_character() {
    let style = SvgStyle::from("étiquette:mur épais;stroke:ŕed;fill:#ff0000");
    assert_eq!(style.get("étiquette"), Some("mur épais"));
    assert_eq!(style.get("stroke"), Some("ŕed"));
    assert_eq!(style.stroke(255), Ok(None));
    assert_eq!(style.fill(255), Ok(Some(Color::red())));
    assert_eq!(to_color("é", 255), None);
    assert_eq!(to_color("url(#é) red", 255), None);
    assert_eq!(SvgStyle::from("stroke-width:1é").stroke_width(), None);
    assert_eq!(SvgStyle::from("stroke-dasharray:1,é").stroke_dasharray(), Err(MalformedValue));
}

/// A small generator of repeatable pseudo-random numbers.
struct Lcg(u64);

impl Lcg {
    fn next(&mut self) -> u64 {
        self.0 = self.0.wrapping_mul(6364136223846793005).wrapping_add(1442695040888963407);
        self.0 >> 33
    }
}

#[test]
fn parsing_agrees_with_splitting() {
    let alphabet = ['a', 'b', 'c', ':', ';', ' ', 'é'];
    let mut rng = Lcg(7);
    for _ in 0..3000 {
        let len = (rng.next() % 14) as usize;
        let text: String =
            (0..len).map(|_| alphabet[(rng.next() % alphabet.len() as u64) as usize]).collect();
        let style = SvgStyle::from(text.as_str());
        let mut expected: Vec<(&str, &str)> = Vec::new();
        for piece in text.split(';') {
            if let Some((key, value)) = piece.split_once(':') {
                expected.retain(|(k, _)| *k != key);
                expected.push((key, value));
            }
        }
        for (key, value) in expected.iter() {
            assert_eq!(style.get(key), Some(*value), "in {:?}", text);
        }
        for key in ["", "a", "b", "ab", " ", "é", "zz"] {
            if !expected.iter().any(|(k, _)| *k == key) {
                assert_eq!(style.get(key), None, "in {:?}", text);
            }
        }
    }
}
