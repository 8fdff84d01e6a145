use wavedrom::color::{parse_color, parse_opt_color, serialize_color, serialize_opt_color, Color};
use wavedrom::escape::escape_str;
use wavedrom::path::PathCommand;
use wavedrom::svg_path::{path_data, push_decimal};

#[test]
fn color_parse_long_form() {
    assert_eq!(Color::parse("#1A2b3C"), Ok(Color { red: 0x1A, green: 0x2B, blue: 0x3C }));
    assert_eq!(Color::parse("#000000"), Ok(Color::black()));
    assert_eq!(Color::parse("#FFFFFF"), Ok(Color::white()));
}

#[test]
fn color_parse_short_form() {
    assert_eq!(Color::parse("#fff"), Ok(Color::white()));
    assert_eq!(Color::parse("#1a3"), Ok(Color { red: 0x11, green: 0xAA, blue: 0x33 }));
}

#[test]
fn color_parse_errors() {
    assert_eq!(Color::parse(""), Err(0));
    assert_eq!(Color::parse("fff"), Err(0));
    assert_eq!(Color::parse("#"), Err(1));
    assert_eq!(Color::parse("#ab"), Err(3));
    assert_eq!(Color::parse("#abcd"), Err(5));
    assert_eq!(Color::parse("#abcdefa"), Err(7));
    assert_eq!(Color::parse("#g00"), Err(1));
    assert_eq!(Color::parse("#0g0"), Err(2));
    assert_eq!(Color::parse("#00g"), Err(3));
    assert_eq!(Color::parse("#zz0000"), Err(1));
    assert_eq!(Color::parse("#00zz00"), Err(3));
    assert_eq!(Color::parse("#0000zz"), Err(5));
    // Two bytes of one character in a three byte rest.
    assert_eq!(Color::parse("#é0"), Err(1));
}

#[test]
fn color_parse_plus_sign() {
    // `u8::from_str_radix` takes a leading `+`.
    assert_eq!(Color::parse("#+f0000"), Ok(Color { red: 0x0F, green: 0, blue: 0 }));
}

#[test]
fn color_to_string() {
    assert_eq!(Color::white().to_string(), "#FFF");
    assert_eq!(Color::black().to_string(), "#000");
    assert_eq!(Color { red: 0x12, green: 0x34, blue: 0xAB }.to_string(), "#1234AB");
    assert_eq!(Color { red: 0x11, green: 0x22, blue: 0x34 }.to_string(), "#112234");
}

#[test]
fn color_round_trip() {
    for c in [
        Color { red: 0x12, green: 0x34, blue: 0xAB },
        Color { red: 0xEE, green: 0x00, blue: 0x99 },
        Color::white(),
    ] {
        assert_eq!(Color::parse(&c.to_string()), Ok(c));
    }
}

#[test]
fn escape_special_characters() {
    assert_eq!(escape_str("a<b>&\"c\""), "a&lt;b&gt;&amp;&quot;c&quot;");
    assert_eq!(escape_str("plain text"), "plain text");
    assert_eq!(escape_str(""), "");
}

#[test]
fn decimal_numbers() {
    let mut s = String::new();
    push_decimal(&mut s, -120);
    push_decimal(&mut s, 0);
    push_decimal(&mut s, 7);
    assert_eq!(s, "-12007");
    let mut t = String::new();
    push_decimal(&mut t, i64::MIN);
    assert_eq!(t, "-9223372036854775808");
}

#[test]
fn path_data_commands() {
    let actions = [
        PathCommand::LineVertical(-5),
        PathCommand::LineHorizontal(10),
        PathCommand::Line(3, -4),
        PathCommand::Curve(1, 2, 3, 4, 5, 6),
        PathCommand::LineVerticalNoStroke(7),
    ];
    assert_eq!(path_data(1, 2, &actions, true, true), "M1,2v-5h10l3,-4c1,2 3,4 5,6v7z");
    assert_eq!(path_data(1, 2, &actions, false, false), "M1,2v-5h10l3,-4c1,2 3,4 5,6m0,7");
}

#[test]
fn path_data_dashed() {
    assert_eq!(path_data(0, 0, &[PathCommand::DashedLineHorizontal(10)], false, false), "M0,0h4m4,0h4");
    assert_eq!(path_data(0, 0, &[PathCommand::DashedLineHorizontal(-6)], false, false), "M0,0h-4m-4,0");
    assert_eq!(path_data(0, 0, &[PathCommand::DashedLineHorizontal(0)], false, false), "M0,0");
}

#[test]
fn packed_color_round_trip() {
    let c = Color { red: 0x12, green: 0xAB, blue: 0x07 };
    assert_eq!(serialize_color(&c), 0xFF12_AB07);
    assert_eq!(parse_color(0x0012_AB07), c);
    assert_eq!(parse_color(0xFF12_AB07), c);
    assert_eq!(parse_opt_color(0x0012_AB07), None);
    assert_eq!(parse_opt_color(0x0112_AB07), Some(c));
    assert_eq!(serialize_opt_color(&None), 0);
    assert_eq!(parse_opt_color(serialize_opt_color(&Some(c))), Some(c));
}
