use markup_browser::style::{Color, FontSize, Property, StyleKey, Styles};
use markup_browser::size::parse_font_size;
use markup_browser::stylesheet::{
    apply_css_rules, parse_css, property, resolve_rules, CssRule, Declaration,
};

fn rgb(r: u8, g: u8, b: u8) -> Color {
    Color { r, g, b, a: 255 }
}

#[test]
fn defaults_match_catalog() {
    let d = Styles::default();
    assert_eq!(d.body.background_color, rgb(96, 96, 96));
    assert_eq!(d.p.color, rgb(160, 160, 160));
    assert_eq!(d.p.font_size, FontSize { hundredths: 1600 });
    assert_eq!(d.h1.font_size, FontSize { hundredths: 3200 });
    assert_eq!(d.h3.font_size, FontSize { hundredths: 1872 });
    assert_eq!(d.h6.font_size, FontSize { hundredths: 1072 });
    assert_eq!(d.h1.color, rgb(255, 255, 255));
    assert_eq!(d.code.color, rgb(220, 220, 220));
}

#[test]
fn resolving_twice_gives_same_catalog() {
    let css = "p { color: #123456; font-size: 20 } body { background-color: #000000 }";
    assert_eq!(parse_css(css), parse_css(css));
}

#[test]
fn last_declaration_wins() {
    let styles = parse_css("p { color: #111111; } p { color: #222222; }");
    assert_eq!(styles.p.color, rgb(0x22, 0x22, 0x22));
}

#[test]
fn unmatched_selector_keeps_defaults() {
    assert_eq!(parse_css("foo { color: #ffffff; }"), Styles::default());
}

#[test]
fn declarations_apply_to_their_slot_kind() {
    let styles = parse_css("h2 { color: #0a0B0c; font-size: 12.5; background-color: #ffffff } body { background-color: #010203; color: #ffffff }");
    assert_eq!(styles.h2.color, rgb(10, 11, 12));
    assert_eq!(styles.h2.font_size, FontSize { hundredths: 1250 });
    assert_eq!(styles.body.background_color, rgb(1, 2, 3));
    let mut expected = Styles::default();
    expected.h2.color = rgb(10, 11, 12);
    expected.h2.font_size = FontSize { hundredths: 1250 };
    expected.body.background_color = rgb(1, 2, 3);
    assert_eq!(styles, expected);
}

#[test]
fn bad_values_are_dropped() {
    let styles = parse_css("p { color: blue; font-size: 20px; color: #445566 }");
    assert_eq!(styles.p.color, rgb(0x44, 0x55, 0x66));
    assert_eq!(styles.p.font_size, FontSize { hundredths: 1600 });
}

#[test]
fn font_sizes() {
    let h = |n: u32| Some(FontSize { hundredths: n });
    assert_eq!(parse_font_size("16"), h(1600));
    assert_eq!(parse_font_size("18.72"), h(1872));
    assert_eq!(parse_font_size("9.5"), h(950));
    assert_eq!(parse_font_size("12.345"), h(1235));
    assert_eq!(parse_font_size("12.344"), h(1234));
    assert_eq!(parse_font_size(".5"), h(50));
    assert_eq!(parse_font_size("5."), h(500));
    assert_eq!(parse_font_size("1e1"), h(1000));
    assert_eq!(parse_font_size("+2.5E-1"), h(25));
    assert_eq!(parse_font_size("1234567"), h(123456700));
    assert_eq!(parse_font_size("0.004"), h(0));
    assert_eq!(parse_font_size("0.005"), h(1));
    assert_eq!(parse_font_size("42949672.95"), h(4294967295));
    assert_eq!(parse_font_size("42949672.96"), None);
    assert_eq!(parse_font_size("1e-999"), h(0));
    assert_eq!(parse_font_size("0e999"), h(0));
    assert_eq!(parse_font_size("1e999"), None);
    assert_eq!(parse_font_size(""), None);
    assert_eq!(parse_font_size("."), None);
    assert_eq!(parse_font_size("-5"), None);
    assert_eq!(parse_font_size("12px"), None);
    assert_eq!(parse_font_size("1e"), None);
    assert_eq!(parse_font_size("1e1000"), None);
    assert_eq!(parse_font_size("inf"), None);
}

#[test]
fn properties_by_name() {
    assert_eq!(property("color", "#ff8000"), Some(Property::Color(rgb(255, 128, 0))));
    assert_eq!(property("background-color", "#000000"), Some(Property::BackgroundColor(rgb(0, 0, 0))));
    assert_eq!(property("font-size", "7"), Some(Property::FontSize(FontSize { hundredths: 700 })));
    assert_eq!(property("margin", "7"), None);
    assert_eq!(property("color", "ff8000"), None);
    assert_eq!(property("color", "#f80"), Some(Property::Color(rgb(0xff, 0x88, 0x00))));
}

#[test]
fn resolve_rules_in_order() {
    let rules = vec![
        CssRule {
            selector: "link".to_string(),
            declarations: vec![Declaration { name: "color".to_string(), value: "#010101".to_string() }],
        },
        CssRule {
            selector: "nav".to_string(),
            declarations: vec![Declaration { name: "color".to_string(), value: "#020202".to_string() }],
        },
        CssRule {
            selector: "link".to_string(),
            declarations: vec![Declaration { name: "font-size".to_string(), value: "30".to_string() }],
        },
    ];
    let styles = resolve_rules(&rules);
    assert_eq!(styles.link.color, rgb(1, 1, 1));
    assert_eq!(styles.link.font_size, FontSize { hundredths: 3000 });
}

#[test]
fn style_keys() {
    assert_eq!(StyleKey::from_tag("details"), Some(StyleKey::Details));
    assert_eq!(StyleKey::from_tag("h4"), Some(StyleKey::H4));
    assert_eq!(StyleKey::from_tag("P"), None);
}

#[test]
fn update_ignores_missing_place() {
    let mut styles = Styles::default();
    styles.update(StyleKey::Body, Property::Color(rgb(1, 2, 3)));
    assert_eq!(styles, Styles::default());
    styles.update(StyleKey::Body, Property::BackgroundColor(rgb(1, 2, 3)));
    assert_eq!(styles.body.background_color, rgb(1, 2, 3));
}

#[test]
fn reapplying_rules_changes_nothing() {
    let rules = vec![
        CssRule {
            selector: "h1".to_string(),
            declarations: vec![
                Declaration { name: "color".to_string(), value: "#abcdef".to_string() },
                Declaration { name: "font-size".to_string(), value: "40".to_string() },
                Declaration { name: "color".to_string(), value: "#fedcba".to_string() },
            ],
        },
        CssRule {
            selector: "button".to_string(),
            declarations: vec![Declaration { name: "background-color".to_string(), value: "#0f0f0f".to_string() }],
        },
    ];
    let once = resolve_rules(&rules);
    let mut twice = once;
    apply_css_rules(&mut twice, &rules);
    assert_eq!(once, twice);
    assert_eq!(once.h1.color, rgb(0xfe, 0xdc, 0xba));
    assert_eq!(once.button.background_color, rgb(15, 15, 15));
}
