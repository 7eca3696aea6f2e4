//! Style resolution: cascade order, selector matching, declaration
//! parsing, and defaults.

use essentia_browser::{
    style, Color, ComputedStyle, CssRule, Display, Element, StyleSheet,
};

fn rule(selector: &str, decls: &[(&str, &str)]) -> CssRule {
    CssRule {
        selector: selector.to_string(),
        declarations: decls
            .iter()
            .map(|(p, v)| (p.to_string(), v.to_string()))
            .collect(),
    }
}

#[test]
fn test_cascade_later_rule_wins() {
    let sheet = StyleSheet {
        rules: vec![
            rule("p", &[("color", "black")]),
            rule("p", &[("color", "red")]),
        ],
    };
    let p = Element::new("p");
    let resolved = style::resolve(&p, &sheet);
    assert_eq!(resolved.color, Color { r: 255, g: 0, b: 0, a: 255 });
}

#[test]
fn test_later_declaration_wins_within_rule() {
    let sheet = StyleSheet {
        rules: vec![rule("p", &[("color", "black"), ("color", "blue")])],
    };
    let resolved = style::resolve(&Element::new("p"), &sheet);
    assert_eq!(resolved.color, Color { r: 0, g: 0, b: 255, a: 255 });
}

#[test]
fn test_unmatched_selector_leaves_defaults() {
    let sheet = StyleSheet {
        rules: vec![rule("p", &[("color", "red"), ("width", "100")])],
    };
    let resolved = style::resolve(&Element::new("h1"), &sheet);
    assert_eq!(resolved, ComputedStyle::default());
}

#[test]
fn test_empty_stylesheet_gives_defaults() {
    let resolved = style::resolve(&Element::new("p"), &StyleSheet::default());
    assert_eq!(resolved.display, Display::Block);
    assert_eq!(resolved.width, None);
    assert_eq!(resolved.height, None);
    assert_eq!(resolved.background_color, Color { r: 0, g: 0, b: 0, a: 0 });
    assert_eq!(resolved.color, Color { r: 0, g: 0, b: 0, a: 255 });
}

#[test]
fn test_display_keywords() {
    let cases = [
        ("block", Display::Block),
        ("inline", Display::Inline),
        ("inline-block", Display::InlineBlock),
        ("flex", Display::Flex),
        ("none", Display::Hidden),
    ];
    for (value, expected) in cases {
        let sheet = StyleSheet { rules: vec![rule("div", &[("display", value)])] };
        let resolved = style::resolve(&Element::new("div"), &sheet);
        assert_eq!(resolved.display, expected);
    }
}

#[test]
fn test_unknown_display_value_ignored() {
    let sheet = StyleSheet { rules: vec![rule("div", &[("display", "grid")])] };
    let resolved = style::resolve(&Element::new("div"), &sheet);
    assert_eq!(resolved.display, Display::Block);
}

#[test]
fn test_width_and_height_pixels() {
    let sheet = StyleSheet {
        rules: vec![rule("div", &[("width", "640"), ("height", "480")])],
    };
    let resolved = style::resolve(&Element::new("div"), &sheet);
    assert_eq!(resolved.width, Some(640));
    assert_eq!(resolved.height, Some(480));
}

#[test]
fn test_non_numeric_width_ignored() {
    // Pixel values are bare decimal digit strings; anything else leaves
    // the property untouched.
    for bad in ["12px", "auto", "", "-3", "1.5"] {
        let sheet = StyleSheet { rules: vec![rule("div", &[("width", bad)])] };
        let resolved = style::resolve(&Element::new("div"), &sheet);
        assert_eq!(resolved.width, None);
    }
}

#[test]
fn test_oversized_width_ignored() {
    let sheet = StyleSheet {
        rules: vec![rule("div", &[("width", "99999999999999999999")])],
    };
    let resolved = style::resolve(&Element::new("div"), &sheet);
    assert_eq!(resolved.width, None);
    let max = u32::MAX.to_string();
    let sheet2 = StyleSheet { rules: vec![rule("div", &[("width", &max)])] };
    let resolved2 = style::resolve(&Element::new("div"), &sheet2);
    assert_eq!(resolved2.width, Some(u32::MAX));
}

#[test]
fn test_color_keywords() {
    let cases = [
        ("black", Color { r: 0, g: 0, b: 0, a: 255 }),
        ("white", Color { r: 255, g: 255, b: 255, a: 255 }),
        ("red", Color { r: 255, g: 0, b: 0, a: 255 }),
        ("green", Color { r: 0, g: 255, b: 0, a: 255 }),
        ("blue", Color { r: 0, g: 0, b: 255, a: 255 }),
        ("transparent", Color { r: 0, g: 0, b: 0, a: 0 }),
    ];
    for (value, expected) in cases {
        let sheet = StyleSheet {
            rules: vec![rule("b", &[("background-color", value), ("color", value)])],
        };
        let resolved = style::resolve(&Element::new("b"), &sheet);
        assert_eq!(resolved.background_color, expected);
        assert_eq!(resolved.color, expected);
    }
}

#[test]
fn test_unknown_property_ignored() {
    let sheet = StyleSheet {
        rules: vec![rule("p", &[("margin", "10"), ("color", "red")])],
    };
    let resolved = style::resolve(&Element::new("p"), &sheet);
    assert_eq!(resolved.color, Color { r: 255, g: 0, b: 0, a: 255 });
    assert_eq!(resolved.width, None);
}

#[test]
fn test_color_constructors() {
    assert_eq!(Color::black(), Color { r: 0, g: 0, b: 0, a: 255 });
    assert_eq!(Color::white(), Color { r: 255, g: 255, b: 255, a: 255 });
    assert_eq!(Color::transparent(), Color { r: 0, g: 0, b: 0, a: 0 });
}
