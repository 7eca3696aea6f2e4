//! The style model: ordered selector/declaration rules and the resolver
//! that folds matching declarations into a computed style per node. The
//! cascade is source order alone: a later matching rule's declaration for a
//! property overwrites an earlier one; there is no specificity weighting and
//! no inheritance.

use crate::types::Element;
use vstd::prelude::*;
use vstd::string::StringExecFns;

verus! {

/// RGBA color with byte channels.
#[derive(Debug, Clone, Copy, PartialEq, Eq, Structural)]
pub struct Color {
    pub r: u8,
    pub g: u8,
    pub b: u8,
    pub a: u8,
}

impl Color {
    /// Opaque black.
    pub fn black() -> (c: Color)
        ensures
            c == (Color { r: 0, g: 0, b: 0, a: 255 }),
    {
        Color { r: 0, g: 0, b: 0, a: 255 }
    }

    /// Opaque white.
    pub fn white() -> (c: Color)
        ensures
            c == (Color { r: 255, g: 255, b: 255, a: 255 }),
    {
        Color { r: 255, g: 255, b: 255, a: 255 }
    }

    /// Fully transparent black.
    pub fn transparent() -> (c: Color)
        ensures
            c == (Color { r: 0, g: 0, b: 0, a: 0 }),
    {
        Color { r: 0, g: 0, b: 0, a: 0 }
    }
}

/// Display mode of a node.
#[derive(Debug, Clone, Copy, PartialEq, Eq, Structural)]
pub enum Display {
    Block,
    Inline,
    InlineBlock,
    Flex,
    /// The `none` display keyword: the node generates no box.
    Hidden,
}

impl Default for Display {
    /// Nodes display as blocks unless a rule says otherwise.
    fn default() -> (d: Display)
        ensures
            d == Display::Block,
    {
        Display::Block
    }
}

/// A single stylesheet rule: a selector matched against tag names, and the
/// ordered declarations it applies.
#[derive(Debug, Clone)]
pub struct CssRule {
    /// Selector; matching is by equality with the element's tag name.
    pub selector: String,
    /// Ordered (property, value) declarations.
    pub declarations: Vec<(String, String)>,
}

/// An ordered sequence of rules; order is the whole cascade.
#[derive(Debug, Clone)]
pub struct StyleSheet {
    /// CSS rules, in source order.
    pub rules: Vec<CssRule>,
}

impl Default for StyleSheet {
    /// The empty stylesheet: every node resolves to the default style.
    fn default() -> (s: StyleSheet)
        ensures
            s.rules@.len() == 0,
    {
        StyleSheet { rules: Vec::new() }
    }
}

/// Resolved presentation properties for one node.
#[derive(Debug, Clone, Copy, PartialEq, Eq)]
pub struct ComputedStyle {
    /// Display mode.
    pub display: Display,
    /// Explicit width in pixels, or `None` for automatic.
    pub width: Option<u32>,
    /// Explicit height in pixels, or `None` for automatic.
    pub height: Option<u32>,
    /// Background color.
    pub background_color: Color,
    /// Text color.
    pub color: Color,
}

/// The default computed style: block display, automatic width and height,
/// transparent background, opaque black text.
pub open spec fn default_style() -> ComputedStyle {
    ComputedStyle {
        display: Display::Block,
        width: None,
        height: None,
        background_color: Color { r: 0, g: 0, b: 0, a: 0 },
        color: Color { r: 0, g: 0, b: 0, a: 255 },
    }
}

impl Default for ComputedStyle {
    /// The default style of a node no rule matched.
    fn default() -> (c: ComputedStyle)
        ensures
            c == default_style(),
    {
        ComputedStyle {
            display: Display::Block,
            width: None,
            height: None,
            background_color: Color { r: 0, g: 0, b: 0, a: 0 },
            color: Color { r: 0, g: 0, b: 0, a: 255 },
        }
    }
}

/// A display keyword, as understood by declaration parsing.
pub open spec fn display_of(v: Seq<char>) -> Option<Display> {
    if v == "block"@ {
        Some(Display::Block)
    } else if v == "inline"@ {
        Some(Display::Inline)
    } else if v == "inline-block"@ {
        Some(Display::InlineBlock)
    } else if v == "flex"@ {
        Some(Display::Flex)
    } else if v == "none"@ {
        Some(Display::Hidden)
    } else {
        None
    }
}

/// A named color keyword, as understood by declaration parsing.
pub open spec fn color_of(v: Seq<char>) -> Option<Color> {
    if v == "black"@ {
        Some(Color { r: 0, g: 0, b: 0, a: 255 })
    } else if v == "white"@ {
        Some(Color { r: 255, g: 255, b: 255, a: 255 })
    } else if v == "red"@ {
        Some(Color { r: 255, g: 0, b: 0, a: 255 })
    } else if v == "green"@ {
        Some(Color { r: 0, g: 255, b: 0, a: 255 })
    } else if v == "blue"@ {
        Some(Color { r: 0, g: 0, b: 255, a: 255 })
    } else if v == "transparent"@ {
        Some(Color { r: 0, g: 0, b: 0, a: 0 })
    } else {
        None
    }
}

/// Whether `c` is an ASCII decimal digit.
pub open spec fn is_digit(c: char) -> bool {
    48 <= (c as u32) && (c as u32) <= 57
}

/// The numeric value of a digit character.
pub open spec fn digit_val(c: char) -> int {
    (c as u32) - 48
}

/// The decimal value of a digit string.
pub open spec fn dec_val(s: Seq<char>) -> int
    decreases s.len(),
{
    if s.len() == 0 {
        0
    } else {
        dec_val(s.drop_last()) * 10 + digit_val(s.last())
    }
}

/// A pixel count, as understood by declaration parsing: one or more decimal
/// digits whose value fits in 32 bits; anything else is rejected.
pub open spec fn px_of(v: Seq<char>) -> Option<u32> {
    if v.len() > 0 && (forall|i: int| 0 <= i < v.len() ==> is_digit(v[i])) && dec_val(v)
        <= u32::MAX {
        Some(dec_val(v) as u32)
    } else {
        None
    }
}

/// The effect of one declaration on an accumulated style. Unknown
/// properties and unparsable values leave the style untouched.
pub open spec fn apply_decl(st: ComputedStyle, d: (String, String)) -> ComputedStyle {
    if d.0@ == "display"@ {
        match display_of(d.1@) {
            Some(disp) => ComputedStyle { display: disp, ..st },
            None => st,
        }
    } else if d.0@ == "width"@ {
        match px_of(d.1@) {
            Some(w) => ComputedStyle { width: Some(w), ..st },
            None => st,
        }
    } else if d.0@ == "height"@ {
        match px_of(d.1@) {
            Some(h) => ComputedStyle { height: Some(h), ..st },
            None => st,
        }
    } else if d.0@ == "background-color"@ {
        match color_of(d.1@) {
            Some(c) => ComputedStyle { background_color: c, ..st },
            None => st,
        }
    } else if d.0@ == "color"@ {
        match color_of(d.1@) {
            Some(c) => ComputedStyle { color: c, ..st },
            None => st,
        }
    } else {
        st
    }
}

/// The effect of a declaration list, applied in order.
pub open spec fn apply_decls(st: ComputedStyle, ds: Seq<(String, String)>) -> ComputedStyle
    decreases ds.len(),
{
    if ds.len() == 0 {
        st
    } else {
        apply_decl(apply_decls(st, ds.drop_last()), ds.last())
    }
}

/// The cascade over a rule list: starting from the default style, every
/// rule whose selector equals the tag name applies its declarations in
/// order, so later matching rules win per property.
pub open spec fn resolve_spec(tag: Seq<char>, rules: Seq<CssRule>) -> ComputedStyle
    decreases rules.len(),
{
    if rules.len() == 0 {
        default_style()
    } else {
        let prev = resolve_spec(tag, rules.drop_last());
        if rules.last().selector@ == tag {
            apply_decls(prev, rules.last().declarations@)
        } else {
            prev
        }
    }
}

/// Parse a pixel-count value.
fn parse_px(v: &String) -> (r: Option<u32>)
    ensures
        r == px_of(v@),
{
    let s = v.as_str();
    let n = s.unicode_len();
    if n == 0 {
        return None;
    }
    let mut acc: u64 = 0;
    let mut j: usize = 0;
    while j < n
        invariant
            n == v@.len(),
            j <= n,
            forall|i: int| 0 <= i < j ==> is_digit(v@[i]),
            acc == dec_val(v@.subrange(0, j as int)),
            acc <= u32::MAX,
            s@ == v@,
        decreases n - j,
    {
        let c = s.get_char(j);
        let u = c as u32;
        if u < 48 || u > 57 {
            return None;
        }
        let d: u64 = (u - 48) as u64;
        let next: u64 = acc * 10 + d;
        proof {
            assert(v@.subrange(0, j as int + 1).drop_last() =~= v@.subrange(0, j as int));
            assert(v@.subrange(0, j as int + 1).last() == v@[j as int]);
        }
        if next > u32::MAX as u64 {
            proof {
                if forall|i: int| 0 <= i < v@.len() ==> is_digit(v@[i]) {
                    lemma_dec_val_prefix_le(v@, j as int + 1);
                }
            }
            return None;
        }
        acc = next;
        j = j + 1;
    }
    proof {
        assert(v@.subrange(0, n as int) =~= v@);
    }
    Some(acc as u32)
}

/// A digit string's value is at least the value of any of its prefixes.
proof fn lemma_dec_val_prefix_le(s: Seq<char>, i: int)
    requires
        0 <= i <= s.len(),
        forall|k: int| 0 <= k < s.len() ==> is_digit(s[k]),
    ensures
        dec_val(s.subrange(0, i)) <= dec_val(s),
        dec_val(s) >= 0,
    decreases s.len() - i,
{
    lemma_dec_val_nonneg(s);
    if i < s.len() {
        lemma_dec_val_prefix_le(s, i + 1);
        let a = s.subrange(0, i);
        let b = s.subrange(0, i + 1);
        assert(b.drop_last() =~= a);
        lemma_dec_val_nonneg(a);
    } else {
        assert(s.subrange(0, i) =~= s);
    }
}

/// A digit string's value is non-negative.
proof fn lemma_dec_val_nonneg(s: Seq<char>)
    requires
        forall|k: int| 0 <= k < s.len() ==> is_digit(s[k]),
    ensures
        dec_val(s) >= 0,
    decreases s.len(),
{
    if s.len() > 0 {
        lemma_dec_val_nonneg(s.drop_last());
    }
}

/// Apply one declaration to an accumulated style.
fn apply_declaration(st: ComputedStyle, d: &(String, String)) -> (r: ComputedStyle)
    ensures
        r == apply_decl(st, *d),
{
    if d.0 == String::from_str("display") {
        let v = &d.1;
        if *v == String::from_str("block") {
            ComputedStyle { display: Display::Block, ..st }
        } else if *v == String::from_str("inline") {
            ComputedStyle { display: Display::Inline, ..st }
        } else if *v == String::from_str("inline-block") {
            ComputedStyle { display: Display::InlineBlock, ..st }
        } else if *v == String::from_str("flex") {
            ComputedStyle { display: Display::Flex, ..st }
        } else if *v == String::from_str("none") {
            ComputedStyle { display: Display::Hidden, ..st }
        } else {
            st
        }
    } else if d.0 == String::from_str("width") {
        match parse_px(&d.1) {
            Some(w) => ComputedStyle { width: Some(w), ..st },
            None => st,
        }
    } else if d.0 == String::from_str("height") {
        match parse_px(&d.1) {
            Some(h) => ComputedStyle { height: Some(h), ..st },
            None => st,
        }
    } else if d.0 == String::from_str("background-color") {
        match parse_color(&d.1) {
            Some(c) => ComputedStyle { background_color: c, ..st },
            None => st,
        }
    } else if d.0 == String::from_str("color") {
        match parse_color(&d.1) {
            Some(c) => ComputedStyle { color: c, ..st },
            None => st,
        }
    } else {
        st
    }
}

/// Parse a named color value.
fn parse_color(v: &String) -> (r: Option<Color>)
    ensures
        r == color_of(v@),
{
    if *v == String::from_str("black") {
        Some(Color { r: 0, g: 0, b: 0, a: 255 })
    } else if *v == String::from_str("white") {
        Some(Color { r: 255, g: 255, b: 255, a: 255 })
    } else if *v == String::from_str("red") {
        Some(Color { r: 255, g: 0, b: 0, a: 255 })
    } else if *v == String::from_str("green") {
        Some(Color { r: 0, g: 255, b: 0, a: 255 })
    } else if *v == String::from_str("blue") {
        Some(Color { r: 0, g: 0, b: 255, a: 255 })
    } else if *v == String::from_str("transparent") {
        Some(Color { r: 0, g: 0, b: 0, a: 0 })
    } else {
        None
    }
}

/// Apply a declaration list in order.
fn apply_declarations(st: ComputedStyle, decls: &Vec<(String, String)>) -> (r: ComputedStyle)
    ensures
        r == apply_decls(st, decls@),
{
    let mut cur = st;
    let mut j: usize = 0;
    while j < decls.len()
        invariant
            j <= decls@.len(),
            cur == apply_decls(st, decls@.subrange(0, j as int)),
        decreases decls@.len() - j,
    {
        proof {
            assert(decls@.subrange(0, j as int + 1).drop_last() =~= decls@.subrange(0, j as int));
            assert(decls@.subrange(0, j as int + 1).last() == decls@[j as int]);
        }
        cur = apply_declaration(cur, &decls[j]);
        j = j + 1;
    }
    proof {
        assert(decls@.subrange(0, decls@.len() as int) =~= decls@);
    }
    cur
}

/// Resolve the computed style of one element against a stylesheet: rules
/// are folded in source order, a rule applies when its selector equals the
/// element's tag name, and a later matching rule's declaration for a
/// property overwrites an earlier one. Every node is resolved independently
/// from the full stylesheet; nothing is inherited from parents.
pub fn resolve(element: &Element, sheet: &StyleSheet) -> (style: ComputedStyle)
    ensures
        style == resolve_spec(element.tag@, sheet.rules@),
{
    let mut style = ComputedStyle::default();
    let mut i: usize = 0;
    while i < sheet.rules.len()
        invariant
            i <= sheet.rules@.len(),
            style == resolve_spec(element.tag@, sheet.rules@.subrange(0, i as int)),
        decreases sheet.rules@.len() - i,
    {
        proof {
            assert(sheet.rules@.subrange(0, i as int + 1).drop_last() =~= sheet.rules@.subrange(
                0,
                i as int,
            ));
            assert(sheet.rules@.subrange(0, i as int + 1).last() == sheet.rules@[i as int]);
        }
        let rule = &sheet.rules[i];
        if rule.selector == element.tag {
            style = apply_declarations(style, &rule.declarations);
        }
        i = i + 1;
    }
    proof {
        assert(sheet.rules@.subrange(0, sheet.rules@.len() as int) =~= sheet.rules@);
    }
    style
}

} // verus!
