//! The stylesheet resolver: rules of a cascade-subset style sheet applied,
//! declaration by declaration and in source order, to the style catalog.
use vstd::prelude::*;
use crate::style::{
    Color, ContainerStyle, FontSize, Property, StyleKey, Styles, TextStyle, default_styles, key_of,
    updated,
};
use crate::size::{font_size_of, parse_font_size};
use crate::text::str_eq;

verus! {

/// What the hex color parser of egui's color type makes of a text: the four
/// channels of the color, or nothing where the text is no hex color.
pub uninterp spec fn hex_color_of(s: Seq<char>) -> Option<(u8, u8, u8, u8)>;

/// The rules that the simplecss parser reads from a style sheet: each
/// selector written back as text, with its declarations as name and value.
pub uninterp spec fn css_rules_of(s: Seq<char>) -> Seq<(Seq<char>, Seq<(Seq<char>, Seq<char>)>)>;

pub open spec fn is_hex_digit(c: char) -> bool {
    ('0' <= c && c <= '9') || ('a' <= c && c <= 'f') || ('A' <= c && c <= 'F')
}

pub open spec fn hex_value(c: char) -> int {
    if '0' <= c && c <= '9' {
        c as int - '0' as int
    } else if 'a' <= c && c <= 'f' {
        c as int - 'a' as int + 10
    } else {
        c as int - 'A' as int + 10
    }
}

/// The byte that two hex digits spell.
pub open spec fn hex_byte(hi: char, lo: char) -> u8 {
    (hex_value(hi) * 16 + hex_value(lo)) as u8
}

/// Whether `s` is `#` followed by six hex digits.
pub open spec fn is_hex6(s: Seq<char>) -> bool {
    &&& s.len() == 7
    &&& s[0] == '#'
    &&& forall|i: int| 1 <= i < 7 ==> is_hex_digit(#[trigger] s[i])
}

/// Relies on egui's `Color32::from_hex`: it needs a leading `#`, and six hex
/// digits after it spell an opaque color, two digits for each of red, green
/// and blue.
#[verifier::external_body]
fn parse_hex_color(s: &str) -> (r: Option<Color>)
    ensures
        r == match hex_color_of(s@) {
            Some((cr, cg, cb, ca)) => Some(Color { r: cr, g: cg, b: cb, a: ca }),
            None => None,
        },
        (s@.len() == 0 || s@[0] != '#') ==> r is None,
        is_hex6(s@) ==> r == Some(
            Color { r: hex_byte(s@[1], s@[2]), g: hex_byte(s@[3], s@[4]), b: hex_byte(s@[5], s@[6]), a: 255 },
        ),
{
    eframe::egui::Color32::from_hex(s).ok().map(|c| {
        let [r, g, b, a] = c.to_array();
        Color { r, g, b, a }
    })
}

/// One declaration of a rule: a property name and its value text.
#[derive(Debug)]
pub struct Declaration {
    pub name: String,
    pub value: String,
}

/// One rule of a style sheet: a selector and its declarations in order.
#[derive(Debug)]
pub struct CssRule {
    pub selector: String,
    pub declarations: Vec<Declaration>,
}

pub open spec fn declarations_model(ds: Seq<Declaration>) -> Seq<(Seq<char>, Seq<char>)> {
    ds.map_values(|d: Declaration| (d.name@, d.value@))
}

pub open spec fn rules_model(rs: Seq<CssRule>) -> Seq<(Seq<char>, Seq<(Seq<char>, Seq<char>)>)> {
    rs.map_values(|r: CssRule| (r.selector@, declarations_model(r.declarations@)))
}

/// Relies on `simplecss::StyleSheet::parse`, which never fails: the rules it
/// reads, with each selector written back through its `Display`.
#[verifier::external_body]
fn parse_stylesheet(text: &str) -> (r: Vec<CssRule>)
    ensures
        rules_model(r@) == css_rules_of(text@),
{
    simplecss::StyleSheet::parse(text).rules.iter().map(|rule| CssRule {
        selector: rule.selector.to_string(),
        declarations: rule.declarations.iter().map(|d| Declaration {
            name: d.name.to_string(),
            value: d.value.to_string(),
        }).collect(),
    }).collect()
}

/// The property change that a declaration stands for, if its name is one of
/// the three recognized properties and its value parses.
pub open spec fn property_of(name: Seq<char>, value: Seq<char>) -> Option<Property> {
    if name == "background-color"@ {
        match hex_color_of(value) {
            Some((r, g, b, a)) => Some(Property::BackgroundColor(Color { r, g, b, a })),
            None => None,
        }
    } else if name == "color"@ {
        match hex_color_of(value) {
            Some((r, g, b, a)) => Some(Property::Color(Color { r, g, b, a })),
            None => None,
        }
    } else if name == "font-size"@ {
        match font_size_of(value) {
            Some(h) => Some(Property::FontSize(FontSize { hundredths: h as u32 })),
            None => None,
        }
    } else {
        None
    }
}

/// The catalog after the declarations of one rule, applied in order to the
/// slot of `key`.
pub open spec fn apply_declarations(
    s: Styles,
    key: StyleKey,
    ds: Seq<(Seq<char>, Seq<char>)>,
) -> Styles
    decreases ds.len(),
{
    if ds.len() == 0 {
        s
    } else {
        let before = apply_declarations(s, key, ds.drop_last());
        match property_of(ds.last().0, ds.last().1) {
            Some(p) => updated(before, key, p),
            None => before,
        }
    }
}

/// The catalog after the rules, applied in order; a rule whose selector is
/// no catalog key is skipped.
pub open spec fn apply_rules(
    s: Styles,
    rules: Seq<(Seq<char>, Seq<(Seq<char>, Seq<char>)>)>,
) -> Styles
    decreases rules.len(),
{
    if rules.len() == 0 {
        s
    } else {
        let before = apply_rules(s, rules.drop_last());
        match key_of(rules.last().0) {
            Some(k) => apply_declarations(before, k, rules.last().1),
            None => before,
        }
    }
}

/// The catalog that a style sheet resolves to.
pub open spec fn resolved(css: Seq<char>) -> Styles {
    apply_rules(default_styles(), css_rules_of(css))
}

/// Of two rules that set the same property for the same selector, the later
/// one decides: both together give what the later one gives alone, wherever
/// its value parses.
pub proof fn lemma_last_declaration_wins(
    s: Styles,
    selector: Seq<char>,
    name: Seq<char>,
    first: Seq<char>,
    second: Seq<char>,
)
    requires
        property_of(name, second) is Some,
    ensures
        apply_rules(s, seq![(selector, seq![(name, first)]), (selector, seq![(name, second)])])
            == apply_rules(s, seq![(selector, seq![(name, second)])]),
{
    let both = seq![(selector, seq![(name, first)]), (selector, seq![(name, second)])];
    let later = seq![(selector, seq![(name, second)])];
    assert(both.drop_last() =~= seq![(selector, seq![(name, first)])]);
    assert(both.drop_last().drop_last() =~= Seq::<(Seq<char>, Seq<(Seq<char>, Seq<char>)>)>::empty());
    assert(later.drop_last() =~= Seq::<(Seq<char>, Seq<(Seq<char>, Seq<char>)>)>::empty());
    assert(seq![(name, first)].drop_last() =~= Seq::<(Seq<char>, Seq<char>)>::empty());
    assert(seq![(name, second)].drop_last() =~= Seq::<(Seq<char>, Seq<char>)>::empty());
    reveal_with_fuel(apply_rules, 3);
    reveal_with_fuel(apply_declarations, 2);
}

/// Rules whose selectors are no catalog key leave the catalog as it is.
pub proof fn lemma_unmatched_rules_ignored(
    s: Styles,
    rules: Seq<(Seq<char>, Seq<(Seq<char>, Seq<char>)>)>,
)
    requires
        forall|i: int| 0 <= i < rules.len() ==> key_of(#[trigger] rules[i].0) is None,
    ensures
        apply_rules(s, rules) == s,
    decreases rules.len(),
{
    if rules.len() > 0 {
        lemma_unmatched_rules_ignored(s, rules.drop_last());
        assert(key_of(rules[rules.len() - 1].0) is None);
    }
}

/// What a run of property changes leaves set on one slot: for each
/// property, the last value given, if any.
pub struct SlotPatch {
    pub background_color: Option<Color>,
    pub color: Option<Color>,
    pub font_size: Option<FontSize>,
}

pub open spec fn empty_patch() -> SlotPatch {
    SlotPatch { background_color: None, color: None, font_size: None }
}

pub open spec fn then_patch(a: SlotPatch, b: SlotPatch) -> SlotPatch {
    SlotPatch {
        background_color: if b.background_color is Some { b.background_color } else { a.background_color },
        color: if b.color is Some { b.color } else { a.color },
        font_size: if b.font_size is Some { b.font_size } else { a.font_size },
    }
}

pub open spec fn property_patch(p: Property) -> SlotPatch {
    match p {
        Property::BackgroundColor(c) => SlotPatch { background_color: Some(c), ..empty_patch() },
        Property::Color(c) => SlotPatch { color: Some(c), ..empty_patch() },
        Property::FontSize(f) => SlotPatch { font_size: Some(f), ..empty_patch() },
    }
}

pub open spec fn patch_container(c: ContainerStyle, a: SlotPatch) -> ContainerStyle {
    match a.background_color {
        Some(v) => ContainerStyle { background_color: v },
        None => c,
    }
}

pub open spec fn patch_text(t: TextStyle, a: SlotPatch) -> TextStyle {
    TextStyle {
        color: match a.color {
            Some(v) => v,
            None => t.color,
        },
        font_size: match a.font_size {
            Some(v) => v,
            None => t.font_size,
        },
    }
}

/// The catalog with each slot patched by `patch` at its key.
pub open spec fn apply_patch(s: Styles, patch: spec_fn(StyleKey) -> SlotPatch) -> Styles {
    Styles {
        body: patch_container(s.body, patch(StyleKey::Body)),
        p: patch_text(s.p, patch(StyleKey::P)),
        h1: patch_text(s.h1, patch(StyleKey::H1)),
        h2: patch_text(s.h2, patch(StyleKey::H2)),
        h3: patch_text(s.h3, patch(StyleKey::H3)),
        h4: patch_text(s.h4, patch(StyleKey::H4)),
        h5: patch_text(s.h5, patch(StyleKey::H5)),
        h6: patch_text(s.h6, patch(StyleKey::H6)),
        button: patch_container(s.button, patch(StyleKey::Button)),
        code: patch_text(s.code, patch(StyleKey::Code)),
        link: patch_text(s.link, patch(StyleKey::Link)),
        details: patch_container(s.details, patch(StyleKey::Details)),
    }
}

pub open spec fn then_patches(
    a: spec_fn(StyleKey) -> SlotPatch,
    b: spec_fn(StyleKey) -> SlotPatch,
) -> spec_fn(StyleKey) -> SlotPatch {
    |k: StyleKey| then_patch(a(k), b(k))
}

pub open spec fn single_patch(key: StyleKey, p: Property) -> spec_fn(StyleKey) -> SlotPatch {
    |k: StyleKey| if k == key { property_patch(p) } else { empty_patch() }
}

/// The patch that the declarations of one rule make on the slot of `key`.
pub open spec fn declarations_patch(key: StyleKey, ds: Seq<(Seq<char>, Seq<char>)>) -> spec_fn(
    StyleKey,
) -> SlotPatch
    decreases ds.len(),
{
    if ds.len() == 0 {
        |k: StyleKey| empty_patch()
    } else {
        match property_of(ds.last().0, ds.last().1) {
            Some(p) => then_patches(declarations_patch(key, ds.drop_last()), single_patch(key, p)),
            None => declarations_patch(key, ds.drop_last()),
        }
    }
}

/// The patch that a list of rules makes on the catalog.
pub open spec fn rules_patch(rules: Seq<(Seq<char>, Seq<(Seq<char>, Seq<char>)>)>) -> spec_fn(
    StyleKey,
) -> SlotPatch
    decreases rules.len(),
{
    if rules.len() == 0 {
        |k: StyleKey| empty_patch()
    } else {
        match key_of(rules.last().0) {
            Some(k) => then_patches(rules_patch(rules.drop_last()), declarations_patch(k, rules.last().1)),
            None => rules_patch(rules.drop_last()),
        }
    }
}

proof fn lemma_patch_compose(s: Styles, a: spec_fn(StyleKey) -> SlotPatch, b: spec_fn(StyleKey) -> SlotPatch)
    ensures
        apply_patch(apply_patch(s, a), b) == apply_patch(s, then_patches(a, b)),
{
}

proof fn lemma_patch_empty(s: Styles)
    ensures
        apply_patch(s, |k: StyleKey| empty_patch()) == s,
{
}

proof fn lemma_update_is_patch(s: Styles, key: StyleKey, p: Property)
    ensures
        updated(s, key, p) == apply_patch(s, single_patch(key, p)),
{
}

proof fn lemma_declarations_patch(s: Styles, key: StyleKey, ds: Seq<(Seq<char>, Seq<char>)>)
    ensures
        apply_declarations(s, key, ds) == apply_patch(s, declarations_patch(key, ds)),
    decreases ds.len(),
{
    if ds.len() == 0 {
        lemma_patch_empty(s);
    } else {
        lemma_declarations_patch(s, key, ds.drop_last());
        let before = declarations_patch(key, ds.drop_last());
        match property_of(ds.last().0, ds.last().1) {
            Some(p) => {
                lemma_update_is_patch(apply_patch(s, before), key, p);
                lemma_patch_compose(s, before, single_patch(key, p));
            },
            None => {},
        }
    }
}

proof fn lemma_rules_patch(s: Styles, rules: Seq<(Seq<char>, Seq<(Seq<char>, Seq<char>)>)>)
    ensures
        apply_rules(s, rules) == apply_patch(s, rules_patch(rules)),
    decreases rules.len(),
{
    if rules.len() == 0 {
        lemma_patch_empty(s);
    } else {
        lemma_rules_patch(s, rules.drop_last());
        let before = rules_patch(rules.drop_last());
        match key_of(rules.last().0) {
            Some(k) => {
                lemma_declarations_patch(apply_patch(s, before), k, rules.last().1);
                lemma_patch_compose(s, before, declarations_patch(k, rules.last().1));
            },
            None => {},
        }
    }
}

/// Applying the same rules a second time changes nothing: every property
/// they set is set again to the same last value, and the rest stays.
pub proof fn lemma_rules_idempotent(s: Styles, rules: Seq<(Seq<char>, Seq<(Seq<char>, Seq<char>)>)>)
    ensures
        apply_rules(apply_rules(s, rules), rules) == apply_rules(s, rules),
{
    lemma_rules_patch(s, rules);
    lemma_rules_patch(apply_rules(s, rules), rules);
}

/// Applying a style sheet's rules once more to the catalog that it
/// resolved to leaves that catalog as it is.
pub proof fn lemma_resolution_repeatable(css: Seq<char>)
    ensures
        apply_rules(resolved(css), css_rules_of(css)) == resolved(css),
{
    lemma_rules_idempotent(default_styles(), css_rules_of(css));
}

/// The property change that a declaration stands for: `background-color`
/// and `color` take a hex color, `font-size` a decimal size; any other name,
/// or a value that does not parse, gives none.
pub fn property(name: &str, value: &str) -> (r: Option<Property>)
    ensures
        r == property_of(name@, value@),
{
    if str_eq(name, "background-color") {
        match parse_hex_color(value) {
            Some(c) => Some(Property::BackgroundColor(c)),
            None => None,
        }
    } else if str_eq(name, "color") {
        match parse_hex_color(value) {
            Some(c) => Some(Property::Color(c)),
            None => None,
        }
    } else if str_eq(name, "font-size") {
        match parse_font_size(value) {
            Some(f) => Some(Property::FontSize(f)),
            None => None,
        }
    } else {
        None
    }
}

/// Applies the rules in order to `styles`: each rule whose selector is a
/// catalog key has its declarations applied, in order, to that slot.
pub fn apply_css_rules(styles: &mut Styles, rules: &Vec<CssRule>)
    ensures
        *final(styles) == apply_rules(*old(styles), rules_model(rules@)),
{
    let ghost start = *styles;
    let mut i: usize = 0;
    while i < rules.len()
        invariant
            i <= rules@.len(),
            *styles == apply_rules(start, rules_model(rules@.subrange(0, i as int))),
        decreases rules.len() - i,
    {
        let rule = &rules[i];
        assert(rules_model(rules@.subrange(0, i as int + 1)).drop_last() =~= rules_model(
            rules@.subrange(0, i as int),
        ));
        if let Some(key) = StyleKey::from_tag(rule.selector.as_str()) {
            let ghost mid = *styles;
            let ds = &rule.declarations;
            let mut j: usize = 0;
            while j < ds.len()
                invariant
                    j <= ds@.len(),
                    *styles == apply_declarations(
                        mid,
                        key,
                        declarations_model(ds@.subrange(0, j as int)),
                    ),
                decreases ds.len() - j,
            {
                let d = &ds[j];
                assert(declarations_model(ds@.subrange(0, j as int + 1)).drop_last()
                    =~= declarations_model(ds@.subrange(0, j as int)));
                if let Some(p) = property(d.name.as_str(), d.value.as_str()) {
                    styles.update(key, p);
                }
                j += 1;
            }
            assert(ds@.subrange(0, ds@.len() as int) =~= ds@);
        }
        i += 1;
    }
    assert(rules@.subrange(0, rules@.len() as int) =~= rules@);
}

/// Resolves a list of rules onto a fresh default catalog.
pub fn resolve_rules(rules: &Vec<CssRule>) -> (r: Styles)
    ensures
        r == apply_rules(default_styles(), rules_model(rules@)),
{
    let mut styles = Styles::default();
    apply_css_rules(&mut styles, rules);
    styles
}

/// Resolves CSS text onto a fresh default catalog.
pub fn parse_css(css: &str) -> (r: Styles)
    ensures
        r == resolved(css@),
{
    let rules = parse_stylesheet(css);
    resolve_rules(&rules)
}

} // verus!
