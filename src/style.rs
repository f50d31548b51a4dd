//! The style catalog: a fixed set of style slots, one per styled tag, each
//! either a container style or a text style.
use vstd::prelude::*;
use crate::text::str_eq;

verus! {

/// An RGBA color, eight bits per channel.
#[derive(PartialEq, Eq, Structural, Clone, Copy, Debug)]
pub struct Color {
    pub r: u8,
    pub g: u8,
    pub b: u8,
    pub a: u8,
}

/// An opaque color.
pub open spec fn rgb(r: u8, g: u8, b: u8) -> Color {
    Color { r, g, b, a: 255 }
}

impl Color {
    pub fn from_rgb(r: u8, g: u8, b: u8) -> (c: Color)
        ensures
            c == rgb(r, g, b),
    {
        Color { r, g, b, a: 255 }
    }
}

/// A font size in hundredths of a point.
#[derive(PartialEq, Eq, Structural, Clone, Copy, Debug)]
pub struct FontSize {
    pub hundredths: u32,
}

/// Style of a tag that draws a box: only its background color can be set.
#[derive(PartialEq, Eq, Structural, Clone, Copy, Debug)]
pub struct ContainerStyle {
    pub background_color: Color,
}

/// Style of a tag that draws text: its color and font size can be set.
#[derive(PartialEq, Eq, Structural, Clone, Copy, Debug)]
pub struct TextStyle {
    pub color: Color,
    pub font_size: FontSize,
}

/// The three style changes that every slot accepts; a change that a slot
/// has no place for leaves it as it is.
pub trait Style: Sized {
    spec fn with_background_color(self, color: Color) -> Self;

    spec fn with_color(self, color: Color) -> Self;

    spec fn with_font_size(self, size: FontSize) -> Self;

    fn set_background_color(&mut self, color: Color)
        ensures
            *final(self) == old(self).with_background_color(color),
    ;

    fn set_color(&mut self, color: Color)
        ensures
            *final(self) == old(self).with_color(color),
    ;

    fn set_font_size(&mut self, size: FontSize)
        ensures
            *final(self) == old(self).with_font_size(size),
    ;
}

impl Style for ContainerStyle {
    open spec fn with_background_color(self, color: Color) -> Self {
        ContainerStyle { background_color: color }
    }

    open spec fn with_color(self, color: Color) -> Self {
        self
    }

    open spec fn with_font_size(self, size: FontSize) -> Self {
        self
    }

    fn set_background_color(&mut self, color: Color) {
        self.background_color = color;
    }

    fn set_color(&mut self, _color: Color) {
    }

    fn set_font_size(&mut self, _size: FontSize) {
    }
}

impl Style for TextStyle {
    open spec fn with_background_color(self, color: Color) -> Self {
        self
    }

    open spec fn with_color(self, color: Color) -> Self {
        TextStyle { color, ..self }
    }

    open spec fn with_font_size(self, size: FontSize) -> Self {
        TextStyle { font_size: size, ..self }
    }

    fn set_background_color(&mut self, _color: Color) {
    }

    fn set_color(&mut self, color: Color) {
        self.color = color;
    }

    fn set_font_size(&mut self, size: FontSize) {
        self.font_size = size;
    }
}

pub open spec fn dark_gray() -> Color {
    rgb(96, 96, 96)
}

pub open spec fn gray() -> Color {
    rgb(160, 160, 160)
}

pub open spec fn light_gray() -> Color {
    rgb(220, 220, 220)
}

pub open spec fn white() -> Color {
    rgb(255, 255, 255)
}

impl Default for ContainerStyle {
    fn default() -> (r: Self)
        ensures
            r == (ContainerStyle { background_color: dark_gray() }),
    {
        ContainerStyle { background_color: Color::from_rgb(96, 96, 96) }
    }
}

impl Default for TextStyle {
    fn default() -> (r: Self)
        ensures
            r == (TextStyle { color: light_gray(), font_size: FontSize { hundredths: 1600 } }),
    {
        TextStyle { color: Color::from_rgb(220, 220, 220), font_size: FontSize { hundredths: 1600 } }
    }
}

/// A change to one style property.
#[derive(PartialEq, Eq, Structural, Clone, Copy, Debug)]
pub enum Property {
    BackgroundColor(Color),
    Color(Color),
    FontSize(FontSize),
}

/// A slot after one property change.
pub open spec fn changed<S: Style>(s: S, p: Property) -> S {
    match p {
        Property::BackgroundColor(c) => s.with_background_color(c),
        Property::Color(c) => s.with_color(c),
        Property::FontSize(f) => s.with_font_size(f),
    }
}

/// Applies one property change to a slot, whatever its shape.
pub fn change<S: Style>(s: &mut S, p: Property)
    ensures
        *final(s) == changed(*old(s), p),
{
    match p {
        Property::BackgroundColor(c) => s.set_background_color(c),
        Property::Color(c) => s.set_color(c),
        Property::FontSize(f) => s.set_font_size(f),
    }
}

/// The styled tags: the keys of the style catalog.
#[derive(PartialEq, Eq, Structural, Clone, Copy, Debug)]
pub enum StyleKey {
    Body,
    P,
    H1,
    H2,
    H3,
    H4,
    H5,
    H6,
    Button,
    Code,
    Link,
    Details,
}

/// The catalog key that a tag name selects, if any.
pub open spec fn key_of(tag: Seq<char>) -> Option<StyleKey> {
    if tag == "body"@ {
        Some(StyleKey::Body)
    } else if tag == "p"@ {
        Some(StyleKey::P)
    } else if tag == "h1"@ {
        Some(StyleKey::H1)
    } else if tag == "h2"@ {
        Some(StyleKey::H2)
    } else if tag == "h3"@ {
        Some(StyleKey::H3)
    } else if tag == "h4"@ {
        Some(StyleKey::H4)
    } else if tag == "h5"@ {
        Some(StyleKey::H5)
    } else if tag == "h6"@ {
        Some(StyleKey::H6)
    } else if tag == "button"@ {
        Some(StyleKey::Button)
    } else if tag == "code"@ {
        Some(StyleKey::Code)
    } else if tag == "link"@ {
        Some(StyleKey::Link)
    } else if tag == "details"@ {
        Some(StyleKey::Details)
    } else {
        None
    }
}

impl StyleKey {
    /// Looks a tag name up among the catalog's keys, by exact match.
    pub fn from_tag(tag: &str) -> (r: Option<StyleKey>)
        ensures
            r == key_of(tag@),
    {
        if str_eq(tag, "body") {
            Some(StyleKey::Body)
        } else if str_eq(tag, "p") {
            Some(StyleKey::P)
        } else if str_eq(tag, "h1") {
            Some(StyleKey::H1)
        } else if str_eq(tag, "h2") {
            Some(StyleKey::H2)
        } else if str_eq(tag, "h3") {
            Some(StyleKey::H3)
        } else if str_eq(tag, "h4") {
            Some(StyleKey::H4)
        } else if str_eq(tag, "h5") {
            Some(StyleKey::H5)
        } else if str_eq(tag, "h6") {
            Some(StyleKey::H6)
        } else if str_eq(tag, "button") {
            Some(StyleKey::Button)
        } else if str_eq(tag, "code") {
            Some(StyleKey::Code)
        } else if str_eq(tag, "link") {
            Some(StyleKey::Link)
        } else if str_eq(tag, "details") {
            Some(StyleKey::Details)
        } else {
            None
        }
    }
}

/// The style catalog: one slot for each styled tag.
#[derive(PartialEq, Eq, Structural, Clone, Copy, Debug)]
pub struct Styles {
    pub body: ContainerStyle,
    pub p: TextStyle,
    pub h1: TextStyle,
    pub h2: TextStyle,
    pub h3: TextStyle,
    pub h4: TextStyle,
    pub h5: TextStyle,
    pub h6: TextStyle,
    pub button: ContainerStyle,
    pub code: TextStyle,
    pub link: TextStyle,
    pub details: ContainerStyle,
}

pub open spec fn text_style(color: Color, hundredths: u32) -> TextStyle {
    TextStyle { color, font_size: FontSize { hundredths } }
}

/// The built-in catalog.
pub open spec fn default_styles() -> Styles {
    Styles {
        body: ContainerStyle { background_color: dark_gray() },
        p: text_style(gray(), 1600),
        h1: text_style(white(), 3200),
        h2: text_style(white(), 2600),
        h3: text_style(white(), 1872),
        h4: text_style(white(), 1600),
        h5: text_style(white(), 1328),
        h6: text_style(white(), 1072),
        button: ContainerStyle { background_color: dark_gray() },
        code: text_style(light_gray(), 1600),
        link: text_style(light_gray(), 1600),
        details: ContainerStyle { background_color: dark_gray() },
    }
}

/// The catalog after one property change on the slot of `key`.
pub open spec fn updated(s: Styles, key: StyleKey, p: Property) -> Styles {
    match key {
        StyleKey::Body => Styles { body: changed(s.body, p), ..s },
        StyleKey::P => Styles { p: changed(s.p, p), ..s },
        StyleKey::H1 => Styles { h1: changed(s.h1, p), ..s },
        StyleKey::H2 => Styles { h2: changed(s.h2, p), ..s },
        StyleKey::H3 => Styles { h3: changed(s.h3, p), ..s },
        StyleKey::H4 => Styles { h4: changed(s.h4, p), ..s },
        StyleKey::H5 => Styles { h5: changed(s.h5, p), ..s },
        StyleKey::H6 => Styles { h6: changed(s.h6, p), ..s },
        StyleKey::Button => Styles { button: changed(s.button, p), ..s },
        StyleKey::Code => Styles { code: changed(s.code, p), ..s },
        StyleKey::Link => Styles { link: changed(s.link, p), ..s },
        StyleKey::Details => Styles { details: changed(s.details, p), ..s },
    }
}

impl Default for Styles {
    fn default() -> (r: Self)
        ensures
            r == default_styles(),
    {
        let white = Color::from_rgb(255, 255, 255);
        Styles {
            body: ContainerStyle { background_color: Color::from_rgb(96, 96, 96) },
            p: TextStyle { color: Color::from_rgb(160, 160, 160), font_size: FontSize { hundredths: 1600 } },
            h1: TextStyle { color: white, font_size: FontSize { hundredths: 3200 } },
            h2: TextStyle { color: white, font_size: FontSize { hundredths: 2600 } },
            h3: TextStyle { color: white, font_size: FontSize { hundredths: 1872 } },
            h4: TextStyle { color: white, font_size: FontSize { hundredths: 1600 } },
            h5: TextStyle { color: white, font_size: FontSize { hundredths: 1328 } },
            h6: TextStyle { color: white, font_size: FontSize { hundredths: 1072 } },
            button: ContainerStyle::default(),
            code: TextStyle::default(),
            link: TextStyle::default(),
            details: ContainerStyle::default(),
        }
    }
}

impl Styles {
    /// Applies one property change to the slot of `key`; a change that the
    /// slot has no place for leaves the catalog as it is.
    pub fn update(&mut self, key: StyleKey, p: Property)
        ensures
            *final(self) == updated(*old(self), key, p),
    {
        match key {
            StyleKey::Body => change(&mut self.body, p),
            StyleKey::P => change(&mut self.p, p),
            StyleKey::H1 => change(&mut self.h1, p),
            StyleKey::H2 => change(&mut self.h2, p),
            StyleKey::H3 => change(&mut self.h3, p),
            StyleKey::H4 => change(&mut self.h4, p),
            StyleKey::H5 => change(&mut self.h5, p),
            StyleKey::H6 => change(&mut self.h6, p),
            StyleKey::Button => change(&mut self.button, p),
            StyleKey::Code => change(&mut self.code, p),
            StyleKey::Link => change(&mut self.link, p),
            StyleKey::Details => change(&mut self.details, p),
        }
    }
}

} // verus!
