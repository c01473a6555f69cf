//! A key cap: one labelled, bordered rectangle of the keyboard.
use vstd::prelude::*;

use crate::label::{display_label, is_spacer, spec_display_label, spec_is_spacer};
use crate::layout::Area;
use crate::props::{spec_empty_props, spec_get_is, spec_set, AttrValue, Attribute, Props};
use crate::style::{
    get_block, spec_block_border_style, Alignment, BlockStyle, BorderSides, BorderType, Borders,
    Color, Style, TextModifiers, INVISIBLE_COLOR, SIDES_ALL,
};

verus! {

/// A key cap: its raw label (width suffix included) and its attributes.
pub struct Keycap {
    props: Props,
    label: String,
}

/// What a key cap is, for contracts: its raw label and its attributes.
pub struct KeycapView {
    pub label: Seq<char>,
    pub props: Props,
}

impl View for Keycap {
    type V = KeycapView;

    closed spec fn view(&self) -> KeycapView {
        KeycapView { label: self.label@, props: self.props }
    }
}

/// Everything needed to draw one key cap.
pub struct KeycapDraw {
    pub area: Area,
    pub text: String,
    pub alignment: Alignment,
    pub style: Style,
    pub block: BlockStyle,
}

/// The border a key cap is drawn with when none was set.
pub open spec fn spec_keycap_default_borders() -> Borders {
    Borders { sides: BorderSides { bits: SIDES_ALL }, modifiers: BorderType::Rounded, color: Color::Reset }
}

pub open spec fn drawn_text(k: KeycapView) -> Seq<char> {
    match k.props.text {
        Some(t) => t@,
        None => spec_display_label(k.label),
    }
}

/// The attributes a key cap is drawn with where it has none of its own.
#[derive(Clone, Copy, Debug, PartialEq, Eq, Structural)]
pub struct Look {
    pub alignment: Alignment,
    pub modifiers: TextModifiers,
    pub foreground: Color,
    pub background: Color,
}

/// What a key cap drawn on its own falls back to: centred, red on the
/// terminal's background, no modifiers.
pub open spec fn keycap_look() -> Look {
    Look {
        alignment: Alignment::Center,
        modifiers: TextModifiers { bits: 0 },
        foreground: Color::Red,
        background: Color::Reset,
    }
}

pub open spec fn drawn_alignment(p: Props, look: Look) -> Alignment {
    match p.alignment {
        Some(a) => a,
        None => look.alignment,
    }
}

pub open spec fn drawn_style(p: Props, look: Look) -> Style {
    Style {
        fg: Some(
            match p.foreground {
                Some(c) => c,
                None => look.foreground,
            },
        ),
        bg: Some(
            match p.background {
                Some(c) => c,
                None => look.background,
            },
        ),
        add_modifier: match p.modifiers {
            Some(m) => m,
            None => look.modifiers,
        },
    }
}

pub open spec fn drawn_borders(p: Props) -> Borders {
    match p.borders {
        Some(b) => b,
        None => spec_keycap_default_borders(),
    }
}

/// `d` draws key cap `k` into `area`. Text, alignment, colours and modifiers
/// the key cap does not set come from `look`; an unset border is rounded;
/// the border is drawn in its own colour, which carries the highlight; no
/// title unless one is set.
pub open spec fn draws_with(k: KeycapView, area: Area, d: KeycapDraw, look: Look) -> bool {
    &&& d.area == area
    &&& d.text@ == drawn_text(k)
    &&& d.alignment == drawn_alignment(k.props, look)
    &&& d.style == drawn_style(k.props, look)
    &&& d.block.sides == drawn_borders(k.props).sides
    &&& d.block.border_type == drawn_borders(k.props).modifiers
    &&& d.block.border_style == spec_block_border_style(drawn_borders(k.props), true)
    &&& d.block.title@ == match k.props.title {
        Some(t) => t.0@,
        None => Seq::<char>::empty(),
    }
    &&& d.block.title_alignment == match k.props.title {
        Some(t) => t.1,
        None => Alignment::Center,
    }
}

/// `d` draws key cap `k`, on its own, into `area`.
pub open spec fn draws(k: KeycapView, area: Area, d: KeycapDraw) -> bool {
    draws_with(k, area, d, keycap_look())
}

/// The border a key cap is framed with: its own, or `fallback` when it has
/// none; a spacer's in the invisible colour.
pub open spec fn frame_borders(k: KeycapView, fallback: Borders) -> Borders {
    let b = match k.props.borders {
        Some(b) => b,
        None => fallback,
    };
    if spec_is_spacer(k.label) {
        Borders { color: INVISIBLE_COLOR, ..b }
    } else {
        b
    }
}

/// `f` is key cap `k` framed for drawing: its display label as text and its
/// border from `frame_borders`; every other attribute as it was.
pub open spec fn framed_as(k: KeycapView, f: KeycapView, fallback: Borders) -> bool {
    &&& f.label == k.label
    &&& f.props.text matches Some(t) && t@ == spec_display_label(k.label)
    &&& f.props == Props { text: f.props.text, borders: Some(frame_borders(k, fallback)), ..k.props }
}

impl Default for Keycap {
    /// A key cap labelled `?`.
    fn default() -> (r: Keycap)
        ensures
            r@.label == "?"@,
            r@.props == spec_empty_props(),
    {
        Keycap { props: Props::new(), label: "?".to_owned() }
    }
}

impl Keycap {
    /// Sets the text drawn on the key cap in place of its display label.
    pub fn label(self, label: &str) -> (r: Keycap)
        ensures
            r@.label == self@.label,
            r@.props.text matches Some(t) && t@ == label@,
            r@.props == (Props { text: r@.props.text, ..self@.props }),
    {
        let mut k = self;
        k.attr(Attribute::Text, AttrValue::String(label.to_owned()));
        k
    }

    /// A key cap with raw label `label` and no attribute set.
    pub fn new(label: &str) -> (r: Keycap)
        ensures
            r@.label == label@,
            r@.props == spec_empty_props(),
    {
        Keycap { props: Props::new(), label: label.to_owned() }
    }

    pub fn borders(self, b: Borders) -> (r: Keycap)
        ensures
            r@.label == self@.label,
            r@.props == (Props { borders: Some(b), ..self@.props }),
    {
        let mut k = self;
        k.attr(Attribute::Borders, AttrValue::Borders(b));
        k
    }

    pub fn foreground(self, color: Color) -> (r: Keycap)
        ensures
            r@.label == self@.label,
            r@.props == (Props { foreground: Some(color), ..self@.props }),
    {
        let mut k = self;
        k.attr(Attribute::Foreground, AttrValue::Color(color));
        k
    }

    pub fn background(self, color: Color) -> (r: Keycap)
        ensures
            r@.label == self@.label,
            r@.props == (Props { background: Some(color), ..self@.props }),
    {
        let mut k = self;
        k.attr(Attribute::Background, AttrValue::Color(color));
        k
    }

    pub fn alignment(self, alignment: Alignment) -> (r: Keycap)
        ensures
            r@.label == self@.label,
            r@.props == (Props { alignment: Some(alignment), ..self@.props }),
    {
        let mut k = self;
        k.attr(Attribute::TextAlign, AttrValue::Alignment(alignment));
        k
    }

    pub fn modifiers(self, modifiers: TextModifiers) -> (r: Keycap)
        ensures
            r@.label == self@.label,
            r@.props == (Props { modifiers: Some(modifiers), ..self@.props }),
    {
        let mut k = self;
        k.attr(Attribute::TextProps, AttrValue::TextModifiers(modifiers));
        k
    }

    /// The raw label, width suffix included.
    pub fn label_with_width_suffix(&self) -> (r: &str)
        ensures
            r@ == self@.label,
    {
        self.label.as_str()
    }

    /// The raw label without a trailing `:<digits>`.
    pub fn display_label(&self) -> (r: String)
        ensures
            r@ == spec_display_label(self@.label),
    {
        display_label(self.label.as_str())
    }

    /// The border that is set, if any.
    pub fn border(&self) -> (r: Option<Borders>)
        ensures
            r == self@.props.borders,
    {
        self.props.borders
    }

    pub fn query(&self, attr: Attribute) -> (r: Option<AttrValue>)
        ensures
            spec_get_is(self@.props, attr, r),
    {
        self.props.get(attr)
    }

    pub fn attr(&mut self, attr: Attribute, value: AttrValue)
        ensures
            final(self)@.label == old(self)@.label,
            final(self)@.props == spec_set(old(self)@.props, attr, value),
    {
        self.props.set(attr, value);
    }

    /// Sets the display label as the text and the border to draw with,
    /// `fallback` where none is set; see `framed_as`.
    pub fn frame(&mut self, fallback: Borders)
        ensures
            framed_as(old(self)@, final(self)@, fallback),
    {
        let text = display_label(self.label.as_str());
        self.props.text = Some(text);
        let b = match self.props.borders {
            Some(b) => b,
            None => fallback,
        };
        if is_spacer(self.label.as_str()) {
            self.props.borders = Some(b.color(INVISIBLE_COLOR));
        } else {
            self.props.borders = Some(b);
        }
    }

    /// How the key cap is drawn into `area`, with what it does not set taken
    /// from `look`.
    pub fn render_with(&self, area: Area, look: Look) -> (r: KeycapDraw)
        ensures
            draws_with(self@, area, r, look),
    {
        let text = match &self.props.text {
            Some(t) => t.clone(),
            None => display_label(self.label.as_str()),
        };
        let alignment = match self.props.alignment {
            Some(a) => a,
            None => look.alignment,
        };
        let foreground = match self.props.foreground {
            Some(c) => c,
            None => look.foreground,
        };
        let background = match self.props.background {
            Some(c) => c,
            None => look.background,
        };
        let modifiers = match self.props.modifiers {
            Some(m) => m,
            None => look.modifiers,
        };
        let borders = match self.props.borders {
            Some(b) => b,
            None => Borders::default().modifiers(BorderType::Rounded),
        };
        let title = match &self.props.title {
            Some(t) => (t.0.clone(), t.1),
            None => (String::new(), Alignment::Center),
        };
        KeycapDraw {
            area,
            text,
            alignment,
            style: Style { fg: Some(foreground), bg: Some(background), add_modifier: modifiers },
            block: get_block(borders, title, true),
        }
    }

    /// How the key cap, drawn on its own, is drawn into `area`.
    pub fn render(&self, area: Area) -> (r: KeycapDraw)
        ensures
            draws(self@, area, r),
    {
        self.render_with(
            area,
            Look {
                alignment: Alignment::Center,
                modifiers: TextModifiers { bits: 0 },
                foreground: Color::Red,
                background: Color::Reset,
            },
        )
    }
}

} // verus!
