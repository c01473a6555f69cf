//! Display attributes of a key cap: colours, alignment, text modifiers and
//! the border around it.
use vstd::prelude::*;

verus! {

/// A terminal colour: the named colours of a 16-colour terminal, a 24-bit
/// colour or an index into the 256-colour palette.
#[derive(Clone, Copy, Debug, PartialEq, Eq, Structural)]
pub enum Color {
    Reset,
    Black,
    Red,
    Green,
    Yellow,
    Blue,
    Magenta,
    Cyan,
    Gray,
    DarkGray,
    LightRed,
    LightGreen,
    LightYellow,
    LightBlue,
    LightMagenta,
    LightCyan,
    White,
    Rgb(u8, u8, u8),
    Indexed(u8),
}

/// Border colour of a pressed key.
pub const ACTIVE_COLOR: Color = Color::Yellow;

/// Border colour of a key that is not pressed.
pub const NEUTRAL_COLOR: Color = Color::DarkGray;

/// Border colour of a spacer, which hides its border.
pub const INVISIBLE_COLOR: Color = Color::Black;

/// Horizontal placement of a line of text.
#[derive(Clone, Copy, Debug, PartialEq, Eq, Structural)]
pub enum Alignment {
    Left,
    Center,
    Right,
}

/// The kind of line a border is drawn with.
#[derive(Clone, Copy, Debug, PartialEq, Eq, Structural)]
pub enum BorderType {
    Plain,
    Rounded,
    Double,
    Thick,
    QuadrantInside,
    QuadrantOutside,
}

/// The sides of a rectangle that carry a border, one bit per side.
#[derive(Clone, Copy, Debug, PartialEq, Eq, Structural)]
pub struct BorderSides {
    pub bits: u8,
}

/// The bit of each side in `BorderSides::bits`.
pub const SIDE_TOP: u8 = 1;

pub const SIDE_RIGHT: u8 = 2;

pub const SIDE_BOTTOM: u8 = 4;

pub const SIDE_LEFT: u8 = 8;

pub const SIDES_ALL: u8 = 15;

/// Text modifiers (bold, italic, ...), one bit per modifier.
#[derive(Clone, Copy, Debug, PartialEq, Eq, Structural)]
pub struct TextModifiers {
    pub bits: u16,
}

/// A border: its sides, its line kind and its colour.
#[derive(Clone, Copy, Debug, PartialEq, Eq, Structural)]
pub struct Borders {
    pub sides: BorderSides,
    pub modifiers: BorderType,
    pub color: Color,
}

pub open spec fn spec_default_borders() -> Borders {
    Borders { sides: BorderSides { bits: SIDES_ALL }, modifiers: BorderType::Plain, color: Color::Reset }
}

impl Default for Borders {
    /// All four sides, plain lines, the terminal's own colour.
    fn default() -> (r: Borders)
        ensures
            r == spec_default_borders(),
    {
        Borders { sides: BorderSides { bits: SIDES_ALL }, modifiers: BorderType::Plain, color: Color::Reset }
    }
}

impl Borders {
    pub fn sides(self, sides: BorderSides) -> (r: Borders)
        ensures
            r == (Borders { sides, ..self }),
    {
        Borders { sides, ..self }
    }

    pub fn modifiers(self, modifiers: BorderType) -> (r: Borders)
        ensures
            r == (Borders { modifiers, ..self }),
    {
        Borders { modifiers, ..self }
    }

    pub fn color(self, color: Color) -> (r: Borders)
        ensures
            r == (Borders { color, ..self }),
    {
        Borders { color, ..self }
    }
}

/// Foreground, background and modifiers of drawn text; an unset colour
/// leaves what is underneath.
#[derive(Clone, Copy, Debug, PartialEq, Eq, Structural)]
pub struct Style {
    pub fg: Option<Color>,
    pub bg: Option<Color>,
    pub add_modifier: TextModifiers,
}

/// How the frame around a key cap is drawn.
#[derive(Debug, PartialEq, Eq)]
pub struct BlockStyle {
    pub sides: BorderSides,
    pub border_type: BorderType,
    pub border_style: Style,
    pub title: String,
    pub title_alignment: Alignment,
}

/// The border style of a block: the border's own colour when focused, the
/// terminal's colours otherwise.
pub open spec fn spec_block_border_style(props: Borders, focus: bool) -> Style {
    if focus {
        Style { fg: Some(props.color), bg: None, add_modifier: TextModifiers { bits: 0 } }
    } else {
        Style { fg: Some(Color::Reset), bg: Some(Color::Reset), add_modifier: TextModifiers { bits: 0 } }
    }
}

/// The frame drawn around a key cap, from its border, title and focus.
pub fn get_block(props: Borders, title: (String, Alignment), focus: bool) -> (r: BlockStyle)
    ensures
        r.sides == props.sides,
        r.border_type == props.modifiers,
        r.border_style == spec_block_border_style(props, focus),
        r.title == title.0,
        r.title_alignment == title.1,
{
    let border_style = if focus {
        Style { fg: Some(props.color), bg: None, add_modifier: TextModifiers { bits: 0 } }
    } else {
        Style { fg: Some(Color::Reset), bg: Some(Color::Reset), add_modifier: TextModifiers { bits: 0 } }
    };
    BlockStyle {
        sides: props.sides,
        border_type: props.modifiers,
        border_style,
        title: title.0,
        title_alignment: title.1,
    }
}

} // verus!
