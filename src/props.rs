//! The attributes a component carries: each one optional, read with a
//! fallback when it is drawn.
use vstd::prelude::*;

use crate::style::{Alignment, Borders, Color, TextModifiers};

verus! {

/// The name of an attribute.
#[derive(Clone, Copy, Debug, PartialEq, Eq, Structural)]
pub enum Attribute {
    Text,
    TextAlign,
    TextProps,
    Foreground,
    Background,
    Borders,
    Title,
    Focus,
}

/// The value of an attribute.
#[derive(Debug)]
pub enum AttrValue {
    String(String),
    Alignment(Alignment),
    TextModifiers(TextModifiers),
    Color(Color),
    Borders(Borders),
    Title((String, Alignment)),
    Flag(bool),
}

/// The attributes of a component; `None` is an attribute that was never set.
#[derive(Debug)]
pub struct Props {
    pub text: Option<String>,
    pub alignment: Option<Alignment>,
    pub modifiers: Option<TextModifiers>,
    pub foreground: Option<Color>,
    pub background: Option<Color>,
    pub borders: Option<Borders>,
    pub title: Option<(String, Alignment)>,
    pub focus: Option<bool>,
}

pub open spec fn spec_empty_props() -> Props {
    Props {
        text: None,
        alignment: None,
        modifiers: None,
        foreground: None,
        background: None,
        borders: None,
        title: None,
        focus: None,
    }
}

/// The attribute bag after storing `value` under `attr`; a value of another
/// kind than the attribute holds leaves the bag as it was.
pub open spec fn spec_set(p: Props, attr: Attribute, value: AttrValue) -> Props {
    match (attr, value) {
        (Attribute::Text, AttrValue::String(s)) => Props { text: Some(s), ..p },
        (Attribute::TextAlign, AttrValue::Alignment(a)) => Props { alignment: Some(a), ..p },
        (Attribute::TextProps, AttrValue::TextModifiers(m)) => Props { modifiers: Some(m), ..p },
        (Attribute::Foreground, AttrValue::Color(c)) => Props { foreground: Some(c), ..p },
        (Attribute::Background, AttrValue::Color(c)) => Props { background: Some(c), ..p },
        (Attribute::Borders, AttrValue::Borders(b)) => Props { borders: Some(b), ..p },
        (Attribute::Title, AttrValue::Title(t)) => Props { title: Some(t), ..p },
        (Attribute::Focus, AttrValue::Flag(f)) => Props { focus: Some(f), ..p },
        _ => p,
    }
}

/// What is stored under `attr`, as the value `r` of it that `get` hands out.
pub open spec fn spec_get_is(p: Props, attr: Attribute, r: Option<AttrValue>) -> bool {
    match attr {
        Attribute::Text => match p.text {
            Some(s) => r matches Some(AttrValue::String(t)) && t@ == s@,
            None => r is None,
        },
        Attribute::TextAlign => r == match p.alignment {
            Some(a) => Some(AttrValue::Alignment(a)),
            None => None,
        },
        Attribute::TextProps => r == match p.modifiers {
            Some(m) => Some(AttrValue::TextModifiers(m)),
            None => None,
        },
        Attribute::Foreground => r == match p.foreground {
            Some(c) => Some(AttrValue::Color(c)),
            None => None,
        },
        Attribute::Background => r == match p.background {
            Some(c) => Some(AttrValue::Color(c)),
            None => None,
        },
        Attribute::Borders => r == match p.borders {
            Some(b) => Some(AttrValue::Borders(b)),
            None => None,
        },
        Attribute::Title => match p.title {
            Some(t) => r matches Some(AttrValue::Title(u)) && u.0@ == t.0@ && u.1 == t.1,
            None => r is None,
        },
        Attribute::Focus => r == match p.focus {
            Some(f) => Some(AttrValue::Flag(f)),
            None => None,
        },
    }
}

impl Props {
    pub fn new() -> (r: Props)
        ensures
            r == spec_empty_props(),
    {
        Props {
            text: None,
            alignment: None,
            modifiers: None,
            foreground: None,
            background: None,
            borders: None,
            title: None,
            focus: None,
        }
    }

    /// Stores `value` under `attr`; a value of another kind is ignored.
    pub fn set(&mut self, attr: Attribute, value: AttrValue)
        ensures
            *final(self) == spec_set(*old(self), attr, value),
    {
        match (attr, value) {
            (Attribute::Text, AttrValue::String(s)) => self.text = Some(s),
            (Attribute::TextAlign, AttrValue::Alignment(a)) => self.alignment = Some(a),
            (Attribute::TextProps, AttrValue::TextModifiers(m)) => self.modifiers = Some(m),
            (Attribute::Foreground, AttrValue::Color(c)) => self.foreground = Some(c),
            (Attribute::Background, AttrValue::Color(c)) => self.background = Some(c),
            (Attribute::Borders, AttrValue::Borders(b)) => self.borders = Some(b),
            (Attribute::Title, AttrValue::Title(t)) => self.title = Some(t),
            (Attribute::Focus, AttrValue::Flag(f)) => self.focus = Some(f),
            _ => {},
        }
    }

    /// A copy of what is stored under `attr`, if anything.
    pub fn get(&self, attr: Attribute) -> (r: Option<AttrValue>)
        ensures
            spec_get_is(*self, attr, r),
    {
        match attr {
            Attribute::Text => match &self.text {
                Some(s) => Some(AttrValue::String(s.clone())),
                None => None,
            },
            Attribute::TextAlign => match self.alignment {
                Some(a) => Some(AttrValue::Alignment(a)),
                None => None,
            },
            Attribute::TextProps => match self.modifiers {
                Some(m) => Some(AttrValue::TextModifiers(m)),
                None => None,
            },
            Attribute::Foreground => match self.foreground {
                Some(c) => Some(AttrValue::Color(c)),
                None => None,
            },
            Attribute::Background => match self.background {
                Some(c) => Some(AttrValue::Color(c)),
                None => None,
            },
            Attribute::Borders => match self.borders {
                Some(b) => Some(AttrValue::Borders(b)),
                None => None,
            },
            Attribute::Title => match &self.title {
                Some(t) => Some(AttrValue::Title((t.0.clone(), t.1))),
                None => None,
            },
            Attribute::Focus => match self.focus {
                Some(f) => Some(AttrValue::Flag(f)),
                None => None,
            },
        }
    }
}

} // verus!
