//! A terminal keyboard widget: it lays out labelled key caps in rows and
//! lights up the keys of each key event it receives.
use vstd::prelude::*;

pub mod app_state;
pub mod input;
pub mod keyboard;
pub mod keycap;
pub mod label;
pub mod layout;
pub mod props;
pub mod style;

verus! {

/// What the widgets tell the application.
#[derive(Debug, PartialEq)]
pub enum Msg {
    AppClose,
    CounterChanged(isize),
    KeyPressed(String),
}

/// The widgets an application mounts.
#[derive(Clone, Copy, Debug, PartialEq, Eq, Hash, Structural)]
pub enum Id {
    SimpleCounter,
    Keyboard,
}

} // verus!
