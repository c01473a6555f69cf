//! What the application loop decides on each message.
use vstd::prelude::*;

use crate::Msg;

verus! {

/// Whether the application is to stop, and whether the screen is to be
/// drawn again.
pub struct AppState {
    pub quit: bool,
    pub redraw: bool,
}

impl AppState {
    /// A running application whose screen is yet to be drawn.
    pub fn new() -> (r: AppState)
        ensures
            !r.quit,
            r.redraw,
    {
        AppState { quit: false, redraw: true }
    }

    /// Takes one message: every message asks for a redraw, `AppClose` stops
    /// the application. Gives the value a counter is to show when the
    /// message changes one.
    pub fn update(&mut self, msg: Option<Msg>) -> (r: Option<isize>)
        ensures
            match msg {
                None => *final(self) == *old(self) && r is None,
                Some(Msg::AppClose) => final(self).quit && final(self).redraw && r is None,
                Some(Msg::CounterChanged(v)) => final(self).quit == old(self).quit
                    && final(self).redraw && r == Some(v),
                Some(Msg::KeyPressed(_)) => final(self).quit == old(self).quit
                    && final(self).redraw && r is None,
            },
    {
        match msg {
            None => None,
            Some(m) => {
                self.redraw = true;
                match m {
                    Msg::AppClose => {
                        self.quit = true;
                        None
                    },
                    Msg::CounterChanged(v) => Some(v),
                    Msg::KeyPressed(_) => None,
                }
            },
        }
    }
}

} // verus!
