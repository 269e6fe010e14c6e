//! Layout decisions of the viewer's screens: the footer, the help overlay and its text.
use vstd::prelude::*;

use crate::app::App;
use crate::filter::Selected;
use crate::input::Rect;
use crate::list::sat_sub;

verus! {

/// What the footer line explains.
#[derive(Debug, Clone, Copy, PartialEq, Eq, Structural)]
pub enum Footer {
    /// How to leave the help overlay.
    Help,
    /// The keys of the filter bar for the focused part.
    Filter(Selected),
    /// The main keys: help and scrolling.
    Main,
}

/// The footer of a viewer state: help first, then the filter bar, then the main keys.
pub open spec fn spec_footer(a: &App) -> Footer {
    if a.show_help {
        Footer::Help
    } else if a.entries.filter.is_open {
        Footer::Filter(a.entries.filter.selected)
    } else {
        Footer::Main
    }
}

impl App {
    /// Which footer the viewer shows.
    pub fn footer(&self) -> (r: Footer)
        ensures
            r == spec_footer(self),
    {
        if self.show_help {
            Footer::Help
        } else if self.filter_open() {
            Footer::Filter(self.entries.filter.selected)
        } else {
            Footer::Main
        }
    }
}

/// The hotkey overlay.
#[derive(Debug, Clone, Copy, PartialEq, Eq, Structural)]
pub struct Help;

/// The overlay's width in cells.
pub const HELP_WIDTH: u16 = 50;

/// The overlay's height in cells.
pub const HELP_HEIGHT: u16 = 8;

/// The overlay's rectangle on a terminal of the given size: centred, fifty by eight cells.
pub open spec fn spec_help_area(width: u16, height: u16) -> Rect {
    Rect {
        x: (sat_sub(width as int, 50) / 2) as u16,
        y: (sat_sub(height as int, 8) / 2) as u16,
        width: 50,
        height: 8,
    }
}

/// The hotkey lines of the overlay: each key column and its description.
pub open spec fn spec_help_body() -> Seq<(Seq<char>, Seq<char>)> {
    seq![
        ("[\u{2191}/\u{2193}]          :"@, " Scroll Logs"@),
        ("[PgUp/PgDown]  :"@, " Faster Scroll:"@),
        ("[MouseDrag]    :"@, " Resize columns"@),
        ("[q]            :"@, " Quit"@),
        ("[h]            :"@, " Toggle help"@),
    ]
}

impl Help {
    /// Where the overlay is drawn on a terminal `width` by `height` cells.
    pub fn area(width: u16, height: u16) -> (r: Rect)
        ensures
            r == spec_help_area(width, height),
    {
        let w: u16 = if width > HELP_WIDTH {
            width - HELP_WIDTH
        } else {
            0
        };
        let h: u16 = if height > HELP_HEIGHT {
            height - HELP_HEIGHT
        } else {
            0
        };
        Rect { x: w / 2, y: h / 2, width: HELP_WIDTH, height: HELP_HEIGHT }
    }

    /// The overlay's hotkey lines, in display order.
    pub fn body() -> (r: Vec<(&'static str, &'static str)>)
        ensures
            r@.len() == spec_help_body().len(),
            forall|i: int| 0 <= i < r@.len() ==> (#[trigger] r@[i]).0@ == spec_help_body()[i].0 && r@[i].1@
                == spec_help_body()[i].1,
    {
        let mut r: Vec<(&'static str, &'static str)> = Vec::new();
        r.push(("[\u{2191}/\u{2193}]          :", " Scroll Logs"));
        r.push(("[PgUp/PgDown]  :", " Faster Scroll:"));
        r.push(("[MouseDrag]    :", " Resize columns"));
        r.push(("[q]            :", " Quit"));
        r.push(("[h]            :", " Toggle help"));
        r
    }
}

} // verus!
