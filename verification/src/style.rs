//! Colours and themes for the editor UI and syntax tokens.
use crate::text::{chars_of, slice_is};
use vstd::prelude::*;

verus! {

/// A terminal colour.
#[derive(Clone, Copy, PartialEq, Eq, Debug, Structural)]
pub enum Color {
    Black,
    White,
    Grey,
    DarkGrey,
    Blue,
    Green,
    Yellow,
    Cyan,
}

/// A palette of colours for the editor UI and syntax tokens.
#[derive(Clone, Copy, PartialEq, Eq, Debug, Structural)]
pub struct Theme {
    pub title_bg: Color,
    pub status_bg: Color,
    pub gutter_fg: Color,
    pub search_hl_bg: Color,
    pub search_hl_fg: Color,
}

/// The dark palette (the default).
pub open spec fn dark_theme() -> Theme {
    Theme {
        title_bg: Color::Blue,
        status_bg: Color::Blue,
        gutter_fg: Color::DarkGrey,
        search_hl_bg: Color::Yellow,
        search_hl_fg: Color::Black,
    }
}

/// The light palette.
pub open spec fn light_theme() -> Theme {
    Theme {
        title_bg: Color::White,
        status_bg: Color::White,
        gutter_fg: Color::Grey,
        search_hl_bg: Color::Blue,
        search_hl_fg: Color::White,
    }
}

/// Whether the string `s` spells `lit`.
pub fn str_is(s: &str, lit: &str) -> (r: bool)
    ensures
        r == (s@ == lit@),
{
    let v = chars_of(s);
    assert(v@.subrange(0, v@.len() as int) =~= v@);
    slice_is(&v, 0, v.len(), lit)
}

impl Theme {
    fn dark() -> (t: Theme)
        ensures
            t == dark_theme(),
    {
        Theme {
            title_bg: Color::Blue,
            status_bg: Color::Blue,
            gutter_fg: Color::DarkGrey,
            search_hl_bg: Color::Yellow,
            search_hl_fg: Color::Black,
        }
    }

    fn light() -> (t: Theme)
        ensures
            t == light_theme(),
    {
        Theme {
            title_bg: Color::White,
            status_bg: Color::White,
            gutter_fg: Color::Grey,
            search_hl_bg: Color::Blue,
            search_hl_fg: Color::White,
        }
    }

    /// The theme called `name`: `"light"`, or the dark one for any other name.
    pub fn from_name(name: &str) -> (t: Theme)
        ensures
            t == if name@ == "light"@ {
                light_theme()
            } else {
                dark_theme()
            },
    {
        if str_is(name, "light") {
            Theme::light()
        } else {
            Theme::dark()
        }
    }
}

} // verus!
