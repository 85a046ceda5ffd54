//! Terminal-independent pieces of the interactive front end: which screen
//! is shown, the focus and mode of the library browser, the spinner frame
//! counter, and one item's reported result.

use vstd::prelude::*;

verus! {

#[derive(Debug, Clone, Copy, PartialEq, Eq, Structural)]
pub enum Screen {
    Login,
    Library,
    Download,
}

#[derive(Debug, Clone, Copy, PartialEq, Eq, Structural)]
pub enum LibraryMode {
    Browse,
    FormatSelection,
}

#[derive(Debug, Clone, Copy, PartialEq, Eq, Structural)]
pub enum LibraryFocus {
    List,
    SearchBar,
}

/// One item's terminal outcome as the front end records it: the item's
/// identifier with the finished path or the error text.
#[derive(Debug)]
pub struct ItemDownloadResult {
    pub item_id: String,
    pub result: Result<String, String>,
}

/// The glyph shown for one spinner position.
pub open spec fn spinner_glyph_spec(frame: int) -> Seq<char> {
    if frame == 0 {
        "\u{280b}"@
    } else if frame == 1 {
        "\u{2819}"@
    } else if frame == 2 {
        "\u{2839}"@
    } else if frame == 3 {
        "\u{2838}"@
    } else if frame == 4 {
        "\u{283c}"@
    } else if frame == 5 {
        "\u{2834}"@
    } else if frame == 6 {
        "\u{2826}"@
    } else if frame == 7 {
        "\u{2827}"@
    } else if frame == 8 {
        "\u{2807}"@
    } else {
        "\u{280f}"@
    }
}

/// A ten-frame activity indicator.
#[derive(Debug)]
pub struct Spinner {
    pub frame: usize,
}

impl Spinner {
    pub fn new() -> (r: Spinner)
        ensures
            r.frame == 0,
    {
        Spinner { frame: 0 }
    }

    /// Advances to the next frame, wrapping after the last.
    pub fn tick(&mut self)
        requires
            old(self).frame < 10,
        ensures
            final(self).frame == (old(self).frame + 1) % 10,
            final(self).frame < 10,
    {
        self.frame = (self.frame + 1) % 10;
    }

    /// The glyph for the current frame.
    pub fn current(&self) -> (r: &'static str)
        requires
            self.frame < 10,
        ensures
            r@ == spinner_glyph_spec(self.frame as int),
    {
        match self.frame {
            0 => "\u{280b}",
            1 => "\u{2819}",
            2 => "\u{2839}",
            3 => "\u{2838}",
            4 => "\u{283c}",
            5 => "\u{2834}",
            6 => "\u{2826}",
            7 => "\u{2827}",
            8 => "\u{2807}",
            _ => "\u{280f}",
        }
    }
}

} // verus!
