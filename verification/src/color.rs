//! Colours and the palette the player picks from.

use vstd::prelude::*;

verus! {

/// An opaque RGB colour.
#[derive(Clone, Copy, Debug, PartialEq, Eq, Structural)]
pub struct Color {
    pub r: u8,
    pub g: u8,
    pub b: u8,
}

/// Number of colours in the palette.
pub const PALETTE_SIZE: usize = 7;

/// The palette, in selection order: green, blue, red, yellow, magenta, cyan,
/// white.
pub open spec fn palette() -> Seq<Color> {
    seq![
        Color { r: 0, g: 255, b: 0 },
        Color { r: 0, g: 0, b: 255 },
        Color { r: 255, g: 0, b: 0 },
        Color { r: 255, g: 255, b: 0 },
        Color { r: 255, g: 0, b: 255 },
        Color { r: 0, g: 255, b: 255 },
        Color { r: 255, g: 255, b: 255 },
    ]
}

/// The index after `index`, wrapping from the last colour to the first.
pub open spec fn next_index(index: int) -> int {
    (index + 1) % (PALETTE_SIZE as int)
}

/// The index before `index`, wrapping from the first colour to the last.
pub open spec fn previous_index(index: int) -> int {
    if index == 0 {
        PALETTE_SIZE - 1
    } else {
        index - 1
    }
}

impl Color {
    pub fn rgb(r: u8, g: u8, b: u8) -> (c: Color)
        ensures
            c == (Color { r, g, b }),
    {
        Color { r, g, b }
    }
}

/// The palette colour at `index`.
pub fn palette_color(index: usize) -> (c: Color)
    requires
        index < PALETTE_SIZE,
    ensures
        c == palette()[index as int],
{
    if index == 0 {
        Color { r: 0, g: 255, b: 0 }
    } else if index == 1 {
        Color { r: 0, g: 0, b: 255 }
    } else if index == 2 {
        Color { r: 255, g: 0, b: 0 }
    } else if index == 3 {
        Color { r: 255, g: 255, b: 0 }
    } else if index == 4 {
        Color { r: 255, g: 0, b: 255 }
    } else if index == 5 {
        Color { r: 0, g: 255, b: 255 }
    } else {
        Color { r: 255, g: 255, b: 255 }
    }
}

/// Stepping forward and then back, or back and then forward, returns to the
/// starting colour, and a full round of the palette does too.
pub proof fn lemma_palette_cycle(index: int)
    requires
        0 <= index < PALETTE_SIZE,
    ensures
        0 <= next_index(index) < PALETTE_SIZE,
        0 <= previous_index(index) < PALETTE_SIZE,
        previous_index(next_index(index)) == index,
        next_index(previous_index(index)) == index,
        next_index(next_index(next_index(next_index(next_index(next_index(next_index(index)))))))
            == index,
{
}

} // verus!
