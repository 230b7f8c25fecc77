//! Colour samples, and the routing of stereo pairs into colour channels.

use vstd::prelude::*;

verus! {

/// One pixel: three 16-bit channels.
#[derive(Debug, Clone, Copy, PartialEq, Eq, Structural)]
pub struct Rgb {
    pub r: u16,
    pub g: u16,
    pub b: u16,
}

impl Rgb {
    /// The pixel of a raster nothing has been painted on.
    pub open spec fn black() -> Rgb {
        Rgb { r: 0, g: 0, b: 0 }
    }

    /// Whether every channel is zero.
    pub open spec fn is_black(self) -> bool {
        self.r == 0 && self.g == 0 && self.b == 0
    }

    /// The channel with the given index: 0 is red, 1 green, 2 blue.
    pub open spec fn channel(self, index: int) -> u16 {
        if index == 0 {
            self.r
        } else if index == 1 {
            self.g
        } else {
            self.b
        }
    }

    /// The colour `fresh` as it lands on a pixel that holds `held`: with
    /// `average` set and `held` not black, the mean of the two, channel by
    /// channel and rounded down; otherwise `fresh` itself.
    pub open spec fn blend_spec(average: bool, held: Rgb, fresh: Rgb) -> Rgb {
        if average && !held.is_black() {
            Rgb {
                r: ((fresh.r + held.r) / 2) as u16,
                g: ((fresh.g + held.g) / 2) as u16,
                b: ((fresh.b + held.b) / 2) as u16,
            }
        } else {
            fresh
        }
    }

    /// The colour `fresh` as it lands on a pixel that holds `held`.
    pub fn blend(average: bool, held: Rgb, fresh: Rgb) -> (c: Rgb)
        ensures
            c == Rgb::blend_spec(average, held, fresh),
    {
        if average && (held.r > 0 || held.g > 0 || held.b > 0) {
            Rgb {
                r: ((fresh.r as u32 + held.r as u32) / 2) as u16,
                g: ((fresh.g as u32 + held.g as u32) / 2) as u16,
                b: ((fresh.b as u32 + held.b as u32) / 2) as u16,
            }
        } else {
            fresh
        }
    }
}

/// Which side of a stereo pair an image is, and with it the channels of the
/// destination that painting the image may touch.
#[derive(Debug, Clone, Copy, PartialEq, Eq, Structural)]
pub enum Eye {
    Right,
    Left,
    DontCare,
}

impl Eye {
    /// Whether painting for this eye writes the channel with the given
    /// index. The left eye owns red, the right eye green and blue.
    pub open spec fn writes(self, channel: int) -> bool {
        match self {
            Eye::Left => channel == 0,
            Eye::Right => channel == 1 || channel == 2,
            Eye::DontCare => 0 <= channel <= 2,
        }
    }

    /// The pixel that results when `fresh` is written for this eye over a
    /// pixel that holds `held`.
    pub open spec fn route_spec(self, held: Rgb, fresh: Rgb) -> Rgb {
        match self {
            Eye::Left => Rgb { r: fresh.r, g: held.g, b: held.b },
            Eye::Right => Rgb { r: held.r, g: fresh.g, b: fresh.b },
            Eye::DontCare => fresh,
        }
    }

    /// Writes `fresh` for this eye over a pixel that holds `held`.
    pub fn route(self, held: Rgb, fresh: Rgb) -> (c: Rgb)
        ensures
            c == self.route_spec(held, fresh),
            forall|i: int| 0 <= i <= 2 ==> #[trigger] c.channel(i) == if self.writes(i) {
                fresh.channel(i)
            } else {
                held.channel(i)
            },
    {
        match self {
            Eye::Left => Rgb { r: fresh.r, g: held.g, b: held.b },
            Eye::Right => Rgb { r: held.r, g: fresh.g, b: fresh.b },
            Eye::DontCare => fresh,
        }
    }

    /// The eye an image is painted for, from the letter that marks its side
    /// in the file name. Outside anaglyph mode the letter is not looked at.
    pub fn from_tag(anaglyph: bool, tag: char) -> (eye: Eye)
        ensures
            eye == if !anaglyph {
                Eye::DontCare
            } else if tag == 'R' {
                Eye::Right
            } else if tag == 'L' {
                Eye::Left
            } else {
                Eye::DontCare
            },
    {
        if !anaglyph {
            Eye::DontCare
        } else if tag == 'R' {
            Eye::Right
        } else if tag == 'L' {
            Eye::Left
        } else {
            Eye::DontCare
        }
    }
}

} // verus!
