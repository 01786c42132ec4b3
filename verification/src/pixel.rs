//! The pixel value type and a small color-wheel generator used by the
//! periodic animation task.

use vstd::prelude::*;

verus! {

/// One RGB pixel: three 8-bit channel intensities. A pixel has no identity
/// beyond its position in the strip sequence.
#[derive(Clone, Copy, PartialEq, Eq, Structural, Debug)]
pub struct Pixel {
    pub r: u8,
    pub g: u8,
    pub b: u8,
}

impl Pixel {
    pub fn new(r: u8, g: u8, b: u8) -> (p: Pixel)
        ensures
            p == (Pixel { r, g, b }),
    {
        Pixel { r, g, b }
    }

    /// The all-off pixel that freshly initialized strips hold.
    pub fn black() -> (p: Pixel)
        ensures
            p == (Pixel { r: 0u8, g: 0u8, b: 0u8 }),
    {
        Pixel { r: 0, g: 0, b: 0 }
    }
}

/// The color the wheel yields at position `pos`: a transition
/// red - green - blue - back to red as `pos` runs through 0..=255.
pub open spec fn wheel_spec(pos: u8) -> Pixel {
    let p = (255 - pos) as u8;
    if p < 85 {
        Pixel { r: (255 - 3 * p) as u8, g: 0u8, b: (3 * p) as u8 }
    } else if p < 170 {
        let q = (p - 85) as u8;
        Pixel { r: 0u8, g: (3 * q) as u8, b: (255 - 3 * q) as u8 }
    } else {
        let q = (p - 170) as u8;
        Pixel { r: (3 * q) as u8, g: (255 - 3 * q) as u8, b: 0u8 }
    }
}

/// Input a value 0 to 255 to get a color value.
/// The colors are a transition r - g - b - back to r.
pub fn wheel(wheel_pos: u8) -> (p: Pixel)
    ensures
        p == wheel_spec(wheel_pos),
{
    let pos: u8 = 255 - wheel_pos;
    if pos < 85 {
        return Pixel { r: 255 - pos * 3, g: 0, b: pos * 3 };
    }
    if pos < 170 {
        let q: u8 = pos - 85;
        return Pixel { r: 0, g: q * 3, b: 255 - q * 3 };
    }
    let q: u8 = pos - 170;
    Pixel { r: q * 3, g: 255 - q * 3, b: 0 }
}

} // verus!
