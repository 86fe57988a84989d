//! Raw colours and the arithmetic of compositing over black.

use vstd::prelude::*;

verus! {

/// The largest value of a channel.
pub const CHANNEL_MAX: u8 = 255;

/// The exact colour of one source pixel, as it keys the lookup cache.
#[derive(Clone, Copy, Debug, PartialEq, Eq, Structural)]
pub struct Rgb {
    pub r: u8,
    pub g: u8,
    pub b: u8,
}

impl Rgb {
    /// The colour as one number, red in the highest of three bytes.
    pub open spec fn packed(self) -> u32 {
        (self.r * 65536 + self.g * 256 + self.b) as u32
    }

    /// Packs the colour into one number; distinct colours pack differently.
    pub fn pack(self) -> (key: u32)
        ensures
            key == self.packed(),
    {
        let r: u32 = self.r as u32;
        let g: u32 = self.g as u32;
        let b: u32 = self.b as u32;
        r * 65536 + g * 256 + b
    }
}

/// A channel seen through `alpha` over a black background.
pub open spec fn over_black(channel: u8, alpha: u8) -> u8 {
    (channel * alpha / 255) as u8
}

/// Seen through full alpha, a channel keeps its value.
pub proof fn lemma_opaque_keeps_channel(channel: u8)
    ensures
        over_black(channel, CHANNEL_MAX) == channel,
{
    assert(channel * 255 / 255 == channel);
}

/// Composites one channel over black, rounding down.
pub fn composite_channel(channel: u8, alpha: u8) -> (out: u8)
    ensures
        out == over_black(channel, alpha),
        out <= channel,
        alpha == CHANNEL_MAX ==> out == channel,
{
    assert(channel * alpha <= 255 * 255) by (nonlinear_arith)
        requires
            channel <= 255,
            alpha <= 255,
    ;
    let product: u32 = channel as u32 * alpha as u32;
    assert(product / 255 <= channel) by (nonlinear_arith)
        requires
            product == channel * alpha,
            alpha <= 255,
            0 <= channel,
    ;
    assert(alpha == 255 ==> product / 255 == channel) by (nonlinear_arith)
        requires
            product == channel * alpha,
    ;
    (product / 255) as u8
}

} // verus!
