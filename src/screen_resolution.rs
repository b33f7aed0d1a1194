//! The viewport size as the shaders receive it.
use vstd::prelude::*;
use crate::encode::{word_bytes, ByteOrder};

verus! {

/// Width and height of the render target in pixels.
#[derive(Clone, Copy, Debug, PartialEq, Eq, Structural)]
pub struct ScreenResolution {
    pub width: u32,
    pub height: u32,
}

impl ScreenResolution {
    pub fn new(width: u32, height: u32) -> (r: ScreenResolution)
        ensures
            r == (ScreenResolution { width, height }),
    {
        ScreenResolution { width, height }
    }

    /// The uniform buffer contents: width, then height, as 32-bit words.
    pub fn to_bytes(&self, order: ByteOrder) -> (r: [u8; 8])
        ensures
            r@ == word_bytes(self.width, order) + word_bytes(self.height, order),
    {
        let w = crate::encode::header_bytes(self.width, order);
        let h = crate::encode::header_bytes(self.height, order);
        let r = [w[0], w[1], w[2], w[3], h[0], h[1], h[2], h[3]];
        assert(r@ =~= word_bytes(self.width, order) + word_bytes(self.height, order));
        r
    }
}

} // verus!
