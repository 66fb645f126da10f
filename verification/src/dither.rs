//! Dither pattern images.
use vstd::prelude::*;

verus! {

/// Dither pattern image: `width` by `height` single-channel texels.
#[derive(Copy, Clone, Debug)]
pub struct Image<const N: usize> {
    pub width: u8,
    pub height: u8,
    pub data: [u8; N],
}

impl<const N: usize> Image<N> {
    /// Returns the texels of the image, row by row.
    pub fn data(&self) -> (r: &[u8])
        ensures
            r@ == self.data@,
    {
        self.data.as_slice()
    }
}

/// Inverts every texel: `255 - v`.
pub fn invert<const N: usize>(data: [u8; N]) -> (out: [u8; N])
    ensures
        out@.len() == data@.len(),
        forall|i: int| 0 <= i < data@.len() ==> #[trigger] out@[i] == 255 - data@[i],
{
    let mut out = data;
    let mut i: usize = 0;
    while i < N
        invariant
            i <= N,
            N == data@.len(),
            out@.len() == N,
            forall|j: int| 0 <= j < i ==> #[trigger] out@[j] == 255 - data@[j],
            forall|j: int| i <= j < N ==> #[trigger] out@[j] == data@[j],
        decreases N - i,
    {
        let v = out[i];
        out[i] = 255 - v;
        i = i + 1;
    }
    out
}

} // verus!
