//! Encoding of a color as four bytes: premultiplied red, green, blue, alpha.
use vstd::prelude::*;

use crate::task::Rgba;

verus! {

pub fn serialize(color: &Rgba) -> (r: [u8; 4])
    ensures
        r@ == seq![color.r, color.g, color.b, color.a],
{
    let r = [color.r, color.g, color.b, color.a];
    assert(r@ =~= seq![color.r, color.g, color.b, color.a]);
    r
}

pub fn deserialize(bytes: [u8; 4]) -> (c: Rgba)
    ensures
        c == (Rgba { r: bytes@[0], g: bytes@[1], b: bytes@[2], a: bytes@[3] }),
{
    Rgba { r: bytes[0], g: bytes[1], b: bytes[2], a: bytes[3] }
}

} // verus!
