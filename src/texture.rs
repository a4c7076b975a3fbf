//! Texture units: which device unit each of the scene's textures is bound to.
use vstd::prelude::*;

verus! {

/// The device's first texture unit (`TEXTURE0`); unit `i` is `TEXTURE0 + i`.
pub const TEXTURE0: u32 = 0x84C0;

/// How many textures a scene binds: a color map and a normal map.
pub const MAX_TEXTURES: usize = 2;

/// The unit for the scene's `i`-th texture, whose sampler uniform is set to `i`;
/// `None` past the units the scene uses.
pub fn texture_unit(i: usize) -> (r: Option<u32>)
    ensures
        i < MAX_TEXTURES ==> r == Some((TEXTURE0 + i) as u32),
        i >= MAX_TEXTURES ==> r is None,
{
    if i < MAX_TEXTURES {
        Some(TEXTURE0 + i as u32)
    } else {
        None
    }
}

} // verus!
