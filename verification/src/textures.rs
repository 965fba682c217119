//! The textures that the erosion compute node works on.
//!
//! Each texture has one texel per grid cell. The height map holds one
//! 32-bit channel per texel, the normal and water maps hold four.

use vstd::prelude::*;
use crate::grid::Grid;

verus! {

/// Bytes in one channel of a texel: every channel is a 32-bit number.
pub const BYTES_PER_CHANNEL: u64 = 4;

/// The textures of the erosion node.
#[derive(Clone, Copy, Debug, PartialEq, Eq, Structural)]
pub enum TextureKind {
    /// Terrain height.
    Height,
    /// Normals of the first triangle of every cell.
    NormalTopLeft,
    /// Normals of the second triangle of every cell.
    NormalBottomRight,
    /// Water carried over every cell.
    Water,
}

impl TextureKind {
    /// Channels per texel.
    pub open spec fn channels_spec(self) -> u64 {
        match self {
            TextureKind::Height => 1,
            _ => 4,
        }
    }

    /// Channels per texel: one for the height map, four for the others.
    #[verifier::when_used_as_spec(channels_spec)]
    pub fn channels(self) -> (n: u64)
        ensures
            n == self.channels_spec(),
    {
        match self {
            TextureKind::Height => 1,
            _ => 4,
        }
    }

    /// Bytes in the pixel data of a texture of this kind over `grid`.
    pub fn byte_len(self, grid: &Grid) -> (len: u64)
        ensures
            len == BYTES_PER_CHANNEL * self.channels() * (grid.width() * grid.height()),
    {
        let cells = grid.cell_count() as u64;
        BYTES_PER_CHANNEL * self.channels() * cells
    }
}

/// The four textures in the order in which they are created and bound.
pub fn texture_kinds() -> (kinds: [TextureKind; 4])
    ensures
        kinds[0] == TextureKind::Height,
        kinds[1] == TextureKind::NormalTopLeft,
        kinds[2] == TextureKind::NormalBottomRight,
        kinds[3] == TextureKind::Water,
{
    [
        TextureKind::Height,
        TextureKind::NormalTopLeft,
        TextureKind::NormalBottomRight,
        TextureKind::Water,
    ]
}

} // verus!
