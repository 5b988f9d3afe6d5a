use vstd::prelude::*;

verus! {

/// A rectangle of texels inside the glyph atlas.
#[derive(Clone, Copy, Debug, PartialEq, Eq, Structural)]
pub struct TextAtlasRegion {
    pub x: u32,
    pub y: u32,
    pub width: u32,
    pub height: u32,
}

impl TextAtlasRegion {
    /// The whole of an atlas of the given size.
    pub fn full(width: u32, height: u32) -> (r: TextAtlasRegion)
        ensures
            r == (TextAtlasRegion { x: 0, y: 0, width, height }),
    {
        TextAtlasRegion { x: 0, y: 0, width, height }
    }

    /// The number of bytes the region's texels take, or `None` where that
    /// number does not fit in 32 bits (each product step is checked).
    pub fn byte_len(self, bytes_per_texel: u32) -> (r: Option<usize>)
        ensures
            r == if self.width * self.height > u32::MAX || self.width * self.height
                * bytes_per_texel > u32::MAX {
                None::<usize>
            } else {
                Some((self.width * self.height * bytes_per_texel) as usize)
            },
    {
        let texels = self.width.checked_mul(self.height);
        match texels {
            None => None,
            Some(texels) => match texels.checked_mul(bytes_per_texel) {
                None => {
                    assert(self.width * self.height * bytes_per_texel > u32::MAX);
                    None
                },
                Some(bytes) => Some(bytes as usize),
            },
        }
    }
}

/// Texture formats the glyph atlas can be created with.
#[derive(Clone, Copy, Debug, PartialEq, Eq, Structural)]
pub enum AtlasTextureFormat {
    R8Unorm,
    Rg8Unorm,
    Rgba8Unorm,
    Rgba8UnormSrgb,
    Other,
}

/// Bytes per texel of the atlas formats that can be uploaded; zero for any
/// other format.
pub fn bytes_per_texel(format: AtlasTextureFormat) -> (r: u32)
    ensures
        r == match format {
            AtlasTextureFormat::R8Unorm => 1u32,
            AtlasTextureFormat::Rg8Unorm => 2u32,
            AtlasTextureFormat::Rgba8Unorm | AtlasTextureFormat::Rgba8UnormSrgb => 4u32,
            AtlasTextureFormat::Other => 0u32,
        },
{
    match format {
        AtlasTextureFormat::R8Unorm => 1,
        AtlasTextureFormat::Rg8Unorm => 2,
        AtlasTextureFormat::Rgba8Unorm | AtlasTextureFormat::Rgba8UnormSrgb => 4,
        AtlasTextureFormat::Other => 0,
    }
}

/// Whether an atlas update of `region` with `data_len` bytes is one the
/// atlas accepts: an empty region or an unknown format is skipped, and
/// otherwise the data must cover the region and the region must lie inside
/// an atlas of `atlas_width` by `atlas_height` texels.
pub open spec fn atlas_update_fits(
    region: TextAtlasRegion,
    bytes_per_texel: u32,
    data_len: int,
    atlas_width: u32,
    atlas_height: u32,
) -> bool {
    region.width == 0 || region.height == 0 || bytes_per_texel == 0 || (
    region.width * region.height * bytes_per_texel <= u32::MAX
        && data_len >= region.width * region.height * bytes_per_texel
        && region.x + region.width <= atlas_width && region.y + region.height <= atlas_height)
}

/// Checks the size rules of an atlas update; returns the number of bytes to
/// copy, zero where the update is skipped.
pub fn atlas_update_len(
    region: TextAtlasRegion,
    bytes_per_texel: u32,
    data_len: usize,
    atlas_width: u32,
    atlas_height: u32,
) -> (r: Option<usize>)
    ensures
        r is Some <==> atlas_update_fits(region, bytes_per_texel, data_len as int, atlas_width, atlas_height),
        r matches Some(n) ==> n == if region.width == 0 || region.height == 0 || bytes_per_texel == 0 {
            0
        } else {
            region.width * region.height * bytes_per_texel
        },
{
    if region.width == 0 || region.height == 0 || bytes_per_texel == 0 {
        return Some(0);
    }
    let expected = match region.byte_len(bytes_per_texel) {
        Some(n) => n,
        None => {
            assert(region.width * region.height * bytes_per_texel > u32::MAX) by (nonlinear_arith)
                requires
                    region.width * region.height > u32::MAX
                        || region.width * region.height * bytes_per_texel > u32::MAX,
                    bytes_per_texel >= 1,
            ;
            return None;
        },
    };
    if data_len < expected {
        return None;
    }
    if region.x > u32::MAX - region.width || region.y > u32::MAX - region.height {
        return None;
    }
    if region.x + region.width <= atlas_width && region.y + region.height <= atlas_height {
        Some(expected)
    } else {
        None
    }
}

/// The size and texel format of a glyph atlas texture.
#[derive(Clone, Copy, Debug, PartialEq, Eq, Structural)]
pub struct TextAtlasDescriptor {
    pub width: u32,
    pub height: u32,
    pub format: AtlasTextureFormat,
}

/// The extent of a texture: width, height and array layers.
#[derive(Clone, Copy, Debug, PartialEq, Eq, Structural)]
pub struct TextureExtent {
    pub width: u32,
    pub height: u32,
    pub depth_or_array_layers: u32,
}

impl TextAtlasDescriptor {
    /// A single-channel atlas of signed distance values.
    pub fn sdf_r8(width: u32, height: u32) -> (d: TextAtlasDescriptor)
        ensures
            d == (TextAtlasDescriptor { width, height, format: AtlasTextureFormat::R8Unorm }),
    {
        TextAtlasDescriptor { width, height, format: AtlasTextureFormat::R8Unorm }
    }

    /// The texture extent of the atlas, at least one texel each way.
    pub fn extent(self) -> (e: TextureExtent)
        ensures
            e.width == if self.width == 0 {
                1
            } else {
                self.width
            },
            e.height == if self.height == 0 {
                1
            } else {
                self.height
            },
            e.depth_or_array_layers == 1,
    {
        TextureExtent {
            width: if self.width == 0 {
                1
            } else {
                self.width
            },
            height: if self.height == 0 {
                1
            } else {
                self.height
            },
            depth_or_array_layers: 1,
        }
    }
}

/// How a texture is sampled between its texels.
#[derive(Clone, Copy, Debug, PartialEq, Eq, Structural)]
pub enum FilterMode {
    Nearest,
    Linear,
}

/// The atlas is sampled without blending neighbouring texels, so the edges
/// of bitmap glyphs stay hard.
pub const TEXT_ATLAS_FILTER_MODE: FilterMode = FilterMode::Nearest;

} // verus!
