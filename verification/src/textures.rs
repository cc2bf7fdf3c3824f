//! Wall textures: composition of a base with an overlay, and lookup by
//! wall tag with a fallback texture.

use vstd::prelude::*;
use crate::atlas::Atlas;
use crate::bitmap::{CpuImage, ImageView};
use crate::color::{blend, blend_spec, lemma_blend_transparent_over_opaque, Color};

verus! {

/// The tag under which the fallback texture is stored.
pub const FALLBACK_TAG: char = '#';

/// The tag whose texture doubles as the fallback.
pub const DEFAULT_TAG: char = '-';

/// Why wall textures could not be prepared.
#[derive(Clone, Copy, Debug, PartialEq, Eq, Structural)]
pub enum TextureError {
    /// A base image and its overlay differ in width or height.
    SizeMismatch,
}

/// One of the four bytes of a colour: red, green, blue, alpha.
pub open spec fn channel(c: Color, k: int) -> u8 {
    if k == 0 {
        c.r
    } else if k == 1 {
        c.g
    } else if k == 2 {
        c.b
    } else {
        c.a
    }
}

/// The overlay laid on the base, pixel by pixel: an image of the base's
/// size whose every pixel is the blend of the two pixels with that number.
pub open spec fn composed(base: ImageView, overlay: ImageView) -> ImageView {
    ImageView {
        width: base.width,
        height: base.height,
        data: Seq::new(
            4 * (base.width * base.height),
            |i: int| channel(blend_spec(overlay.texel(i / 4), base.texel(i / 4)), i % 4),
        ),
    }
}

/// Whether two images have the same width and the same height.
pub open spec fn same_size(a: ImageView, b: ImageView) -> bool {
    a.width == b.width && a.height == b.height
}

/// Each pixel of a composed image is the blend of the two source pixels.
pub proof fn lemma_composed_texel(base: ImageView, overlay: ImageView, p: int)
    requires
        0 <= p < base.width * base.height,
    ensures
        composed(base, overlay).complete(),
        composed(base, overlay).texel(p) == blend_spec(overlay.texel(p), base.texel(p)),
{
    let out = composed(base, overlay);
    assert(4 * p + 3 < out.data.len());
    assert((4 * p) / 4 == p && (4 * p) % 4 == 0);
    assert((4 * p + 1) / 4 == p && (4 * p + 1) % 4 == 1);
    assert((4 * p + 2) / 4 == p && (4 * p + 2) % 4 == 2);
    assert((4 * p + 3) / 4 == p && (4 * p + 3) % 4 == 3);
}

/// Laying a fully transparent overlay on a complete, fully opaque base
/// gives back the base, pixel for pixel.
pub proof fn lemma_compose_transparent_overlay(base: ImageView, overlay: ImageView)
    requires
        base.complete(),
        base.has_alpha(255),
        same_size(base, overlay),
        overlay.complete(),
        overlay.has_alpha(0),
    ensures
        composed(base, overlay) == base,
{
    let out = composed(base, overlay);
    assert forall|i: int| 0 <= i < out.data.len() implies out.data[i] == base.data[i] by {
        let p = i / 4;
        assert(0 <= p < base.width * base.height);
        assert(overlay.texel(p).a == 0);
        assert(base.texel(p).a == 255);
        lemma_blend_transparent_over_opaque(overlay.texel(p), base.texel(p));
        assert(i == 4 * p + i % 4);
    }
    assert(out.data =~= base.data);
}

/// Lays `overlay` on `base` by straight alpha blending. The two must have
/// the same size; the result is fully opaque.
pub fn compose_overlay(base: &CpuImage, overlay: &CpuImage) -> (out: Result<
    CpuImage,
    TextureError,
>)
    requires
        4 * (base@.width * base@.height) <= usize::MAX,
    ensures
        match out {
            Ok(img) => same_size(base@, overlay@) && img@ == composed(base@, overlay@),
            Err(e) => !same_size(base@, overlay@) && e == TextureError::SizeMismatch,
        },
{
    if overlay.width != base.width || overlay.height != base.height {
        return Err(TextureError::SizeMismatch);
    }
    proof {
        assert(0 <= base.width * base.height <= 0xffff_ffff * 0xffff_ffff) by (nonlinear_arith)
            requires
                0 <= base.width <= 0xffff_ffff,
                0 <= base.height <= 0xffff_ffff,
        ;
    }
    let total: u64 = base.width as u64 * base.height as u64;
    let ghost goal = composed(base@, overlay@);
    let mut data: Vec<u8> = Vec::new();
    let mut p: u64 = 0;
    while p < total
        invariant
            p <= total,
            total == base@.width * base@.height,
            4 * total <= usize::MAX,
            goal == composed(base@, overlay@),
            data@.len() == 4 * p,
            forall|i: int| 0 <= i < 4 * p ==> data@[i] == goal.data[i],
        decreases total - p,
    {
        let c = blend(overlay.texel(p), base.texel(p));
        let ghost before = data@;
        data.push(c.r);
        data.push(c.g);
        data.push(c.b);
        data.push(c.a);
        proof {
            assert((4 * p) / 4 == p && (4 * p) % 4 == 0);
            assert((4 * p + 1) / 4 == p && (4 * p + 1) % 4 == 1);
            assert((4 * p + 2) / 4 == p && (4 * p + 2) % 4 == 2);
            assert((4 * p + 3) / 4 == p && (4 * p + 3) % 4 == 3);
            assert forall|i: int| 0 <= i < 4 * (p + 1) implies data@[i] == goal.data[i] by {
                if i < 4 * p {
                    assert(data@[i] == before[i]);
                }
            }
        }
        p += 1;
    }
    proof {
        assert(data@ =~= goal.data);
    }
    Ok(CpuImage { width: base.width, height: base.height, pixel_data: data })
}

/// One wall material as it comes from its assets: the tag, the base image
/// and the overlay to lay on it.
pub struct WallLayers {
    pub tag: char,
    pub base: CpuImage,
    pub overlay: CpuImage,
}

impl WallLayers {
    /// Whether the composed texture of the material fits in memory.
    pub open spec fn fits_spec(self) -> bool {
        4 * (self.base@.width * self.base@.height) <= usize::MAX
    }

    /// Tells whether the composed texture of the material fits in memory.
    pub fn fits(&self) -> (fits: bool)
        ensures
            fits == self.fits_spec(),
    {
        proof {
            assert(0 <= self.base.width * self.base.height <= 0xffff_ffff * 0xffff_ffff)
                by (nonlinear_arith)
                requires
                    0 <= self.base.width <= 0xffff_ffff,
                    0 <= self.base.height <= 0xffff_ffff,
            ;
        }
        4 * (self.base.width as u128 * self.base.height as u128) <= usize::MAX as u128
    }
}

/// The textures that the first `count` materials of a list give, later
/// entries replacing earlier ones with the same tag.
pub open spec fn composed_textures(layers: Seq<WallLayers>, count: nat) -> Map<char, ImageView>
    decreases count,
{
    if count == 0 {
        Map::empty()
    } else {
        composed_textures(layers, (count - 1) as nat).insert(
            layers[count - 1].tag,
            composed(layers[count - 1].base@, layers[count - 1].overlay@),
        )
    }
}

/// A set of textures with the fallback entry added: the texture of the
/// default tag, if there is one, is also stored under the fallback tag.
pub open spec fn with_fallback(textures: Map<char, ImageView>) -> Map<char, ImageView> {
    if textures.contains_key(DEFAULT_TAG) {
        textures.insert(FALLBACK_TAG, textures[DEFAULT_TAG])
    } else {
        textures
    }
}

/// The texture that a tag is painted with: its own, else the fallback,
/// else none.
pub open spec fn texture_for(textures: Map<char, ImageView>, tag: char) -> Option<ImageView> {
    if textures.contains_key(tag) {
        Some(textures[tag])
    } else if textures.contains_key(FALLBACK_TAG) {
        Some(textures[FALLBACK_TAG])
    } else {
        None
    }
}

/// The size reported for a tag: that of its texture, one by one without.
pub open spec fn texture_size(textures: Map<char, ImageView>, tag: char) -> (nat, nat) {
    match texture_for(textures, tag) {
        Some(img) => (img.width, img.height),
        None => (1, 1),
    }
}

/// The colour of a wall texel: a clamped lookup in the tag's texture,
/// white without a texture.
pub open spec fn wall_texel(textures: Map<char, ImageView>, tag: char, x: int, y: int) -> Color {
    match texture_for(textures, tag) {
        Some(img) => img.sample(x, y),
        None => Color::white(),
    }
}

/// Whether every material of the list can be composed in memory.
pub open spec fn layers_fit(layers: Seq<WallLayers>) -> bool {
    forall|k: int| 0 <= k < layers.len() ==> (#[trigger] layers[k]).fits_spec()
}

/// Whether base and overlay agree in size for each of the first `count`
/// materials.
pub open spec fn layers_match(layers: Seq<WallLayers>, count: nat) -> bool {
    forall|k: int| 0 <= k < count ==> same_size((#[trigger] layers[k]).base@, layers[k].overlay@)
}

/// The textures of the walls, by tag.
pub struct TextureManager {
    images: Atlas,
}

impl TextureManager {
    /// The stored textures by tag.
    pub closed spec fn textures(&self) -> Map<char, ImageView> {
        self.images@
    }

    /// Composes every material and stores it under its tag, then stores
    /// the default material's texture under the fallback tag as well.
    /// Fails if any base and overlay differ in size.
    pub fn new(layers: Vec<WallLayers>) -> (out: Result<TextureManager, TextureError>)
        requires
            layers_fit(layers@),
        ensures
            match out {
                Ok(manager) => layers_match(layers@, layers@.len()) && manager.textures()
                    == with_fallback(composed_textures(layers@, layers@.len())),
                Err(e) => !layers_match(layers@, layers@.len()) && e
                    == TextureError::SizeMismatch,
            },
    {
        let mut images = Atlas::new();
        let mut k: usize = 0;
        while k < layers.len()
            invariant
                k <= layers.len(),
                layers_fit(layers@),
                layers_match(layers@, k as nat),
                images@ == composed_textures(layers@, k as nat),
            decreases layers.len() - k,
        {
            let entry = &layers[k];
            match compose_overlay(&entry.base, &entry.overlay) {
                Ok(img) => {
                    images.store(entry.tag, img);
                },
                Err(e) => {
                    return Err(e);
                },
            }
            k += 1;
        }
        match images.get(DEFAULT_TAG) {
            Some(img) => {
                let fallback = img.copy();
                images.store(FALLBACK_TAG, fallback);
            },
            None => {},
        }
        Ok(TextureManager { images })
    }

    /// The texture stored for a tag, or else the fallback texture.
    fn lookup(&self, tag: char) -> (found: Option<&CpuImage>)
        ensures
            match found {
                Some(img) => texture_for(self.textures(), tag) == Some(img@),
                None => texture_for(self.textures(), tag) is None,
            },
    {
        match self.images.get(tag) {
            Some(img) => Some(img),
            None => self.images.get(FALLBACK_TAG),
        }
    }

    /// Width and height of the texture that a tag is painted with; one by
    /// one if neither the tag nor the fallback has a texture.
    pub fn get_image_size(&self, tag: char) -> (size: (u32, u32))
        ensures
            (size.0 as nat, size.1 as nat) == texture_size(self.textures(), tag),
    {
        match self.lookup(tag) {
            Some(img) => (img.width, img.height),
            None => (1, 1),
        }
    }

    /// The colour at `(tx, ty)` of the texture that a tag is painted with,
    /// each coordinate clamped into the texture. A tag without a texture
    /// uses the fallback; without that too the colour is white. The
    /// textures are left as they are.
    pub fn get_pixel_color_mut(&mut self, tag: char, tx: u32, ty: u32) -> (c: Color)
        ensures
            c == wall_texel(old(self).textures(), tag, tx as int, ty as int),
            final(self).textures() == old(self).textures(),
    {
        match self.lookup(tag) {
            Some(img) => img.sample(tx, ty),
            None => Color::white(),
        }
    }
}

} // verus!
