//! Decoded images: RGBA8 pixel data with clamped nearest-neighbour lookup.

use vstd::prelude::*;
use crate::color::Color;

verus! {

/// A decoded image in memory: four bytes per pixel (red, green, blue,
/// alpha), rows top to bottom, pixels left to right.
///
/// Nothing ties `pixel_data` to the dimensions: a lookup that falls outside
/// the data yields white.
#[derive(Debug)]
pub struct CpuImage {
    pub width: u32,
    pub height: u32,
    pub pixel_data: Vec<u8>,
}

/// What an image is to the contracts: its dimensions and its bytes.
pub struct ImageView {
    pub width: nat,
    pub height: nat,
    pub data: Seq<u8>,
}

/// Why bytes could not be turned into an image.
#[derive(Clone, Copy, Debug, PartialEq, Eq, Structural)]
pub enum DecodeError {
    /// The bytes are in no format that the decoder knows, or are malformed.
    Undecodable,
}

/// The colour that RGBA8 data holds for pixel number `p`, white if the data
/// ends before it.
pub open spec fn texel_of(data: Seq<u8>, p: int) -> Color {
    if 0 <= p && 4 * p + 3 < data.len() {
        Color { r: data[4 * p], g: data[4 * p + 1], b: data[4 * p + 2], a: data[4 * p + 3] }
    } else {
        Color::white()
    }
}

impl ImageView {
    /// Whether the data holds exactly one pixel for every position.
    pub open spec fn complete(self) -> bool {
        self.data.len() == 4 * (self.width * self.height)
    }

    /// The width used for addressing: an image without columns is
    /// addressed as if it had one.
    pub open spec fn stride(self) -> int {
        if self.width == 0 {
            1
        } else {
            self.width as int
        }
    }

    /// The height used for clamping: at least one row.
    pub open spec fn rows(self) -> int {
        if self.height == 0 {
            1
        } else {
            self.height as int
        }
    }

    /// The colour stored for pixel number `p`, white if the data ends
    /// before it.
    pub open spec fn texel(self, p: int) -> Color {
        texel_of(self.data, p)
    }

    /// Nearest-neighbour lookup with both coordinates clamped into the
    /// image.
    pub open spec fn sample(self, x: int, y: int) -> Color {
        let cx = if x < self.stride() - 1 {
            x
        } else {
            self.stride() - 1
        };
        let cy = if y < self.rows() - 1 {
            y
        } else {
            self.rows() - 1
        };
        self.texel(cy * self.stride() + cx)
    }

    /// Whether every pixel of a complete image has this alpha.
    pub open spec fn has_alpha(self, alpha: u8) -> bool {
        forall|p: int| 0 <= p < self.width * self.height ==> (#[trigger] self.texel(p)).a == alpha
    }
}

impl View for CpuImage {
    type V = ImageView;

    open spec fn view(&self) -> ImageView {
        ImageView {
            width: self.width as nat,
            height: self.height as nat,
            data: self.pixel_data@,
        }
    }
}

/// The image that the decoder of the `image` crate reads out of `bytes`,
/// converted to RGBA8: width, height and pixel bytes; `None` where it
/// reports an error.
pub uninterp spec fn decoded_rgba8(bytes: Seq<u8>) -> Option<(u32, u32, Seq<u8>)>;

#[verifier::external_type_specification]
#[verifier::external_body]
pub struct ExImageError(image::ImageError);

/// Calls `image::guess_format` on the bytes, then
/// `image::load_from_memory_with_format` with the format found, and
/// converts the picture with `DynamicImage::to_rgba8`. Both calls read
/// nothing but the bytes, so the outcome is a function of them; the
/// contract gives that function its name and claims no more.
#[verifier::external_body]
fn decode_with_image_crate(bytes: &Vec<u8>) -> (out: Result<CpuImage, image::ImageError>)
    ensures
        match out {
            Ok(img) => decoded_rgba8(bytes@) == Some((img.width, img.height, img.pixel_data@)),
            Err(_) => decoded_rgba8(bytes@) is None,
        },
{
    let format = image::guess_format(bytes.as_slice())?;
    let rgba = image::load_from_memory_with_format(bytes.as_slice(), format)?.to_rgba8();
    let (width, height) = rgba.dimensions();
    Ok(CpuImage { width, height, pixel_data: rgba.into_raw() })
}

impl CpuImage {
    /// Decodes an encoded picture (PNG or WebP) into RGBA8.
    pub fn decode(bytes: &Vec<u8>) -> (out: Result<CpuImage, DecodeError>)
        ensures
            match out {
                Ok(img) => decoded_rgba8(bytes@) == Some(
                    (img.width, img.height, img.pixel_data@),
                ),
                Err(e) => decoded_rgba8(bytes@) is None && e == DecodeError::Undecodable,
            },
    {
        match decode_with_image_crate(bytes) {
            Ok(img) => Ok(img),
            Err(_) => Err(DecodeError::Undecodable),
        }
    }

    /// An image of one colour.
    pub fn filled(width: u32, height: u32, color: Color) -> (img: CpuImage)
        requires
            4 * (width * height) <= usize::MAX,
        ensures
            img@.width == width,
            img@.height == height,
            img@.complete(),
            forall|p: int| 0 <= p < width * height ==> #[trigger] img@.texel(p) == color,
    {
        proof {
            assert(0 <= width * height <= 0xffff_ffff * 0xffff_ffff) by (nonlinear_arith)
                requires
                    0 <= width <= 0xffff_ffff,
                    0 <= height <= 0xffff_ffff,
            ;
        }
        let total: u64 = width as u64 * height as u64;
        let mut data: Vec<u8> = Vec::new();
        let mut p: u64 = 0;
        while p < total
            invariant
                p <= total,
                total == width * height,
                data@.len() == 4 * p,
                4 * total <= usize::MAX,
                forall|q: int| 0 <= q < p ==> #[trigger] texel_of(data@, q) == color,
            decreases total - p,
        {
            let ghost before = data@;
            data.push(color.r);
            data.push(color.g);
            data.push(color.b);
            data.push(color.a);
            proof {
                assert forall|q: int| 0 <= q < p + 1 implies #[trigger] texel_of(data@, q)
                    == color by {
                    if q < p {
                        assert(texel_of(before, q) == color);
                    }
                }
            }
            p += 1;
        }
        CpuImage { width, height, pixel_data: data }
    }

    /// A copy of the image.
    pub fn copy(&self) -> (img: CpuImage)
        ensures
            img@ == self@,
    {
        let data = self.pixel_data.clone();
        proof {
            assert(data@ =~= self.pixel_data@);
        }
        CpuImage { width: self.width, height: self.height, pixel_data: data }
    }

    /// The colour stored for pixel number `p`, white if the data ends
    /// before it.
    pub fn texel(&self, p: u64) -> (c: Color)
        ensures
            c == self@.texel(p as int),
    {
        let len: usize = self.pixel_data.len();
        if p < (len / 4) as u64 {
            let i: usize = (p * 4) as usize;
            Color {
                r: self.pixel_data[i],
                g: self.pixel_data[i + 1],
                b: self.pixel_data[i + 2],
                a: self.pixel_data[i + 3],
            }
        } else {
            Color::white()
        }
    }

    /// Looks up the pixel nearest to `(x, y)`, clamping each coordinate
    /// into the image.
    pub fn sample(&self, x: u32, y: u32) -> (c: Color)
        ensures
            c == self@.sample(x as int, y as int),
    {
        let stride: u32 = if self.width == 0 {
            1
        } else {
            self.width
        };
        let rows: u32 = if self.height == 0 {
            1
        } else {
            self.height
        };
        let cx: u32 = if x < stride - 1 {
            x
        } else {
            stride - 1
        };
        let cy: u32 = if y < rows - 1 {
            y
        } else {
            rows - 1
        };
        proof {
            assert(cy as int * stride as int + cx as int <= 0xffff_ffff * 0xffff_ffff + 0xffff_ffff)
                by (nonlinear_arith)
                requires
                    0 <= cy <= 0xffff_ffff,
                    0 <= stride <= 0xffff_ffff,
                    0 <= cx <= 0xffff_ffff,
            ;
            assert(0 <= cy as int * stride as int) by (nonlinear_arith)
                requires
                    0 <= cy,
                    0 <= stride,
            ;
        }
        self.texel(cy as u64 * stride as u64 + cx as u64)
    }
}

} // verus!
