//! Chroma conversion of a two-plane subtexture. A texture whose single
//! subtexture holds exactly two mipmaps in the dual-channel block format is
//! a luma/chroma pair; its planes are handed to `dcv-color-primitives` as
//! an NV12 image and converted to one packed BGRA plane.
use vstd::prelude::*;

use crate::{MipView, Subtexture, Texture, TextureFormat};

verus! {

#[verifier::external_type_specification]
#[verifier::external_body]
pub struct ExErrorKind(dcv_color_primitives::ErrorKind);

/// Relies on `dcv_color_primitives::get_buffers_size` for the single-plane
/// BGRA layout: the packed size is exactly `4 * width * height`, computed
/// with correctly sized stride and size arrays, so under the no-overflow
/// bounds the call always succeeds.
#[verifier::external_body]
fn bgra_size(width: u32, height: u32) -> (r: Result<usize, dcv_color_primitives::ErrorKind>)
    requires
        4 * width <= usize::MAX,
        4 * width * height <= usize::MAX,
    ensures
        r is Ok,
        r matches Ok(n) ==> n == 4 * width * height,
{
    let sizes: &mut [usize] = &mut [0usize; 1];
    let bgra = dcv_color_primitives::ImageFormat {
        pixel_format: dcv_color_primitives::PixelFormat::Bgra,
        color_space: dcv_color_primitives::ColorSpace::Rgb,
        num_planes: 1,
    };
    dcv_color_primitives::get_buffers_size(width, height, &bgra, None, sizes)?;
    Ok(sizes[0])
}

/// Relies on `dcv_color_primitives::convert_image`: converts a two-plane
/// NV12 image into one packed BGRA plane of the given size. Zero-sized
/// dimensions are trivially accepted; otherwise the conversion succeeds
/// exactly when the luma plane holds a byte per pixel, the chroma plane a
/// byte per two-pixel sample pair, and the destination four bytes per
/// pixel. Its internal bounds checks guard their own arithmetic, so no
/// admitted input panics.
#[verifier::external_body]
fn nv12_to_bgra(width: u32, height: u32, y: &Vec<u8>, uv: &Vec<u8>, dst_len: usize) -> (r: Result<
    Vec<u8>,
    dcv_color_primitives::ErrorKind,
>)
    requires
        4 * width <= usize::MAX,
    ensures
        r matches Ok(v) ==> v@.len() == dst_len,
        r is Ok <==> (width == 0 || height == 0 || (y@.len() >= width * height && uv@.len() >= (2 *
        ((width + 1) / 2)) * ((height + 1) / 2) && dst_len >= 4 * width * height)),
{
    let mut dst: Vec<u8> = vec![0u8; dst_len];
    let nv12 = dcv_color_primitives::ImageFormat {
        pixel_format: dcv_color_primitives::PixelFormat::Nv12,
        color_space: dcv_color_primitives::ColorSpace::Bt709,
        num_planes: 2,
    };
    let bgra = dcv_color_primitives::ImageFormat {
        pixel_format: dcv_color_primitives::PixelFormat::Bgra,
        color_space: dcv_color_primitives::ColorSpace::Rgb,
        num_planes: 1,
    };
    let src: &[&[u8]] = &[&y[..], &uv[..]];
    dcv_color_primitives::convert_image(width, height, &nv12, None, src, &bgra, None, &mut [&mut dst[..]])?;
    Ok(dst)
}

/// A luma/chroma pair: exactly two mipmaps, both in the dual-channel
/// block-compressed format.
pub open spec fn spec_sub_is_yuv(sv: Seq<MipView>) -> bool {
    sv.len() == 2 && (forall|i: int|
        0 <= i < sv.len() ==> #[trigger] sv[i].format == TextureFormat::ATI2)
}

/// A two-plane chroma-subsampled texture: one subtexture that is a
/// luma/chroma pair.
pub open spec fn spec_tex_is_yuv(t: Seq<Seq<MipView>>) -> bool {
    t.len() == 1 && spec_sub_is_yuv(t[0])
}

impl Subtexture {
    /// Whether this subtexture is a luma/chroma plane pair.
    pub fn is_yuv(&self) -> (r: bool)
        ensures
            r == spec_sub_is_yuv(self@),
    {
        proof {
            assert(self@.len() == self.mipmaps@.len());
        }
        if self.mipmaps.len() != 2 {
            return false;
        }
        proof {
            assert(self@[0] == self.mipmaps@[0]@);
            assert(self@[1] == self.mipmaps@[1]@);
        }
        let ok0 = self.mipmaps[0].format == TextureFormat::ATI2;
        let ok1 = self.mipmaps[1].format == TextureFormat::ATI2;
        if ok0 && ok1 {
            proof {
                assert forall|i: int| 0 <= i < self@.len() implies #[trigger] self@[i].format
                    == TextureFormat::ATI2 by {
                    if i != 0 {
                        assert(i == 1);
                    }
                }
            }
            true
        } else {
            proof {
                if spec_sub_is_yuv(self@) {
                    assert(self@[0].format == TextureFormat::ATI2);
                    assert(self@[1].format == TextureFormat::ATI2);
                }
            }
            false
        }
    }

    /// Converts the luma/chroma pair to one packed BGRA plane: one
    /// interleaved 4-byte pixel per luma-plane pixel, dimensions taken from
    /// the first mipmap. The chroma plane is doubled before conversion, as
    /// the producing tool stores only half of it, so the conversion
    /// succeeds exactly when the luma payload covers the pixels and the
    /// doubled chroma payload covers the subsampled pairs; a failure is the
    /// conversion library's error, returned unchanged, never a panic.
    pub fn yuv_to_bgra(&self) -> (r: Result<Vec<u8>, dcv_color_primitives::ErrorKind>)
        requires
            self@.len() >= 2,
            self@[1].data.len() * 2 <= usize::MAX,
            4 * self@[0].width <= usize::MAX,
            4 * self@[0].width * self@[0].height <= usize::MAX,
        ensures
            r matches Ok(v) ==> v@.len() == 4 * self@[0].width * self@[0].height,
            r is Ok <==> (self@[0].width == 0 || self@[0].height == 0 || (self@[0].data.len()
                >= self@[0].width * self@[0].height && 2 * self@[1].data.len() >= (2 * ((self@[0].width
                + 1) / 2)) * ((self@[0].height + 1) / 2))),
    {
        proof {
            assert(self@[0] == self.mipmaps@[0]@);
            assert(self@[1] == self.mipmaps@[1]@);
        }
        let ay = &self.mipmaps[0];
        let uv = &self.mipmaps[1];
        let ulen: usize = uv.data.len();
        let mut uv2: Vec<u8> = Vec::new();
        let mut i: usize = 0;
        while i < ulen
            invariant
                i <= ulen,
                ulen == uv.data@.len(),
                uv2@ == uv.data@.subrange(0, i as int),
            decreases ulen - i,
        {
            uv2.push(uv.data[i]);
            i = i + 1;
            proof {
                assert(uv.data@.subrange(0, i as int) =~= uv.data@.subrange(0, i - 1).push(
                    uv.data@[i - 1],
                ));
            }
        }
        proof {
            assert(uv.data@.subrange(0, ulen as int) =~= uv.data@);
        }
        let mut j: usize = 0;
        while j < ulen
            invariant
                j <= ulen,
                ulen == uv.data@.len(),
                uv.data@.len() * 2 <= usize::MAX,
                uv2@ == uv.data@ + uv.data@.subrange(0, j as int),
            decreases ulen - j,
        {
            uv2.push(uv.data[j]);
            j = j + 1;
            proof {
                assert(uv.data@ + uv.data@.subrange(0, j as int) =~= (uv.data@
                    + uv.data@.subrange(0, j - 1)).push(uv.data@[j - 1]));
            }
        }
        let dst_len = match bgra_size(ay.width, ay.height) {
            Ok(n) => n,
            Err(e) => return Err(e),
        };
        nv12_to_bgra(ay.width, ay.height, &ay.data, &uv2, dst_len)
    }
}

impl Texture {
    /// Whether this texture is a two-plane chroma-subsampled image: one
    /// subtexture that is a luma/chroma pair.
    pub fn is_yuv(&self) -> (r: bool)
        ensures
            r == spec_tex_is_yuv(self@),
    {
        proof {
            assert(self@.len() == self.subtextures@.len());
        }
        if self.subtextures.len() != 1 {
            return false;
        }
        proof {
            assert(self@[0] == self.subtextures@[0]@);
        }
        self.subtextures[0].is_yuv()
    }
}

} // verus!
