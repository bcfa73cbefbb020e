//! GPU-container (DDS) export of a decoded texture. The header is derived
//! from the first mipmap of the first subtexture; a texture with exactly
//! six subtextures is flagged cubemap-capable; the data segment is every
//! mipmap payload concatenated in subtexture-then-mip order.
//!
//! The container itself is built by the `ddsfile` crate behind trusted
//! wrappers; the decisions feeding it, and the data segment, are verified.
use vstd::prelude::*;

use crate::{mips_view, MipView, Mipmap, Texture, TextureFormat};

verus! {

#[verifier::external_type_specification]
#[verifier::external_body]
pub struct ExDds(ddsfile::Dds);

#[verifier::external_type_specification]
#[verifier::external_body]
pub struct ExDdsError(ddsfile::Error);

#[verifier::external_type_specification]
#[verifier::external_body]
pub struct ExD3DFormat(ddsfile::D3DFormat);

#[verifier::external_type_specification]
#[verifier::external_body]
pub struct ExDxgiFormat(ddsfile::DxgiFormat);

#[verifier::external_type_specification]
#[verifier::external_body]
pub struct ExCaps2(ddsfile::Caps2);

/// Formats that have a legacy D3D container mapping. The remaining ones
/// (the single/dual-channel and high-bit-depth block formats) only exist in
/// the DXGI system.
pub open spec fn spec_d3d_mappable(f: TextureFormat) -> bool {
    f == TextureFormat::A8 || f == TextureFormat::RGB8 || f == TextureFormat::RGBA8 || f
        == TextureFormat::RGB5 || f == TextureFormat::RGB5A1 || f == TextureFormat::RGBA4 || f
        == TextureFormat::DXT1 || f == TextureFormat::DXT1a || f == TextureFormat::DXT3 || f
        == TextureFormat::DXT5 || f == TextureFormat::L8 || f == TextureFormat::L8A8
}

impl TextureFormat {
    /// Relies on `ddsfile::D3DFormat`: a one-for-one mapping of each pixel
    /// format to its legacy D3D counterpart, `None` where no counterpart
    /// exists.
    #[verifier::external_body]
    pub fn to_d3d_format(&self) -> (r: Option<ddsfile::D3DFormat>)
        ensures
            r is Some <==> spec_d3d_mappable(*self),
    {
        match self {
            TextureFormat::A8 => Some(ddsfile::D3DFormat::A8),
            TextureFormat::RGB8 => Some(ddsfile::D3DFormat::R8G8B8),
            TextureFormat::RGBA8 => Some(ddsfile::D3DFormat::A8R8G8B8),
            TextureFormat::RGB5 => Some(ddsfile::D3DFormat::R5G6B5),
            TextureFormat::RGB5A1 => Some(ddsfile::D3DFormat::A1R5G5B5),
            TextureFormat::RGBA4 => Some(ddsfile::D3DFormat::A4R4G4B4),
            TextureFormat::DXT1 | TextureFormat::DXT1a => Some(ddsfile::D3DFormat::DXT1),
            TextureFormat::DXT3 => Some(ddsfile::D3DFormat::DXT3),
            TextureFormat::DXT5 => Some(ddsfile::D3DFormat::DXT5),
            TextureFormat::L8 => Some(ddsfile::D3DFormat::L8),
            TextureFormat::L8A8 => Some(ddsfile::D3DFormat::A8L8),
            _ => None,
        }
    }

    /// Relies on `ddsfile::DxgiFormat`: a one-for-one mapping of each pixel
    /// format to a DXGI format; every pixel format has one.
    #[verifier::external_body]
    pub fn to_dxgi_format(&self) -> ddsfile::DxgiFormat {
        match self {
            TextureFormat::A8 | TextureFormat::L8 => ddsfile::DxgiFormat::A8_UNorm,
            TextureFormat::RGB8 | TextureFormat::RGBA8 => ddsfile::DxgiFormat::R8G8B8A8_UNorm,
            TextureFormat::RGB5 => ddsfile::DxgiFormat::B5G6R5_UNorm,
            TextureFormat::RGB5A1 => ddsfile::DxgiFormat::B5G5R5A1_UNorm,
            TextureFormat::RGBA4 => ddsfile::DxgiFormat::B4G4R4A4_UNorm,
            TextureFormat::DXT1 | TextureFormat::DXT1a => ddsfile::DxgiFormat::BC1_UNorm,
            TextureFormat::DXT3 => ddsfile::DxgiFormat::BC2_UNorm,
            TextureFormat::DXT5 => ddsfile::DxgiFormat::BC3_UNorm,
            TextureFormat::ATI1 => ddsfile::DxgiFormat::BC4_UNorm,
            TextureFormat::ATI2 => ddsfile::DxgiFormat::BC5_UNorm,
            TextureFormat::L8A8 => ddsfile::DxgiFormat::A8P8,
            TextureFormat::BC7 => ddsfile::DxgiFormat::BC7_UNorm,
            TextureFormat::BC6H => ddsfile::DxgiFormat::BC6H_Typeless,
        }
    }
}

/// Relies on `ddsfile::Error::UnsupportedFormat`: the variant reported when
/// a pixel format has no container mapping.
#[verifier::external_body]
fn unsupported_format_error() -> ddsfile::Error {
    ddsfile::Error::UnsupportedFormat
}

/// The width recorded in a container's header.
pub uninterp spec fn dds_width(d: ddsfile::Dds) -> u32;

/// The height recorded in a container's header.
pub uninterp spec fn dds_height(d: ddsfile::Dds) -> u32;

/// The mip level count recorded in a container's header.
pub uninterp spec fn dds_mip_count(d: ddsfile::Dds) -> Option<u32>;

/// Whether a container carries the cube-face capability flags.
pub uninterp spec fn dds_cubemap_caps(d: ddsfile::Dds) -> bool;

/// The bytes of a container's flat data segment.
pub uninterp spec fn dds_data(d: ddsfile::Dds) -> Seq<u8>;

/// Bounds under which `ddsfile`'s size arithmetic stays within `u32`: its
/// pitch is at most 16 bytes per pixel (`width * bits_per_pixel` needs
/// `width <= 0xFFFF` to be computed at all), every mip level at least
/// halves the pixel count, and each of at most 64 levels adds at most 16
/// bytes once the dimensions bottom out — so the per-layer stride stays
/// below `32 * (width + 1) * (height + 1) + 1024`.
pub open spec fn spec_stride_bounded(width: u32, height: u32, levels: Option<u32>) -> bool {
    &&& width <= 0xFFFF
    &&& (match levels {
        Some(m) => m <= 64,
        None => true,
    })
    &&& 32 * (width + 1) * (height + 1) + 1024 <= u32::MAX
}

/// Relies on `ddsfile::Dds::new_d3d`: builds a legacy-header container for
/// a 2D texture. It succeeds exactly when the pixel format has a D3D
/// mapping (every mapped format has pitch data); under `spec_stride_bounded`
/// its stride computation cannot overflow. The header stores the
/// dimensions and mip count verbatim, and the cube-face capability flags
/// exactly when they are requested.
#[verifier::external_body]
fn dds_new_d3d(
    height: u32,
    width: u32,
    format: TextureFormat,
    mipmap_levels: Option<u32>,
    cubemap: bool,
) -> (r: Result<ddsfile::Dds, ddsfile::Error>)
    requires
        spec_stride_bounded(width, height, mipmap_levels),
    ensures
        r is Ok <==> spec_d3d_mappable(format),
        r matches Ok(d) ==> dds_width(d) == width && dds_height(d) == height && dds_mip_count(d)
            == mipmap_levels && (dds_cubemap_caps(d) <==> cubemap),
{
    let f = match format.to_d3d_format() {
        Some(f) => f,
        None => return Err(ddsfile::Error::UnsupportedFormat),
    };
    let caps2 = if cubemap { Some(ddsfile::Caps2::all().difference(ddsfile::Caps2::VOLUME)) } else { None };
    ddsfile::Dds::new_d3d(ddsfile::NewD3dParams { height, width, depth: None, format: f, mipmap_levels, caps2 })
}

/// Relies on `ddsfile::Dds::new_dxgi`: builds a DX10-header container for a
/// 2D texture; `premultiplied` selects the alpha mode. Every pixel format
/// maps to a DXGI format with pitch data, so under the stride bound (and
/// its product with the layer count staying within `u32`) the call always
/// succeeds. Dimensions, mip count and the cube-face flags are stored as
/// for the legacy header.
#[verifier::external_body]
fn dds_new_dxgi(
    height: u32,
    width: u32,
    format: TextureFormat,
    mipmap_levels: Option<u32>,
    array_layers: Option<u32>,
    cubemap: bool,
    premultiplied: bool,
) -> (r: Result<ddsfile::Dds, ddsfile::Error>)
    requires
        spec_stride_bounded(width, height, mipmap_levels),
        (match array_layers {
            Some(a) => a * (32 * (width + 1) * (height + 1) + 1024) <= u32::MAX,
            None => true,
        }),
    ensures
        r is Ok,
        r matches Ok(d) ==> dds_width(d) == width && dds_height(d) == height && dds_mip_count(d)
            == mipmap_levels && (dds_cubemap_caps(d) <==> cubemap),
{
    let f = format.to_dxgi_format();
    let caps2 = if cubemap { Some(ddsfile::Caps2::all().difference(ddsfile::Caps2::VOLUME)) } else { None };
    let alpha = if premultiplied { ddsfile::AlphaMode::PreMultiplied } else { ddsfile::AlphaMode::Straight };
    ddsfile::Dds::new_dxgi(ddsfile::NewDxgiParams {
        height, width, depth: None, format: f, mipmap_levels, array_layers, caps2,
        is_cubemap: cubemap, resource_dimension: ddsfile::D3D10ResourceDimension::Texture2D,
        alpha_mode: alpha,
    })
}

/// Relies on plain field assignment on `ddsfile::Dds`: replaces the
/// container's flat data segment and touches nothing else.
#[verifier::external_body]
fn dds_set_data(dds: &mut ddsfile::Dds, bytes: Vec<u8>)
    ensures
        dds_data(*final(dds)) == bytes@,
        dds_width(*final(dds)) == dds_width(*old(dds)),
        dds_height(*final(dds)) == dds_height(*old(dds)),
        dds_mip_count(*final(dds)) == dds_mip_count(*old(dds)),
        dds_cubemap_caps(*final(dds)) == dds_cubemap_caps(*old(dds)),
{
    dds.data = bytes;
}

/// The header fields the container is built from: width, height and format
/// of the first mipmap of the first subtexture, or the default mipmap's
/// values when the texture is empty.
pub open spec fn spec_header_fields(t: Seq<Seq<MipView>>) -> (u32, u32, TextureFormat) {
    if t.len() > 0 && t[0].len() > 0 {
        (t[0][0].width, t[0][0].height, t[0][0].format)
    } else {
        (0u32, 0u32, TextureFormat::RGB8)
    }
}

/// Mip level count reported in the legacy header: the first subtexture's
/// chain length when it exists and fits, otherwise absent.
pub open spec fn spec_mip_levels(t: Seq<Seq<MipView>>) -> Option<u32> {
    if t.len() == 0 {
        None
    } else if t[0].len() > u32::MAX {
        None
    } else {
        Some(t[0].len() as u32)
    }
}

/// Array layer count reported in the DX10 header: the subtexture count when
/// it is more than one and fits, otherwise absent.
pub open spec fn spec_array_layers(t: Seq<Seq<MipView>>) -> Option<u32> {
    if t.len() > u32::MAX {
        None
    } else if t.len() > 1 {
        Some(t.len() as u32)
    } else {
        None
    }
}

/// The container's flat data segment for the mip chain suffix `ms[i..]`.
pub open spec fn spec_flat_mips(ms: Seq<MipView>, i: int) -> Seq<u8>
    decreases ms.len() - i,
{
    if i < 0 || i >= ms.len() {
        Seq::empty()
    } else {
        ms[i].data + spec_flat_mips(ms, i + 1)
    }
}

/// The container's flat data segment for the subtexture suffix `t[i..]`:
/// payloads concatenated in subtexture-then-mip order.
pub open spec fn spec_flat_subs(t: Seq<Seq<MipView>>, i: int) -> Seq<u8>
    decreases t.len() - i,
{
    if i < 0 || i >= t.len() {
        Seq::empty()
    } else {
        spec_flat_mips(t[i], 0) + spec_flat_subs(t, i + 1)
    }
}

/// Appends one mip chain's payloads to `acc`, in order.
fn append_mips(acc: &mut Vec<u8>, ms: &Vec<Mipmap>)
    ensures
        final(acc)@ == old(acc)@ + spec_flat_mips(mips_view(ms@), 0),
{
    let mut j: usize = 0;
    while j < ms.len()
        invariant
            j <= ms@.len(),
            acc@ + spec_flat_mips(mips_view(ms@), j as int) == old(acc)@ + spec_flat_mips(
                mips_view(ms@),
                0,
            ),
        decreases ms@.len() - j,
    {
        let ghost before = acc@;
        let ghost mv = mips_view(ms@);
        let data = &ms[j].data;
        proof {
            assert(mv[j as int] == ms@[j as int]@);
        }
        let mut b: usize = 0;
        while b < data.len()
            invariant
                b <= data@.len(),
                acc@ == before + data@.subrange(0, b as int),
            decreases data@.len() - b,
        {
            acc.push(data[b]);
            b = b + 1;
            proof {
                assert(before + data@.subrange(0, b as int) =~= (before + data@.subrange(
                    0,
                    b - 1,
                )).push(data@[b - 1]));
            }
        }
        proof {
            assert(data@.subrange(0, data@.len() as int) =~= data@);
            assert(acc@ == before + mv[j as int].data);
            assert((before + mv[j as int].data) + spec_flat_mips(mv, j + 1) =~= before + (mv[
                j as int
            ].data + spec_flat_mips(mv, j + 1)));
        }
        j = j + 1;
    }
    proof {
        assert(acc@ + Seq::<u8>::empty() =~= acc@);
    }
}

impl Texture {
    /// Cubemap eligibility: by convention a texture with exactly six
    /// subtextures is exported with cube-face capability flags set; any
    /// other subtexture count is not.
    pub fn is_cubemap(&self) -> (r: bool)
        ensures
            r == (self@.len() == 6),
    {
        proof {
            assert(self@.len() == self.subtextures@.len());
        }
        self.subtextures.len() == 6
    }

    /// The container's flat data segment: every mipmap payload of every
    /// subtexture, concatenated in subtexture-then-mip order.
    pub fn flat_data(&self) -> (r: Vec<u8>)
        ensures
            r@ == spec_flat_subs(self@, 0),
    {
        let mut acc: Vec<u8> = Vec::new();
        let mut i: usize = 0;
        proof {
            assert(acc@ + spec_flat_subs(self@, 0) =~= spec_flat_subs(self@, 0));
        }
        while i < self.subtextures.len()
            invariant
                i <= self.subtextures@.len(),
                self@.len() == self.subtextures@.len(),
                acc@ + spec_flat_subs(self@, i as int) == spec_flat_subs(self@, 0),
            decreases self.subtextures@.len() - i,
        {
            let ghost before = acc@;
            proof {
                assert(self@[i as int] == self.subtextures@[i as int]@);
            }
            append_mips(&mut acc, &self.subtextures[i].mipmaps);
            proof {
                assert((before + spec_flat_mips(self@[i as int], 0)) + spec_flat_subs(
                    self@,
                    i + 1,
                ) =~= before + (spec_flat_mips(self@[i as int], 0) + spec_flat_subs(self@, i + 1)));
            }
            i = i + 1;
        }
        proof {
            assert(acc@ + Seq::<u8>::empty() =~= acc@);
        }
        acc
    }

    fn header_fields(&self) -> (r: (u32, u32, TextureFormat))
        ensures
            r == spec_header_fields(self@),
    {
        proof {
            assert(self@.len() == self.subtextures@.len());
        }
        if self.subtextures.len() > 0 {
            proof {
                assert(self@[0] == self.subtextures@[0]@);
            }
            let s0 = &self.subtextures[0];
            proof {
                assert(s0@.len() == s0.mipmaps@.len());
            }
            if s0.mipmaps.len() > 0 {
                proof {
                    assert(s0@[0] == s0.mipmaps@[0]@);
                }
                let m = &s0.mipmaps[0];
                (m.width, m.height, m.format)
            } else {
                (0u32, 0u32, TextureFormat::RGB8)
            }
        } else {
            (0u32, 0u32, TextureFormat::RGB8)
        }
    }

    fn mip_levels(&self) -> (r: Option<u32>)
        ensures
            r == spec_mip_levels(self@),
    {
        proof {
            assert(self@.len() == self.subtextures@.len());
        }
        if self.subtextures.len() == 0 {
            return None;
        }
        proof {
            assert(self@[0] == self.subtextures@[0]@);
            assert(self@[0].len() == self.subtextures@[0]@.len());
        }
        let l = self.subtextures[0].mipmaps.len();
        proof {
            assert(self.subtextures@[0]@.len() == self.subtextures@[0].mipmaps@.len());
        }
        if l > u32::MAX as usize {
            None
        } else {
            Some(l as u32)
        }
    }

    fn array_layers(&self) -> (r: Option<u32>)
        ensures
            r == spec_array_layers(self@),
    {
        proof {
            assert(self@.len() == self.subtextures@.len());
        }
        let l = self.subtextures.len();
        if l > u32::MAX as usize {
            None
        } else if l > 1 {
            Some(l as u32)
        } else {
            None
        }
    }

    /// Legacy-header attempt: fails exactly when the pixel format has no
    /// D3D mapping or the dimensions exceed the container's arithmetic
    /// range; on success the header carries the first mipmap's dimensions,
    /// the mip count, and the cube-face flags exactly for six subtextures.
    fn d3d(&self) -> (r: Result<ddsfile::Dds, ddsfile::Error>)
        ensures
            r is Ok <==> (spec_d3d_mappable(spec_header_fields(self@).2) && spec_export_dims_ok(
                self@,
            )),
            r matches Ok(d) ==> dds_width(d) == spec_header_fields(self@).0 && dds_height(d)
                == spec_header_fields(self@).1 && dds_mip_count(d) == spec_mip_levels(self@) && (
            dds_cubemap_caps(d) <==> self@.len() == 6),
    {
        let (w, h, fmt) = self.header_fields();
        let mipmap_levels = self.mip_levels();
        if !stride_bounded(w, h, &mipmap_levels) {
            return Err(unsupported_format_error());
        }
        dds_new_d3d(h, w, fmt, mipmap_levels, self.is_cubemap())
    }

    /// DX10-header attempt: every pixel format has a DXGI mapping, so it
    /// fails exactly when the dimensions exceed the container's arithmetic
    /// range; the header claims are as for the legacy path.
    fn dxgi(&self) -> (r: Result<ddsfile::Dds, ddsfile::Error>)
        ensures
            r is Ok <==> spec_export_dims_ok_dxgi(self@),
            r matches Ok(d) ==> dds_width(d) == spec_header_fields(self@).0 && dds_height(d)
                == spec_header_fields(self@).1 && dds_mip_count(d) == spec_mip_levels(self@) && (
            dds_cubemap_caps(d) <==> self@.len() == 6),
    {
        let (w, h, fmt) = self.header_fields();
        let premultiplied = fmt == TextureFormat::DXT1 || fmt == TextureFormat::DXT1a;
        let mipmap_levels = self.mip_levels();
        let array_layers = self.array_layers();
        if !stride_bounded(w, h, &mipmap_levels) {
            return Err(unsupported_format_error());
        }
        match array_layers {
            Some(a) => {
                let w1: u64 = (w as u64) + 1;
                let h1: u64 = (h as u64) + 1;
                proof {
                    assert(32 * (w1 as int) * (h1 as int) + 1024 <= u64::MAX) by (nonlinear_arith)
                        requires
                            w1 <= 0x1_0000,
                            h1 <= 0x1_0000_0000,
                    ;
                }
                let bound: u64 = 32u64 * w1 * h1 + 1024;
                if (a as u64) > (u32::MAX as u64) / bound {
                    proof {
                        assert((a as int) * (bound as int) > u32::MAX) by (nonlinear_arith)
                            requires
                                (a as int) > (u32::MAX as int) / (bound as int),
                                bound >= 1,
                        ;
                    }
                    return Err(unsupported_format_error());
                }
                proof {
                    assert((a as int) * (bound as int) <= u32::MAX) by (nonlinear_arith)
                        requires
                            (a as int) <= (u32::MAX as int) / (bound as int),
                            bound >= 1,
                    ;
                }
            },
            None => {},
        }
        dds_new_dxgi(h, w, fmt, mipmap_levels, array_layers, self.is_cubemap(), premultiplied)
    }

    /// Serializes this texture as a GPU container: the legacy header is
    /// attempted first, the DX10 header on any failure of it. On success
    /// the container records the first mipmap's dimensions and the mip
    /// count, carries the cube-face capability flags exactly when the
    /// texture has six subtextures, and its data segment is every payload
    /// concatenated in subtexture-then-mip order.
    pub fn to_dds(&self) -> (r: Result<ddsfile::Dds, ddsfile::Error>)
        ensures
            r is Ok <==> ((spec_d3d_mappable(spec_header_fields(self@).2) && spec_export_dims_ok(
                self@,
            )) || spec_export_dims_ok_dxgi(self@)),
            r matches Ok(d) ==> dds_data(d) == spec_flat_subs(self@, 0),
            r matches Ok(d) ==> (dds_cubemap_caps(d) <==> self@.len() == 6),
            r matches Ok(d) ==> dds_width(d) == spec_header_fields(self@).0 && dds_height(d)
                == spec_header_fields(self@).1 && dds_mip_count(d) == spec_mip_levels(self@),
    {
        let first = self.d3d();
        let built = match first {
            Ok(d) => Ok(d),
            Err(_) => self.dxgi(),
        };
        match built {
            Ok(mut d) => {
                let bytes = self.flat_data();
                dds_set_data(&mut d, bytes);
                Ok(d)
            },
            Err(e) => Err(e),
        }
    }
}

/// The export gate for one layer: the header dimensions and mip count stay
/// inside the container's `u32` size arithmetic.
pub open spec fn spec_export_dims_ok(t: Seq<Seq<MipView>>) -> bool {
    spec_stride_bounded(spec_header_fields(t).0, spec_header_fields(t).1, spec_mip_levels(t))
}

/// The export gate for the DX10 path: as `spec_export_dims_ok`, and the
/// stride bound times the layer count also stays inside `u32`.
pub open spec fn spec_export_dims_ok_dxgi(t: Seq<Seq<MipView>>) -> bool {
    &&& spec_export_dims_ok(t)
    &&& (match spec_array_layers(t) {
        Some(a) => a * (32 * (spec_header_fields(t).0 + 1) * (spec_header_fields(t).1 + 1) + 1024)
            <= u32::MAX,
        None => true,
    })
}

/// Runtime form of `spec_stride_bounded`.
fn stride_bounded(width: u32, height: u32, levels: &Option<u32>) -> (r: bool)
    ensures
        r == spec_stride_bounded(width, height, *levels),
{
    if width > 0xFFFF {
        return false;
    }
    match levels {
        Some(m) => if *m > 64 {
            return false;
        },
        None => {},
    }
    let w1: u64 = (width as u64) + 1;
    let h1: u64 = (height as u64) + 1;
    proof {
        assert(32 * (w1 as int) * (h1 as int) + 1024 <= u64::MAX) by (nonlinear_arith)
            requires
                w1 <= 0x1_0000,
                h1 <= 0x1_0000_0000,
        ;
    }
    let prod: u64 = 32u64 * w1 * h1 + 1024;
    prod <= 0xFFFF_FFFFu64
}

} // verus!
