use txp::{Mipmap, Subtexture, Texture, TextureFormat};

fn mip(width: u32, height: u32, format: TextureFormat, data: Vec<u8>) -> Mipmap {
    Mipmap { id: 0, width, height, format, data }
}

fn solid_texture(layers: usize) -> Texture {
    let mut subtextures: Vec<Subtexture> = Vec::new();
    for _ in 0..layers {
        let m = mip(2, 2, TextureFormat::RGBA8, vec![7; 16]);
        subtextures.push(Subtexture { mipmaps: vec![m] });
    }
    Texture { subtextures }
}

#[test]
fn default_mipmap_is_empty_rgb8() {
    let m = Mipmap::default();
    assert_eq!(m.id, 0);
    assert_eq!(m.width, 0);
    assert_eq!(m.height, 0);
    assert_eq!(m.format, TextureFormat::RGB8);
    assert!(m.data.is_empty());
    assert_eq!(TextureFormat::default(), TextureFormat::RGB8);
}

#[test]
fn cubemap_needs_exactly_six_layers() {
    assert!(solid_texture(6).is_cubemap());
    assert!(!solid_texture(5).is_cubemap());
    assert!(!solid_texture(7).is_cubemap());
    assert!(!solid_texture(1).is_cubemap());
}

#[test]
fn flat_data_concatenates_in_order() {
    let a = mip(2, 2, TextureFormat::RGB8, vec![1, 2, 3]);
    let b = mip(1, 1, TextureFormat::RGB8, vec![4]);
    let c = mip(2, 2, TextureFormat::RGB8, vec![5, 6]);
    let tex = Texture {
        subtextures: vec![
            Subtexture { mipmaps: vec![a, b] },
            Subtexture { mipmaps: vec![c] },
        ],
    };
    assert_eq!(tex.flat_data(), vec![1, 2, 3, 4, 5, 6]);
}

#[test]
fn to_dds_carries_the_payload() {
    let m = mip(4, 4, TextureFormat::RGBA8, vec![9; 64]);
    let tex = Texture { subtextures: vec![Subtexture { mipmaps: vec![m] }] };
    let dds = tex.to_dds().unwrap();
    assert_eq!(dds.data, vec![9; 64]);
    assert_eq!(dds.get_width(), 4);
    assert_eq!(dds.get_height(), 4);
}

#[test]
fn to_dds_dxgi_fallback_for_modern_format() {
    // BC7 has no legacy D3D mapping, so the DX10 header path must serve it
    assert!(TextureFormat::BC7.to_d3d_format().is_none());
    let m = mip(4, 4, TextureFormat::BC7, vec![0; 16]);
    let tex = Texture { subtextures: vec![Subtexture { mipmaps: vec![m] }] };
    let dds = tex.to_dds().unwrap();
    assert!(dds.header10.is_some());
    assert_eq!(dds.data, vec![0; 16]);
}

#[test]
fn d3d_format_mapping_is_gated() {
    assert!(TextureFormat::RGB8.to_d3d_format().is_some());
    assert!(TextureFormat::DXT5.to_d3d_format().is_some());
    assert!(TextureFormat::ATI1.to_d3d_format().is_none());
    assert!(TextureFormat::ATI2.to_d3d_format().is_none());
    assert!(TextureFormat::BC6H.to_d3d_format().is_none());
}

#[test]
fn representable_formats() {
    for f in [
        TextureFormat::RGB8,
        TextureFormat::RGBA8,
        TextureFormat::L8,
        TextureFormat::L8A8,
        TextureFormat::DXT1,
        TextureFormat::DXT1a,
        TextureFormat::DXT3,
        TextureFormat::DXT5,
    ] {
        assert!(f.representable());
    }
    for f in [
        TextureFormat::A8,
        TextureFormat::RGB5,
        TextureFormat::RGB5A1,
        TextureFormat::RGBA4,
        TextureFormat::ATI1,
        TextureFormat::ATI2,
        TextureFormat::BC7,
        TextureFormat::BC6H,
    ] {
        assert!(!f.representable());
    }
}

#[test]
fn yuv_pair_is_recognized() {
    let ay = mip(4, 4, TextureFormat::ATI2, vec![128; 16]);
    let uv = mip(2, 2, TextureFormat::ATI2, vec![128; 4]);
    let sub = Subtexture { mipmaps: vec![ay, uv] };
    assert!(sub.is_yuv());
    let tex = Texture { subtextures: vec![sub] };
    assert!(tex.is_yuv());
}

#[test]
fn yuv_rejects_other_shapes() {
    let one = Subtexture { mipmaps: vec![mip(4, 4, TextureFormat::ATI2, vec![0; 16])] };
    assert!(!one.is_yuv());
    let wrong_format = Subtexture {
        mipmaps: vec![
            mip(4, 4, TextureFormat::RGB8, vec![0; 48]),
            mip(2, 2, TextureFormat::RGB8, vec![0; 12]),
        ],
    };
    assert!(!wrong_format.is_yuv());
    let three = Subtexture {
        mipmaps: vec![
            mip(4, 4, TextureFormat::ATI2, vec![0; 16]),
            mip(2, 2, TextureFormat::ATI2, vec![0; 4]),
            mip(1, 1, TextureFormat::ATI2, vec![0; 1]),
        ],
    };
    assert!(!three.is_yuv());
    let tex = Texture {
        subtextures: vec![
            Subtexture { mipmaps: vec![mip(4, 4, TextureFormat::ATI2, vec![0; 16])] },
            Subtexture { mipmaps: vec![mip(4, 4, TextureFormat::ATI2, vec![0; 16])] },
        ],
    };
    assert!(!tex.is_yuv());
}

#[test]
fn cubemap_flags_follow_six_layers() {
    let dds = solid_texture(6).to_dds().unwrap();
    assert!(dds.header.caps2.contains(ddsfile::Caps2::CUBEMAP));
    let dds = solid_texture(5).to_dds().unwrap();
    assert!(!dds.header.caps2.contains(ddsfile::Caps2::CUBEMAP));
    let dds = solid_texture(7).to_dds().unwrap();
    assert!(!dds.header.caps2.contains(ddsfile::Caps2::CUBEMAP));
}

#[test]
fn to_dds_rejects_oversized_dimensions() {
    // a hostile header can claim huge dimensions; the container's u32 size
    // arithmetic cannot hold them, so the export must refuse, not panic
    let m = mip(65535, 65535, TextureFormat::RGBA8, vec![]);
    let tex = Texture { subtextures: vec![Subtexture { mipmaps: vec![m] }] };
    assert!(tex.to_dds().is_err());
}

#[test]
fn yuv_conversion_rejects_short_planes() {
    // 4x4 luma plane needs 16 bytes; hand it 8
    let ay = mip(4, 4, TextureFormat::ATI2, vec![128; 8]);
    let uv = mip(2, 2, TextureFormat::ATI2, vec![128; 4]);
    let sub = Subtexture { mipmaps: vec![ay, uv] };
    assert!(sub.yuv_to_bgra().is_err());
}

#[test]
fn yuv_conversion_yields_full_bgra_plane() {
    let w: u32 = 4;
    let h: u32 = 4;
    let ay = mip(w, h, TextureFormat::ATI2, vec![128; (w * h) as usize]);
    let uv = mip(w / 2, h / 2, TextureFormat::ATI2, vec![128; (w * h / 4) as usize]);
    let sub = Subtexture { mipmaps: vec![ay, uv] };
    let bgra = sub.yuv_to_bgra().unwrap();
    assert_eq!(bgra.len(), (w * h * 4) as usize);
}
