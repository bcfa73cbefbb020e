use txp::read::ParseError;
use txp::{Mipmap, Texture, TextureAtlas, TextureFormat};

/// Appends a 32-bit value little-endian.
fn push_u32(buf: &mut Vec<u8>, v: u32) {
    buf.push((v & 0xFF) as u8);
    buf.push(((v >> 8) & 0xFF) as u8);
    buf.push(((v >> 16) & 0xFF) as u8);
    buf.push(((v >> 24) & 0xFF) as u8);
}

/// One little-endian mipmap record.
fn mip_record(width: u32, height: u32, format_id: u32, id: u32, payload: &[u8]) -> Vec<u8> {
    let mut buf: Vec<u8> = vec![0x54, 0x58, 0x50, 0x02];
    push_u32(&mut buf, width);
    push_u32(&mut buf, height);
    push_u32(&mut buf, format_id);
    push_u32(&mut buf, id);
    push_u32(&mut buf, payload.len() as u32);
    buf.extend_from_slice(payload);
    buf
}

/// A sample atlas: one texture at byte 84 holding one subtexture whose
/// single mipmap sits at byte 100, id 0, 256x8, format RGB8.
fn sample_atlas() -> Vec<u8> {
    let mut buf: Vec<u8> = vec![0x54, 0x58, 0x50, 0x03];
    push_u32(&mut buf, 1); // map count
    push_u32(&mut buf, 0); // reserved
    push_u32(&mut buf, 84); // texture offset
    while buf.len() < 84 {
        buf.push(0);
    }
    // texture record: one mipmap, table entry relative to the record start
    buf.extend_from_slice(&[0x54, 0x58, 0x50, 0x04]);
    push_u32(&mut buf, 1); // mip count
    push_u32(&mut buf, 0); // reserved
    push_u32(&mut buf, 16); // 84 + 16 == 100
    assert_eq!(buf.len(), 100);
    let payload: [u8; 8] = [1, 2, 3, 4, 5, 6, 7, 8];
    let mip = mip_record(256, 8, 1, 0, &payload);
    buf.extend_from_slice(&mip);
    buf
}

const TEX_OFF: usize = 84;
const MIP_OFF: usize = 100;

#[test]
fn read_subtexture() {
    let input = sample_atlas();
    let input = &input[MIP_OFF..];
    let mip = Mipmap::parse(input).unwrap();
    assert_eq!(mip.id, 0);
    assert_eq!(mip.width, 256);
    assert_eq!(mip.height, 8);
    assert_eq!(mip.format, TextureFormat::RGB8);
}

#[test]
fn read_texture() {
    let input = sample_atlas();
    let input = &input[TEX_OFF..];
    let tex = Texture::parse(input).unwrap();
    println!("{:?}", tex);
    assert_eq!(tex.subtextures[0].mipmaps.len(), 1);
}

#[test]
fn read_atlas() {
    let input = sample_atlas();
    let _atlas = TextureAtlas::parse(&input).unwrap();
}

#[test]
fn atlas_is_nonempty_with_expected_mip() {
    let input = sample_atlas();
    let atlas = TextureAtlas::parse(&input).unwrap();
    assert_eq!(atlas.0.len(), 1);
    assert_eq!(atlas.0[0].subtextures.len(), 1);
    let mip = &atlas.0[0].subtextures[0].mipmaps[0];
    assert_eq!(mip.width, 256);
    assert_eq!(mip.height, 8);
    assert_eq!(mip.format, TextureFormat::RGB8);
    assert_eq!(mip.data, vec![1, 2, 3, 4, 5, 6, 7, 8]);
}

#[test]
fn parse_twice_yields_equal_trees() {
    let input = sample_atlas();
    let first = TextureAtlas::parse(&input).unwrap();
    let second = TextureAtlas::parse(&input).unwrap();
    assert!(first == second);
}

#[test]
fn zero_count_table_is_empty_not_error() {
    let mut buf: Vec<u8> = vec![0x54, 0x58, 0x50, 0x04];
    push_u32(&mut buf, 0); // zero mipmaps
    push_u32(&mut buf, 0);
    let tex = Texture::parse(&buf).unwrap();
    assert_eq!(tex.subtextures.len(), 1);
    assert_eq!(tex.subtextures[0].mipmaps.len(), 0);
}

#[test]
fn zero_count_atlas_is_empty_not_error() {
    let mut buf: Vec<u8> = vec![0x54, 0x58, 0x50, 0x03];
    push_u32(&mut buf, 0);
    push_u32(&mut buf, 0);
    let atlas = TextureAtlas::parse(&buf).unwrap();
    assert_eq!(atlas.0.len(), 0);
}

#[test]
fn bad_magic_is_rejected() {
    let buf: Vec<u8> = vec![0xDE, 0xAD, 0xBE, 0xEF, 0, 0, 0, 0, 0, 0, 0, 0];
    assert_eq!(TextureAtlas::parse(&buf).unwrap_err(), ParseError::MagicMismatch);
    assert_eq!(Mipmap::parse(&buf).unwrap_err(), ParseError::MagicMismatch);
    // a texture magic is not an atlas magic
    let tex_magic: Vec<u8> = vec![0x54, 0x58, 0x50, 0x04, 0, 0, 0, 0, 0, 0, 0, 0];
    assert_eq!(TextureAtlas::parse(&tex_magic).unwrap_err(), ParseError::MagicMismatch);
}

#[test]
fn big_endian_magic_is_detected() {
    let mut buf: Vec<u8> = vec![0x02, 0x50, 0x58, 0x54];
    let fields: [u32; 5] = [256, 8, 1, 7, 3];
    for v in fields {
        buf.extend_from_slice(&[(v >> 24) as u8, (v >> 16) as u8, (v >> 8) as u8, v as u8]);
    }
    buf.extend_from_slice(&[9, 9, 9]);
    let mip = Mipmap::parse(&buf).unwrap();
    assert_eq!(mip.width, 256);
    assert_eq!(mip.height, 8);
    assert_eq!(mip.format, TextureFormat::RGB8);
    assert_eq!(mip.id, 7);
    assert_eq!(mip.data, vec![9, 9, 9]);
}

#[test]
fn format_id_gating() {
    let good: [(u32, TextureFormat); 16] = [
        (0, TextureFormat::A8),
        (1, TextureFormat::RGB8),
        (2, TextureFormat::RGBA8),
        (3, TextureFormat::RGB5),
        (4, TextureFormat::RGB5A1),
        (5, TextureFormat::RGBA4),
        (6, TextureFormat::DXT1),
        (7, TextureFormat::DXT1a),
        (8, TextureFormat::DXT3),
        (9, TextureFormat::DXT5),
        (10, TextureFormat::ATI1),
        (11, TextureFormat::ATI2),
        (12, TextureFormat::L8),
        (13, TextureFormat::L8A8),
        (15, TextureFormat::BC7),
        (127, TextureFormat::BC6H),
    ];
    for (raw, expected) in good {
        let buf = mip_record(4, 4, raw, 0, &[]);
        let mip = Mipmap::parse(&buf).unwrap();
        assert_eq!(mip.format, expected);
    }
    for raw in [14u32, 16, 126, 128, 4096] {
        let buf = mip_record(4, 4, raw, 0, &[]);
        assert_eq!(Mipmap::parse(&buf).unwrap_err(), ParseError::UnsupportedFormatId(raw));
    }
}

#[test]
fn truncated_payload_is_too_short() {
    let mut buf = mip_record(4, 4, 1, 0, &[1, 2, 3, 4]);
    buf.truncate(buf.len() - 2);
    assert_eq!(Mipmap::parse(&buf).unwrap_err(), ParseError::BufferTooShort);
}

#[test]
fn truncated_header_is_too_short() {
    let buf: Vec<u8> = vec![0x54, 0x58, 0x50, 0x02, 1, 0];
    assert_eq!(Mipmap::parse(&buf).unwrap_err(), ParseError::BufferTooShort);
}

#[test]
fn array_division_truncates() {
    // 10 mipmaps over 3 layers: 3 per layer, one silently dropped
    let total: u32 = 10;
    let depth: u32 = 3;
    let per: u32 = 3;
    let mut buf: Vec<u8> = vec![0x54, 0x58, 0x50, 0x05];
    push_u32(&mut buf, total);
    push_u32(&mut buf, depth << 8);
    let mips_start: u32 = 12 + 4 * per * depth;
    for k in 0..(per * depth) {
        push_u32(&mut buf, mips_start + 24 * k);
    }
    assert_eq!(buf.len() as u32, mips_start);
    for k in 0..(per * depth) {
        let mip = mip_record(16, 16, 1, k, &[]);
        buf.extend_from_slice(&mip);
    }
    let tex = Texture::parse_array(&buf).unwrap();
    assert_eq!(tex.subtextures.len(), 3);
    for sub in &tex.subtextures {
        assert_eq!(sub.mipmaps.len(), 3);
    }
    // table order is preserved layer by layer
    assert_eq!(tex.subtextures[1].mipmaps[2].id, 5);
}

#[test]
fn array_zero_depth_is_rejected() {
    let mut buf: Vec<u8> = vec![0x54, 0x58, 0x50, 0x05];
    push_u32(&mut buf, 4);
    push_u32(&mut buf, 0); // packed byte 1 is zero: no layers
    assert_eq!(Texture::parse_array(&buf).unwrap_err(), ParseError::ZeroDepth);
}

#[test]
fn atlas_record_falls_back_to_array_form() {
    // one atlas entry pointing at an array record of 2 layers, 1 mip each
    let mut buf: Vec<u8> = vec![0x54, 0x58, 0x50, 0x03];
    push_u32(&mut buf, 1);
    push_u32(&mut buf, 0);
    push_u32(&mut buf, 16); // array record at byte 16
    assert_eq!(buf.len(), 16);
    buf.extend_from_slice(&[0x54, 0x58, 0x50, 0x05]);
    push_u32(&mut buf, 2);
    push_u32(&mut buf, 2 << 8);
    // two one-entry tables; offsets are relative to the record start (16)
    let first_mip: u32 = 12 + 8;
    push_u32(&mut buf, first_mip);
    push_u32(&mut buf, first_mip + 24);
    assert_eq!(buf.len() as u32, 16 + first_mip);
    buf.extend_from_slice(&mip_record(8, 8, 2, 1, &[]));
    buf.extend_from_slice(&mip_record(4, 4, 2, 2, &[]));
    let atlas = TextureAtlas::parse(&buf).unwrap();
    assert_eq!(atlas.0.len(), 1);
    assert_eq!(atlas.0[0].subtextures.len(), 2);
    assert_eq!(atlas.0[0].subtextures[0].mipmaps[0].id, 1);
    assert_eq!(atlas.0[0].subtextures[1].mipmaps[0].id, 2);
}

#[test]
fn offset_table_order_is_preserved() {
    // two texture records stored in the opposite order of their table entries
    let mut buf: Vec<u8> = vec![0x54, 0x58, 0x50, 0x03];
    push_u32(&mut buf, 2);
    push_u32(&mut buf, 0);
    // the later record first in the table
    push_u32(&mut buf, 20 + 40);
    push_u32(&mut buf, 20);
    assert_eq!(buf.len(), 20);
    // texture record A at 20: one mip at relative 16 (absolute 36), width 111
    buf.extend_from_slice(&[0x54, 0x58, 0x50, 0x04]);
    push_u32(&mut buf, 1);
    push_u32(&mut buf, 0);
    push_u32(&mut buf, 16);
    buf.extend_from_slice(&mip_record(111, 1, 1, 0, &[]));
    assert_eq!(buf.len(), 60);
    // texture record B at 60: one mip at relative 16 (absolute 76), width 222
    buf.extend_from_slice(&[0x54, 0x58, 0x50, 0x04]);
    push_u32(&mut buf, 1);
    push_u32(&mut buf, 0);
    push_u32(&mut buf, 16);
    buf.extend_from_slice(&mip_record(222, 1, 1, 0, &[]));
    let atlas = TextureAtlas::parse(&buf).unwrap();
    assert_eq!(atlas.0.len(), 2);
    // entry 0 of the table pointed at record B, entry 1 at record A
    assert_eq!(atlas.0[0].subtextures[0].mipmaps[0].width, 222);
    assert_eq!(atlas.0[1].subtextures[0].mipmaps[0].width, 111);
}

#[test]
fn failing_entry_aborts_whole_table() {
    // two entries; the second points at garbage
    let mut buf: Vec<u8> = vec![0x54, 0x58, 0x50, 0x04];
    push_u32(&mut buf, 2);
    push_u32(&mut buf, 0);
    push_u32(&mut buf, 20);
    push_u32(&mut buf, 44);
    assert_eq!(buf.len(), 20);
    buf.extend_from_slice(&mip_record(1, 1, 1, 0, &[]));
    assert_eq!(buf.len(), 44);
    buf.extend_from_slice(&[0xFF; 24]);
    assert_eq!(Texture::parse(&buf).unwrap_err(), ParseError::MagicMismatch);
}
