//! The binary deserialization subsystem: offset-table-driven recursive
//! parsing of atlas, texture, and mipmap records over a byte buffer.
//!
//! Every record begins with a 4-byte magic that both identifies the section
//! kind and fixes the byte order for the rest of the record. Offset tables
//! hold absolute byte positions (measured from the start of the buffer the
//! enclosing record was parsed from), so each sub-record is re-parsed
//! independently at its own position.
//!
//! The specification functions in this module define the grammar over
//! `Seq<u8>`; each executable parser is proved to return exactly what the
//! corresponding specification function denotes.
use vstd::prelude::*;

use crate::{mips_view, subs_view, texs_view, MipView, Mipmap, Subtexture, Texture, TextureAtlas, TextureFormat};

verus! {

/// Byte order of one record, as derived from its magic signature.
#[derive(Debug, Clone, Copy, PartialEq, Eq, Structural)]
pub enum Endian {
    Little,
    Big,
}

/// Structured parse failure. The first failure at any nesting level aborts
/// the whole parse and propagates unchanged to the caller.
#[derive(Debug, Clone, Copy, PartialEq, Eq, Structural)]
pub enum ParseError {
    /// Neither the little- nor the big-endian magic signature was found at a
    /// section boundary.
    MagicMismatch,
    /// A format identifier with no registry mapping; carries the raw id.
    UnsupportedFormatId(u32),
    /// A read (header field, offset-table entry, or length-prefixed payload)
    /// would run past the end of the buffer.
    BufferTooShort,
    /// An array texture record whose packed layer-count byte is zero, which
    /// would make the per-layer mip count undefined.
    ZeroDepth,
}

/// The unsigned 32-bit value stored little-endian at `pos`.
pub open spec fn spec_u32_le(s: Seq<u8>, pos: int) -> u32 {
    (s[pos] + s[pos + 1] * 0x100 + s[pos + 2] * 0x1_0000 + s[pos + 3] * 0x100_0000) as u32
}

/// The unsigned 32-bit value stored big-endian at `pos`.
pub open spec fn spec_u32_be(s: Seq<u8>, pos: int) -> u32 {
    (s[pos] * 0x100_0000 + s[pos + 1] * 0x1_0000 + s[pos + 2] * 0x100 + s[pos + 3]) as u32
}

pub open spec fn spec_u32_at(s: Seq<u8>, pos: int, e: Endian) -> u32 {
    match e {
        Endian::Little => spec_u32_le(s, pos),
        Endian::Big => spec_u32_be(s, pos),
    }
}

/// Magic detection: `[0x54, 0x58, 0x50, id]` reads thereafter as
/// little-endian, `[id, 0x50, 0x58, 0x54]` as big-endian; anything else is
/// `MagicMismatch`. The little-endian pattern is tried first.
pub open spec fn spec_magic(s: Seq<u8>, pos: int, id: u8) -> Result<Endian, ParseError> {
    if pos + 4 > s.len() {
        Err(ParseError::BufferTooShort)
    } else if s[pos] == 0x54 && s[pos + 1] == 0x58 && s[pos + 2] == 0x50 && s[pos + 3] == id {
        Ok(Endian::Little)
    } else if s[pos] == id && s[pos + 1] == 0x50 && s[pos + 2] == 0x58 && s[pos + 3] == 0x54 {
        Ok(Endian::Big)
    } else {
        Err(ParseError::MagicMismatch)
    }
}

/// The format registry: which wire ids are representable, and as what.
/// Unassigned ids (14, most of 16 to 126, and everything above 127) have no
/// mapping.
pub open spec fn spec_format_from_id(id: u32) -> Option<TextureFormat> {
    if id == 0 {
        Some(TextureFormat::A8)
    } else if id == 1 {
        Some(TextureFormat::RGB8)
    } else if id == 2 {
        Some(TextureFormat::RGBA8)
    } else if id == 3 {
        Some(TextureFormat::RGB5)
    } else if id == 4 {
        Some(TextureFormat::RGB5A1)
    } else if id == 5 {
        Some(TextureFormat::RGBA4)
    } else if id == 6 {
        Some(TextureFormat::DXT1)
    } else if id == 7 {
        Some(TextureFormat::DXT1a)
    } else if id == 8 {
        Some(TextureFormat::DXT3)
    } else if id == 9 {
        Some(TextureFormat::DXT5)
    } else if id == 10 {
        Some(TextureFormat::ATI1)
    } else if id == 11 {
        Some(TextureFormat::ATI2)
    } else if id == 12 {
        Some(TextureFormat::L8)
    } else if id == 13 {
        Some(TextureFormat::L8A8)
    } else if id == 15 {
        Some(TextureFormat::BC7)
    } else if id == 127 {
        Some(TextureFormat::BC6H)
    } else {
        None
    }
}

/// A mipmap record at `pos`: magic (id 2), `width`, `height`, `format_id`
/// (mapped through the registry), opaque `id`, then a 4-byte length prefix
/// followed by exactly that many payload bytes.
pub open spec fn spec_parse_mipmap(s: Seq<u8>, pos: int) -> Result<MipView, ParseError> {
    match spec_magic(s, pos, 2) {
        Err(e) => Err(e),
        Ok(en) => if pos + 16 > s.len() {
            Err(ParseError::BufferTooShort)
        } else {
            let raw = spec_u32_at(s, pos + 12, en);
            match spec_format_from_id(raw) {
                None => Err(ParseError::UnsupportedFormatId(raw)),
                Some(fmt) => if pos + 24 > s.len() {
                    Err(ParseError::BufferTooShort)
                } else {
                    let dl = spec_u32_at(s, pos + 20, en) as int;
                    if pos + 24 + dl > s.len() {
                        Err(ParseError::BufferTooShort)
                    } else {
                        Ok(MipView {
                            id: spec_u32_at(s, pos + 16, en),
                            width: spec_u32_at(s, pos + 4, en),
                            height: spec_u32_at(s, pos + 8, en),
                            format: fmt,
                            data: s.subrange(pos + 24, pos + 24 + dl),
                        })
                    }
                },
            }
        },
    }
}

/// An offset table body at `pos`: `cnt` consecutive 32-bit entries. A count
/// of zero reads nothing and is an ordinary empty table, never an error.
pub open spec fn spec_offsets(s: Seq<u8>, pos: int, e: Endian, cnt: int) -> Result<
    Seq<u32>,
    ParseError,
> {
    if cnt == 0 {
        Ok(Seq::empty())
    } else if pos + 4 * cnt > s.len() {
        Err(ParseError::BufferTooShort)
    } else {
        Ok(Seq::new(cnt as nat, |i: int| spec_u32_at(s, pos + 4 * i, e)))
    }
}

/// The mipmaps addressed by the table entries `offs[i..]`, each parsed at
/// the absolute position `base + offs[k]`, in table order. The first
/// failing entry aborts the whole table.
pub open spec fn spec_mips_from(s: Seq<u8>, base: int, offs: Seq<u32>, i: int) -> Result<
    Seq<MipView>,
    ParseError,
>
    decreases offs.len() - i,
{
    if i < 0 || i >= offs.len() {
        Ok(Seq::empty())
    } else {
        match spec_parse_mipmap(s, base + offs[i]) {
            Err(e) => Err(e),
            Ok(m) => match spec_mips_from(s, base, offs, i + 1) {
                Err(e) => Err(e),
                Ok(rest) => Ok(seq![m] + rest),
            },
        }
    }
}

/// A simple texture record at `base`: magic (id 4), `mip_count`, a reserved
/// word, then one offset table of `mip_count` mipmaps. Yields exactly one
/// subtexture.
pub open spec fn spec_parse_texture(s: Seq<u8>, base: int) -> Result<Seq<Seq<MipView>>, ParseError> {
    match spec_magic(s, base, 4) {
        Err(e) => Err(e),
        Ok(en) => if base + 12 > s.len() {
            Err(ParseError::BufferTooShort)
        } else {
            let cnt = spec_u32_at(s, base + 4, en);
            match spec_offsets(s, base + 12, en, cnt as int) {
                Err(e) => Err(e),
                Ok(offs) => match spec_mips_from(s, base, offs, 0) {
                    Err(e) => Err(e),
                    Ok(ms) => Ok(seq![ms]),
                },
            }
        },
    }
}

/// The remaining `k` per-layer offset tables of an array record, laid out
/// consecutively from `tab`, each holding `per` entries whose mipmaps sit at
/// absolute positions relative to `base`.
pub open spec fn spec_subs_from(
    s: Seq<u8>,
    base: int,
    tab: int,
    e: Endian,
    per: u32,
    k: int,
) -> Result<Seq<Seq<MipView>>, ParseError>
    decreases k,
{
    if k <= 0 {
        Ok(Seq::empty())
    } else {
        match spec_offsets(s, tab, e, per as int) {
            Err(e1) => Err(e1),
            Ok(offs) => match spec_mips_from(s, base, offs, 0) {
                Err(e1) => Err(e1),
                Ok(ms) => match spec_subs_from(s, base, tab + 4 * per, e, per, k - 1) {
                    Err(e1) => Err(e1),
                    Ok(rest) => Ok(seq![ms] + rest),
                },
            },
        }
    }
}

/// An array / cubemap texture record at `base`: magic (id 5),
/// `total_mip_count`, then a packed word whose second-lowest byte is the
/// layer count. Each of the `depth` layers gets `total_mip_count / depth`
/// mipmaps (truncating division: a remainder is silently dropped, matching
/// the producing tool).
pub open spec fn spec_parse_array(s: Seq<u8>, base: int) -> Result<Seq<Seq<MipView>>, ParseError> {
    match spec_magic(s, base, 5) {
        Err(e) => Err(e),
        Ok(en) => if base + 12 > s.len() {
            Err(ParseError::BufferTooShort)
        } else {
            let total = spec_u32_at(s, base + 4, en);
            let mipdata = spec_u32_at(s, base + 8, en);
            let depth = (mipdata / 0x100) % 0x100;
            if depth == 0 {
                Err(ParseError::ZeroDepth)
            } else {
                spec_subs_from(s, base, base + 12, en, total / depth, depth as int)
            }
        },
    }
}

/// A texture record is resolved by attempting the simple form first and, on
/// any failure of it, the array form on the same position. When both fail,
/// the array form's error is reported.
#[verifier::opaque]
pub open spec fn spec_parse_texture_record(s: Seq<u8>, base: int) -> Result<
    Seq<Seq<MipView>>,
    ParseError,
> {
    match spec_parse_texture(s, base) {
        Ok(t) => Ok(t),
        Err(_) => spec_parse_array(s, base),
    }
}

/// The textures addressed by the atlas table entries `offs[i..]`, each
/// resolved at its absolute position, in table order.
pub open spec fn spec_texs_from(s: Seq<u8>, offs: Seq<u32>, i: int) -> Result<
    Seq<Seq<Seq<MipView>>>,
    ParseError,
>
    decreases offs.len() - i,
{
    if i < 0 || i >= offs.len() {
        Ok(Seq::empty())
    } else {
        match spec_parse_texture_record(s, offs[i] as int) {
            Err(e) => Err(e),
            Ok(t) => match spec_texs_from(s, offs, i + 1) {
                Err(e) => Err(e),
                Ok(rest) => Ok(seq![t] + rest),
            },
        }
    }
}

/// The whole atlas: magic (id 3) at position 0, `map_count`, a reserved
/// word, then one offset table of `map_count` texture records.
pub open spec fn spec_parse_atlas(s: Seq<u8>) -> Result<Seq<Seq<Seq<MipView>>>, ParseError> {
    match spec_magic(s, 0, 3) {
        Err(e) => Err(e),
        Ok(en) => if s.len() < 12 {
            Err(ParseError::BufferTooShort)
        } else {
            let cnt = spec_u32_at(s, 4, en);
            match spec_offsets(s, 12, en, cnt as int) {
                Err(e) => Err(e),
                Ok(offs) => spec_texs_from(s, offs, 0),
            }
        },
    }
}

proof fn lemma_mips_from_index_h(s: Seq<u8>, base: int, offs: Seq<u32>, i: int, ms: Seq<MipView>)
    requires
        0 <= i <= offs.len(),
        spec_mips_from(s, base, offs, i) == Ok::<Seq<MipView>, ParseError>(ms),
    ensures
        ms.len() == offs.len() - i,
        forall|k: int|
            0 <= k < ms.len() ==> spec_parse_mipmap(s, base + offs[i + k]) == Ok::<
                MipView,
                ParseError,
            >(ms[k]),
    decreases offs.len() - i,
{
    if i < offs.len() {
        match spec_parse_mipmap(s, base + offs[i]) {
            Err(_) => {},
            Ok(m) => {
                match spec_mips_from(s, base, offs, i + 1) {
                    Err(_) => {},
                    Ok(rest) => {
                        lemma_mips_from_index_h(s, base, offs, i + 1, rest);
                        assert(ms == seq![m] + rest);
                        assert forall|k: int| 0 <= k < ms.len() implies spec_parse_mipmap(
                            s,
                            base + offs[i + k],
                        ) == Ok::<MipView, ParseError>(ms[k]) by {
                            if k == 0 {
                                assert(ms[0] == m);
                            } else {
                                assert(ms[k] == rest[k - 1]);
                            }
                        }
                    },
                }
            },
        }
    }
}

/// Order preservation: when an offset table of mipmaps parses successfully,
/// the `i`-th table entry yields exactly the `i`-th element of the output
/// sequence, whether or not the offsets are monotonically increasing in the
/// buffer.
pub proof fn lemma_offset_table_order(s: Seq<u8>, base: int, offs: Seq<u32>, ms: Seq<MipView>)
    requires
        spec_mips_from(s, base, offs, 0) == Ok::<Seq<MipView>, ParseError>(ms),
    ensures
        ms.len() == offs.len(),
        forall|i: int|
            0 <= i < offs.len() ==> spec_parse_mipmap(s, base + offs[i]) == Ok::<
                MipView,
                ParseError,
            >(ms[i]),
{
    lemma_mips_from_index_h(s, base, offs, 0, ms);
    assert forall|i: int| 0 <= i < offs.len() implies spec_parse_mipmap(s, base + offs[i]) == Ok::<
        MipView,
        ParseError,
    >(ms[i]) by {
        assert(spec_parse_mipmap(s, base + offs[0 + i]) == Ok::<MipView, ParseError>(ms[i]));
    }
}

proof fn lemma_texs_from_index_h(s: Seq<u8>, offs: Seq<u32>, i: int, ts: Seq<Seq<Seq<MipView>>>)
    requires
        0 <= i <= offs.len(),
        spec_texs_from(s, offs, i) == Ok::<Seq<Seq<Seq<MipView>>>, ParseError>(ts),
    ensures
        ts.len() == offs.len() - i,
        forall|k: int|
            0 <= k < ts.len() ==> spec_parse_texture_record(s, offs[i + k] as int) == Ok::<
                Seq<Seq<MipView>>,
                ParseError,
            >(ts[k]),
    decreases offs.len() - i,
{
    if i < offs.len() {
        match spec_parse_texture_record(s, offs[i] as int) {
            Err(_) => {},
            Ok(t) => {
                match spec_texs_from(s, offs, i + 1) {
                    Err(_) => {},
                    Ok(rest) => {
                        lemma_texs_from_index_h(s, offs, i + 1, rest);
                        assert(ts == seq![t] + rest);
                        assert forall|k: int| 0 <= k < ts.len() implies spec_parse_texture_record(
                            s,
                            offs[i + k] as int,
                        ) == Ok::<Seq<Seq<MipView>>, ParseError>(ts[k]) by {
                            if k == 0 {
                                assert(ts[0] == t);
                            } else {
                                assert(ts[k] == rest[k - 1]);
                            }
                        }
                    },
                }
            },
        }
    }
}

/// Order preservation at the atlas level: the `i`-th entry of the atlas's
/// offset table corresponds to the `i`-th texture of the result.
pub proof fn lemma_atlas_table_order(s: Seq<u8>, offs: Seq<u32>, ts: Seq<Seq<Seq<MipView>>>)
    requires
        spec_texs_from(s, offs, 0) == Ok::<Seq<Seq<Seq<MipView>>>, ParseError>(ts),
    ensures
        ts.len() == offs.len(),
        forall|i: int|
            0 <= i < offs.len() ==> spec_parse_texture_record(s, offs[i] as int) == Ok::<
                Seq<Seq<MipView>>,
                ParseError,
            >(ts[i]),
{
    lemma_texs_from_index_h(s, offs, 0, ts);
    assert forall|i: int| 0 <= i < offs.len() implies spec_parse_texture_record(s, offs[i] as int)
        == Ok::<Seq<Seq<MipView>>, ParseError>(ts[i]) by {
        assert(spec_parse_texture_record(s, offs[0 + i] as int) == Ok::<
            Seq<Seq<MipView>>,
            ParseError,
        >(ts[i]));
    }
}

/// Determinism: the denotation of a parse is a function of the buffer
/// contents alone, so equal buffers denote equal results. Together with
/// `TextureAtlas::parse`'s postcondition, parsing the same bytes twice
/// yields structurally equal trees.
pub proof fn lemma_parse_deterministic(a: Seq<u8>, b: Seq<u8>)
    requires
        a == b,
    ensures
        spec_parse_atlas(a) == spec_parse_atlas(b),
{
}

/// Zero-count safety: a table with count 0 denotes the empty offset
/// sequence, never an error, and an empty offset sequence parses to an
/// empty mipmap sequence.
pub proof fn lemma_zero_count_table(s: Seq<u8>, base: int, pos: int, e: Endian)
    ensures
        spec_offsets(s, pos, e, 0) == Ok::<Seq<u32>, ParseError>(Seq::empty()),
        spec_mips_from(s, base, Seq::empty(), 0) == Ok::<Seq<MipView>, ParseError>(Seq::empty()),
{
}

/// Magic rejection: four readable bytes that match neither the little- nor
/// the big-endian signature for the expected section id always denote
/// `MagicMismatch`.
pub proof fn lemma_magic_rejection(s: Seq<u8>, pos: int, id: u8)
    requires
        0 <= pos,
        pos + 4 <= s.len(),
        !(s[pos] == 0x54 && s[pos + 1] == 0x58 && s[pos + 2] == 0x50 && s[pos + 3] == id),
        !(s[pos] == id && s[pos + 1] == 0x50 && s[pos + 2] == 0x58 && s[pos + 3] == 0x54),
    ensures
        spec_magic(s, pos, id) == Err::<Endian, ParseError>(ParseError::MagicMismatch),
{
}

/// A successfully parsed simple texture record always has exactly one
/// subtexture; the array form is the only source of several.
pub proof fn lemma_simple_texture_single_layer(s: Seq<u8>, base: int, t: Seq<Seq<MipView>>)
    requires
        spec_parse_texture(s, base) == Ok::<Seq<Seq<MipView>>, ParseError>(t),
    ensures
        t.len() == 1,
{
}

proof fn lemma_subs_from_shape(
    s: Seq<u8>,
    base: int,
    tab: int,
    e: Endian,
    per: u32,
    k: int,
    subs: Seq<Seq<MipView>>,
)
    requires
        0 <= k,
        spec_subs_from(s, base, tab, e, per, k) == Ok::<Seq<Seq<MipView>>, ParseError>(subs),
    ensures
        subs.len() == k,
        forall|j: int| 0 <= j < subs.len() ==> #[trigger] subs[j].len() == per,
    decreases k,
{
    if k > 0 {
        match spec_offsets(s, tab, e, per as int) {
            Err(_) => {},
            Ok(offs) => {
                match spec_mips_from(s, base, offs, 0) {
                    Err(_) => {},
                    Ok(ms) => {
                        match spec_subs_from(s, base, tab + 4 * per, e, per, k - 1) {
                            Err(_) => {},
                            Ok(rest) => {
                                lemma_mips_from_index_h(s, base, offs, 0, ms);
                                lemma_subs_from_shape(s, base, tab + 4 * per, e, per, k - 1, rest);
                                assert(subs == seq![ms] + rest);
                                assert(offs.len() == per);
                                assert forall|j: int| 0 <= j < subs.len() implies #[trigger] subs[j].len()
                                    == per by {
                                    if j == 0 {
                                        assert(subs[0] == ms);
                                    } else {
                                        assert(subs[j] == rest[j - 1]);
                                    }
                                }
                            },
                        }
                    },
                }
            },
        }
    }
}

/// Truncating layer division: a successfully parsed array record has
/// exactly `depth` subtextures (the packed byte), each holding
/// `total_mip_count / depth` mipmaps. The division truncates: when the
/// total is not evenly divisible, the remainder of mipmaps is silently
/// dropped rather than reported as an error.
pub proof fn lemma_array_truncating_shape(s: Seq<u8>, base: int, subs: Seq<Seq<MipView>>)
    requires
        spec_parse_array(s, base) == Ok::<Seq<Seq<MipView>>, ParseError>(subs),
    ensures
        spec_magic(s, base, 5) is Ok,
        ({
            let en = spec_magic(s, base, 5)->Ok_0;
            let total = spec_u32_at(s, base + 4, en);
            let depth = (spec_u32_at(s, base + 8, en) / 0x100) % 0x100;
            depth > 0 && subs.len() == depth && forall|j: int|
                0 <= j < subs.len() ==> #[trigger] subs[j].len() == total / depth
        }),
{
    let en = spec_magic(s, base, 5)->Ok_0;
    let total = spec_u32_at(s, base + 4, en);
    let depth = (spec_u32_at(s, base + 8, en) / 0x100) % 0x100;
    lemma_subs_from_shape(s, base, base + 12, en, total / depth, depth as int, subs);
}

/// Reads the 32-bit value at `pos` in the given byte order.
fn read_u32(buf: &[u8], pos: usize, e: Endian) -> (r: u32)
    requires
        pos + 4 <= buf@.len(),
    ensures
        r == spec_u32_at(buf@, pos as int, e),
{
    let b0 = buf[pos] as u32;
    let b1 = buf[pos + 1] as u32;
    let b2 = buf[pos + 2] as u32;
    let b3 = buf[pos + 3] as u32;
    match e {
        Endian::Little => b0 + b1 * 0x100 + b2 * 0x1_0000 + b3 * 0x100_0000,
        Endian::Big => b0 * 0x100_0000 + b1 * 0x1_0000 + b2 * 0x100 + b3,
    }
}

/// Matches one of the two 4-byte magic signatures for section kind `id` and
/// yields the byte order it implies.
pub fn parse_magic(buf: &[u8], pos: usize, id: u8) -> (r: Result<Endian, ParseError>)
    ensures
        r == spec_magic(buf@, pos as int, id),
{
    let n: usize = buf.len();
    if pos >= n || n - pos < 4 {
        return Err(ParseError::BufferTooShort);
    }
    let b0 = buf[pos];
    let b1 = buf[pos + 1];
    let b2 = buf[pos + 2];
    let b3 = buf[pos + 3];
    if b0 == 0x54 && b1 == 0x58 && b2 == 0x50 && b3 == id {
        Ok(Endian::Little)
    } else if b0 == id && b1 == 0x50 && b2 == 0x58 && b3 == 0x54 {
        Ok(Endian::Big)
    } else {
        Err(ParseError::MagicMismatch)
    }
}

impl TextureFormat {
    /// Maps a wire format id to its pixel format; `None` for unassigned ids.
    pub fn from_id(id: u32) -> (r: Option<TextureFormat>)
        ensures
            r == spec_format_from_id(id),
    {
        match id {
            0 => Some(TextureFormat::A8),
            1 => Some(TextureFormat::RGB8),
            2 => Some(TextureFormat::RGBA8),
            3 => Some(TextureFormat::RGB5),
            4 => Some(TextureFormat::RGB5A1),
            5 => Some(TextureFormat::RGBA4),
            6 => Some(TextureFormat::DXT1),
            7 => Some(TextureFormat::DXT1a),
            8 => Some(TextureFormat::DXT3),
            9 => Some(TextureFormat::DXT5),
            10 => Some(TextureFormat::ATI1),
            11 => Some(TextureFormat::ATI2),
            12 => Some(TextureFormat::L8),
            13 => Some(TextureFormat::L8A8),
            15 => Some(TextureFormat::BC7),
            127 => Some(TextureFormat::BC6H),
            _ => None,
        }
    }
}

pub open spec fn mip_res_view(r: Result<Mipmap, ParseError>) -> Result<MipView, ParseError> {
    match r {
        Ok(m) => Ok(m@),
        Err(e) => Err(e),
    }
}

/// Parses one mipmap record at absolute position `pos`.
fn parse_mipmap_at(buf: &[u8], pos: usize) -> (r: Result<Mipmap, ParseError>)
    ensures
        mip_res_view(r) == spec_parse_mipmap(buf@, pos as int),
{
    let en = match parse_magic(buf, pos, 2) {
        Ok(en) => en,
        Err(e) => return Err(e),
    };
    let n: usize = buf.len();
    if n - pos < 16 {
        return Err(ParseError::BufferTooShort);
    }
    let width = read_u32(buf, pos + 4, en);
    let height = read_u32(buf, pos + 8, en);
    let raw = read_u32(buf, pos + 12, en);
    let format = match TextureFormat::from_id(raw) {
        Some(f) => f,
        None => return Err(ParseError::UnsupportedFormatId(raw)),
    };
    if n - pos < 24 {
        return Err(ParseError::BufferTooShort);
    }
    let mid = read_u32(buf, pos + 16, en);
    let dl = read_u32(buf, pos + 20, en) as usize;
    if dl > n - (pos + 24) {
        return Err(ParseError::BufferTooShort);
    }
    let mut data: Vec<u8> = Vec::new();
    let mut i: usize = 0;
    while i < dl
        invariant
            i <= dl,
            pos + 24 + dl <= buf@.len(),
            buf@.len() <= usize::MAX,
            data@ == buf@.subrange(pos + 24, pos + 24 + i),
        decreases dl - i,
    {
        data.push(buf[pos + 24 + i]);
        i = i + 1;
        proof {
            assert(buf@.subrange(pos + 24, pos + 24 + i) =~= buf@.subrange(
                pos + 24,
                pos + 24 + (i - 1),
            ).push(buf@[pos + 24 + (i - 1)]));
        }
    }
    Ok(Mipmap { id: mid, width, height, format, data })
}

impl Mipmap {
    /// Parses a mipmap record at the start of `buf`.
    pub fn parse(buf: &[u8]) -> (r: Result<Mipmap, ParseError>)
        ensures
            mip_res_view(r) == spec_parse_mipmap(buf@, 0),
    {
        parse_mipmap_at(buf, 0)
    }
}

pub open spec fn offs_res_view(r: Result<Vec<u32>, ParseError>) -> Result<Seq<u32>, ParseError> {
    match r {
        Ok(v) => Ok(v@),
        Err(e) => Err(e),
    }
}

/// Reads the body of an offset table: `cnt` consecutive 32-bit entries
/// starting at `pos`. A zero count reads nothing and succeeds.
fn read_offsets(buf: &[u8], pos: usize, e: Endian, cnt: usize) -> (r: Result<Vec<u32>, ParseError>)
    ensures
        offs_res_view(r) == spec_offsets(buf@, pos as int, e, cnt as int),
{
    if cnt == 0 {
        let v: Vec<u32> = Vec::new();
        proof {
            assert(v@ =~= Seq::<u32>::empty());
        }
        return Ok(v);
    }
    let n: usize = buf.len();
    if pos > n {
        return Err(ParseError::BufferTooShort);
    }
    let mut offs: Vec<u32> = Vec::new();
    let mut i: usize = 0;
    while i < cnt
        invariant
            i <= cnt,
            1 <= cnt,
            pos + 4 * i <= buf@.len(),
            buf@.len() <= usize::MAX,
            offs@.len() == i,
            forall|j: int| 0 <= j < i ==> offs@[j] == spec_u32_at(buf@, pos + 4 * j, e),
        decreases cnt - i,
    {
        let p: usize = pos + 4 * i;
        if buf.len() - p < 4 {
            return Err(ParseError::BufferTooShort);
        }
        let v = read_u32(buf, p, e);
        offs.push(v);
        i = i + 1;
    }
    proof {
        assert(offs@ =~= Seq::new(cnt as nat, |j: int| spec_u32_at(buf@, pos + 4 * j, e)));
    }
    Ok(offs)
}

pub open spec fn mips_res_view(r: Result<Vec<Mipmap>, ParseError>) -> Result<
    Seq<MipView>,
    ParseError,
> {
    match r {
        Ok(v) => Ok(mips_view(v@)),
        Err(e) => Err(e),
    }
}

/// Parses the mipmaps addressed by a table of absolute offsets, in table
/// order, each at position `base + offset`.
fn parse_mips(buf: &[u8], base: usize, offs: &Vec<u32>) -> (r: Result<Vec<Mipmap>, ParseError>)
    ensures
        mips_res_view(r) == spec_mips_from(buf@, base as int, offs@, 0),
{
    let mut res: Vec<Mipmap> = Vec::new();
    let mut i: usize = 0;
    let _n: usize = buf.len();
    while i < offs.len()
        invariant
            i <= offs@.len(),
            res@.len() == i,
            buf@.len() <= usize::MAX,
            spec_mips_from(buf@, base as int, offs@, 0) == (match spec_mips_from(
                buf@,
                base as int,
                offs@,
                i as int,
            ) {
                Ok(rest) => Ok::<Seq<MipView>, ParseError>(mips_view(res@) + rest),
                Err(e) => Err::<Seq<MipView>, ParseError>(e),
            }),
        decreases offs@.len() - i,
    {
        let off = offs[i];
        let mr: Result<Mipmap, ParseError> = if off as usize <= usize::MAX - base {
            parse_mipmap_at(buf, base + off as usize)
        } else {
            proof {
                assert(spec_parse_mipmap(buf@, base + off) == Err::<MipView, ParseError>(
                    ParseError::BufferTooShort,
                ));
            }
            Err(ParseError::BufferTooShort)
        };
        match mr {
            Err(e) => {
                return Err(e);
            },
            Ok(m) => {
                let ghost prev = res@;
                let ghost mview = m@;
                res.push(m);
                proof {
                    assert(mips_view(res@) =~= mips_view(prev).push(mview));
                    match spec_mips_from(buf@, base as int, offs@, i + 1) {
                        Err(_) => {},
                        Ok(rest2) => {
                            assert(mips_view(prev) + (seq![mview] + rest2) =~= mips_view(res@)
                                + rest2);
                        },
                    }
                }
                i = i + 1;
            },
        }
    }
    proof {
        assert(mips_view(res@) + Seq::<MipView>::empty() =~= mips_view(res@));
    }
    Ok(res)
}

pub open spec fn tex_res_view(r: Result<Texture, ParseError>) -> Result<
    Seq<Seq<MipView>>,
    ParseError,
> {
    match r {
        Ok(t) => Ok(t@),
        Err(e) => Err(e),
    }
}

/// Parses a simple texture record at absolute position `base`.
fn parse_texture_at(buf: &[u8], base: usize) -> (r: Result<Texture, ParseError>)
    ensures
        tex_res_view(r) == spec_parse_texture(buf@, base as int),
{
    let en = match parse_magic(buf, base, 4) {
        Ok(en) => en,
        Err(e) => return Err(e),
    };
    let n: usize = buf.len();
    if n - base < 12 {
        return Err(ParseError::BufferTooShort);
    }
    let cnt = read_u32(buf, base + 4, en);
    let offs = match read_offsets(buf, base + 12, en, cnt as usize) {
        Ok(v) => v,
        Err(e) => return Err(e),
    };
    let mipmaps = match parse_mips(buf, base, &offs) {
        Ok(v) => v,
        Err(e) => return Err(e),
    };
    let sub = Subtexture { mipmaps };
    let ghost ms = sub@;
    let t = Texture { subtextures: vec![sub] };
    proof {
        assert(t@ =~= seq![ms]);
    }
    Ok(t)
}

/// Parses an array / cubemap texture record at absolute position `base`.
fn parse_array_at(buf: &[u8], base: usize) -> (r: Result<Texture, ParseError>)
    ensures
        tex_res_view(r) == spec_parse_array(buf@, base as int),
{
    let en = match parse_magic(buf, base, 5) {
        Ok(en) => en,
        Err(e) => return Err(e),
    };
    let n: usize = buf.len();
    if n - base < 12 {
        return Err(ParseError::BufferTooShort);
    }
    let total = read_u32(buf, base + 4, en);
    let mipdata = read_u32(buf, base + 8, en);
    let depth = (mipdata / 0x100) % 0x100;
    if depth == 0 {
        return Err(ParseError::ZeroDepth);
    }
    let per = total / depth;
    let depth_us = depth as usize;
    let mut subs: Vec<Subtexture> = Vec::new();
    let mut tab: usize = base + 12;
    let mut k: usize = 0;
    proof {
        match spec_subs_from(buf@, base as int, tab as int, en, per, depth as int) {
            Err(_) => {},
            Ok(rest) => {
                assert(subs_view(subs@) + rest =~= rest);
            },
        }
    }
    while k < depth_us
        invariant
            k <= depth_us,
            depth_us == depth,
            subs@.len() == k,
            buf@.len() <= usize::MAX,
            spec_parse_array(buf@, base as int) == spec_subs_from(
                buf@,
                base as int,
                (base + 12) as int,
                en,
                per,
                depth as int,
            ),
            spec_subs_from(buf@, base as int, (base + 12) as int, en, per, depth as int) == (
            match spec_subs_from(buf@, base as int, tab as int, en, per, (depth_us - k) as int) {
                Ok(rest) => Ok::<Seq<Seq<MipView>>, ParseError>(subs_view(subs@) + rest),
                Err(e) => Err::<Seq<Seq<MipView>>, ParseError>(e),
            }),
        decreases depth_us - k,
    {
        let offs = match read_offsets(buf, tab, en, per as usize) {
            Ok(v) => v,
            Err(e) => return Err(e),
        };
        let mipmaps = match parse_mips(buf, base, &offs) {
            Ok(v) => v,
            Err(e) => return Err(e),
        };
        let ghost prev = subs@;
        let sub = Subtexture { mipmaps };
        let ghost msview = sub@;
        subs.push(sub);
        proof {
            assert(subs_view(subs@) =~= subs_view(prev).push(msview));
            if per != 0 {
                assert(tab + 4 * (per as int) <= buf@.len());
            }
            match spec_subs_from(buf@, base as int, tab + 4 * per, en, per, depth_us - k - 1) {
                Err(_) => {},
                Ok(rest2) => {
                    assert(subs_view(prev) + (seq![msview] + rest2) =~= subs_view(
                        subs@,
                    ) + rest2);
                },
            }
        }
        tab = tab + 4 * (per as usize);
        k = k + 1;
    }
    proof {
        assert(subs_view(subs@) + Seq::<Seq<MipView>>::empty() =~= subs_view(subs@));
    }
    Ok(Texture { subtextures: subs })
}

/// Resolves a texture record at `base`: the simple form first, then, on any
/// failure of it, the array form.
fn parse_texture_record_at(buf: &[u8], base: usize) -> (r: Result<Texture, ParseError>)
    ensures
        tex_res_view(r) == spec_parse_texture_record(buf@, base as int),
{
    proof {
        reveal(spec_parse_texture_record);
    }
    match parse_texture_at(buf, base) {
        Ok(t) => Ok(t),
        Err(_) => parse_array_at(buf, base),
    }
}

impl Texture {
    /// Parses a simple texture record at the start of `buf`. Offsets inside
    /// the record are absolute positions in `buf`.
    pub fn parse(buf: &[u8]) -> (r: Result<Texture, ParseError>)
        ensures
            tex_res_view(r) == spec_parse_texture(buf@, 0),
    {
        parse_texture_at(buf, 0)
    }

    /// Parses an array / cubemap texture record at the start of `buf`.
    pub fn parse_array(buf: &[u8]) -> (r: Result<Texture, ParseError>)
        ensures
            tex_res_view(r) == spec_parse_array(buf@, 0),
    {
        parse_array_at(buf, 0)
    }
}

pub open spec fn atlas_res_view(r: Result<TextureAtlas, ParseError>) -> Result<
    Seq<Seq<Seq<MipView>>>,
    ParseError,
> {
    match r {
        Ok(a) => Ok(a@),
        Err(e) => Err(e),
    }
}

impl TextureAtlas {
    /// Parses a whole atlas from the start of `buf`. This is the sole
    /// top-level entry point: either every texture, subtexture, and mipmap
    /// parses, or the first failure is returned and no partial atlas exists.
    #[verifier::rlimit(50)]
    pub fn parse(buf: &[u8]) -> (r: Result<TextureAtlas, ParseError>)
        ensures
            atlas_res_view(r) == spec_parse_atlas(buf@),
    {
        let en = match parse_magic(buf, 0, 3) {
            Ok(en) => en,
            Err(e) => return Err(e),
        };
        let n: usize = buf.len();
        if n < 12 {
            return Err(ParseError::BufferTooShort);
        }
        let cnt = read_u32(buf, 4, en);
        let offs = match read_offsets(buf, 12, en, cnt as usize) {
            Ok(v) => v,
            Err(e) => return Err(e),
        };
        let mut maps: Vec<Texture> = Vec::new();
        let mut i: usize = 0;
        while i < offs.len()
            invariant
                i <= offs@.len(),
                maps@.len() == i,
                buf@.len() <= usize::MAX,
                spec_parse_atlas(buf@) == spec_texs_from(buf@, offs@, 0),
                spec_texs_from(buf@, offs@, 0) == (match spec_texs_from(buf@, offs@, i as int) {
                    Ok(rest) => Ok::<Seq<Seq<Seq<MipView>>>, ParseError>(texs_view(maps@) + rest),
                    Err(e) => Err::<Seq<Seq<Seq<MipView>>>, ParseError>(e),
                }),
            decreases offs@.len() - i,
        {
            let off = offs[i];
            match parse_texture_record_at(buf, off as usize) {
                Err(e) => {
                    return Err(e);
                },
                Ok(t) => {
                    let ghost prev = maps@;
                    let ghost tview = t@;
                    maps.push(t);
                    proof {
                        assert(texs_view(maps@) =~= texs_view(prev).push(tview));
                        match spec_texs_from(buf@, offs@, i + 1) {
                            Err(_) => {},
                            Ok(rest2) => {
                                assert(texs_view(prev) + (seq![tview] + rest2) =~= texs_view(maps@)
                                    + rest2);
                            },
                        }
                    }
                    i = i + 1;
                },
            }
        }
        proof {
            assert(texs_view(maps@) + Seq::<Seq<Seq<MipView>>>::empty() =~= texs_view(maps@));
        }
        Ok(TextureAtlas(maps))
    }
}

} // verus!
