//! Decoder for a packed texture-atlas container: an atlas holds textures,
//! each texture one or more subtextures (array layers / cube faces), each
//! subtexture a chain of mipmaps. Parsing walks offset tables of absolute
//! byte positions and re-detects byte order at every record boundary.
use vstd::prelude::*;

pub mod dds;
pub mod read;
pub mod yuv;

verus! {

/// Pixel format of a mipmap's payload, as mapped from the wire format id.
#[non_exhaustive]
#[derive(Debug, Clone, Copy, PartialEq, Eq, Structural)]
#[allow(non_camel_case_types)]
pub enum TextureFormat {
    A8,
    RGB8,
    RGBA8,
    RGB5,
    RGB5A1,
    RGBA4,
    DXT1,
    DXT1a,
    DXT3,
    DXT5,
    ATI1,
    ATI2,
    L8,
    L8A8,
    BC7,
    BC6H,
}

impl Default for TextureFormat {
    fn default() -> (r: Self)
        ensures
            r == TextureFormat::RGB8,
    {
        TextureFormat::RGB8
    }
}

/// Raster-export gating: a mipmap can be reconstructed as a displayable
/// image if and only if its format is uncompressed RGB / RGBA, luminance,
/// luminance-alpha, or one of the three DXT block-compressed variants. Any
/// other format is "not representable", which is not a parse error.
pub open spec fn spec_representable(f: TextureFormat) -> bool {
    f == TextureFormat::RGB8 || f == TextureFormat::RGBA8 || f == TextureFormat::L8 || f
        == TextureFormat::L8A8 || f == TextureFormat::DXT1 || f == TextureFormat::DXT1a || f
        == TextureFormat::DXT3 || f == TextureFormat::DXT5
}

impl TextureFormat {
    /// Whether a payload in this format can be reconstructed as a
    /// displayable raster image by the export collaborator.
    pub fn representable(&self) -> (r: bool)
        ensures
            r == spec_representable(*self),
    {
        match self {
            TextureFormat::RGB8 | TextureFormat::RGBA8 | TextureFormat::L8 | TextureFormat::L8A8
                | TextureFormat::DXT1 | TextureFormat::DXT1a | TextureFormat::DXT3
                | TextureFormat::DXT5 => true,
            _ => false,
        }
    }
}

/// One resolution level of a subtexture: header fields plus the raw payload.
/// The payload length is exactly what the record declared; it is never
/// recomputed from width, height and format.
#[derive(Debug, Clone)]
pub struct Mipmap {
    pub id: u32,
    pub width: u32,
    pub height: u32,
    pub format: TextureFormat,
    pub data: Vec<u8>,
}

/// Mathematical model of a mipmap: the same header fields with the payload
/// as a byte sequence.
pub ghost struct MipView {
    pub id: u32,
    pub width: u32,
    pub height: u32,
    pub format: TextureFormat,
    pub data: Seq<u8>,
}

impl Default for Mipmap {
    /// The default mipmap: zero-sized, format `RGB8`, empty payload. The
    /// container export falls back to it for an empty texture.
    fn default() -> (r: Self)
        ensures
            r.id == 0,
            r.width == 0,
            r.height == 0,
            r.format == TextureFormat::RGB8,
            r.data@ == Seq::<u8>::empty(),
    {
        Mipmap { id: 0, width: 0, height: 0, format: TextureFormat::RGB8, data: Vec::new() }
    }
}

impl View for Mipmap {
    type V = MipView;

    open spec fn view(&self) -> MipView {
        MipView {
            id: self.id,
            width: self.width,
            height: self.height,
            format: self.format,
            data: self.data@,
        }
    }
}

/// One layer (array slice / cube face) of a texture: its mip chain, ordered
/// from highest resolution to lowest.
#[derive(Debug, Clone)]
pub struct Subtexture {
    pub mipmaps: Vec<Mipmap>,
}

pub open spec fn mips_view(s: Seq<Mipmap>) -> Seq<MipView> {
    Seq::new(s.len(), |i: int| s[i]@)
}

impl View for Subtexture {
    type V = Seq<MipView>;

    open spec fn view(&self) -> Seq<MipView> {
        mips_view(self.mipmaps@)
    }
}

/// One logical texture: a single subtexture for the simple form, several for
/// the array / cubemap form.
#[derive(Debug, Clone)]
pub struct Texture {
    pub subtextures: Vec<Subtexture>,
}

pub open spec fn subs_view(s: Seq<Subtexture>) -> Seq<Seq<MipView>> {
    Seq::new(s.len(), |i: int| s[i]@)
}

impl View for Texture {
    type V = Seq<Seq<MipView>>;

    open spec fn view(&self) -> Seq<Seq<MipView>> {
        subs_view(self.subtextures@)
    }
}

/// The whole atlas: textures in offset-table order, which is the atlas's
/// canonical indexing.
#[derive(Debug, Clone)]
pub struct TextureAtlas(pub Vec<Texture>);

pub open spec fn texs_view(s: Seq<Texture>) -> Seq<Seq<Seq<MipView>>> {
    Seq::new(s.len(), |i: int| s[i]@)
}

impl View for TextureAtlas {
    type V = Seq<Seq<Seq<MipView>>>;

    open spec fn view(&self) -> Seq<Seq<Seq<MipView>>> {
        texs_view(self.0@)
    }
}

/// Byte-for-byte equality of two payload buffers.
fn bytes_eq(a: &Vec<u8>, b: &Vec<u8>) -> (r: bool)
    ensures
        r == (a@ == b@),
{
    if a.len() != b.len() {
        return false;
    }
    let mut i: usize = 0;
    while i < a.len()
        invariant
            i <= a@.len(),
            a@.len() == b@.len(),
            forall|j: int| 0 <= j < i ==> a@[j] == b@[j],
        decreases a@.len() - i,
    {
        if a[i] != b[i] {
            return false;
        }
        i = i + 1;
    }
    proof {
        assert(a@ =~= b@);
    }
    true
}

fn mip_eq(x: &Mipmap, y: &Mipmap) -> (r: bool)
    ensures
        r == (x@ == y@),
{
    x.id == y.id && x.width == y.width && x.height == y.height && x.format == y.format && bytes_eq(
        &x.data,
        &y.data,
    )
}

impl PartialEq for Mipmap {
    /// Structural equality: every header field and the payload bytes.
    fn eq(&self, o: &Mipmap) -> (r: bool) {
        mip_eq(self, o)
    }
}

impl vstd::std_specs::cmp::PartialEqSpecImpl for Mipmap {
    open spec fn obeys_eq_spec() -> bool {
        true
    }

    open spec fn eq_spec(&self, o: &Mipmap) -> bool {
        self@ == o@
    }
}

fn mips_eq(a: &Vec<Mipmap>, b: &Vec<Mipmap>) -> (r: bool)
    ensures
        r == (mips_view(a@) == mips_view(b@)),
{
    if a.len() != b.len() {
        proof {
            assert(mips_view(a@).len() == a@.len());
            assert(mips_view(b@).len() == b@.len());
        }
        return false;
    }
    let mut i: usize = 0;
    while i < a.len()
        invariant
            i <= a@.len(),
            a@.len() == b@.len(),
            forall|j: int| 0 <= j < i ==> a@[j]@ == b@[j]@,
        decreases a@.len() - i,
    {
        if !mip_eq(&a[i], &b[i]) {
            proof {
                assert(mips_view(a@)[i as int] == a@[i as int]@);
                assert(mips_view(b@)[i as int] == b@[i as int]@);
            }
            return false;
        }
        i = i + 1;
    }
    proof {
        assert(mips_view(a@) =~= mips_view(b@));
    }
    true
}

impl PartialEq for Subtexture {
    /// Structural equality: the mip chains element for element.
    fn eq(&self, o: &Subtexture) -> (r: bool) {
        mips_eq(&self.mipmaps, &o.mipmaps)
    }
}

impl vstd::std_specs::cmp::PartialEqSpecImpl for Subtexture {
    open spec fn obeys_eq_spec() -> bool {
        true
    }

    open spec fn eq_spec(&self, o: &Subtexture) -> bool {
        self@ == o@
    }
}

fn subs_eq(a: &Vec<Subtexture>, b: &Vec<Subtexture>) -> (r: bool)
    ensures
        r == (subs_view(a@) == subs_view(b@)),
{
    if a.len() != b.len() {
        proof {
            assert(subs_view(a@).len() == a@.len());
            assert(subs_view(b@).len() == b@.len());
        }
        return false;
    }
    let mut i: usize = 0;
    while i < a.len()
        invariant
            i <= a@.len(),
            a@.len() == b@.len(),
            forall|j: int| 0 <= j < i ==> a@[j]@ == b@[j]@,
        decreases a@.len() - i,
    {
        if !mips_eq(&a[i].mipmaps, &b[i].mipmaps) {
            proof {
                assert(subs_view(a@)[i as int] == a@[i as int]@);
                assert(subs_view(b@)[i as int] == b@[i as int]@);
            }
            return false;
        }
        i = i + 1;
    }
    proof {
        assert(subs_view(a@) =~= subs_view(b@));
    }
    true
}

impl PartialEq for Texture {
    /// Structural equality: the subtextures element for element.
    fn eq(&self, o: &Texture) -> (r: bool) {
        subs_eq(&self.subtextures, &o.subtextures)
    }
}

impl vstd::std_specs::cmp::PartialEqSpecImpl for Texture {
    open spec fn obeys_eq_spec() -> bool {
        true
    }

    open spec fn eq_spec(&self, o: &Texture) -> bool {
        self@ == o@
    }
}

fn texs_eq(a: &Vec<Texture>, b: &Vec<Texture>) -> (r: bool)
    ensures
        r == (texs_view(a@) == texs_view(b@)),
{
    if a.len() != b.len() {
        proof {
            assert(texs_view(a@).len() == a@.len());
            assert(texs_view(b@).len() == b@.len());
        }
        return false;
    }
    let mut i: usize = 0;
    while i < a.len()
        invariant
            i <= a@.len(),
            a@.len() == b@.len(),
            forall|j: int| 0 <= j < i ==> a@[j]@ == b@[j]@,
        decreases a@.len() - i,
    {
        if !subs_eq(&a[i].subtextures, &b[i].subtextures) {
            proof {
                assert(texs_view(a@)[i as int] == a@[i as int]@);
                assert(texs_view(b@)[i as int] == b@[i as int]@);
            }
            return false;
        }
        i = i + 1;
    }
    proof {
        assert(texs_view(a@) =~= texs_view(b@));
    }
    true
}

impl PartialEq for TextureAtlas {
    /// Structural equality: the textures element for element.
    fn eq(&self, o: &TextureAtlas) -> (r: bool) {
        texs_eq(&self.0, &o.0)
    }
}

impl vstd::std_specs::cmp::PartialEqSpecImpl for TextureAtlas {
    open spec fn obeys_eq_spec() -> bool {
        true
    }

    open spec fn eq_spec(&self, o: &TextureAtlas) -> bool {
        self@ == o@
    }
}

} // verus!
