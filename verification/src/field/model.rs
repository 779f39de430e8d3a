//! The static model subset the field draws: resource dictionaries,
//! material bindings, the structure command program that pairs materials
//! with shapes, and the packed GX display lists of the shapes. Node
//! transforms other than identity and commands outside the subset fail
//! explicitly.

use vstd::prelude::*;
use vstd::utf8::*;
use std::sync::Arc;
use crate::nds::{NdsError, spec_u16le, spec_u32le, u16le, u32le, slice_range, utf8};
use crate::formats::btx::{Btx, BtxTexture, BtxPalette, TexFmt};

verus! {

/// A decoded texture and its bound palette.
#[derive(Debug, Clone, PartialEq, Eq)]
pub struct Texture {
    /// Width in pixels.
    pub width: usize,
    /// Height in pixels.
    pub height: usize,
    /// Row-major RGBA8 pixels.
    pub pixels: Vec<[u8; 4]>,
}

/// A vertex after the static node and placement transforms.
#[derive(Debug, Clone, Copy, PartialEq, Eq)]
pub struct Vertex {
    /// World coordinates with twelve fractional bits.
    pub position: [i32; 3],
    /// Texture coordinates with four fractional bits.
    pub uv: [i16; 2],
    /// Vertex color in BGR555.
    pub color: u16,
}

/// Where a model is drawn: translation, rotation in column-vector form
/// (`v' = R · v`) and per-axis scale, all fx32.
#[derive(Debug, Clone, Copy, PartialEq, Eq, Hash)]
pub struct Placement {
    /// Translation, fx32.
    pub translation: [i32; 3],
    /// Rotation, fx32, column-vector form.
    pub rotation: [[i32; 3]; 3],
    /// Per-axis scale, fx32.
    pub scale: [i32; 3],
}

/// A single material/shape draw.
#[derive(Debug, Clone, PartialEq, Eq)]
pub struct Mesh {
    /// Triangles, in draw order.
    pub triangles: Vec<[Vertex; 3]>,
    /// The bound texture; absent for solid-color shapes such as shadows.
    pub texture: Option<Arc<Texture>>,
    /// The material's texture image parameters, repeat and flip bits
    /// included.
    pub texture_flags: u32,
    /// Polygon alpha, 0 to 31.
    pub alpha: u8,
}

/// `n` bytes of `b` from `p`: fails when the range overflows or runs past
/// the data.
fn take(b: &[u8], p: usize, n: usize) -> (res: Result<&[u8], NdsError>)
    ensures
        p + n <= b@.len() ==> (res matches Ok(r) && r@ == b@.subrange(p as int, p + n)),
        p + n > b@.len() ==> res is Err,
{
    if n > b.len() || p > b.len() - n {
        if p > usize::MAX - n {
            return Err(NdsError::Invalid { what: "model length" });
        }
        return Err(NdsError::Truncated { what: "model", need: p + n, got: b.len() });
    }
    Ok(slice_range(b, p, p + n))
}

/// The bytes of the 16-byte name slot at `at` up to its first NUL.
pub open spec fn slot_name(b: Seq<u8>, at: int) -> Seq<u8> {
    b.subrange(at, at + first_nul(b, at, 0))
}

/// The first NUL of the 16 bytes at `at`, from `k` on (16 when none).
pub open spec fn first_nul(b: Seq<u8>, at: int, k: int) -> int
    decreases 16 - k,
{
    if k < 0 || k >= 16 {
        16
    } else if b[at + k] == 0 {
        k
    } else {
        first_nul(b, at, k + 1)
    }
}

/// The entry count of the resource dictionary at `p`.
pub open spec fn rdict_count(b: Seq<u8>, p: int) -> int {
    b[p + 1] as int
}

/// Where the entry header of the dictionary at `p` sits.
pub open spec fn rdict_entry(b: Seq<u8>, p: int) -> int {
    p + spec_u16le(b, p + 6)
}

/// The payload size of the dictionary at `p`.
pub open spec fn rdict_unit(b: Seq<u8>, p: int) -> int {
    spec_u16le(b, rdict_entry(b, p)) as int
}

/// Where the name slots of the dictionary at `p` sit.
pub open spec fn rdict_names(b: Seq<u8>, p: int) -> int {
    rdict_entry(b, p) + spec_u16le(b, rdict_entry(b, p) + 2)
}

/// Where name slot `i` of the dictionary at `p` sits.
pub open spec fn rdict_slot(b: Seq<u8>, p: int, i: int) -> int {
    rdict_names(b, p) + 16 * i
}

/// Where payload `i` of the dictionary at `p` sits.
pub open spec fn rdict_payload_at(b: Seq<u8>, p: int, i: int) -> int {
    rdict_entry(b, p) + 4 + i * rdict_unit(b, p)
}

/// Whether entry `i` of the dictionary at `p` reads: its slot and its
/// payload inside `b` and its name UTF-8.
pub open spec fn rdict_entry_ok(b: Seq<u8>, p: int, i: int) -> bool {
    &&& rdict_slot(b, p, i) + 16 <= b.len()
    &&& valid_utf8(slot_name(b, rdict_slot(b, p, i)))
    &&& rdict_payload_at(b, p, i) + rdict_unit(b, p) <= b.len()
}

/// Whether the dictionary at `p` reads.
pub open spec fn rdict_ok(b: Seq<u8>, p: int) -> bool {
    &&& p + 8 <= b.len()
    &&& rdict_entry(b, p) + 4 <= b.len()
    &&& forall|i: int| 0 <= i < rdict_count(b, p) ==> #[trigger] rdict_entry_ok(b, p, i)
}

/// Entry `e` is entry `i` of the dictionary at `p`.
pub open spec fn rdict_entry_is(e: (&str, &[u8]), b: Seq<u8>, p: int, i: int) -> bool {
    &&& e.0@ == decode_utf8(slot_name(b, rdict_slot(b, p, i)))
    &&& e.1@ == b.subrange(rdict_payload_at(b, p, i), rdict_payload_at(b, p, i) + rdict_unit(b, p))
}

/// The name in the 16-byte slot at `at`, as text.
fn read_slot_name<'a>(b: &'a [u8], at: usize) -> (res: Result<&'a str, NdsError>)
    requires
        at + 16 <= b.len(),
    ensures
        res is Ok <==> valid_utf8(slot_name(b@, at as int)),
        res matches Ok(n) ==> n@ == decode_utf8(slot_name(b@, at as int)),
{
    let mut k: usize = 0;
    while k < 16 && b[at + k] != 0
        invariant
            at + 16 <= b.len(),
            k <= 16,
            first_nul(b@, at as int, 0) == first_nul(b@, at as int, k as int),
        decreases 16 - k,
    {
        k = k + 1;
    }
    match utf8(slice_range(b, at, at + k)) {
        Some(n) => Ok(n),
        None => Err(NdsError::Invalid { what: "model name" }),
    }
}

/// Reads the resource dictionary at `p`: each entry's name and payload.
fn dict<'a>(b: &'a [u8], p: usize) -> (res: Result<Vec<(&'a str, &'a [u8])>, NdsError>)
    requires
        b@.len() <= isize::MAX,
    ensures
        res is Ok <==> rdict_ok(b@, p as int),
        res matches Ok(v) ==> v@.len() == rdict_count(b@, p as int) && forall|i: int|
            0 <= i < v@.len() ==> #[trigger] rdict_entry_is(v@[i], b@, p as int, i),
{
    let ghost s = b@;
    let head = take(b, p, 8)?;
    let e = p + u16le(head, 6)? as usize;
    let size = u16le(b, e)? as usize;
    let names = e + u16le(b, e + 2)? as usize;
    assert(head@[6] == s[p + 6] && head@[7] == s[p + 7]);
    let count = head[1] as usize;
    let mut out: Vec<(&'a str, &'a [u8])> = Vec::new();
    let mut i: usize = 0;
    while i < count
        invariant
            s == b@,
            s.len() <= isize::MAX,
            p + 8 <= s.len(),
            e == rdict_entry(s, p as int),
            e + 4 <= s.len(),
            size == rdict_unit(s, p as int),
            names == rdict_names(s, p as int),
            count == rdict_count(s, p as int),
            i <= count,
            out@.len() == i,
            forall|k: int| 0 <= k < i ==> #[trigger] rdict_entry_ok(s, p as int, k),
            forall|k: int| 0 <= k < i ==> #[trigger] rdict_entry_is(out@[k], s, p as int, k),
        decreases count - i,
    {
        let slot = take(b, names + 16 * i, 16);
        if slot.is_err() {
            assert(!rdict_entry_ok(s, p as int, i as int));
            return Err(NdsError::Truncated { what: "model", need: names + 16 * i + 16, got: b.len() });
        }
        let name = match read_slot_name(b, names + 16 * i) {
            Ok(n) => n,
            Err(err) => {
                assert(!rdict_entry_ok(s, p as int, i as int));
                return Err(err);
            },
        };
        proof {
            assert(i * size <= 255 * 65535) by (nonlinear_arith)
                requires
                    i < count,
                    count <= 255,
                    size <= 65535,
            ;
        }
        let payload = match take(b, e + 4 + i * size, size) {
            Ok(r) => r,
            Err(err) => {
                assert(!rdict_entry_ok(s, p as int, i as int));
                return Err(err);
            },
        };
        out.push((name, payload));
        i = i + 1;
    }
    Ok(out)
}

/// The data byte texel `i` of a `fmt` texture reads.
pub open spec fn texel_byte(fmt: TexFmt, i: int) -> int {
    match fmt {
        TexFmt::Pltt4 => i / 4,
        TexFmt::Pltt16 => i / 2,
        _ => i,
    }
}

/// The palette index of texel `i` of a `fmt` texture whose data byte is
/// `byte`.
pub open spec fn texel_index(fmt: TexFmt, byte: u8, i: int) -> int {
    match fmt {
        TexFmt::Pltt4 => (byte as int / if i % 4 == 0 {
            1int
        } else if i % 4 == 1 {
            4
        } else if i % 4 == 2 {
            16
        } else {
            64
        }) % 4,
        TexFmt::Pltt16 => if i % 2 == 0 {
            byte as int % 16
        } else {
            byte as int / 16
        },
        TexFmt::Pltt256 => byte as int,
        TexFmt::A3i5 => byte as int % 32,
        TexFmt::A5i3 => byte as int % 8,
    }
}

/// The alpha of a `fmt` texel whose data byte is `byte`.
pub open spec fn texel_alpha(fmt: TexFmt, byte: u8) -> int {
    match fmt {
        TexFmt::A3i5 => (byte as int / 32) * 255 / 7,
        TexFmt::A5i3 => (byte as int / 8) * 255 / 31,
        _ => 255,
    }
}

/// A 5-bit channel widened to 8 bits.
pub open spec fn expand5(v: int) -> int {
    v * 8 + v / 4
}

/// Whether texel `i` of `t` decodes against `q`: its data byte and its
/// palette color exist.
pub open spec fn texel_ok(t: BtxTexture, q: BtxPalette, i: int) -> bool {
    let bi = texel_byte(t.spec_fmt(), i);
    &&& bi < t.spec_data().len()
    &&& texel_index(t.spec_fmt(), t.spec_data()[bi], i) * 2 + 2 <= q.spec_data().len()
}

/// The RGBA8 pixel of texel `i` of `t` against `q`.
pub open spec fn texel_rgba(t: BtxTexture, q: BtxPalette, i: int) -> Seq<u8> {
    let byte = t.spec_data()[texel_byte(t.spec_fmt(), i)];
    let index = texel_index(t.spec_fmt(), byte, i);
    let rgb = spec_u16le(q.spec_data(), index * 2) as int;
    let a = if index == 0 && t.spec_color0() {
        0
    } else {
        texel_alpha(t.spec_fmt(), byte)
    };
    seq![expand5(rgb % 32) as u8, expand5((rgb / 32) % 32) as u8, expand5((rgb / 1024) % 32) as u8, a as u8]
}

/// Whether every texel of `t` decodes against `q`.
pub open spec fn texture_ok(t: BtxTexture, q: BtxPalette) -> bool {
    forall|i: int| 0 <= i < t.spec_width() * t.spec_height() ==> #[trigger] texel_ok(t, q, i)
}

/// Whether `texture` holds the texels of `t` decoded against `q`.
pub open spec fn texture_decoded(texture: Texture, t: BtxTexture, q: BtxPalette) -> bool {
    &&& texture.width == t.spec_width()
    &&& texture.height == t.spec_height()
    &&& texture.pixels@.len() == t.spec_width() * t.spec_height()
    &&& forall|i: int|
        0 <= i < texture.pixels@.len() ==> #[trigger] texture.pixels@[i]@ == texel_rgba(t, q, i)
}

/// Whether texture `k` of `btx` is the first named `name`.
pub open spec fn first_texture(btx: Btx, name: Seq<char>, k: int) -> bool {
    &&& 0 <= k < btx.spec_textures().len()
    &&& btx.spec_textures()[k].spec_name()@ == name
    &&& forall|j: int| 0 <= j < k ==> btx.spec_textures()[j].spec_name()@ != name
}

/// Whether palette `k` of `btx` is the first named `name`.
pub open spec fn first_palette(btx: Btx, name: Seq<char>, k: int) -> bool {
    &&& 0 <= k < btx.spec_palettes().len()
    &&& btx.spec_palettes()[k].spec_name()@ == name
    &&& forall|j: int| 0 <= j < k ==> btx.spec_palettes()[j].spec_name()@ != name
}

/// Whether binding `name` and `palette` of `btx` decodes: both exist and
/// every texel of the first texture so named decodes against the first
/// palette so named.
pub open spec fn binding_ok(btx: Btx, name: Seq<char>, palette: Seq<char>) -> bool {
    exists|kt: int, kq: int|
        first_texture(btx, name, kt) && first_palette(btx, palette, kq) && texture_ok(
            #[trigger] btx.spec_textures()[kt],
            #[trigger] btx.spec_palettes()[kq],
        )
}

/// Whether `texture` is the binding of `name` and `palette` of `btx`
/// decoded.
pub open spec fn binding_decoded(texture: Texture, btx: Btx, name: Seq<char>, palette: Seq<char>) -> bool {
    exists|kt: int, kq: int|
        first_texture(btx, name, kt) && first_palette(btx, palette, kq) && texture_decoded(
            texture,
            #[trigger] btx.spec_textures()[kt],
            #[trigger] btx.spec_palettes()[kq],
        )
}

fn expand(v: u16) -> (res: u8)
    requires
        v < 32,
    ensures
        res == expand5(v as int),
{
    (v * 8 + v / 4) as u8
}

/// Texel `i` of `t` decoded against `q`.
fn decode_texel(t: &BtxTexture, q: &BtxPalette, i: u64) -> (res: Result<[u8; 4], NdsError>)
    ensures
        res is Ok <==> texel_ok(*t, *q, i as int),
        res matches Ok(px) ==> px@ == texel_rgba(*t, *q, i as int),
{
    let fmt = t.fmt();
    let data = t.data();
    let bi: u64 = match fmt {
        TexFmt::Pltt4 => i / 4,
        TexFmt::Pltt16 => i / 2,
        _ => i,
    };
    if bi >= data.len() as u64 {
        return Err(NdsError::Invalid { what: "texture pixels" });
    }
    let byte = data[bi as usize];
    let index: u16 = match fmt {
        TexFmt::Pltt4 => {
            let d: u8 = if i % 4 == 0 {
                1
            } else if i % 4 == 1 {
                4
            } else if i % 4 == 2 {
                16
            } else {
                64
            };
            (byte / d % 4) as u16
        },
        TexFmt::Pltt16 => if i % 2 == 0 {
            (byte % 16) as u16
        } else {
            (byte / 16) as u16
        },
        TexFmt::Pltt256 => byte as u16,
        TexFmt::A3i5 => (byte % 32) as u16,
        TexFmt::A5i3 => (byte % 8) as u16,
    };
    let alpha: u8 = match fmt {
        TexFmt::A3i5 => ((byte / 32) as u16 * 255 / 7) as u8,
        TexFmt::A5i3 => ((byte / 8) as u16 * 255 / 31) as u8,
        _ => 255,
    };
    let rgb = match u16le(q.data(), index as usize * 2) {
        Ok(v) => v,
        Err(e) => {
            return Err(e);
        },
    };
    let a = if index == 0 && t.color0_transparent() {
        0
    } else {
        alpha
    };
    let px = [expand(rgb % 32), expand(rgb / 32 % 32), expand(rgb / 1024 % 32), a];
    assert(px@ =~= texel_rgba(*t, *q, i as int));
    Ok(px)
}

/// Decodes texture `name` of `btx` against its palette `palette`: the
/// first texture and the first palette with those names, every texel
/// looked up in the palette as RGBA8 (color 0 transparent where the
/// texture says so).
pub fn decode_texture(btx: &Btx, name: &str, palette: &str) -> (res: Result<Texture, NdsError>)
    ensures
        res is Ok <==> binding_ok(*btx, name@, palette@),
        res matches Ok(t) ==> binding_decoded(t, *btx, name@, palette@),
{
    let tex = match btx.texture_by_name(name) {
        Some(t) => t,
        None => {
            return Err(NdsError::Invalid { what: "material texture binding" });
        },
    };
    let pal = match btx.palette_by_name(palette) {
        Some(q) => q,
        None => {
            return Err(NdsError::Invalid { what: "material palette binding" });
        },
    };
    let ghost kt = choose|k: int|
        0 <= k < btx.spec_textures().len() && tex == &btx.spec_textures()[k]
            && btx.spec_textures()[k].spec_name()@ == name@ && forall|j: int|
            0 <= j < k ==> btx.spec_textures()[j].spec_name()@ != name@;
    let ghost kq = choose|k: int|
        0 <= k < btx.spec_palettes().len() && pal == &btx.spec_palettes()[k]
            && btx.spec_palettes()[k].spec_name()@ == palette@ && forall|j: int|
            0 <= j < k ==> btx.spec_palettes()[j].spec_name()@ != palette@;
    assert(first_texture(*btx, name@, kt));
    assert(first_palette(*btx, palette@, kq));
    proof {
        lemma_first_texture_unique(*btx, name@, kt);
        lemma_first_palette_unique(*btx, palette@, kq);
    }
    proof {
        assert(tex.spec_width() * tex.spec_height() <= 0xFFFF * 0xFFFF) by (nonlinear_arith)
            requires
                tex.spec_width() <= 0xFFFF,
                tex.spec_height() <= 0xFFFF,
        ;
    }
    let n: u64 = tex.width() as u64 * tex.height() as u64;
    let mut pixels: Vec<[u8; 4]> = Vec::new();
    let mut i: u64 = 0;
    while i < n
        invariant
            n == tex.spec_width() * tex.spec_height(),
            first_texture(*btx, name@, kt),
            first_palette(*btx, palette@, kq),
            *tex == btx.spec_textures()[kt],
            *pal == btx.spec_palettes()[kq],
            i <= n,
            pixels@.len() == i,
            forall|k: int| 0 <= k < i ==> #[trigger] texel_ok(*tex, *pal, k),
            forall|k: int| 0 <= k < i ==> #[trigger] pixels@[k]@ == texel_rgba(*tex, *pal, k),
        decreases n - i,
    {
        match decode_texel(tex, pal, i) {
            Ok(px) => pixels.push(px),
            Err(e) => {
                proof {
                    assert(!texture_ok(*tex, *pal));
                    lemma_first_texture_unique(*btx, name@, kt);
                    lemma_first_palette_unique(*btx, palette@, kq);
                    if binding_ok(*btx, name@, palette@) {
                        let (a, b) = choose|a: int, b: int|
                            first_texture(*btx, name@, a) && first_palette(*btx, palette@, b) && texture_ok(
                                #[trigger] btx.spec_textures()[a],
                                #[trigger] btx.spec_palettes()[b],
                            );
                        assert(a == kt && b == kq);
                    }
                }
                return Err(e);
            },
        }
        i = i + 1;
    }
    let t = Texture { width: tex.width() as usize, height: tex.height() as usize, pixels };
    assert(texture_decoded(t, *tex, *pal));
    Ok(t)
}

/// Only one texture is the first with a name.
proof fn lemma_first_texture_unique(btx: Btx, name: Seq<char>, k: int)
    requires
        first_texture(btx, name, k),
    ensures
        forall|j: int| #[trigger] first_texture(btx, name, j) ==> j == k,
{
}

/// Only one palette is the first with a name.
proof fn lemma_first_palette_unique(btx: Btx, name: Seq<char>, k: int)
    requires
        first_palette(btx, name, k),
    ensures
        forall|j: int| #[trigger] first_palette(btx, name, j) ==> j == k,
{
}

/// A vertex as integers: world x, y, z, texture s, t, color.
pub type Sv = (int, int, int, int, int, int);

/// The integers of a vertex.
pub open spec fn sv_of(v: Vertex) -> Sv {
    (
        v.position[0] as int,
        v.position[1] as int,
        v.position[2] as int,
        v.uv[0] as int,
        v.uv[1] as int,
        v.color as int,
    )
}

/// The integers of a triangle.
pub open spec fn st_of(t: [Vertex; 3]) -> (Sv, Sv, Sv) {
    (sv_of(t[0]), sv_of(t[1]), sv_of(t[2]))
}

/// The GX state a display list runs on: the current position, texture
/// coordinates and color, the primitive type (-1 outside a primitive),
/// the vertices of the current primitive and the triangles so far.
pub struct Gx {
    pub pos: (int, int, int),
    pub uv: (int, int),
    pub color: int,
    pub prim: int,
    pub verts: Seq<Sv>,
    pub tris: Seq<(Sv, Sv, Sv)>,
}

/// How a display list ends: its triangles, a failure, or an arithmetic
/// overflow.
pub enum GxEnd {
    Done(Seq<(Sv, Sv, Sv)>),
    Fail,
    Overflow,
}

/// The 16-bit two's-complement value of the low 16 bits of `x`.
pub open spec fn s16(x: int) -> int {
    if x % 0x10000 >= 0x8000 {
        x % 0x10000 - 0x10000
    } else {
        x % 0x10000
    }
}

/// The 10-bit two's-complement value of the low 10 bits of `x`.
pub open spec fn s10(x: int) -> int {
    if x % 0x400 >= 0x200 {
        x % 0x400 - 0x400
    } else {
        x % 0x400
    }
}

/// `x` wrapped to 32 bits, two's complement.
pub open spec fn wrap32(x: int) -> int {
    (x + 0x8000_0000) % 0x1_0000_0000 - 0x8000_0000
}

/// Whether `x` fits an `i32`.
pub open spec fn fits32(x: int) -> bool {
    -0x8000_0000 <= x <= 0x7FFF_FFFF
}

/// The argument words of GX command `op` (-1: not in the subset).
pub open spec fn gx_args(op: u8) -> int {
    if op == 0 || op == 0x41 {
        0
    } else if op == 0x23 {
        2
    } else if (0x20 <= op <= 0x22) || (0x24 <= op <= 0x2B) || op == 0x40 {
        1
    } else {
        -1
    }
}

/// The world coordinate of model coordinate `v` under `scale` (fx32)
/// placed at `t`.
pub open spec fn world(v: int, scale: int, t: int) -> int {
    t + wrap32((v * scale) / 4096)
}

/// The triangles the primitive type `prim` closes once `verts` holds
/// its vertices so far.
#[verifier::opaque]
pub open spec fn closed_tris(prim: int, verts: Seq<Sv>) -> Seq<(Sv, Sv, Sv)> {
    let n = verts.len() as int;
    if prim == 0 && n % 3 == 0 {
        seq![(verts[n - 3], verts[n - 2], verts[n - 1])]
    } else if prim == 1 && n % 4 == 0 {
        seq![(verts[n - 4], verts[n - 3], verts[n - 2]), (verts[n - 4], verts[n - 2], verts[n - 1])]
    } else if prim == 2 && n >= 3 {
        if n % 2 == 1 {
            seq![(verts[n - 3], verts[n - 2], verts[n - 1])]
        } else {
            seq![(verts[n - 2], verts[n - 3], verts[n - 1])]
        }
    } else if prim == 3 && n >= 4 && n % 2 == 0 {
        seq![(verts[n - 4], verts[n - 3], verts[n - 1]), (verts[n - 4], verts[n - 1], verts[n - 2])]
    } else {
        Seq::empty()
    }
}

/// The state after command `op` with argument words `a` and `a2`,
/// before any vertex is emitted; `None` on an overflow.
#[verifier::opaque]
pub open spec fn gx_apply(g: Gx, op: u8, a: int, a2: int) -> Option<Gx> {
    if op == 0x20 {
        Some(Gx { color: a % 0x8000, ..g })
    } else if op == 0x22 {
        Some(Gx { uv: (s16(a), s16(a / 0x10000)), ..g })
    } else if op == 0x23 {
        Some(Gx { pos: (s16(a), s16(a / 0x10000), s16(a2)), ..g })
    } else if op == 0x24 {
        Some(
            Gx {
                pos: (s10(a) * 64, s10(a / 0x400) * 64, s10(a / 0x10_0000) * 64),
                ..g
            },
        )
    } else if op == 0x25 {
        Some(Gx { pos: (s16(a), s16(a / 0x10000), g.pos.2), ..g })
    } else if op == 0x26 {
        Some(Gx { pos: (s16(a), g.pos.1, s16(a / 0x10000)), ..g })
    } else if op == 0x27 {
        Some(Gx { pos: (g.pos.0, s16(a), s16(a / 0x10000)), ..g })
    } else if op == 0x28 {
        let x = g.pos.0 + s10(a);
        let y = g.pos.1 + s10(a / 0x400);
        let z = g.pos.2 + s10(a / 0x10_0000);
        if fits32(x) && fits32(y) && fits32(z) {
            Some(Gx { pos: (x, y, z), ..g })
        } else {
            None
        }
    } else if op == 0x40 {
        Some(Gx { prim: a % 4, verts: Seq::empty(), ..g })
    } else if op == 0x41 {
        Some(Gx { prim: -1, ..g })
    } else {
        Some(g)
    }
}

/// The vertex command `op` emits from state `g`, if it emits one.
pub open spec fn emits(op: u8) -> bool {
    0x23 <= op <= 0x28
}

/// The vertex emitted at `g`'s position.
pub open spec fn emitted(g: Gx, scale: int, t: (int, int, int)) -> Sv {
    (
        world(g.pos.0, scale, t.0),
        world(g.pos.1, scale, t.1),
        world(g.pos.2, scale, t.2),
        g.uv.0,
        g.uv.1,
        g.color,
    )
}

/// Command `op` at argument cursor `p`: the outcome (0 done, 1 failed,
/// 2 overflowed), the state after it and the next argument cursor.
pub open spec fn gx_step(b: Seq<u8>, scale: int, t: (int, int, int), g: Gx, op: u8, p: int) -> (
    int,
    Gx,
    int,
) {
    let n = gx_args(op);
    if n < 0 || p + 4 * n > b.len() {
        (1, g, p)
    } else {
        let a = if n > 0 {
            spec_u32le(b, p) as int
        } else {
            0
        };
        let a2 = if n > 1 {
            spec_u32le(b, p + 4) as int
        } else {
            0
        };
        match gx_apply(g, op, a, a2) {
            None => (2, g, p),
            Some(g1) => if !emits(op) {
                (0, g1, p + 4 * n)
            } else if g1.prim < 0 {
                (1, g1, p + 4 * n)
            } else {
                let v = emitted(g1, scale, t);
                if !(fits32(v.0) && fits32(v.1) && fits32(v.2)) {
                    (2, g1, p)
                } else {
                    let verts = g1.verts.push(v);
                    (0, Gx { verts, tris: g1.tris + closed_tris(g1.prim, verts), ..g1 }, p + 4 * n)
                }
            },
        }
    }
}

/// Runs the display list `b` from state `g`: `k` is the next command of
/// the packet whose command bytes start at `q` (4: the packet is done),
/// `p` the next argument or packet word.
pub open spec fn gx_run(b: Seq<u8>, scale: int, t: (int, int, int), g: Gx, q: int, k: int, p: int) -> GxEnd
    decreases (if p <= b.len() {
        b.len() - p
    } else {
        0
    }), 4 - k,
{
    if k >= 4 {
        if p >= b.len() {
            GxEnd::Done(g.tris)
        } else if p + 4 > b.len() {
            GxEnd::Fail
        } else {
            gx_run(b, scale, t, g, p, 0, p + 4)
        }
    } else if k < 0 || q < 0 || q + k >= b.len() {
        GxEnd::Fail
    } else {
        let (st, g2, p2) = gx_step(b, scale, t, g, b[q + k], p);
        if st == 1 {
            GxEnd::Fail
        } else if st == 2 || p2 < p {
            GxEnd::Overflow
        } else {
            gx_run(b, scale, t, g2, q, k + 1, p2)
        }
    }
}

/// The state a display list starts in.
pub open spec fn gx_start(initial: int) -> Gx {
    Gx { pos: (0, 0, 0), uv: (0, 0), color: initial, prim: -1, verts: Seq::empty(), tris: Seq::empty() }
}

/// The run of display list `b` under `scale` placed at `t` with the
/// initial color `initial`.
pub open spec fn display_run(b: Seq<u8>, scale: int, t: (int, int, int), initial: int) -> GxEnd {
    gx_run(b, scale, t, gx_start(initial), 0, 4, 0)
}

/// The executable GX state.
struct GxExec {
    position: [i32; 3],
    uv: [i16; 2],
    color: u16,
    prim: Option<u32>,
    vertices: Vec<Vertex>,
    triangles: Vec<[Vertex; 3]>,
}

impl GxExec {
    /// The state as integers.
    spec fn gx(&self) -> Gx {
        Gx {
            pos: (self.position[0] as int, self.position[1] as int, self.position[2] as int),
            uv: (self.uv[0] as int, self.uv[1] as int),
            color: self.color as int,
            prim: match self.prim {
                Some(v) => v as int,
                None => -1,
            },
            verts: self.vertices@.map_values(|v: Vertex| sv_of(v)),
            tris: self.triangles@.map_values(|t: [Vertex; 3]| st_of(t)),
        }
    }

    spec fn wf(&self) -> bool {
        &&& self.color < 0x8000 || true
        &&& self.prim matches Some(v) ==> v < 4
    }
}

/// The 16-bit two's-complement value of the low 16 bits of `x`.
fn low16(x: u32) -> (res: i32)
    ensures
        res == s16(x as int),
        -0x8000 <= res < 0x8000,
{
    let lo = x % 0x10000;
    if lo >= 0x8000 {
        lo as i32 - 0x10000
    } else {
        lo as i32
    }
}

/// The 10-bit two's-complement value of the low 10 bits of `x`.
fn low10(x: u32) -> (res: i32)
    ensures
        res == s10(x as int),
        -0x200 <= res < 0x200,
{
    let lo = x % 0x400;
    if lo >= 0x200 {
        lo as i32 - 0x400
    } else {
        lo as i32
    }
}

/// The world coordinate of `v` under `scale` placed at `t`.
#[verifier::spinoff_prover]
fn world_of(v: i32, scale: i32, t: i32) -> (res: i32)
    requires
        fits32(world(v as int, scale as int, t as int)),
    ensures
        res == world(v as int, scale as int, t as int),
{
    proof {
        assert(-0x4000_0000_0000_0000 <= v * scale <= 0x4000_0000_0000_0000) by (nonlinear_arith)
            requires
                -0x8000_0000 <= v <= 0x7FFF_FFFF,
                -0x8000_0000 <= scale <= 0x7FFF_FFFF,
        ;
    }
    let x: i128 = v as i128 * scale as i128;
    let f: i128 = floor4096(x);
    let m: i128 = (f + 0x10_0000_0000_0000 + 0x8000_0000) % 0x1_0000_0000 - 0x8000_0000;
    assert(m == wrap32(x / 4096)) by {
        assert(-0x4_0000_0000_0000 <= f <= 0x4_0000_0000_0000);
    }
    (t as i128 + m) as i32
}

/// `x / 4096`, rounded down.
fn floor4096(x: i128) -> (res: i128)
    requires
        -0x4000_0000_0000_0000 <= x <= 0x4000_0000_0000_0000,
    ensures
        res == x / 4096,
        -0x4_0000_0000_0000 <= res <= 0x4_0000_0000_0000,
{
    if x >= 0 {
        x / 4096
    } else {
        let r = -((-x + 4095) / 4096);
        assert(r == x / 4096) by (nonlinear_arith)
            requires
                x < 0,
                r == -((-x + 4095) / 4096),
        ;
        r
    }
}

/// Applies command `op` with argument words `a` and `a2`.
fn gx_exec_apply(st: &mut GxExec, op: u8, a: u32, a2: u32)
    requires
        old(st).wf(),
        gx_apply(old(st).gx(), op, a as int, a2 as int) is Some,
    ensures
        final(st).gx() == gx_apply(old(st).gx(), op, a as int, a2 as int).unwrap(),
        final(st).wf(),
{
    let ghost g0 = st.gx();
    reveal(gx_apply);
    if op == 0x20 {
        st.color = (a % 0x8000) as u16;
    } else if op == 0x22 {
        st.uv = [low16(a) as i16, low16(a / 0x10000) as i16];
    } else if op == 0x23 {
        st.position = [low16(a), low16(a / 0x10000), low16(a2)];
    } else if op == 0x24 {
        st.position = [low10(a) * 64, low10(a / 0x400) * 64, low10(a / 0x10_0000) * 64];
    } else if op == 0x25 {
        st.position = [low16(a), low16(a / 0x10000), st.position[2]];
    } else if op == 0x26 {
        st.position = [low16(a), st.position[1], low16(a / 0x10000)];
    } else if op == 0x27 {
        st.position = [st.position[0], low16(a), low16(a / 0x10000)];
    } else if op == 0x28 {
        let x = st.position[0] + low10(a);
        let y = st.position[1] + low10(a / 0x400);
        let z = st.position[2] + low10(a / 0x10_0000);
        st.position = [x, y, z];
    } else if op == 0x40 {
        st.prim = Some(a % 4);
        st.vertices = Vec::new();
    } else if op == 0x41 {
        st.prim = None;
    }
    assert(st.gx().verts =~= gx_apply(g0, op, a as int, a2 as int).unwrap().verts);
}

/// Emits the vertex at the current position and the triangles it
/// closes.
fn gx_exec_emit(st: &mut GxExec, scale: i32, t: &[i32; 3])
    requires
        old(st).wf(),
        old(st).prim is Some,
        ({
            let v = emitted(old(st).gx(), scale as int, (t[0] as int, t[1] as int, t[2] as int));
            fits32(v.0) && fits32(v.1) && fits32(v.2)
        }),
    ensures
        final(st).wf(),
        ({
            let g = old(st).gx();
            let verts = g.verts.push(emitted(g, scale as int, (t[0] as int, t[1] as int, t[2] as int)));
            final(st).gx() == Gx { verts, tris: g.tris + closed_tris(g.prim, verts), ..g }
        }),
{
    let ghost g = st.gx();
    reveal(closed_tris);
    let prim = match st.prim {
        Some(v) => v,
        None => 0,
    };
    let v = Vertex {
        position: [
            world_of(st.position[0], scale, t[0]),
            world_of(st.position[1], scale, t[1]),
            world_of(st.position[2], scale, t[2]),
        ],
        uv: st.uv,
        color: st.color,
    };
    let ghost verts = g.verts.push(sv_of(v));
    st.vertices.push(v);
    assert(st.vertices@.map_values(|v: Vertex| sv_of(v)) =~= verts);
    let n = st.vertices.len();
    if prim == 0 && n % 3 == 0 {
        let tri = [st.vertices[n - 3], st.vertices[n - 2], st.vertices[n - 1]];
        st.triangles.push(tri);
    } else if prim == 1 && n % 4 == 0 {
        let t1 = [st.vertices[n - 4], st.vertices[n - 3], st.vertices[n - 2]];
        let t2 = [st.vertices[n - 4], st.vertices[n - 2], st.vertices[n - 1]];
        st.triangles.push(t1);
        st.triangles.push(t2);
    } else if prim == 2 && n >= 3 {
        if n % 2 == 1 {
            let tri = [st.vertices[n - 3], st.vertices[n - 2], st.vertices[n - 1]];
            st.triangles.push(tri);
        } else {
            let tri = [st.vertices[n - 2], st.vertices[n - 3], st.vertices[n - 1]];
            st.triangles.push(tri);
        }
    } else if prim == 3 && n >= 4 && n % 2 == 0 {
        let t1 = [st.vertices[n - 4], st.vertices[n - 3], st.vertices[n - 1]];
        let t2 = [st.vertices[n - 4], st.vertices[n - 1], st.vertices[n - 2]];
        st.triangles.push(t1);
        st.triangles.push(t2);
    }
    assert(st.gx().tris =~= g.tris + closed_tris(g.prim, verts));
    assert(st.gx().verts =~= verts);
}

/// Runs command `op` at argument cursor `p`; returns the next cursor.
fn gx_exec_step(b: &[u8], scale: i32, t: &[i32; 3], st: &mut GxExec, op: u8, p: usize) -> (res: Result<
    usize,
    NdsError,
>)
    requires
        old(st).wf(),
        gx_step(b@, scale as int, (t[0] as int, t[1] as int, t[2] as int), old(st).gx(), op, p as int).0 != 2,
        p <= b.len(),
    ensures
        ({
            let (o, g2, p2) = gx_step(
                b@,
                scale as int,
                (t[0] as int, t[1] as int, t[2] as int),
                old(st).gx(),
                op,
                p as int,
            );
            &&& o == 1 ==> res is Err
            &&& o == 0 ==> (res matches Ok(np) && np == p2 && final(st).gx() == g2 && final(st).wf())
        }),
{
    let n: usize = if op == 0 || op == 0x41 {
        0
    } else if op == 0x23 {
        2
    } else if (0x20 <= op && op <= 0x22) || (0x24 <= op && op <= 0x2B) || op == 0x40 {
        1
    } else {
        return Err(NdsError::Invalid { what: "unsupported field GX command" });
    };
    if 4 * n > b.len() - p {
        return Err(NdsError::Truncated { what: "model", need: p.saturating_add(4 * n), got: b.len() });
    }
    let a: u32 = if n > 0 {
        u32le(b, p)?
    } else {
        0
    };
    let a2: u32 = if n > 1 {
        u32le(b, p + 4)?
    } else {
        0
    };
    gx_exec_apply(st, op, a, a2);
    if 0x23 <= op && op <= 0x28 {
        if st.prim.is_none() {
            return Err(NdsError::Invalid { what: "vertex outside primitive" });
        }
        gx_exec_emit(st, scale, t);
    }
    Ok(p + 4 * n)
}

/// Runs the packed GX display list `b` of a shape: four command bytes per
/// word, each followed by its argument words; vertex commands place the
/// current position under `scale` (fx32) at `translation` and close the
/// triangles of the current primitive (separate triangles, quads,
/// triangle strips, quad strips). Fails on a command outside the subset,
/// a truncated word or a vertex outside a primitive.
fn display_list(b: &[u8], scale: i32, translation: [i32; 3], initial: u16) -> (res: Result<
    Vec<[Vertex; 3]>,
    NdsError,
>)
    requires
        !(display_run(
            b@,
            scale as int,
            (translation[0] as int, translation[1] as int, translation[2] as int),
            initial as int,
        ) is Overflow),
    ensures
        ({
            let r = display_run(
                b@,
                scale as int,
                (translation[0] as int, translation[1] as int, translation[2] as int),
                initial as int,
            );
            &&& res is Ok <==> r is Done
            &&& res matches Ok(v) ==> r matches GxEnd::Done(tris) && v@.map_values(|t: [Vertex; 3]| st_of(t))
                == tris
        }),
{
    let ghost tt = (translation[0] as int, translation[1] as int, translation[2] as int);
    let ghost run = display_run(b@, scale as int, tt, initial as int);
    let mut st = GxExec {
        position: [0, 0, 0],
        uv: [0, 0],
        color: initial,
        prim: None,
        vertices: Vec::new(),
        triangles: Vec::new(),
    };
    assert(st.gx().verts =~= Seq::<Sv>::empty());
    assert(st.gx().tris =~= Seq::<(Sv, Sv, Sv)>::empty());
    assert(st.gx() == gx_start(initial as int));
    let mut q: usize = 0;
    let mut k: usize = 4;
    let mut p: usize = 0;
    while k < 4 || p < b.len()
        invariant
            st.wf(),
            p <= b.len(),
            k <= 4,
            k < 4 ==> q + 4 <= b.len(),
            run == display_run(b@, scale as int, tt, initial as int),
            tt == (translation[0] as int, translation[1] as int, translation[2] as int),
            !(run is Overflow),
            gx_run(b@, scale as int, tt, st.gx(), q as int, k as int, p as int) == run,
        decreases b.len() - p, 4 - k,
    {
        if k >= 4 {
            if b.len() - p < 4 {
                return Err(NdsError::Truncated { what: "model", need: p.saturating_add(4), got: b.len() });
            }
            q = p;
            p = p + 4;
            k = 0;
        } else {
            let op = b[q + k];
            p = gx_exec_step(b, scale, &translation, &mut st, op, p)?;
            k = k + 1;
        }
    }
    Ok(st.triangles)
}

/// Whether `b` holds the four bytes `m0 m1 m2 m3` at `off`.
pub open spec fn magic_at(b: Seq<u8>, off: int, m0: u8, m1: u8, m2: u8, m3: u8) -> bool {
    off + 4 <= b.len() && b[off] == m0 && b[off + 1] == m1 && b[off + 2] == m2 && b[off + 3] == m3
}

/// The `u32` at `off`, when it is inside `b`.
pub open spec fn get32(b: Seq<u8>, off: int) -> Option<int> {
    if 0 <= off && off + 4 <= b.len() {
        Some(spec_u32le(b, off) as int)
    } else {
        None
    }
}

/// The `u16` at `off`, when it is inside `b`.
pub open spec fn get16(b: Seq<u8>, off: int) -> Option<int> {
    if 0 <= off && off + 2 <= b.len() {
        Some(spec_u16le(b, off) as int)
    } else {
        None
    }
}

/// The material ids entry `j` of the binding dictionary at `bd` lists
/// (offsets relative to the material block at `mat`), when they are
/// inside `m`.
pub open spec fn bind_ids(m: Seq<u8>, mat: int, bd: int, j: int) -> Option<Seq<u8>> {
    let at = rdict_payload_at(m, bd, j);
    if rdict_unit(m, bd) < 3 {
        None
    } else {
        let start = mat + spec_u16le(m, at);
        let n = m[at + 2] as int;
        if start + n <= m.len() {
            Some(m.subrange(start, start + n))
        } else {
            None
        }
    }
}

/// The binding dictionary of the material block at `mat` for `off` (0:
/// textures, 2: palettes).
pub open spec fn bind_dict(m: Seq<u8>, mat: int, off: int) -> int {
    mat + spec_u16le(m, mat + off)
}

/// Whether the bindings at `off` read: the dictionary, and every entry's
/// material ids inside `m` and below `n_mat`.
pub open spec fn binds_ok(m: Seq<u8>, mat: int, off: int, n_mat: int) -> bool {
    let bd = bind_dict(m, mat, off);
    &&& mat + off + 2 <= m.len()
    &&& rdict_ok(m, bd)
    &&& forall|j: int|
        0 <= j < rdict_count(m, bd) ==> (#[trigger] bind_ids(m, mat, bd, j) matches Some(ids) && forall|
            k: int,
        | 0 <= k < ids.len() ==> ids[k] < n_mat)
}

/// Whether `ids` lists `i`.
pub open spec fn lists(ids: Seq<u8>, i: int) -> bool {
    exists|x: int| 0 <= x < ids.len() && ids[x] as int == i
}

/// The name bound to material `i` by the first `j` entries of the binding
/// dictionary at `bd`: the last entry listing it.
pub open spec fn bind_last(m: Seq<u8>, mat: int, bd: int, i: int, j: int) -> Option<Seq<char>>
    decreases j,
{
    if j <= 0 {
        None
    } else if bind_ids(m, mat, bd, j - 1) matches Some(ids) && lists(ids, i) {
        Some(decode_utf8(slot_name(m, rdict_slot(m, bd, j - 1))))
    } else {
        bind_last(m, mat, bd, i, j - 1)
    }
}

/// The name bound to material `i` by the bindings at `off`.
pub open spec fn bind_name(m: Seq<u8>, mat: int, off: int, i: int) -> Option<Seq<char>> {
    let bd = bind_dict(m, mat, off);
    bind_last(m, mat, bd, i, rdict_count(m, bd))
}

/// A mesh as values: its triangles, its texture and palette names (none
/// for a solid shape), its texture flags and alpha.
pub type MeshSpec = (Seq<(Sv, Sv, Sv)>, Option<(Seq<char>, Seq<char>)>, int, int);

/// How a model's structure program ends.
pub enum SbcEnd {
    Done(Seq<MeshSpec>),
    Fail,
    Overflow,
}

/// The model a structure program runs on: its bytes, the material and
/// shape blocks, the scale and placement, and the texture archive.
pub struct SbcModel {
    pub m: Seq<u8>,
    pub mat: int,
    pub shp: int,
    pub scale: int,
    pub t: (int, int, int),
}

/// The draw command (opcode 5) for shape `id` under material `sel`:
/// the mesh, or how it fails (`true`: an overflow).
#[verifier::opaque]
pub open spec fn sbc_draw(md: SbcModel, btx: Btx, sel: int, id: int) -> Result<MeshSpec, bool> {
    let m = md.m;
    let md_dict = md.mat + 4;
    if !(sel < rdict_count(m, md_dict)) || rdict_unit(m, md_dict) < 4 {
        Err(false)
    } else {
        let material = md.mat + spec_u32le(m, rdict_payload_at(m, md_dict, sel));
        if !(id < rdict_count(m, md.shp)) || rdict_unit(m, md.shp) < 4 {
            Err(false)
        } else {
            let shape = md.shp + spec_u32le(m, rdict_payload_at(m, md.shp, id));
            if shape + 16 > m.len() {
                Err(false)
            } else {
                let dl_off = shape + spec_u32le(m, shape + 8);
                let dl_len = spec_u32le(m, shape + 12) as int;
                let tn = bind_name(m, md.mat, 0, sel);
                let pn = bind_name(m, md.mat, 2, sel);
                if dl_off + dl_len > m.len() {
                    Err(false)
                } else if tn is Some != pn is Some {
                    Err(false)
                } else if tn is Some && !binding_ok(btx, tn->0, pn->0) {
                    Err(false)
                } else if material + 6 > m.len() {
                    Err(false)
                } else {
                    let initial = spec_u16le(m, material + 4) % 0x8000;
                    match display_run(m.subrange(dl_off, dl_off + dl_len), md.scale, md.t, initial as int) {
                        GxEnd::Overflow => Err(true),
                        GxEnd::Fail => Err(false),
                        GxEnd::Done(tris) => if material + 24 > m.len() {
                            Err(false)
                        } else {
                            Ok(
                                (
                                    tris,
                                    if tn is Some {
                                        Some((tn->0, pn->0))
                                    } else {
                                        None
                                    },
                                    spec_u32le(m, material + 20) as int,
                                    (spec_u32le(m, material + 12) / 0x10000 % 32) as int,
                                ),
                            )
                        },
                    }
                }
            }
        }
    }
}

/// The argument bytes a structure command skips (-1: not in the subset;
/// the selecting and drawing commands are handled apart).
pub open spec fn sbc_skip(op: u8) -> int {
    if op == 0 || op == 0x0b || op == 0x2b {
        0
    } else if op == 2 {
        2
    } else if op == 0x26 {
        4
    } else if op == 0x06 {
        3
    } else {
        -1
    }
}

/// Runs the structure program from `p` with material `sel` selected and
/// the meshes `acc` drawn so far.
pub open spec fn sbc_run(md: SbcModel, btx: Btx, p: int, sel: int, acc: Seq<MeshSpec>) -> SbcEnd
    decreases if p < md.mat {
        md.mat - p
    } else {
        0
    },
{
    let m = md.m;
    if p >= md.mat || p < 0 {
        SbcEnd::Done(acc)
    } else if p >= m.len() {
        SbcEnd::Overflow
    } else {
        let op = m[p];
        let q = p + 1;
        if op == 1 {
            SbcEnd::Done(acc)
        } else if op == 4 || op == 0x24 || op == 0x44 {
            if q + 1 > m.len() {
                SbcEnd::Fail
            } else {
                sbc_run(md, btx, q + 1, m[q] as int, acc)
            }
        } else if op == 5 {
            if q + 1 > m.len() {
                SbcEnd::Fail
            } else {
                match sbc_draw(md, btx, sel, m[q] as int) {
                    Err(true) => SbcEnd::Overflow,
                    Err(false) => SbcEnd::Fail,
                    Ok(mesh) => sbc_run(md, btx, q + 1, sel, acc.push(mesh)),
                }
            }
        } else if sbc_skip(op) < 0 || q + sbc_skip(op) > m.len() {
            SbcEnd::Fail
        } else {
            sbc_run(md, btx, q + sbc_skip(op), sel, acc)
        }
    }
}

/// The `u16` at `off` of `b`.
fn rd16(b: &[u8], off: u64) -> (res: Result<u16, NdsError>)
    ensures
        get16(b@, off as int) matches Some(v) ==> (res matches Ok(r) && r == v),
        get16(b@, off as int) is None ==> res is Err,
{
    if off > b.len() as u64 || b.len() as u64 - off < 2 {
        return Err(NdsError::Truncated { what: "model", need: b.len().saturating_add(1), got: b.len() });
    }
    u16le(b, off as usize)
}

/// The `u32` at `off` of `b`.
fn rd32(b: &[u8], off: u64) -> (res: Result<u32, NdsError>)
    ensures
        get32(b@, off as int) matches Some(v) ==> (res matches Ok(r) && r == v),
        get32(b@, off as int) is None ==> res is Err,
{
    if off > b.len() as u64 || b.len() as u64 - off < 4 {
        return Err(NdsError::Truncated { what: "model", need: b.len().saturating_add(1), got: b.len() });
    }
    u32le(b, off as usize)
}

/// `n` bytes of `b` from `off`.
fn take_at(b: &[u8], off: u64, n: u64) -> (res: Result<&[u8], NdsError>)
    ensures
        off + n <= b@.len() ==> (res matches Ok(r) && r@ == b@.subrange(off as int, off + n)),
        off + n > b@.len() ==> res is Err,
{
    if off > b.len() as u64 || b.len() as u64 - off < n {
        return Err(NdsError::Truncated { what: "model", need: b.len().saturating_add(1), got: b.len() });
    }
    Ok(slice_range(b, off as usize, (off + n) as usize))
}

/// The resource dictionary at `off` of `b`.
fn dict_at<'a>(b: &'a [u8], off: u64) -> (res: Result<Vec<(&'a str, &'a [u8])>, NdsError>)
    requires
        b@.len() <= isize::MAX,
    ensures
        res is Ok <==> rdict_ok(b@, off as int),
        res matches Ok(v) ==> v@.len() == rdict_count(b@, off as int) && forall|i: int|
            0 <= i < v@.len() ==> #[trigger] rdict_entry_is(v@[i], b@, off as int, i),
{
    if off > b.len() as u64 {
        return Err(NdsError::Truncated { what: "model", need: b.len().saturating_add(1), got: b.len() });
    }
    dict(b, off as usize)
}

/// The material names the bindings at `off` (0: textures, 2: palettes)
/// give each of the `n_mat` materials.
fn bindings<'a>(m: &'a [u8], mat: u64, off: u64, n_mat: usize) -> (res: Result<Vec<Option<&'a str>>, NdsError>)
    requires
        m@.len() <= isize::MAX,
        mat <= u32::MAX,
        off <= 2,
    ensures
        res is Ok <==> binds_ok(m@, mat as int, off as int, n_mat as int),
        res matches Ok(v) ==> v@.len() == n_mat && forall|i: int|
            0 <= i < n_mat ==> (match #[trigger] v@[i] {
                Some(n) => bind_name(m@, mat as int, off as int, i) == Some(n@),
                None => bind_name(m@, mat as int, off as int, i) is None,
            }),
{
    let ghost s = m@;
    let rel = rd16(m, mat + off)?;
    let bd = mat + rel as u64;
    let ghost bdi = bd as int;
    assert(bdi == bind_dict(s, mat as int, off as int));
    let entries = dict_at(m, bd)?;
    let mut names: Vec<Option<&'a str>> = Vec::new();
    let mut i: usize = 0;
    while i < n_mat
        invariant
            i <= n_mat,
            names@.len() == i,
            forall|k: int| 0 <= k < i ==> #[trigger] names@[k] is None,
        decreases n_mat - i,
    {
        names.push(None);
        i = i + 1;
    }
    let count = entries.len();
    let mut j: usize = 0;
    while j < count
        invariant
            s == m@,
            s.len() <= isize::MAX,
            mat <= u32::MAX,
            bdi == bind_dict(s, mat as int, off as int),
            mat + off + 2 <= s.len(),
            rdict_ok(s, bdi),
            count == rdict_count(s, bdi),
            entries@.len() == count,
            forall|k: int| 0 <= k < count ==> #[trigger] rdict_entry_is(entries@[k], s, bdi, k),
            j <= count,
            names@.len() == n_mat,
            forall|k: int|
                0 <= k < j ==> (#[trigger] bind_ids(s, mat as int, bdi, k) matches Some(ids) && forall|
                    x: int,
                | 0 <= x < ids.len() ==> ids[x] < n_mat),
            forall|i: int|
                0 <= i < n_mat ==> (match #[trigger] names@[i] {
                    Some(n) => bind_last(s, mat as int, bdi, i, j as int) == Some(n@),
                    None => bind_last(s, mat as int, bdi, i, j as int) is None,
                }),
        decreases count - j,
    {
        let (name, d) = entries[j];
        assert(rdict_entry_is(entries@[j as int], s, bdi, j as int));
        assert(rdict_entry_ok(s, bdi, j as int));
        let ghost at = rdict_payload_at(s, bdi, j as int);
        assert(d@.len() == rdict_unit(s, bdi));
        if d.len() < 3 {
            assert(bind_ids(s, mat as int, bdi, j as int) is None);
            return Err(NdsError::Invalid { what: "material binding count" });
        }
        assert(d@[0] == s[at] && d@[1] == s[at + 1] && d@[2] == s[at + 2]);
        let start = mat + u16le(d, 0)? as u64;
        let ids = match take_at(m, start, d[2] as u64) {
            Ok(r) => r,
            Err(e) => {
                assert(bind_ids(s, mat as int, bdi, j as int) is None);
                return Err(e);
            },
        };
        assert(bind_ids(s, mat as int, bdi, j as int) == Some(ids@));
        let ghost before = names@;
        let mut k: usize = 0;
        while k < ids.len()
            invariant
                s == m@,
                bdi == bind_dict(s, mat as int, off as int),
                j < count,
                count == rdict_count(s, bdi),
                bind_ids(s, mat as int, bdi, j as int) == Some(ids@),
                before.len() == n_mat,
                names@.len() == n_mat,
                k <= ids@.len(),
                forall|x: int| 0 <= x < k ==> ids@[x] < n_mat,
                forall|i: int|
                    0 <= i < n_mat ==> #[trigger] names@[i] == if lists(ids@.subrange(0, k as int), i) {
                        Some(name)
                    } else {
                        before[i]
                    },
            decreases ids@.len() - k,
        {
            let id = ids[k] as usize;
            if id >= names.len() {
                assert(ids@[k as int] >= n_mat);
                assert(!binds_ok(s, mat as int, off as int, n_mat as int)) by {
                    if binds_ok(s, mat as int, off as int, n_mat as int) {
                        assert(bind_ids(s, mat as int, bdi, j as int) matches Some(z) && forall|x: int|
                            0 <= x < z.len() ==> z[x] < n_mat);
                    }
                }
                return Err(NdsError::Invalid { what: "material binding index" });
            }
            names.set(id, Some(name));
            k = k + 1;
            assert forall|i: int| 0 <= i < n_mat implies #[trigger] names@[i] == if lists(
                ids@.subrange(0, k as int),
                i,
            ) {
                Some(name)
            } else {
                before[i]
            } by {
                let pre = ids@.subrange(0, k - 1);
                let cur = ids@.subrange(0, k as int);
                if lists(pre, i) {
                    let x = choose|x: int| 0 <= x < pre.len() && pre[x] as int == i;
                    assert(cur[x] == pre[x]);
                }
                if i == id {
                    assert(cur[k - 1] as int == i);
                }
                if lists(cur, i) && !lists(pre, i) {
                    let x = choose|x: int| 0 <= x < cur.len() && cur[x] as int == i;
                    if x < k - 1 {
                        assert(pre[x] == cur[x]);
                    }
                }
            }
        }
        assert(ids@.subrange(0, ids@.len() as int) =~= ids@);
        j = j + 1;
    }
    Ok(names)
}

/// `mesh` is the mesh `ms` with its texture decoded from `btx`.
pub open spec fn mesh_is(mesh: Mesh, ms: MeshSpec, btx: Btx) -> bool {
    &&& mesh.triangles@.map_values(|t: [Vertex; 3]| st_of(t)) == ms.0
    &&& (ms.1 is None <==> mesh.texture is None)
    &&& ms.1 matches Some(names) ==> (mesh.texture matches Some(a) && binding_decoded(
        *a,
        btx,
        names.0,
        names.1,
    ))
    &&& mesh.texture_flags == ms.2
    &&& mesh.alpha == ms.3
}

/// Whether the executable tables match the model `md`: the material
/// and shape dictionaries and the material bindings.
pub open spec fn tables_match(
    md: SbcModel,
    materials: Seq<(&str, &[u8])>,
    shapes: Seq<(&str, &[u8])>,
    tex_names: Seq<Option<&str>>,
    pal_names: Seq<Option<&str>>,
) -> bool {
    &&& materials.len() == rdict_count(md.m, md.mat + 4)
    &&& forall|i: int| 0 <= i < materials.len() ==> #[trigger] rdict_entry_is(materials[i], md.m, md.mat + 4, i)
    &&& rdict_ok(md.m, md.mat + 4)
    &&& shapes.len() == rdict_count(md.m, md.shp)
    &&& forall|i: int| 0 <= i < shapes.len() ==> #[trigger] rdict_entry_is(shapes[i], md.m, md.shp, i)
    &&& rdict_ok(md.m, md.shp)
    &&& tex_names.len() == materials.len()
    &&& pal_names.len() == materials.len()
    &&& forall|i: int|
        0 <= i < materials.len() ==> (match #[trigger] tex_names[i] {
            Some(n) => bind_name(md.m, md.mat, 0, i) == Some(n@),
            None => bind_name(md.m, md.mat, 0, i) is None,
        })
    &&& forall|i: int|
        0 <= i < materials.len() ==> (match #[trigger] pal_names[i] {
            Some(n) => bind_name(md.m, md.mat, 2, i) == Some(n@),
            None => bind_name(md.m, md.mat, 2, i) is None,
        })
}

/// The draw command for shape `id` under material `sel`.
#[verifier::rlimit(40)]
fn sbc_draw_exec(
    m: &[u8],
    mat: u64,
    shp: u64,
    scale: i32,
    translation: [i32; 3],
    btx: &Btx,
    materials: &Vec<(&str, &[u8])>,
    shapes: &Vec<(&str, &[u8])>,
    tex_names: &Vec<Option<&str>>,
    pal_names: &Vec<Option<&str>>,
    sel: usize,
    id: usize,
) -> (res: Result<Mesh, NdsError>)
    requires
        m@.len() <= isize::MAX,
        mat <= u32::MAX,
        shp <= u32::MAX,
        tables_match(
            (SbcModel {
                m: m@,
                mat: mat as int,
                shp: shp as int,
                scale: scale as int,
                t: (translation[0] as int, translation[1] as int, translation[2] as int),
            }),
            materials@,
            shapes@,
            tex_names@,
            pal_names@,
        ),
        sbc_draw(
            (SbcModel {
                m: m@,
                mat: mat as int,
                shp: shp as int,
                scale: scale as int,
                t: (translation[0] as int, translation[1] as int, translation[2] as int),
            }),
            *btx,
            sel as int,
            id as int,
        ) != Err::<MeshSpec, bool>(true),
    ensures
        ({
            let r = sbc_draw(
                (SbcModel {
                    m: m@,
                    mat: mat as int,
                    shp: shp as int,
                    scale: scale as int,
                    t: (translation[0] as int, translation[1] as int, translation[2] as int),
                }),
                *btx,
                sel as int,
                id as int,
            );
            &&& r is Err ==> res is Err
            &&& r matches Ok(ms) ==> (res matches Ok(mesh) && mesh_is(mesh, ms, *btx))
        }),
{
    reveal(sbc_draw);
    let ghost s = m@;
    if sel >= materials.len() {
        return Err(NdsError::Invalid { what: "SBC material" });
    }
    let (_, d) = materials[sel];
    assert(rdict_entry_is(materials@[sel as int], s, mat + 4, sel as int));
    assert(rdict_entry_ok(s, mat + 4, sel as int));
    let ghost at = rdict_payload_at(s, mat + 4, sel as int);
    assert(d@.len() == rdict_unit(s, mat + 4));
    if d.len() < 4 {
        return Err(NdsError::Invalid { what: "SBC material" });
    }
    assert(d@[0] == s[at] && d@[1] == s[at + 1] && d@[2] == s[at + 2] && d@[3] == s[at + 3]);
    let material = mat + u32le(d, 0)? as u64;
    if id >= shapes.len() {
        return Err(NdsError::Invalid { what: "SBC shape" });
    }
    let (_, d2) = shapes[id];
    assert(rdict_entry_is(shapes@[id as int], s, shp as int, id as int));
    assert(rdict_entry_ok(s, shp as int, id as int));
    let ghost at2 = rdict_payload_at(s, shp as int, id as int);
    assert(d2@.len() == rdict_unit(s, shp as int));
    if d2.len() < 4 {
        return Err(NdsError::Invalid { what: "SBC shape" });
    }
    assert(d2@[0] == s[at2] && d2@[1] == s[at2 + 1] && d2@[2] == s[at2 + 2] && d2@[3] == s[at2 + 3]);
    let shape = shp + u32le(d2, 0)? as u64;
    let dl_rel = rd32(m, shape + 8)?;
    let dl_len = rd32(m, shape + 12)?;
    let dl = take_at(m, shape + dl_rel as u64, dl_len as u64)?;
    let texture = match (tex_names[sel], pal_names[sel]) {
        (Some(t), Some(q)) => {
            let tx = decode_texture(btx, t, q)?;
            Some(Arc::new(tx))
        },
        (None, None) => None,
        _ => {
            return Err(NdsError::Invalid { what: "incomplete material binding" });
        },
    };
    let initial = rd16(m, material + 4)? % 0x8000;
    let triangles = display_list(dl, scale, translation, initial)?;
    let texture_flags = rd32(m, material + 20)?;
    let al = rd32(m, material + 12)?;
    Ok(Mesh { triangles, texture, texture_flags, alpha: (al / 0x10000 % 32) as u8 })
}

/// Runs the structure program of the model `m` from `start`: selecting
/// materials and drawing shapes until opcode 1 or the material block.
#[verifier::rlimit(40)]
fn sbc_exec(
    m: &[u8],
    mat: u64,
    shp: u64,
    scale: i32,
    translation: [i32; 3],
    btx: &Btx,
    materials: &Vec<(&str, &[u8])>,
    shapes: &Vec<(&str, &[u8])>,
    tex_names: &Vec<Option<&str>>,
    pal_names: &Vec<Option<&str>>,
    start: u64,
) -> (res: Result<Vec<Mesh>, NdsError>)
    requires
        m@.len() <= isize::MAX,
        mat <= u32::MAX,
        shp <= u32::MAX,
        start <= u32::MAX,
        tables_match(
            (SbcModel {
                m: m@,
                mat: mat as int,
                shp: shp as int,
                scale: scale as int,
                t: (translation[0] as int, translation[1] as int, translation[2] as int),
            }),
            materials@,
            shapes@,
            tex_names@,
            pal_names@,
        ),
        !(sbc_run(
            (SbcModel {
                m: m@,
                mat: mat as int,
                shp: shp as int,
                scale: scale as int,
                t: (translation[0] as int, translation[1] as int, translation[2] as int),
            }),
            *btx,
            start as int,
            0,
            Seq::empty(),
        ) is Overflow),
    ensures
        ({
            let r = sbc_run(
                (SbcModel {
                    m: m@,
                    mat: mat as int,
                    shp: shp as int,
                    scale: scale as int,
                    t: (translation[0] as int, translation[1] as int, translation[2] as int),
                }),
                *btx,
                start as int,
                0,
                Seq::empty(),
            );
            &&& res is Ok <==> r is Done
            &&& res matches Ok(v) ==> (r matches SbcEnd::Done(ms) && v@.len() == ms.len() && forall|i: int|
                0 <= i < ms.len() ==> #[trigger] mesh_is(v@[i], ms[i], *btx))
        }),
{
    let ghost md = SbcModel {
        m: m@,
        mat: mat as int,
        shp: shp as int,
        scale: scale as int,
        t: (translation[0] as int, translation[1] as int, translation[2] as int),
    };
    let ghost run = sbc_run(md, *btx, start as int, 0, Seq::empty());
    let ghost mut acc: Seq<MeshSpec> = Seq::empty();
    let mut meshes: Vec<Mesh> = Vec::new();
    let mut p: u64 = start;
    let mut sel: usize = 0;
    let mut done = false;
    while !done && p < mat
        invariant
            md == (SbcModel {
                m: m@,
                mat: mat as int,
                shp: shp as int,
                scale: scale as int,
                t: (translation[0] as int, translation[1] as int, translation[2] as int),
            }),
            m@.len() <= isize::MAX,
            mat <= u32::MAX,
            shp <= u32::MAX,
            p <= u32::MAX + 8,
            tables_match(md, materials@, shapes@, tex_names@, pal_names@),
            run == sbc_run(md, *btx, start as int, 0, Seq::empty()),
            !(run is Overflow),
            done ==> run == SbcEnd::Done(acc),
            !done ==> sbc_run(md, *btx, p as int, sel as int, acc) == run,
            meshes@.len() == acc.len(),
            forall|i: int| 0 <= i < acc.len() ==> #[trigger] mesh_is(meshes@[i], acc[i], *btx),
        decreases (if done || p >= mat {
            0
        } else {
            mat - p + 1
        }),
    {
        assert(p < m.len());
        let op = m[p as usize];
        let q = p + 1;
        if op == 1 {
            done = true;
        } else if op == 4 || op == 0x24 || op == 0x44 {
            if q >= m.len() as u64 {
                return Err(NdsError::Truncated { what: "model", need: m.len().saturating_add(1), got: m.len() });
            }
            sel = m[q as usize] as usize;
            p = q + 1;
        } else if op == 5 {
            if q >= m.len() as u64 {
                return Err(NdsError::Truncated { what: "model", need: m.len().saturating_add(1), got: m.len() });
            }
            let id = m[q as usize] as usize;
            let mesh = sbc_draw_exec(
                m,
                mat,
                shp,
                scale,
                translation,
                btx,
                materials,
                shapes,
                tex_names,
                pal_names,
                sel,
                id,
            )?;
            proof {
                acc = acc.push(sbc_draw(md, *btx, sel as int, id as int)->Ok_0);
            }
            meshes.push(mesh);
            p = q + 1;
        } else {
            let n: u64 = if op == 0 || op == 0x0b || op == 0x2b {
                0
            } else if op == 2 {
                2
            } else if op == 0x26 {
                4
            } else if op == 0x06 {
                3
            } else {
                return Err(NdsError::Invalid { what: "unsupported field SBC opcode" });
            };
            if q + n > m.len() as u64 {
                return Err(NdsError::Truncated { what: "model", need: m.len().saturating_add(1), got: m.len() });
            }
            p = q + n;
        }
    }
    Ok(meshes)
}

/// The model-set block of a model file, when its header and block
/// table read.
pub open spec fn model_set(b: Seq<u8>) -> Option<Seq<u8>> {
    if !(magic_at(b, 0, 0x42, 0x4D, 0x44, 0x30) && get32(b, 8) == Some(b.len() as int)) {
        None
    } else {
        match get32(b, 16) {
            None => None,
            Some(so) => match get32(b, so + 4) {
                None => None,
                Some(sl) => if so + sl <= b.len() {
                    Some(b.subrange(so, so + sl))
                } else {
                    None
                },
            },
        }
    }
}

/// The single model of a model-set block, when it reads.
pub open spec fn model_of(set: Seq<u8>) -> Option<Seq<u8>> {
    if !magic_at(set, 0, 0x4D, 0x44, 0x4C, 0x30) || !rdict_ok(set, 8) || rdict_count(set, 8) != 1
        || rdict_unit(set, 8) < 4 {
        None
    } else {
        let moff = spec_u32le(set, rdict_payload_at(set, 8, 0)) as int;
        match get32(set, moff) {
            None => None,
            Some(ml) => if moff + ml <= set.len() {
                Some(set.subrange(moff, moff + ml))
            } else {
                None
            },
        }
    }
}

/// Whether every node of model `m` has the identity transform (the
/// low three flag bits set).
pub open spec fn nodes_ok(m: Seq<u8>) -> bool {
    &&& rdict_ok(m, 64)
    &&& forall|i: int|
        0 <= i < rdict_count(m, 64) ==> rdict_unit(m, 64) >= 4 && (get16(
            m,
            64 + spec_u32le(m, #[trigger] rdict_payload_at(m, 64, i)),
        ) matches Some(v) && v % 8 == 7)
}

/// The structure-program model of model `m` placed at `t`.
pub open spec fn sbc_model(m: Seq<u8>, t: (int, int, int)) -> SbcModel {
    SbcModel {
        m,
        mat: spec_u32le(m, 8) as int,
        shp: spec_u32le(m, 12) as int,
        scale: wrap32(spec_u32le(m, 28) as int),
        t,
    }
}

/// How parsing model file `b` against the texture archive `btx` placed
/// at `t` ends.
pub open spec fn model_run(b: Seq<u8>, btx: Btx, t: (int, int, int)) -> SbcEnd {
    match model_set(b) {
        None => SbcEnd::Fail,
        Some(set) => match model_of(set) {
            None => SbcEnd::Fail,
            Some(m) => {
                let md = sbc_model(m, t);
                let n_mat = rdict_count(m, md.mat + 4);
                if !nodes_ok(m) || m.len() < 32 || !rdict_ok(m, md.mat + 4) || !rdict_ok(m, md.shp)
                    || !binds_ok(m, md.mat, 0, n_mat) || !binds_ok(m, md.mat, 2, n_mat) {
                    SbcEnd::Fail
                } else {
                    sbc_run(md, btx, spec_u32le(m, 4) as int, 0, Seq::empty())
                }
            },
        },
    }
}

/// Checks that every node of model `m` has the identity transform.
fn check_nodes(m: &[u8], nodes: &Vec<(&str, &[u8])>) -> (res: Result<(), NdsError>)
    requires
        rdict_ok(m@, 64),
        nodes@.len() == rdict_count(m@, 64),
        forall|i: int| 0 <= i < nodes@.len() ==> #[trigger] rdict_entry_is(nodes@[i], m@, 64, i),
    ensures
        res is Ok <==> nodes_ok(m@),
{
    let ghost s = m@;
    let mut i: usize = 0;
    while i < nodes.len()
        invariant
            s == m@,
            rdict_ok(s, 64),
            nodes@.len() == rdict_count(s, 64),
            forall|k: int| 0 <= k < nodes@.len() ==> #[trigger] rdict_entry_is(nodes@[k], s, 64, k),
            i <= nodes@.len(),
            forall|k: int|
                0 <= k < i ==> rdict_unit(s, 64) >= 4 && (get16(
                    s,
                    64 + spec_u32le(s, #[trigger] rdict_payload_at(s, 64, k)),
                ) matches Some(v) && v % 8 == 7),
        decreases nodes@.len() - i,
    {
        let (_, d) = nodes[i];
        assert(rdict_entry_is(nodes@[i as int], s, 64, i as int));
        assert(rdict_entry_ok(s, 64, i as int));
        let ghost at = rdict_payload_at(s, 64, i as int);
        assert(d@.len() == rdict_unit(s, 64));
        if d.len() < 4 {
            return Err(NdsError::Invalid { what: "static identity model node" });
        }
        assert(d@[0] == s[at] && d@[1] == s[at + 1] && d@[2] == s[at + 2] && d@[3] == s[at + 3]);
        let v = u32le(d, 0)?;
        let h = rd16(m, 64 + v as u64)?;
        if h % 8 != 7 {
            return Err(NdsError::Invalid { what: "static identity model node" });
        }
        i = i + 1;
    }
    Ok(())
}

/// Whether the four bytes of `r` are `m0 m1 m2 m3`.
fn is_magic(r: &[u8], m0: u8, m1: u8, m2: u8, m3: u8) -> (res: bool)
    requires
        r@.len() == 4,
    ensures
        res == (r@[0] == m0 && r@[1] == m1 && r@[2] == m2 && r@[3] == m3),
{
    r[0] == m0 && r[1] == m1 && r[2] == m2 && r[3] == m3
}

/// The model bytes of a model file: the single model of its model set.
fn model_bytes(b: &[u8]) -> (res: Result<&[u8], NdsError>)
    requires
        b@.len() <= isize::MAX,
    ensures
        res is Ok <==> (model_set(b@) matches Some(set) && model_of(set) is Some),
        res matches Ok(m) ==> model_set(b@) matches Some(set) && model_of(set) == Some(m@),
{
    let head = take_at(b, 0, 4)?;
    if !is_magic(head, 0x42, 0x4D, 0x44, 0x30) || rd32(b, 8)? as u64 != b.len() as u64 {
        return Err(NdsError::Invalid { what: "BMD0 header" });
    }
    let so = rd32(b, 16)? as u64;
    let sl = rd32(b, so + 4)? as u64;
    let set = take_at(b, so, sl)?;
    let set_head = take_at(set, 0, 4)?;
    if !is_magic(set_head, 0x4D, 0x44, 0x4C, 0x30) {
        return Err(NdsError::Invalid { what: "MDL0 block" });
    }
    let models = dict_at(set, 8)?;
    if models.len() != 1 {
        return Err(NdsError::Invalid { what: "single field model" });
    }
    let (_, d) = models[0];
    let ghost ss = set@;
    assert(rdict_entry_is(models@[0], ss, 8, 0));
    assert(rdict_entry_ok(ss, 8, 0));
    let ghost at = rdict_payload_at(ss, 8, 0);
    assert(d@.len() == rdict_unit(ss, 8));
    if d.len() < 4 {
        return Err(NdsError::Invalid { what: "single field model" });
    }
    assert(d@[0] == ss[at] && d@[1] == ss[at + 1] && d@[2] == ss[at + 2] && d@[3] == ss[at + 3]);
    let moff = u32le(d, 0)? as u64;
    let ml = rd32(set, moff)? as u64;
    take_at(set, moff, ml)
}

/// Parses a model file against the texture archive `tex`, placed at
/// `translation`: the container header, the single model of its model
/// set, its nodes (identity transforms only), its material and shape
/// dictionaries and material bindings, then its structure program,
/// one mesh per draw command in program order.
pub fn parse(b: &[u8], tex: &Btx, translation: [i32; 3]) -> (res: Result<Vec<Mesh>, NdsError>)
    requires
        b@.len() <= isize::MAX,
        !(model_run(b@, *tex, (translation[0] as int, translation[1] as int, translation[2] as int))
            is Overflow),
    ensures
        ({
            let r = model_run(b@, *tex, (translation[0] as int, translation[1] as int, translation[2] as int));
            &&& res is Ok <==> r is Done
            &&& res matches Ok(v) ==> (r matches SbcEnd::Done(ms) && v@.len() == ms.len() && forall|i: int|
                0 <= i < ms.len() ==> #[trigger] mesh_is(v@[i], ms[i], *tex))
        }),
{
    let m = model_bytes(b)?;
    parse_model(m, tex, translation)
}

/// The nodes, tables and structure program of model `m`.
#[verifier::rlimit(40)]
fn parse_model(m: &[u8], tex: &Btx, translation: [i32; 3]) -> (res: Result<Vec<Mesh>, NdsError>)
    requires
        m@.len() <= isize::MAX,
        ({
            let md = sbc_model(m@, (translation[0] as int, translation[1] as int, translation[2] as int));
            let n_mat = rdict_count(m@, md.mat + 4);
            (nodes_ok(m@) && m@.len() >= 32 && rdict_ok(m@, md.mat + 4) && rdict_ok(m@, md.shp) && binds_ok(
                m@,
                md.mat,
                0,
                n_mat,
            ) && binds_ok(m@, md.mat, 2, n_mat)) ==> !(sbc_run(md, *tex, spec_u32le(m@, 4) as int, 0, Seq::empty())
                is Overflow)
        }),
    ensures
        ({
            let md = sbc_model(m@, (translation[0] as int, translation[1] as int, translation[2] as int));
            let n_mat = rdict_count(m@, md.mat + 4);
            let ok = nodes_ok(m@) && m@.len() >= 32 && rdict_ok(m@, md.mat + 4) && rdict_ok(m@, md.shp)
                && binds_ok(m@, md.mat, 0, n_mat) && binds_ok(m@, md.mat, 2, n_mat);
            let r = sbc_run(md, *tex, spec_u32le(m@, 4) as int, 0, Seq::empty());
            &&& res is Ok <==> (ok && r is Done)
            &&& res matches Ok(v) ==> (r matches SbcEnd::Done(ms) && v@.len() == ms.len() && forall|i: int|
                0 <= i < ms.len() ==> #[trigger] mesh_is(v@[i], ms[i], *tex))
        }),
{
    let nodes = dict_at(m, 64)?;
    check_nodes(m, &nodes)?;
    let scale_raw = rd32(m, 28)?;
    let scale: i32 = if scale_raw >= 0x8000_0000 {
        (scale_raw as i64 - 0x1_0000_0000) as i32
    } else {
        scale_raw as i32
    };
    let mat = rd32(m, 8)? as u64;
    let shp = rd32(m, 12)? as u64;
    let materials = dict_at(m, mat + 4)?;
    let shapes = dict_at(m, shp)?;
    let tex_names = bindings(m, mat, 0, materials.len())?;
    let pal_names = bindings(m, mat, 2, materials.len())?;
    let start = rd32(m, 4)? as u64;
    let ghost md = sbc_model(m@, (translation[0] as int, translation[1] as int, translation[2] as int));
    assert(md.scale == scale);
    sbc_exec(m, mat, shp, scale, translation, tex, &materials, &shapes, &tex_names, &pal_names, start)
}

/// The triangles a primitive of type `prim` has closed once the first
/// `k` of `verts` have been emitted one by one.
pub open spec fn tris_after(prim: int, verts: Seq<Sv>, k: int) -> Seq<(Sv, Sv, Sv)>
    decreases k,
{
    if k <= 0 {
        Seq::empty()
    } else {
        tris_after(prim, verts, k - 1) + closed_tris(prim, verts.take(k))
    }
}

/// A quad list draws each quad whole: after `k` vertices it has closed
/// two triangles per complete quad, quad `q` (vertices `4q` to `4q + 3`)
/// as `(v[4q], v[4q+1], v[4q+2])` and `(v[4q], v[4q+2], v[4q+3])`.
pub proof fn lemma_quad_list_tris(verts: Seq<Sv>, k: int)
    requires
        0 <= k <= verts.len(),
    ensures
        tris_after(1, verts, k).len() == 2 * (k / 4),
        forall|q: int|
            0 <= q < k / 4 ==> #[trigger] tris_after(1, verts, k)[2 * q] == (verts[4 * q], verts[4 * q + 1], verts[4
                * q + 2]) && tris_after(1, verts, k)[2 * q + 1] == (verts[4 * q], verts[4 * q + 2], verts[4 * q + 3]),
    decreases k,
{
    reveal(closed_tris);
    if k > 0 {
        lemma_quad_list_tris(verts, k - 1);
        let prev = tris_after(1, verts, k - 1);
        let w = verts.take(k);
        if k % 4 == 0 {
            assert(closed_tris(1, w) == seq![(w[k - 4], w[k - 3], w[k - 2]), (w[k - 4], w[k - 2], w[k - 1])]);
            assert((k - 1) / 4 == k / 4 - 1);
            let cur = tris_after(1, verts, k);
            assert forall|q: int| 0 <= q < k / 4 implies #[trigger] cur[2 * q] == (verts[4 * q], verts[4 * q + 1], verts[4
                * q + 2]) && cur[2 * q + 1] == (verts[4 * q], verts[4 * q + 2], verts[4 * q + 3]) by {
                if q < k / 4 - 1 {
                    assert(cur[2 * q] == prev[2 * q]);
                    assert(cur[2 * q + 1] == prev[2 * q + 1]);
                }
            }
        } else {
            assert(closed_tris(1, w) == Seq::<(Sv, Sv, Sv)>::empty());
            assert((k - 1) / 4 == k / 4);
            assert(tris_after(1, verts, k) == prev);
        }
    }
}

/// A triangle list draws one triangle per three vertices: after `k`
/// vertices triangle `q` is `(v[3q], v[3q+1], v[3q+2])`.
pub proof fn lemma_triangle_list_tris(verts: Seq<Sv>, k: int)
    requires
        0 <= k <= verts.len(),
    ensures
        tris_after(0, verts, k).len() == k / 3,
        forall|q: int|
            0 <= q < k / 3 ==> #[trigger] tris_after(0, verts, k)[q] == (verts[3 * q], verts[3 * q + 1], verts[3 * q
                + 2]),
    decreases k,
{
    reveal(closed_tris);
    if k > 0 {
        lemma_triangle_list_tris(verts, k - 1);
        let prev = tris_after(0, verts, k - 1);
        let w = verts.take(k);
        if k % 3 == 0 {
            assert(closed_tris(0, w) == seq![(w[k - 3], w[k - 2], w[k - 1])]);
            assert((k - 1) / 3 == k / 3 - 1);
            let cur = tris_after(0, verts, k);
            assert forall|q: int| 0 <= q < k / 3 implies #[trigger] cur[q] == (verts[3 * q], verts[3 * q + 1], verts[3
                * q + 2]) by {
                if q < k / 3 - 1 {
                    assert(cur[q] == prev[q]);
                }
            }
        } else {
            assert(closed_tris(0, w) == Seq::<(Sv, Sv, Sv)>::empty());
            assert((k - 1) / 3 == k / 3);
            assert(tris_after(0, verts, k) == prev);
        }
    }
}

/// A triangle strip draws one triangle per vertex from the third on,
/// alternating the winding: triangle `i` is `(v[i], v[i+1], v[i+2])`
/// for even `i` and `(v[i+1], v[i], v[i+2])` for odd `i`.
pub proof fn lemma_triangle_strip_tris(verts: Seq<Sv>, k: int)
    requires
        0 <= k <= verts.len(),
    ensures
        tris_after(2, verts, k).len() == if k >= 3 { k - 2 } else { 0 },
        forall|i: int|
            0 <= i < k - 2 ==> #[trigger] tris_after(2, verts, k)[i] == if i % 2 == 0 {
                (verts[i], verts[i + 1], verts[i + 2])
            } else {
                (verts[i + 1], verts[i], verts[i + 2])
            },
    decreases k,
{
    reveal(closed_tris);
    if k > 0 {
        lemma_triangle_strip_tris(verts, k - 1);
        let prev = tris_after(2, verts, k - 1);
        let w = verts.take(k);
        if k >= 3 {
            if k % 2 == 1 {
                assert(closed_tris(2, w) == seq![(w[k - 3], w[k - 2], w[k - 1])]);
            } else {
                assert(closed_tris(2, w) == seq![(w[k - 2], w[k - 3], w[k - 1])]);
            }
            let cur = tris_after(2, verts, k);
            assert forall|i: int| 0 <= i < k - 2 implies #[trigger] cur[i] == if i % 2 == 0 {
                (verts[i], verts[i + 1], verts[i + 2])
            } else {
                (verts[i + 1], verts[i], verts[i + 2])
            } by {
                if i < k - 3 {
                    assert(cur[i] == prev[i]);
                }
            }
        } else {
            assert(closed_tris(2, w) == Seq::<(Sv, Sv, Sv)>::empty());
            assert(tris_after(2, verts, k) == prev);
        }
    }
}

/// A quad strip draws each quad whole, two triangles per vertex pair
/// from the fourth vertex on: quad `q` (vertices `2q` to `2q + 3`) is
/// `(v[2q], v[2q+1], v[2q+3])` and `(v[2q], v[2q+3], v[2q+2])`.
pub proof fn lemma_quad_strip_tris(verts: Seq<Sv>, k: int)
    requires
        0 <= k <= verts.len(),
    ensures
        tris_after(3, verts, k).len() == if k >= 4 { 2 * (k / 2 - 1) } else { 0 },
        forall|q: int|
            0 <= q < k / 2 - 1 ==> #[trigger] tris_after(3, verts, k)[2 * q] == (verts[2 * q], verts[2 * q + 1], verts[2
                * q + 3]) && tris_after(3, verts, k)[2 * q + 1] == (verts[2 * q], verts[2 * q + 3], verts[2 * q + 2]),
    decreases k,
{
    reveal(closed_tris);
    if k > 0 {
        lemma_quad_strip_tris(verts, k - 1);
        let prev = tris_after(3, verts, k - 1);
        let w = verts.take(k);
        if k >= 4 && k % 2 == 0 {
            assert(closed_tris(3, w) == seq![(w[k - 4], w[k - 3], w[k - 1]), (w[k - 4], w[k - 1], w[k - 2])]);
            assert((k - 1) / 2 == k / 2 - 1);
            let cur = tris_after(3, verts, k);
            assert forall|q: int| 0 <= q < k / 2 - 1 implies #[trigger] cur[2 * q] == (verts[2 * q], verts[2 * q + 1],
                verts[2 * q + 3]) && cur[2 * q + 1] == (verts[2 * q], verts[2 * q + 3], verts[2 * q + 2]) by {
                if q < k / 2 - 2 {
                    assert(cur[2 * q] == prev[2 * q]);
                    assert(cur[2 * q + 1] == prev[2 * q + 1]);
                }
            }
        } else {
            assert(closed_tris(3, w) == Seq::<(Sv, Sv, Sv)>::empty());
            assert(tris_after(3, verts, k) == prev);
        }
    }
}

} // verus!
