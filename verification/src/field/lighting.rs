//! Field area lighting: the time-of-day light templates that give the
//! overworld its day and night look. No 2D palette is tinted: the four
//! hardware lights and the global material colors the 3D map is drawn
//! with are swapped by wall-clock time.
//!
//! The archives are CR-delimited ASCII tables: ten lines per record (a
//! threshold line, four light lines `enable,r,g,b,x,y,z`, four
//! material-color lines `r,g,b` and a blank separator) until a line
//! starting `EOF`. Thresholds are in half-seconds of the day: both
//! selection paths compare them against the seconds of the day halved,
//! so a day is 43200 and the last record ends there. Values step, they
//! never interpolate.

use vstd::prelude::*;
use vstd::slice::slice_subrange;

use crate::nds::NdsError;

verus! {

/// The five archives, in archive-id order.
pub const ARCHIVE_PATHS: [&'static str; 5] = [
    "data/area00light.txt",
    "data/area01light.txt",
    "data/area02light.txt",
    "data/dun20_01light.txt",
    "data/dun20_02light.txt",
];

/// Hardware lights per template.
pub const LIGHT_COUNT: usize = 4;
/// Lines per record in the text: threshold, four lights, four material
/// colors, one separator.
pub const RECORD_LINES: usize = 10;
/// The record size the game allocates per entry.
pub const RECORD_BYTES: usize = 0x30;
/// A day in the threshold unit.
pub const HALF_SECONDS_PER_DAY: u32 = 43_200;
/// The line buffer: a line without its delimiter inside 256 bytes is
/// an error.
pub const MAX_LINE: usize = 256;
/// The x/y/z clamp of a light vector, ±1.0 in fx16.
pub const VECTOR_LIMIT: i16 = 4096;

/// One of the four hardware lights in a template.
#[derive(Debug, Clone, Copy, PartialEq, Eq, Hash, Default)]
pub struct Light {
    /// Whether the record's enable field was 1 and its color is not the
    /// "off" marker 0xFFFF.
    pub enabled: bool,
    /// `r | g << 5 | b << 10` of the record's three color fields, 0
    /// when disabled.
    pub color: u16,
    /// The record's three vector fields, each truncated to 16 bits and
    /// clamped to ±4096.
    pub vector: [i16; 3],
}

/// One record of an archive: the lighting in force until `until`.
#[derive(Debug, Clone, Copy, PartialEq, Eq, Hash)]
pub struct LightTemplate {
    /// End of this record's window, in half-seconds of the day.
    pub until: u32,
    /// The four hardware lights.
    pub lights: [Light; LIGHT_COUNT],
    /// The diffuse material color.
    pub diffuse: u16,
    /// The ambient material color.
    pub ambient: u16,
    /// The specular material color.
    pub specular: u16,
    /// The emission material color.
    pub emission: u16,
}

/// The lighting the 3D map is drawn with: every field a template writes.
#[derive(Debug, Clone, Copy, PartialEq, Eq, Hash, Default)]
pub struct ModelLighting {
    /// The light vectors.
    pub light_vectors: [[i16; 3]; LIGHT_COUNT],
    /// The light colors.
    pub light_colors: [u16; LIGHT_COUNT],
    /// The diffuse color.
    pub diffuse: u16,
    /// The ambient color.
    pub ambient: u16,
    /// The specular color.
    pub specular: u16,
    /// The emission color.
    pub emission: u16,
    /// Whether the diffuse color is the vertex color; a template always
    /// writes false.
    pub diffuse_is_vertex_color: bool,
    /// Whether the specular shininess table is on; a template always
    /// writes false.
    pub specular_shininess: bool,
}

/// The light-enable mask of four lights: bit `i` for light `i`.
pub open spec fn spec_light_mask(l: [Light; LIGHT_COUNT]) -> u8 {
    ((if l[0].enabled { 1u8 } else { 0u8 }) + (if l[1].enabled { 2u8 } else { 0u8 }) + (
    if l[2].enabled {
        4u8
    } else {
        0u8
    }) + (if l[3].enabled { 8u8 } else { 0u8 })) as u8
}

/// The lighting after a template is applied: an enabled light's vector
/// and color, a disabled light's zeros, and the four material colors.
pub open spec fn spec_applied(t: LightTemplate, a: ModelLighting) -> ModelLighting {
    ModelLighting {
        light_vectors: [
            if t.lights[0].enabled { t.lights[0].vector } else { [0i16, 0i16, 0i16] },
            if t.lights[1].enabled { t.lights[1].vector } else { [0i16, 0i16, 0i16] },
            if t.lights[2].enabled { t.lights[2].vector } else { [0i16, 0i16, 0i16] },
            if t.lights[3].enabled { t.lights[3].vector } else { [0i16, 0i16, 0i16] },
        ],
        light_colors: [
            if t.lights[0].enabled { t.lights[0].color } else { 0u16 },
            if t.lights[1].enabled { t.lights[1].color } else { 0u16 },
            if t.lights[2].enabled { t.lights[2].color } else { 0u16 },
            if t.lights[3].enabled { t.lights[3].color } else { 0u16 },
        ],
        diffuse: t.diffuse,
        ambient: t.ambient,
        specular: t.specular,
        emission: t.emission,
        diffuse_is_vertex_color: false,
        specular_shininess: false,
    }
}

impl LightTemplate {
    /// The record's light-enable mask: bit `i` for light `i`.
    pub fn light_mask(&self) -> (res: u8)
        ensures
            res == spec_light_mask(self.lights),
    {
        let mut mask: u8 = 0;
        if self.lights[0].enabled {
            mask = mask + 1;
        }
        if self.lights[1].enabled {
            mask = mask + 2;
        }
        if self.lights[2].enabled {
            mask = mask + 4;
        }
        if self.lights[3].enabled {
            mask = mask + 8;
        }
        mask
    }

    /// Writes the template into the lighting: an enabled light's vector
    /// and color, a disabled light's zeros; then the four material
    /// colors, with the vertex-color and shininess flags off.
    pub fn apply(&self, attrs: &mut ModelLighting)
        ensures
            *final(attrs) == spec_applied(*self, *old(attrs)),
    {
        let l = self.lights;
        let v0 = if l[0].enabled { l[0].vector } else { [0i16, 0i16, 0i16] };
        let v1 = if l[1].enabled { l[1].vector } else { [0i16, 0i16, 0i16] };
        let v2 = if l[2].enabled { l[2].vector } else { [0i16, 0i16, 0i16] };
        let v3 = if l[3].enabled { l[3].vector } else { [0i16, 0i16, 0i16] };
        let c0 = if l[0].enabled { l[0].color } else { 0u16 };
        let c1 = if l[1].enabled { l[1].color } else { 0u16 };
        let c2 = if l[2].enabled { l[2].color } else { 0u16 };
        let c3 = if l[3].enabled { l[3].color } else { 0u16 };
        *attrs = ModelLighting {
            light_vectors: [v0, v1, v2, v3],
            light_colors: [c0, c1, c2, c3],
            diffuse: self.diffuse,
            ambient: self.ambient,
            specular: self.specular,
            emission: self.emission,
            diffuse_is_vertex_color: false,
            specular_shininess: false,
        };
        proof {
            let s = spec_applied(*self, *old(attrs));
            assert(attrs.light_vectors@ =~= s.light_vectors@);
            assert(attrs.light_colors@ =~= s.light_colors@);
        }
    }
}

/// The archive a light type selects: archive 1 for type 0, 0 for type
/// 1, 3 for type 2 (the dungeon set, promoted to 4 by the dungeon
/// variant flag), and 0 for anything else.
pub fn archive_for_light_type(light_type: u8, dungeon_variant: bool) -> (res: usize)
    ensures
        res == if light_type == 0 {
            1
        } else if light_type == 2 {
            if dungeon_variant {
                4usize
            } else {
                3
            }
        } else {
            0
        },
{
    let id: usize = if light_type == 0 {
        1
    } else if light_type == 1 {
        0
    } else if light_type == 2 {
        3
    } else {
        0
    };
    if id == 3 && dungeon_variant {
        4
    } else {
        id
    }
}

// ----- the text: lines, fields and numbers ------------------------------

/// Byte `i` of the text, NUL past its end.
pub open spec fn byte_at(t: Seq<u8>, i: int) -> u8 {
    if 0 <= i < t.len() {
        t[i]
    } else {
        0
    }
}

/// The offset from `start + i` of the first line delimiter (a CR or the
/// end of the text) within the 256-byte buffer, if any.
pub open spec fn delim_index(t: Seq<u8>, start: int, i: int) -> Option<int>
    decreases MAX_LINE - i,
{
    if i >= MAX_LINE {
        None
    } else if byte_at(t, start + i) == 13 || byte_at(t, start + i) == 0 {
        Some(i)
    } else {
        delim_index(t, start, i + 1)
    }
}

/// The line read at `pos` and the position after it (past its CR and
/// an LF that follows; at most one past the end of the text), or `None`
/// when the line overflows the buffer.
pub open spec fn next_line(t: Seq<u8>, pos: int) -> Option<(Seq<u8>, int)> {
    match delim_index(t, pos, 0) {
        None => None,
        Some(i) => {
            let end = vstd::math::min(pos + i, t.len() as int);
            let line = t.subrange(vstd::math::min(pos, end), end);
            let p2 = vstd::math::min(pos + i + 1, t.len() as int + 1);
            let p3 = if byte_at(t, pos + i) == 13 && byte_at(t, p2) == 10 {
                p2 + 1
            } else {
                p2
            };
            Some((line, p3))
        },
    }
}

proof fn lemma_delim_index_bound(t: Seq<u8>, start: int, i: int)
    requires
        0 <= i,
    ensures
        delim_index(t, start, i) matches Some(k) ==> i <= k < MAX_LINE,
    decreases MAX_LINE - i,
{
    if i < MAX_LINE && !(byte_at(t, start + i) == 13 || byte_at(t, start + i) == 0) {
        lemma_delim_index_bound(t, start, i + 1);
    }
}

proof fn lemma_next_line_advances(t: Seq<u8>, pos: int)
    requires
        0 <= pos <= t.len() + 1,
    ensures
        next_line(t, pos) matches Some((l, p)) ==> pos < p <= t.len() + 1 || (pos == t.len() + 1
            && p == pos),
{
    lemma_delim_index_bound(t, pos, 0);
}

/// The text's lines, delimited by CR (a following LF is skipped) or by
/// the end of the text, each at most 255 bytes.
pub struct Lines<'a> {
    text: &'a [u8],
    pos: usize,
}

impl<'a> Lines<'a> {
    /// The text.
    pub closed spec fn spec_text(self) -> Seq<u8> {
        self.text@
    }

    /// The read position (at most one past the end of the text).
    pub closed spec fn spec_pos(self) -> int {
        self.pos as int
    }

    /// The position is in range.
    pub open spec fn wf(self) -> bool {
        &&& 0 <= self.spec_pos() <= self.spec_text().len() + 1
        &&& self.spec_text().len() < usize::MAX - MAX_LINE - 2
    }

    /// Lines from the start of `text`.
    pub fn new(text: &'a [u8]) -> (res: Self)
        requires
            text@.len() < usize::MAX - MAX_LINE - 2,
        ensures
            res.wf(),
            res.spec_text() == text@,
            res.spec_pos() == 0,
    {
        Lines { text, pos: 0 }
    }

    fn byte(&self, at: usize) -> (res: u8)
        ensures
            res == byte_at(self.text@, at as int),
    {
        if at < self.text.len() {
            self.text[at]
        } else {
            0
        }
    }

    /// The next line; an error when no delimiter comes within 256
    /// bytes.
    pub fn next(&mut self) -> (res: Result<&'a [u8], NdsError>)
        requires
            old(self).wf(),
        ensures
            final(self).wf(),
            final(self).spec_text() == old(self).spec_text(),
            match next_line(old(self).spec_text(), old(self).spec_pos()) {
                Some((line, p)) => res matches Ok(l) && l@ == line && final(self).spec_pos() == p,
                None => res is Err && final(self).spec_pos() == old(self).spec_pos(),
            },
            res matches Ok(l) ==> l@.len() <= old(self).spec_text().len(),
    {
        let start = self.pos;
        let len = self.text.len();
        let mut i: usize = 0;
        proof {
            lemma_delim_index_bound(self.text@, start as int, 0);
        }
        while i < MAX_LINE
            invariant
                i <= MAX_LINE,
                start == self.pos,
                len == self.text@.len(),
                self.wf(),
                self.text@ == old(self).spec_text(),
                self.pos == old(self).spec_pos(),
                delim_index(self.text@, start as int, 0) == delim_index(
                    self.text@,
                    start as int,
                    i as int,
                ),
            decreases MAX_LINE - i,
        {
            let b = self.byte(start + i);
            if b == 13 || b == 0 {
                let end = if start + i < len {
                    start + i
                } else {
                    len
                };
                let from = if start < end {
                    start
                } else {
                    end
                };
                let line = slice_subrange(self.text, from, end);
                let p2 = if start + i + 1 < len + 1 {
                    start + i + 1
                } else {
                    len + 1
                };
                self.pos = if b == 13 && self.byte(p2) == 10 {
                    p2 + 1
                } else {
                    p2
                };
                return Ok(line);
            }
            i = i + 1;
        }
        Err(NdsError::Invalid { what: "area light line exceeds the 256-byte line buffer" })
    }

    /// Whether the position is at or past the end of the text.
    pub fn exhausted(&self) -> (res: bool)
        ensures
            res == (self.spec_pos() >= self.spec_text().len()),
    {
        self.pos >= self.text.len()
    }
}

/// The field read at `pos` of a line and the position after it: up to
/// the first comma or NUL (the rest of the line when there is none).
pub open spec fn next_field(line: Seq<u8>, pos: int) -> (Seq<u8>, int) {
    let from = vstd::math::min(pos, line.len() as int);
    let rest = line.subrange(from, line.len() as int);
    match first_sep(rest, 0) {
        Some(i) => (rest.subrange(0, i), pos + i + 1),
        None => (rest, line.len() as int + 1),
    }
}

/// The index of the first comma or NUL of `s` from `i` on.
pub open spec fn first_sep(s: Seq<u8>, i: int) -> Option<int>
    decreases s.len() - i,
{
    if i < 0 || i >= s.len() {
        None
    } else if s[i] == 44 || s[i] == 0 {
        Some(i)
    } else {
        first_sep(s, i + 1)
    }
}

proof fn lemma_first_sep_bound(s: Seq<u8>, i: int)
    requires
        0 <= i,
    ensures
        first_sep(s, i) matches Some(k) ==> i <= k < s.len(),
    decreases s.len() - i,
{
    if i < s.len() && !(s[i] == 44 || s[i] == 0) {
        lemma_first_sep_bound(s, i + 1);
    }
}

/// The position before field `k` of a line.
pub open spec fn field_pos(line: Seq<u8>, k: nat) -> int
    decreases k,
{
    if k == 0 {
        0
    } else {
        next_field(line, field_pos(line, (k - 1) as nat)).1
    }
}

/// Field `k` of a line, as the field reader hands them out.
pub open spec fn nth_field(line: Seq<u8>, k: nat) -> Seq<u8> {
    next_field(line, field_pos(line, k)).0
}

/// The comma-separated fields of one line, the last one running to its
/// end; empty once the line is spent.
pub struct Fields<'a> {
    line: &'a [u8],
    pos: usize,
}

impl<'a> Fields<'a> {
    /// The line.
    pub closed spec fn spec_line(self) -> Seq<u8> {
        self.line@
    }

    /// The read position.
    pub closed spec fn spec_pos(self) -> int {
        self.pos as int
    }

    /// The fields of `line`, from its start.
    pub fn new(line: &'a [u8]) -> (res: Self)
        ensures
            res.spec_line() == line@,
            res.spec_pos() == 0,
    {
        Fields { line, pos: 0 }
    }

    /// The next field.
    pub fn next(&mut self) -> (res: &'a [u8])
        requires
            old(self).spec_pos() <= old(self).spec_line().len() + 1,
            old(self).spec_line().len() < usize::MAX,
        ensures
            final(self).spec_line() == old(self).spec_line(),
            final(self).spec_pos() <= final(self).spec_line().len() + 1,
            (res@, final(self).spec_pos()) == next_field(old(self).spec_line(), old(self).spec_pos()),
    {
        let len = self.line.len();
        let from = if self.pos < len {
            self.pos
        } else {
            len
        };
        let rest = slice_subrange(self.line, from, len);
        let mut i: usize = 0;
        proof {
            lemma_first_sep_bound(rest@, 0);
        }
        while i < rest.len()
            invariant
                i <= rest@.len(),
                rest@.len() == len - from,
                rest@ == self.line@.subrange(from as int, len as int),
                len == self.line@.len(),
                self.line@ == old(self).spec_line(),
                self.pos == old(self).spec_pos(),
                from == vstd::math::min(self.pos as int, len as int),
                first_sep(rest@, 0) == first_sep(rest@, i as int),
            decreases rest@.len() - i,
        {
            if rest[i] == 44 || rest[i] == 0 {
                proof {
                    assert(first_sep(rest@, i as int) == Some(i as int));
                    assert(rest@ == old(self).spec_line().subrange(from as int, len as int));
                }
                self.pos = self.pos + i + 1;
                return slice_subrange(rest, 0, i);
            }
            i = i + 1;
        }
        self.pos = len + 1;
        rest
    }
}

/// Whether `c` is an ASCII digit.
pub open spec fn is_digit(c: u8) -> bool {
    48 <= c <= 57
}

/// The number of the first `k` bytes of a text, read right to left: a
/// digit adds its value times the running power of ten; a non-digit in
/// the first position negates on `-` and is otherwise ignored, a
/// non-digit anywhere else gives -1; arithmetic wraps.
pub open spec fn atol_from(t: Seq<u8>, k: int, num: i32, pow: i32) -> i32
    decreases k,
{
    if k <= 0 {
        num
    } else {
        let i = k - 1;
        let c = t[i];
        if is_digit(c) {
            atol_from(t, i, num.wrapping_add(pow.wrapping_mul((c - 48) as i32)), pow.wrapping_mul(10))
        } else if i == 0 {
            if c == 45 {
                atol_from(t, i, 0i32.wrapping_sub(num), pow.wrapping_mul(10))
            } else {
                atol_from(t, i, num, pow.wrapping_mul(10))
            }
        } else {
            -1i32
        }
    }
}

/// The text's number: digits read right to left with a running power of
/// ten; a non-digit in the first position negates on `-` and is
/// otherwise ignored, a non-digit anywhere else gives -1; arithmetic
/// wraps.
pub fn ascii_to_long(text: &[u8]) -> (res: i32)
    ensures
        res == atol_from(text@, text@.len() as int, 0, 1),
{
    let mut pow10: i32 = 1;
    let mut num: i32 = 0;
    let mut k: usize = text.len();
    while k > 0
        invariant
            k <= text@.len(),
            atol_from(text@, k as int, num, pow10) == atol_from(text@, text@.len() as int, 0, 1),
        decreases k,
    {
        let i = k - 1;
        let c = text[i];
        if 48 <= c && c <= 57 {
            num = num.wrapping_add(pow10.wrapping_mul((c - 48) as i32));
        } else if i == 0 {
            if c == 45 {
                num = 0i32.wrapping_sub(num);
            }
        } else {
            return -1;
        }
        pow10 = pow10.wrapping_mul(10);
        k = i;
    }
    num
}

/// A 16-bit truncation of a field's number.
pub open spec fn field_u16(line: Seq<u8>, k: nat) -> u16 {
    atol_from(nth_field(line, k), nth_field(line, k).len() as int, 0, 1) as u16
}

/// Three fields from field `k` on, packed `r | g << 5 | b << 10`.
pub open spec fn packed_color(line: Seq<u8>, k: nat) -> u16 {
    ((field_u16(line, k) as u32) | ((field_u16(line, k + 1) as u32) << 5u32) | ((field_u16(
        line,
        k + 2,
    ) as u32) << 10u32)) as u16
}

/// A vector field: the number truncated to 16 bits, clamped to ±4096.
pub open spec fn vector_field(line: Seq<u8>, k: nat) -> i16 {
    let raw = atol_from(nth_field(line, k), nth_field(line, k).len() as int, 0, 1) as i16;
    if raw < -4096 {
        -4096i16
    } else if raw > 4096 {
        4096i16
    } else {
        raw
    }
}

/// The light a light line describes.
pub open spec fn spec_light(line: Seq<u8>) -> Light {
    if atol_from(nth_field(line, 0), nth_field(line, 0).len() as int, 0, 1) != 1 {
        Light { enabled: false, color: 0, vector: [0i16, 0i16, 0i16] }
    } else {
        let color = packed_color(line, 1);
        let enabled = color != 0xFFFF;
        Light {
            enabled,
            color: if enabled { color } else { 0 },
            vector: [vector_field(line, 4), vector_field(line, 5), vector_field(line, 6)],
        }
    }
}

fn next_field_of<'a>(fields: &mut Fields<'a>, k: Ghost<nat>) -> (res: &'a [u8])
    requires
        old(fields).spec_line().len() < usize::MAX,
        old(fields).spec_pos() == field_pos(old(fields).spec_line(), k@),
        old(fields).spec_pos() <= old(fields).spec_line().len() + 1,
    ensures
        final(fields).spec_line() == old(fields).spec_line(),
        final(fields).spec_pos() == field_pos(old(fields).spec_line(), k@ + 1),
        final(fields).spec_pos() <= final(fields).spec_line().len() + 1,
        res@ == nth_field(old(fields).spec_line(), k@),
{
    fields.next()
}

fn pack_color<'a>(fields: &mut Fields<'a>, k: Ghost<nat>) -> (res: u16)
    requires
        old(fields).spec_line().len() < usize::MAX,
        old(fields).spec_pos() == field_pos(old(fields).spec_line(), k@),
        old(fields).spec_pos() <= old(fields).spec_line().len() + 1,
    ensures
        final(fields).spec_line() == old(fields).spec_line(),
        final(fields).spec_pos() == field_pos(old(fields).spec_line(), k@ + 3),
        final(fields).spec_pos() <= final(fields).spec_line().len() + 1,
        res == packed_color(old(fields).spec_line(), k@),
{
    let r = ascii_to_long(next_field_of(fields, Ghost(k@))) as u16;
    let g = ascii_to_long(next_field_of(fields, Ghost(k@ + 1))) as u16;
    let b = ascii_to_long(next_field_of(fields, Ghost(k@ + 2))) as u16;
    ((r as u32) | ((g as u32) << 5u32) | ((b as u32) << 10u32)) as u16
}

fn parse_light(line: &[u8]) -> (res: Light)
    requires
        line@.len() < usize::MAX,
    ensures
        res == spec_light(line@),
{
    let mut fields = Fields::new(line);
    if ascii_to_long(next_field_of(&mut fields, Ghost(0))) != 1 {
        return Light { enabled: false, color: 0, vector: [0i16, 0i16, 0i16] };
    }
    let color = pack_color(&mut fields, Ghost(1));
    let x = clamp_vector(ascii_to_long(next_field_of(&mut fields, Ghost(4))) as i16);
    let y = clamp_vector(ascii_to_long(next_field_of(&mut fields, Ghost(5))) as i16);
    let z = clamp_vector(ascii_to_long(next_field_of(&mut fields, Ghost(6))) as i16);
    let enabled = color != 0xFFFF;
    let light = Light {
        enabled,
        color: if enabled {
            color
        } else {
            0
        },
        vector: [x, y, z],
    };
    proof {
        assert(light.vector@ =~= spec_light(line@).vector@);
    }
    light
}

fn clamp_vector(raw: i16) -> (res: i16)
    ensures
        res == if raw < -4096 {
            -4096i16
        } else if raw > 4096 {
            4096i16
        } else {
            raw
        },
{
    if raw < -4096 {
        -4096
    } else if raw > 4096 {
        4096
    } else {
        raw
    }
}

fn parse_color(line: &[u8]) -> (res: u16)
    requires
        line@.len() < usize::MAX,
    ensures
        res == packed_color(line@, 0),
{
    let mut fields = Fields::new(line);
    pack_color(&mut fields, Ghost(0))
}

/// Whether a line starts with `EOF`.
pub open spec fn is_eof(line: Seq<u8>) -> bool {
    line.len() >= 3 && line[0] == 69 && line[1] == 79 && line[2] == 70
}

fn eof_line(line: &[u8]) -> (res: bool)
    ensures
        res == is_eof(line@),
{
    line.len() >= 3 && line[0] == 69 && line[1] == 79 && line[2] == 70
}

/// The `n` lines from `pos` and the position after them, if none
/// overflows.
pub open spec fn lines_from(t: Seq<u8>, pos: int, n: nat) -> Option<(Seq<Seq<u8>>, int)>
    decreases n,
{
    if n == 0 {
        Some((Seq::empty(), pos))
    } else {
        match next_line(t, pos) {
            None => None,
            Some((l, p)) => match lines_from(t, p, (n - 1) as nat) {
                None => None,
                Some((ls, q)) => Some((seq![l] + ls, q)),
            },
        }
    }
}

proof fn lemma_lines_from_step(t: Seq<u8>, pos: int, k: nat)
    ensures
        match lines_from(t, pos, k) {
            None => lines_from(t, pos, k + 1) is None,
            Some((ls, q)) => ls.len() == k && lines_from(t, pos, k + 1) == match next_line(t, q) {
                None => None,
                Some((l, r)) => Some((ls.push(l), r)),
            },
        },
    decreases k,
{
    reveal_with_fuel(lines_from, 2);
    if k == 0 {
        match next_line(t, pos) {
            None => {},
            Some((l, p)) => {
                assert(seq![l] + Seq::<Seq<u8>>::empty() =~= Seq::<Seq<u8>>::empty().push(l));
            },
        }
    } else {
        match next_line(t, pos) {
            None => {},
            Some((l, p)) => {
                lemma_lines_from_step(t, p, (k - 1) as nat);
                match lines_from(t, p, (k - 1) as nat) {
                    None => {},
                    Some((ls, q)) => {
                        match next_line(t, q) {
                            None => {},
                            Some((l2, r)) => {
                                assert(seq![l] + ls.push(l2) =~= (seq![l] + ls).push(l2));
                            },
                        }
                    },
                }
            },
        }
    }
}

proof fn lemma_lines_from_bound(t: Seq<u8>, pos: int, k: nat)
    requires
        0 <= pos <= t.len() + 1,
    ensures
        lines_from(t, pos, k) matches Some((ls, q)) ==> pos <= q <= t.len() + 1,
    decreases k,
{
    if k > 0 {
        lemma_next_line_advances(t, pos);
        match next_line(t, pos) {
            None => {},
            Some((l, p)) => {
                lemma_lines_from_bound(t, p, (k - 1) as nat);
            },
        }
    }
}

proof fn lemma_lines_from_none(t: Seq<u8>, pos: int, a: nat, b: nat)
    requires
        a <= b,
        lines_from(t, pos, a) is None,
    ensures
        lines_from(t, pos, b) is None,
    decreases a,
{
    if a > 0 {
        match next_line(t, pos) {
            None => {},
            Some((l, p)) => {
                lemma_lines_from_none(t, p, (a - 1) as nat, (b - 1) as nat);
            },
        }
    }
}

fn read_lines<'a>(lines: &mut Lines<'a>, n: usize) -> (res: Result<Vec<&'a [u8]>, NdsError>)
    requires
        old(lines).wf(),
        n <= RECORD_LINES,
    ensures
        final(lines).wf(),
        final(lines).spec_text() == old(lines).spec_text(),
        match lines_from(old(lines).spec_text(), old(lines).spec_pos(), n as nat) {
            Some((ls, q)) => res matches Ok(v) && v@.len() == n && (forall|i: int|
                0 <= i < n ==> #[trigger] v@[i]@ == ls[i]) && final(lines).spec_pos() == q,
            None => res is Err,
        },
        res matches Ok(v) ==> forall|i: int|
            0 <= i < v@.len() ==> #[trigger] v@[i]@.len() <= old(lines).spec_text().len(),
{
    let ghost start = lines.spec_pos();
    let mut v: Vec<&'a [u8]> = Vec::new();
    let mut k: usize = 0;
    while k < n
        invariant
            k <= n <= RECORD_LINES,
            lines.wf(),
            lines.spec_text() == old(lines).spec_text(),
            start == old(lines).spec_pos(),
            lines_from(lines.spec_text(), start, k as nat) matches Some((ls, q)) && q
                == lines.spec_pos() && v@.len() == k && forall|i: int|
                0 <= i < k ==> #[trigger] v@[i]@ == ls[i],
            forall|i: int| 0 <= i < v@.len() ==> #[trigger] v@[i]@.len() <= lines.spec_text().len(),
        decreases n - k,
    {
        proof {
            lemma_lines_from_step(lines.spec_text(), start, k as nat);
            if next_line(lines.spec_text(), lines.spec_pos()) is None {
                lemma_lines_from_none(lines.spec_text(), start, (k + 1) as nat, n as nat);
            }
        }
        let line = lines.next()?;
        v.push(line);
        k = k + 1;
    }
    proof {
        if lines_from(lines.spec_text(), start, n as nat) is None {
            assert(false);
        }
    }
    Ok(v)
}

/// The record count of a text from `pos`, with `count` records counted:
/// records until a line starting `EOF`, checked before each record and
/// on each record's tenth line; `None` when a line overflows or the
/// text ends without an `EOF` line.
pub open spec fn count_from(t: Seq<u8>, pos: int, count: int) -> Option<int>
    decreases t.len() + 1 - pos,
{
    match next_line(t, pos) {
        None => None,
        Some((first, p1)) => if is_eof(first) {
            Some(count)
        } else {
            match lines_from(t, p1, 9) {
                None => None,
                Some((ls, p2)) => if is_eof(ls[8]) {
                    Some(count + 1)
                } else if p2 >= t.len() {
                    None
                } else if pos < p2 <= t.len() + 1 {
                    count_from(t, p2, count + 1)
                } else {
                    None
                },
            }
        },
    }
}

/// The template of the ten lines from `pos`, and the position after
/// them; `None` when a line overflows or the threshold is negative.
pub open spec fn template_at_pos(t: Seq<u8>, pos: int) -> Option<(LightTemplate, int)> {
    match lines_from(t, pos, 10) {
        None => None,
        Some((ls, p)) => {
            let first = nth_field(ls[0], 0);
            let until = atol_from(first, first.len() as int, 0, 1);
            if until < 0 {
                None
            } else {
                Some(
                    (
                        LightTemplate {
                            until: until as u32,
                            lights: [
                                spec_light(ls[1]),
                                spec_light(ls[2]),
                                spec_light(ls[3]),
                                spec_light(ls[4]),
                            ],
                            diffuse: packed_color(ls[5], 0),
                            ambient: packed_color(ls[6], 0),
                            specular: packed_color(ls[7], 0),
                            emission: packed_color(ls[8], 0),
                        },
                        p,
                    ),
                )
            }
        },
    }
}

/// The `n` templates from `pos`, after `acc`.
pub open spec fn templates_from(t: Seq<u8>, pos: int, n: nat, acc: Seq<LightTemplate>) -> Option<
    Seq<LightTemplate>,
>
    decreases n,
{
    if n == 0 {
        Some(acc)
    } else {
        match template_at_pos(t, pos) {
            None => None,
            Some((tp, p)) => templates_from(t, p, (n - 1) as nat, acc.push(tp)),
        }
    }
}

/// What an archive text parses to: the records the counting pass finds,
/// each read from its ten lines.
pub open spec fn spec_archive(t: Seq<u8>) -> Option<Seq<LightTemplate>> {
    match count_from(t, 0, 0) {
        None => None,
        Some(n) => if n <= 0 {
            None
        } else {
            templates_from(t, 0, n as nat, Seq::empty())
        },
    }
}

fn count_records(text: &[u8]) -> (res: Result<usize, NdsError>)
    requires
        text@.len() < usize::MAX - MAX_LINE - 2,
    ensures
        match count_from(text@, 0, 0) {
            Some(n) => res matches Ok(m) && m as int == n,
            None => res is Err,
        },
{
    let mut lines = Lines::new(text);
    let mut count: usize = 0;
    loop
        invariant
            lines.wf(),
            lines.spec_text() == text@,
            count <= lines.spec_pos(),
            count_from(text@, lines.spec_pos(), count as int) == count_from(text@, 0, 0),
        decreases text@.len() + 1 - lines.spec_pos(),
    {
        let ghost pos = lines.spec_pos();
        proof {
            lemma_next_line_advances(text@, pos);
        }
        let first = lines.next()?;
        if eof_line(first) {
            return Ok(count);
        }
        let ghost p1 = lines.spec_pos();
        proof {
            lemma_lines_from_bound(text@, p1, 9);
        }
        let rest = read_lines(&mut lines, 9)?;
        count = count + 1;
        if eof_line(rest[8]) {
            return Ok(count);
        }
        if lines.exhausted() {
            return Err(NdsError::Invalid { what: "area light table ends without an EOF line" });
        }
    }
}

fn read_template<'a>(lines: &mut Lines<'a>) -> (res: Result<LightTemplate, NdsError>)
    requires
        old(lines).wf(),
    ensures
        final(lines).wf(),
        final(lines).spec_text() == old(lines).spec_text(),
        match template_at_pos(old(lines).spec_text(), old(lines).spec_pos()) {
            Some((tp, p)) => res == Ok::<LightTemplate, NdsError>(tp) && final(lines).spec_pos()
                == p,
            None => res is Err,
        },
{
    let ls = read_lines(lines, RECORD_LINES)?;
    let mut fields = Fields::new(ls[0]);
    let until = ascii_to_long(next_field_of(&mut fields, Ghost(0)));
    if until < 0 {
        return Err(NdsError::Invalid { what: "area light record has a negative threshold" });
    }
    let lights = [parse_light(ls[1]), parse_light(ls[2]), parse_light(ls[3]), parse_light(ls[4])];
    let tp = LightTemplate {
        until: until as u32,
        lights,
        diffuse: parse_color(ls[5]),
        ambient: parse_color(ls[6]),
        specular: parse_color(ls[7]),
        emission: parse_color(ls[8]),
    };
    proof {
        let q = template_at_pos(old(lines).spec_text(), old(lines).spec_pos());
        assert(tp.lights@ =~= (q->0).0.lights@);
    }
    Ok(tp)
}

/// A parsed light archive: the records in file order.
#[derive(Debug, Clone, PartialEq, Eq)]
pub struct AreaLightArchive {
    templates: Vec<LightTemplate>,
}

impl AreaLightArchive {
    /// The records in file order.
    pub closed spec fn spec_templates(self) -> Seq<LightTemplate> {
        self.templates@
    }

    /// Parses one archive text: a counting pass to the `EOF` line, then
    /// one record per ten lines. Fails when a line exceeds the 256-byte
    /// buffer, the text ends before an `EOF` line, no record precedes
    /// it, or a threshold is negative.
    pub fn parse(text: &[u8]) -> (res: Result<Self, NdsError>)
        requires
            text@.len() < usize::MAX - 4096,
        ensures
            match spec_archive(text@) {
                Some(ts) => res matches Ok(a) && a.spec_templates() == ts,
                None => res is Err,
            },
    {
        let count = count_records(text)?;
        if count == 0 {
            return Err(NdsError::Invalid { what: "area light table has no records before EOF" });
        }
        let mut lines = Lines::new(text);
        let mut templates: Vec<LightTemplate> = Vec::new();
        let mut i: usize = 0;
        while i < count
            invariant
                i <= count,
                lines.wf(),
                lines.spec_text() == text@,
                count_from(text@, 0, 0) == Some(count as int),
                count >= 1,
                templates_from(text@, lines.spec_pos(), (count - i) as nat, templates@)
                    == templates_from(text@, 0, count as nat, Seq::empty()),
            decreases count - i,
        {
            let tp = read_template(&mut lines)?;
            templates.push(tp);
            i = i + 1;
        }
        Ok(AreaLightArchive { templates })
    }

    /// The records in file order.
    pub fn templates(&self) -> (res: &[LightTemplate])
        ensures
            res@ == self.spec_templates(),
    {
        self.templates.as_slice()
    }

    /// The record the manager starts on at `seconds_of_day`: the first
    /// whose `until` exceeds `seconds_of_day / 2`, or 0 when none does.
    pub open spec fn spec_initial_index(self, seconds_of_day: u32) -> int {
        let ts = self.spec_templates();
        let half = seconds_of_day / 2;
        if exists|i: int| 0 <= i < ts.len() && ts[i].until > half {
            choose|i: int|
                0 <= i < ts.len() && ts[i].until > half && forall|j: int|
                    0 <= j < i ==> #[trigger] ts[j].until <= half
        } else {
            0
        }
    }

    /// The record the manager starts on at `seconds_of_day`: the first
    /// whose `until` exceeds `seconds_of_day / 2`, or 0 when none does.
    /// So record `i` covers `[until[i-1], until[i])` half-seconds, and a
    /// leading `until == 0` record is never the initial pick.
    pub fn initial_index(&self, seconds_of_day: u32) -> (res: usize)
        ensures
            res == self.spec_initial_index(seconds_of_day),
            self.spec_templates().len() > 0 ==> res < self.spec_templates().len(),
    {
        let half = seconds_of_day / 2;
        let mut i: usize = 0;
        while i < self.templates.len()
            invariant
                i <= self.templates@.len(),
                half == seconds_of_day / 2,
                forall|j: int| 0 <= j < i ==> #[trigger] self.templates@[j].until <= half,
            decreases self.templates@.len() - i,
        {
            if self.templates[i].until > half {
                proof {
                    let ts = self.spec_templates();
                    assert(0 <= i < ts.len() && ts[i as int].until > half && forall|j: int|
                        0 <= j < i ==> #[trigger] ts[j].until <= half);
                    let k = choose|k: int|
                        0 <= k < ts.len() && ts[k].until > half && forall|j: int|
                            0 <= j < k ==> #[trigger] ts[j].until <= half;
                    assert(0 <= k < ts.len() && ts[k].until > half);
                    if k < i {
                        assert(ts[k].until <= half);
                    }
                    if k > i {
                        assert(ts[i as int].until <= half);
                    }
                    assert(k == i);
                }
                return i;
            }
            i = i + 1;
        }
        0
    }

    /// The template in force at `seconds_of_day`.
    pub fn template_at(&self, seconds_of_day: u32) -> (res: &LightTemplate)
        requires
            self.spec_templates().len() > 0,
        ensures
            *res == self.spec_templates()[self.spec_initial_index(seconds_of_day)],
    {
        let i = self.initial_index(seconds_of_day);
        &self.templates[i]
    }

    /// The half-second window `[start, end)` record `index` claims: the
    /// previous record's `until` (0 for the first) to its own.
    pub fn window(&self, index: usize) -> (res: (u32, u32))
        requires
            index < self.spec_templates().len(),
        ensures
            res == (
                if index == 0 {
                    0u32
                } else {
                    self.spec_templates()[index - 1].until
                },
                self.spec_templates()[index as int].until,
            ),
    {
        let start = if index == 0 {
            0
        } else {
            self.templates[index - 1].until
        };
        (start, self.templates[index].until)
    }
}


/// The per-map lighting state: the archive, the active record and an
/// enable flag.
#[derive(Debug, Clone, PartialEq, Eq)]
pub struct AreaLightManager {
    archive: AreaLightArchive,
    active: usize,
    enabled: bool,
}

impl AreaLightManager {
    /// The archive.
    pub closed spec fn spec_archive(self) -> AreaLightArchive {
        self.archive
    }

    /// The active record's index.
    pub closed spec fn spec_active(self) -> int {
        self.active as int
    }

    /// The enable flag.
    pub closed spec fn spec_enabled(self) -> bool {
        self.enabled
    }

    /// The active index is a record of the archive.
    pub open spec fn wf(self) -> bool {
        0 <= self.spec_active() < self.spec_archive().spec_templates().len()
    }

    /// Picks the record for `seconds_of_day`, enables the manager, and
    /// applies that record to `attrs`.
    pub fn new(archive: AreaLightArchive, seconds_of_day: u32, attrs: &mut ModelLighting) -> (res:
        Self)
        requires
            archive.spec_templates().len() > 0,
        ensures
            res.wf(),
            res.spec_archive() == archive,
            res.spec_active() == archive.spec_initial_index(seconds_of_day),
            res.spec_enabled(),
            *final(attrs) == spec_applied(
                archive.spec_templates()[archive.spec_initial_index(seconds_of_day)],
                *old(attrs),
            ),
    {
        let active = archive.initial_index(seconds_of_day);
        archive.templates[active].apply(attrs);
        AreaLightManager { archive, active, enabled: true }
    }

    /// The active index after one update at `seconds_of_day`.
    pub open spec fn next_active(self, seconds_of_day: u32) -> int {
        let ts = self.spec_archive().spec_templates();
        let a = self.spec_active();
        let half = seconds_of_day / 2;
        let start: int = if a == 0 {
            0
        } else {
            ts[a - 1].until as int
        };
        let end = ts[a].until as int;
        if ts.len() <= 1 {
            a
        } else if half >= end || half < start {
            if a + 1 >= ts.len() {
                0
            } else {
                a + 1
            }
        } else {
            a
        }
    }

    /// Steps once per field frame. With more than one record, the active
    /// index advances by one (wrapping to 0) whenever `seconds_of_day /
    /// 2` falls outside the active record's window, and the new record
    /// is applied to `attrs` when the manager is enabled. Returns
    /// whether a record was applied.
    ///
    /// A jump of several records takes as many frames to catch up, and
    /// at midnight the clock falls below the last record's window start,
    /// so the manager steps to record 0 for exactly one frame before
    /// stepping on to record 1.
    pub fn update(&mut self, seconds_of_day: u32, attrs: &mut ModelLighting) -> (res: bool)
        requires
            old(self).wf(),
        ensures
            final(self).wf(),
            final(self).spec_archive() == old(self).spec_archive(),
            final(self).spec_enabled() == old(self).spec_enabled(),
            final(self).spec_active() == old(self).next_active(seconds_of_day),
            res == (old(self).spec_enabled() && final(self).spec_active() != old(
                self,
            ).spec_active()),
            res ==> *final(attrs) == spec_applied(
                old(self).spec_archive().spec_templates()[final(self).spec_active()],
                *old(attrs),
            ),
            !res ==> *final(attrs) == *old(attrs),
    {
        let count = self.archive.templates.len();
        if count <= 1 {
            return false;
        }
        let half = (seconds_of_day / 2) as i64;
        let (start, end) = self.archive.window(self.active);
        if half >= end as i64 || half < start as i64 {
            self.active = self.active + 1;
            if self.active >= count {
                self.active = 0;
            }
            if self.enabled {
                self.archive.templates[self.active].apply(attrs);
                return true;
            }
        }
        false
    }

    /// Sets the enable flag: when clear, the index still advances but
    /// nothing is applied.
    pub fn set_enabled(&mut self, enabled: bool)
        ensures
            final(self).spec_archive() == old(self).spec_archive(),
            final(self).spec_active() == old(self).spec_active(),
            final(self).spec_enabled() == enabled,
    {
        self.enabled = enabled;
    }

    /// The active record's index.
    pub fn active(&self) -> (res: usize)
        ensures
            res == self.spec_active(),
    {
        self.active
    }

    /// The active record.
    pub fn template(&self) -> (res: &LightTemplate)
        requires
            self.wf(),
        ensures
            *res == self.spec_archive().spec_templates()[self.spec_active()],
    {
        &self.archive.templates[self.active]
    }

    /// The archive the manager steps through.
    pub fn archive(&self) -> (res: &AreaLightArchive)
        ensures
            *res == self.spec_archive(),
    {
        &self.archive
    }
}

proof fn lemma_mask_bits(a0: bool, a1: bool, a2: bool, a3: bool, i: u8)
    by (bit_vector)
    requires
        i < 4,
    ensures
        ({
            let m = ((if a0 { 1u8 } else { 0u8 }) + (if a1 { 2u8 } else { 0u8 }) + (if a2 { 4u8 } else { 0u8 })
                + (if a3 { 8u8 } else { 0u8 })) as u8;
            &&& (((m >> i) & 1u8) == 1u8) == (if i == 0 {
                a0
            } else if i == 1 {
                a1
            } else if i == 2 {
                a2
            } else {
                a3
            })
            &&& m < 16
        }),
{
}

/// The light-enable mask has bit `i` set exactly when light `i` is
/// enabled, and no bit above the four lights.
pub proof fn lemma_light_mask_bits(l: [Light; LIGHT_COUNT])
    ensures
        forall|i: int| 0 <= i < 4 ==> (((spec_light_mask(l) >> (i as u8)) & 1u8) == 1u8) == l[i].enabled,
        spec_light_mask(l) < 16,
{
    lemma_mask_bits(l[0].enabled, l[1].enabled, l[2].enabled, l[3].enabled, 0);
    assert forall|i: int| 0 <= i < 4 implies (((spec_light_mask(l) >> (i as u8)) & 1u8) == 1u8) == l[i].enabled by {
        lemma_mask_bits(l[0].enabled, l[1].enabled, l[2].enabled, l[3].enabled, i as u8);
    }
}

} // verus!
