//! Tables read from the field overlay (ARM9 overlay 1, loaded at
//! 0x021E5900):
//!
//! * the camera presets: 17 records of 0x24 bytes indexed by a map
//!   header's camera type: `fx32 distance; u16 angle[3], pad; u16
//!   perspectiveType; u16 fovyAngle; fx32 near, far; VecFx32
//!   lookAtOffset`;
//! * the sprite to move-model table: 6-byte `{u16 spriteId, mmodelId,
//!   packed}` rows terminated by `spriteId == 0xFFFF`;
//! * the land model's base transform: a `VecFx32` scale and a row-vector
//!   `MtxFx33` rotation.
//!
//! Both tables are read from the overlay image at run time.

use vstd::prelude::*;
use vstd::slice::slice_subrange;
use vstd::string::StringExecFns;

use super::model::Placement;
use crate::assets::AssetsError;
use crate::nds::{NdsError, u16le, u32le, spec_u16le, spec_u32le};

verus! {

/// The field overlay's id.
pub const OVERLAY_ID: u32 = 1;
/// Where the retail overlay table loads overlay 1.
pub const LOAD_ADDRESS: u32 = 0x021E_5900;
/// The camera preset table.
pub const CAMERA_PRESETS_ADDRESS: u32 = 0x0220_6478;
/// Presets in the table.
pub const CAMERA_PRESET_COUNT: usize = 17;
/// Bytes per preset.
pub const CAMERA_PRESET_SIZE: usize = 0x24;
/// The sprite to move-model table.
pub const SPRITE_MODEL_TABLE_ADDRESS: u32 = 0x0220_74A8;
/// Bytes per sprite-table row.
pub const SPRITE_MODEL_ENTRY_SIZE: usize = 6;
/// The sprite id ending the table.
pub const SPRITE_MODEL_END: u16 = 0xFFFF;
/// The male player's sprite.
pub const SPRITE_HERO: u16 = 0;
/// The female player's sprite.
pub const SPRITE_HEROINE: u16 = 97;
/// NitroFS path of the move-model (map object texture) archive.
pub const MMODEL_NARC: &'static str = "a/0/8/1";
/// The land model's base scale (`VecFx32`).
pub const LAND_BASE_SCALE_ADDRESS: u32 = 0x0220_6BD8;
/// The land model's base rotation (`MtxFx33`, row-vector layout).
pub const LAND_BASE_ROTATION_ADDRESS: u32 = 0x0220_6BE4;

/// The player's sprite id for a save-file gender (0 male, else female).
pub fn player_sprite(gender: u8) -> (res: u16)
    ensures
        res == if gender == 0 {
            SPRITE_HERO
        } else {
            SPRITE_HEROINE
        },
{
    if gender == 0 {
        SPRITE_HERO
    } else {
        SPRITE_HEROINE
    }
}

/// One camera preset.
#[derive(Debug, Clone, Copy, PartialEq, Eq, Hash, Default)]
pub struct CameraPreset {
    /// Distance from the target, fx32.
    pub distance: i32,
    /// Rotation about x, y, z as u16 angles (65536 = a turn).
    pub angle: [u16; 3],
    /// The padding word after the angles.
    pub padding: u16,
    /// 0 perspective, 1 orthographic.
    pub perspective_type: u16,
    /// The vertical field of view (u16 angle).
    pub fovy_angle: u16,
    /// Near clipping plane, fx32.
    pub near: i32,
    /// Far clipping plane, fx32.
    pub far: i32,
    /// The look-at offset, fx32.
    pub look_at_offset: [i32; 3],
}

/// The preset a 0x24-byte record holds.
pub open spec fn spec_camera_preset(r: Seq<u8>) -> CameraPreset {
    CameraPreset {
        distance: spec_u32le(r, 0) as i32,
        angle: [spec_u16le(r, 4), spec_u16le(r, 6), spec_u16le(r, 8)],
        padding: spec_u16le(r, 10),
        perspective_type: spec_u16le(r, 12),
        fovy_angle: spec_u16le(r, 14),
        near: spec_u32le(r, 16) as i32,
        far: spec_u32le(r, 20) as i32,
        look_at_offset: [
            spec_u32le(r, 24) as i32,
            spec_u32le(r, 28) as i32,
            spec_u32le(r, 32) as i32,
        ],
    }
}

impl CameraPreset {
    /// Decodes one 0x24-byte record; fails when the record is short.
    pub fn parse(record: &[u8]) -> (res: Result<Self, NdsError>)
        ensures
            res is Ok <==> record@.len() >= CAMERA_PRESET_SIZE,
            res matches Ok(p) ==> p == spec_camera_preset(record@),
    {
        let last = u32le(record, 32)?;
        let a0 = u16le(record, 4)?;
        let a1 = u16le(record, 6)?;
        let a2 = u16le(record, 8)?;
        let l0 = u32le(record, 24)? as i32;
        let l1 = u32le(record, 28)? as i32;
        let p = CameraPreset {
            distance: u32le(record, 0)? as i32,
            angle: [a0, a1, a2],
            padding: u16le(record, 10)?,
            perspective_type: u16le(record, 12)?,
            fovy_angle: u16le(record, 14)?,
            near: u32le(record, 16)? as i32,
            far: u32le(record, 20)? as i32,
            look_at_offset: [l0, l1, last as i32],
        };
        proof {
            let q = spec_camera_preset(record@);
            assert(p.angle@ =~= q.angle@);
            assert(p.look_at_offset@ =~= q.look_at_offset@);
        }
        Ok(p)
    }
}

/// The field overlay's image in RAM order.
#[derive(Debug, Clone, PartialEq, Eq)]
pub struct Ov01 {
    /// The load address from the overlay table.
    pub ram_address: u32,
    image: Vec<u8>,
}

impl Ov01 {
    /// The image.
    pub closed spec fn spec_image(self) -> Seq<u8> {
        self.image@
    }

    /// The load address.
    pub closed spec fn spec_ram(self) -> u32 {
        self.ram_address
    }

    /// An overlay image loaded at `ram_address`.
    pub fn from_image(ram_address: u32, image: Vec<u8>) -> (res: Self)
        ensures
            res.spec_ram() == ram_address,
            res.spec_image() == image@,
    {
        Ov01 { ram_address, image }
    }

    /// Where `len` bytes at RAM `address` lie in the image, if they do.
    pub open spec fn spec_range(self, address: u32, len: int) -> Option<(int, int)> {
        if address < self.spec_ram() {
            None
        } else {
            let start = address - self.spec_ram();
            if start + len <= self.spec_image().len() {
                Some((start, start + len))
            } else {
                None
            }
        }
    }

    /// `len` bytes at RAM `address`; [`AssetsError::Missing`] naming
    /// `what` when the range lies outside the image.
    pub fn bytes(&self, address: u32, len: usize, what: &str) -> (res: Result<&[u8], AssetsError>)
        ensures
            match self.spec_range(address, len as int) {
                Some((s, e)) => res matches Ok(b) && b@ == self.spec_image().subrange(s, e),
                None => res is Err,
            },
    {
        if address < self.ram_address {
            return Err(AssetsError::Missing(what.to_owned().concat(" below overlay 1")));
        }
        let start = (address - self.ram_address) as usize;
        if start > self.image.len() || len > self.image.len() - start {
            return Err(AssetsError::Missing(what.to_owned().concat(" past overlay 1")));
        }
        Ok(slice_subrange(self.image.as_slice(), start, start + len))
    }

    /// The image length.
    pub fn len(&self) -> (res: usize)
        ensures
            res == self.spec_image().len(),
    {
        self.image.len()
    }

    /// Whether the image is empty (never, for a loaded overlay).
    pub fn is_empty(&self) -> (res: bool)
        ensures
            res == (self.spec_image().len() == 0),
    {
        self.image.len() == 0
    }

    /// The land model's base transform.
    pub fn land_base(&self) -> (res: Result<LandBase, AssetsError>)
        ensures
            match (
                self.spec_range(LAND_BASE_SCALE_ADDRESS, 12),
                self.spec_range(LAND_BASE_ROTATION_ADDRESS, 36),
            ) {
                (Some((s0, s1)), Some((r0, r1))) => res matches Ok(b) && b == spec_land_base(
                    self.spec_image().subrange(s0, s1),
                    self.spec_image().subrange(r0, r1),
                ),
                _ => res is Err,
            },
    {
        let scale = self.bytes(LAND_BASE_SCALE_ADDRESS, 12, "land base scale")?;
        let rotation = self.bytes(LAND_BASE_ROTATION_ADDRESS, 36, "land base rotation")?;
        match LandBase::parse(scale, rotation) {
            Ok(b) => Ok(b),
            Err(source) => Err(
                AssetsError::Corrupt { what: "land base transform".to_owned(), source },
            ),
        }
    }
}

/// The 17 camera presets.
#[derive(Debug, Clone, PartialEq, Eq)]
pub struct CameraPresets {
    presets: Vec<CameraPreset>,
}

impl CameraPresets {
    /// The presets in index order.
    pub closed spec fn spec_presets(self) -> Seq<CameraPreset> {
        self.presets@
    }

    /// Reads the table from an overlay image; fails when the table lies
    /// outside the image.
    pub fn from_overlay(ov: &Ov01) -> (res: Result<Self, AssetsError>)
        ensures
            match ov.spec_range(CAMERA_PRESETS_ADDRESS, CAMERA_PRESET_COUNT * CAMERA_PRESET_SIZE) {
                Some((s, e)) => res matches Ok(t) && t.spec_presets().len() == CAMERA_PRESET_COUNT
                    && forall|i: int|
                    0 <= i < CAMERA_PRESET_COUNT ==> #[trigger] t.spec_presets()[i]
                        == spec_camera_preset(
                        ov.spec_image().subrange(
                            s + i * CAMERA_PRESET_SIZE,
                            s + (i + 1) * CAMERA_PRESET_SIZE,
                        ),
                    ),
                None => res is Err,
            },
    {
        let bytes = ov.bytes(
            CAMERA_PRESETS_ADDRESS,
            CAMERA_PRESET_COUNT * CAMERA_PRESET_SIZE,
            "camera presets",
        )?;
        let mut presets: Vec<CameraPreset> = Vec::new();
        let mut i: usize = 0;
        while i < CAMERA_PRESET_COUNT
            invariant
                i <= CAMERA_PRESET_COUNT,
                bytes@.len() == CAMERA_PRESET_COUNT * CAMERA_PRESET_SIZE,
                presets@.len() == i,
                forall|j: int|
                    0 <= j < i ==> #[trigger] presets@[j] == spec_camera_preset(
                        bytes@.subrange(j * CAMERA_PRESET_SIZE, (j + 1) * CAMERA_PRESET_SIZE),
                    ),
            decreases CAMERA_PRESET_COUNT - i,
        {
            let rec = slice_subrange(bytes, i * CAMERA_PRESET_SIZE, (i + 1) * CAMERA_PRESET_SIZE);
            let p = match CameraPreset::parse(rec) {
                Ok(p) => p,
                Err(source) => {
                    return Err(AssetsError::Corrupt { what: "camera presets".to_owned(), source });
                },
            };
            presets.push(p);
            i = i + 1;
        }
        let t = CameraPresets { presets };
        proof {
            let (s, e) = ov.spec_range(
                CAMERA_PRESETS_ADDRESS,
                CAMERA_PRESET_COUNT * CAMERA_PRESET_SIZE,
            )->0;
            assert forall|j: int| 0 <= j < CAMERA_PRESET_COUNT implies #[trigger] t.spec_presets()[j]
                == spec_camera_preset(
                ov.spec_image().subrange(
                    s + j * CAMERA_PRESET_SIZE,
                    s + (j + 1) * CAMERA_PRESET_SIZE,
                ),
            ) by {
                assert(bytes@.subrange(j * CAMERA_PRESET_SIZE, (j + 1) * CAMERA_PRESET_SIZE)
                    =~= ov.spec_image().subrange(
                    s + j * CAMERA_PRESET_SIZE,
                    s + (j + 1) * CAMERA_PRESET_SIZE,
                ));
            }
        }
        Ok(t)
    }

    /// Preset `camera_type`, when below [`CAMERA_PRESET_COUNT`].
    pub fn get(&self, camera_type: u8) -> (res: Option<&CameraPreset>)
        ensures
            (camera_type as int) < self.spec_presets().len() ==> res == Some(
                &self.spec_presets()[camera_type as int],
            ),
            (camera_type as int) >= self.spec_presets().len() ==> res is None,
    {
        if (camera_type as usize) < self.presets.len() {
            Some(&self.presets[camera_type as usize])
        } else {
            None
        }
    }

    /// All presets in index order.
    pub fn presets(&self) -> (res: &[CameraPreset])
        ensures
            res@ == self.spec_presets(),
    {
        self.presets.as_slice()
    }
}

/// One sprite-table row.
#[derive(Debug, Clone, Copy, PartialEq, Eq, Hash)]
pub struct SpriteModelEntry {
    /// The sprite id.
    pub sprite_id: u16,
    /// The move-model archive member.
    pub mmodel_id: u16,
    /// The packed third word (size, flags; bits 10 and up a category).
    pub packed: u16,
}

/// The sprite to move-model table.
#[derive(Debug, Clone, PartialEq, Eq)]
pub struct SpriteModelTable {
    entries: Vec<SpriteModelEntry>,
}

/// The rows of the sprite table from image offset `at` on, after
/// `acc`: `None` when the table runs off the image without its
/// terminator.
pub open spec fn sprite_rows_from(img: Seq<u8>, at: int, acc: Seq<SpriteModelEntry>) -> Option<
    Seq<SpriteModelEntry>,
>
    decreases img.len() - at,
{
    if at < 0 || at + 6 > img.len() {
        None
    } else if spec_u16le(img, at) == SPRITE_MODEL_END {
        Some(acc)
    } else {
        sprite_rows_from(
            img,
            at + 6,
            acc.push(
                SpriteModelEntry {
                    sprite_id: spec_u16le(img, at),
                    mmodel_id: spec_u16le(img, at + 2),
                    packed: spec_u16le(img, at + 4),
                },
            ),
        )
    }
}

fn le16(b: &[u8], off: usize) -> (res: u16)
    requires
        off + 2 <= b@.len(),
    ensures
        res == spec_u16le(b@, off as int),
{
    b[off] as u16 + b[off + 1] as u16 * 0x100
}

impl SpriteModelTable {
    /// The rows before the terminator.
    pub closed spec fn spec_entries(self) -> Seq<SpriteModelEntry> {
        self.entries@
    }

    /// Reads the table from an overlay image, walking rows until the
    /// terminator; fails when the table runs off the image without one.
    /// The image must fit the 32-bit address space at its load address.
    pub fn from_overlay(ov: &Ov01) -> (res: Result<Self, AssetsError>)
        requires
            ov.spec_ram() + ov.spec_image().len() <= u32::MAX,
        ensures
            SPRITE_MODEL_TABLE_ADDRESS < ov.spec_ram() ==> res is Err,
            SPRITE_MODEL_TABLE_ADDRESS >= ov.spec_ram() ==> match sprite_rows_from(
                ov.spec_image(),
                SPRITE_MODEL_TABLE_ADDRESS - ov.spec_ram(),
                Seq::empty(),
            ) {
                Some(rows) => res matches Ok(t) && t.spec_entries() == rows,
                None => res is Err,
            },
    {
        let mut entries: Vec<SpriteModelEntry> = Vec::new();
        let mut address: u32 = SPRITE_MODEL_TABLE_ADDRESS;
        loop
            invariant
                address >= SPRITE_MODEL_TABLE_ADDRESS,
                ov.spec_ram() + ov.spec_image().len() <= u32::MAX,
                SPRITE_MODEL_TABLE_ADDRESS < ov.spec_ram() ==> address == SPRITE_MODEL_TABLE_ADDRESS,
                SPRITE_MODEL_TABLE_ADDRESS >= ov.ram_address ==> sprite_rows_from(
                    ov.spec_image(),
                    address - ov.ram_address,
                    entries@,
                ) == sprite_rows_from(
                    ov.spec_image(),
                    SPRITE_MODEL_TABLE_ADDRESS - ov.ram_address,
                    Seq::empty(),
                ),
            decreases u32::MAX - address,
        {
            let row = ov.bytes(address, SPRITE_MODEL_ENTRY_SIZE, "sprite model table")?;
            let sprite_id = le16(row, 0);
            let mmodel_id = le16(row, 2);
            let packed = le16(row, 4);
            proof {
                let (s, e) = ov.spec_range(address, SPRITE_MODEL_ENTRY_SIZE as int)->0;
                assert(spec_u16le(row@, 0) == spec_u16le(ov.spec_image(), s));
                assert(spec_u16le(row@, 2) == spec_u16le(ov.spec_image(), s + 2));
                assert(spec_u16le(row@, 4) == spec_u16le(ov.spec_image(), s + 4));
            }
            if sprite_id == SPRITE_MODEL_END {
                return Ok(SpriteModelTable { entries });
            }
            entries.push(SpriteModelEntry { sprite_id, mmodel_id, packed });
            if address > u32::MAX - 6 {
                return Err(AssetsError::Missing("sprite model table past overlay 1".to_owned()));
            }
            address = address + 6;
        }
    }

    /// The first row for `sprite_id`.
    pub open spec fn spec_entry(self, sprite_id: u16) -> Option<SpriteModelEntry> {
        let es = self.spec_entries();
        if exists|i: int| 0 <= i < es.len() && es[i].sprite_id == sprite_id {
            let i = choose|i: int|
                0 <= i < es.len() && es[i].sprite_id == sprite_id && forall|j: int|
                    0 <= j < i ==> #[trigger] es[j].sprite_id != sprite_id;
            Some(es[i])
        } else {
            None
        }
    }

    /// The first row for `sprite_id`.
    pub fn entry(&self, sprite_id: u16) -> (res: Option<&SpriteModelEntry>)
        ensures
            match res {
                Some(e) => self.spec_entry(sprite_id) == Some(*e),
                None => self.spec_entry(sprite_id) is None,
            },
    {
        let mut i: usize = 0;
        while i < self.entries.len()
            invariant
                i <= self.entries@.len(),
                forall|j: int| 0 <= j < i ==> #[trigger] self.entries@[j].sprite_id != sprite_id,
            decreases self.entries@.len() - i,
        {
            if self.entries[i].sprite_id == sprite_id {
                proof {
                    let es = self.spec_entries();
                    assert(0 <= i < es.len() && es[i as int].sprite_id == sprite_id && forall|j: int|
                        0 <= j < i ==> #[trigger] es[j].sprite_id != sprite_id);
                    let k = choose|k: int|
                        0 <= k < es.len() && es[k].sprite_id == sprite_id && forall|j: int|
                            0 <= j < k ==> #[trigger] es[j].sprite_id != sprite_id;
                    assert(0 <= k < es.len() && es[k].sprite_id == sprite_id);
                    if k < i {
                        assert(es[k].sprite_id != sprite_id);
                    }
                    if k > i {
                        assert(es[i as int].sprite_id != sprite_id);
                    }
                    assert(k == i);
                }
                return Some(&self.entries[i]);
            }
            i = i + 1;
        }
        None
    }

    /// The move model of the first row for `sprite_id`.
    pub fn model_for_sprite(&self, sprite_id: u16) -> (res: Option<u16>)
        ensures
            res == match self.spec_entry(sprite_id) {
                Some(e) => Some(e.mmodel_id),
                None => None,
            },
    {
        match self.entry(sprite_id) {
            Some(e) => Some(e.mmodel_id),
            None => None,
        }
    }

    /// All rows before the terminator.
    pub fn entries(&self) -> (res: &[SpriteModelEntry])
        ensures
            res@ == self.spec_entries(),
    {
        self.entries.as_slice()
    }
}

/// The base rotation and scale every land model is drawn with; the
/// translation is the cell origin.
#[derive(Debug, Clone, Copy, PartialEq, Eq, Hash)]
pub struct LandBase {
    /// Rotation in column-vector form (`v' = R · v`), fx32.
    pub rotation: [[i32; 3]; 3],
    /// Per-axis scale, fx32.
    pub scale: [i32; 3],
}

/// Word `i` of a record, as signed.
pub open spec fn word_at(b: Seq<u8>, i: int) -> i32 {
    spec_u32le(b, 4 * i) as i32
}

/// The base a scale vector and a row-vector matrix record describe: the
/// matrix transposed into column-vector form.
pub open spec fn spec_land_base(scale: Seq<u8>, rotation: Seq<u8>) -> LandBase {
    LandBase {
        rotation: [
            [word_at(rotation, 0), word_at(rotation, 3), word_at(rotation, 6)],
            [word_at(rotation, 1), word_at(rotation, 4), word_at(rotation, 7)],
            [word_at(rotation, 2), word_at(rotation, 5), word_at(rotation, 8)],
        ],
        scale: [word_at(scale, 0), word_at(scale, 1), word_at(scale, 2)],
    }
}

fn word(b: &[u8], i: usize) -> (res: Result<i32, NdsError>)
    requires
        i < 9,
    ensures
        4 * i + 4 <= b@.len() ==> res == Ok::<i32, NdsError>(word_at(b@, i as int)),
        4 * i + 4 > b@.len() ==> res is Err,
{
    let v = u32le(b, i * 4)?;
    Ok(v as i32)
}

impl LandBase {
    /// Identity rotation, unit scale: what retail stores.
    pub fn identity() -> (res: Self)
        ensures
            res == (LandBase {
                rotation: [[4096, 0, 0], [0, 4096, 0], [0, 0, 4096]],
                scale: [4096, 4096, 4096],
            }),
    {
        LandBase { rotation: [[4096, 0, 0], [0, 4096, 0], [0, 0, 4096]], scale: [4096, 4096, 4096] }
    }

    /// Decodes the 12-byte scale vector and the 36-byte row-vector
    /// matrix, transposing the latter into column-vector form; fails
    /// when either record is short.
    pub fn parse(scale: &[u8], rotation: &[u8]) -> (res: Result<Self, NdsError>)
        ensures
            res is Ok <==> scale@.len() >= 12 && rotation@.len() >= 36,
            res matches Ok(b) ==> b == spec_land_base(scale@, rotation@),
    {
        let s0 = word(scale, 0)?;
        let s1 = word(scale, 1)?;
        let s2 = word(scale, 2)?;
        let r0 = word(rotation, 0)?;
        let r1 = word(rotation, 1)?;
        let r2 = word(rotation, 2)?;
        let r3 = word(rotation, 3)?;
        let r4 = word(rotation, 4)?;
        let r5 = word(rotation, 5)?;
        let r6 = word(rotation, 6)?;
        let r7 = word(rotation, 7)?;
        let r8 = word(rotation, 8)?;
        let b = LandBase { rotation: [[r0, r3, r6], [r1, r4, r7], [r2, r5, r8]], scale: [s0, s1, s2] };
        proof {
            let q = spec_land_base(scale@, rotation@);
            assert(b.rotation[0]@ =~= q.rotation[0]@);
            assert(b.rotation[1]@ =~= q.rotation[1]@);
            assert(b.rotation[2]@ =~= q.rotation[2]@);
            assert(b.rotation@ =~= q.rotation@);
            assert(b.scale@ =~= q.scale@);
        }
        Ok(b)
    }

    /// The placement of a land model whose cell origin is `origin`.
    pub fn at(&self, origin: [i32; 3]) -> (res: Placement)
        ensures
            res == (Placement { translation: origin, rotation: self.rotation, scale: self.scale }),
    {
        Placement { translation: origin, rotation: self.rotation, scale: self.scale }
    }
}

} // verus!
