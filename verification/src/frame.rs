//! The logical frame model: the 2D hardware state as pure data. One
//! [`LogicalFrame`] is the complete observable video state at one tick;
//! layers reference loaded assets through [`AssetId`] handles.

use vstd::prelude::*;

pub mod plane;

verus! {

/// A handle to one loaded asset in the engine's asset store.
#[derive(Debug, Clone, Copy, PartialEq, Eq, Hash)]
pub struct AssetId(u32);

impl AssetId {
    /// The first handle the store hands out.
    pub fn first() -> (res: Self)
        ensures
            res.raw() == 0,
    {
        AssetId(0)
    }

    /// The raw store index this handle carries.
    pub closed spec fn raw(self) -> u32 {
        self.0
    }

    /// The next handle in sequence (the store's assignment order).
    pub fn next(self) -> (res: Self)
        requires
            self.raw() < u32::MAX,
        ensures
            res.raw() == self.raw() + 1,
    {
        AssetId(self.0 + 1)
    }

    /// The raw store index.
    pub fn index(self) -> (res: usize)
        ensures
            res == self.raw() as usize,
    {
        self.0 as usize
    }

    /// The handle at `index`, the inverse of [`AssetId::index`] for the
    /// indices a `u32` holds.
    pub fn from_index(index: usize) -> (res: Self)
        ensures
            res.raw() == index as u32,
    {
        AssetId(index as u32)
    }
}

/// [`AssetId::from_index`] undoes [`AssetId::index`], and handles
/// handed out in sequence are distinct.
pub proof fn lemma_asset_id_index_roundtrip(id: AssetId)
    ensures
        (id.raw() as usize) as u32 == id.raw(),
{
}

/// Which engine drives which LCD.
#[derive(Debug, Clone, Copy, PartialEq, Eq, Default)]
pub enum DisplaySelect {
    /// Engine A on top, engine B on the touch LCD.
    #[default]
    MainOnTop,
    /// Engine B on top, engine A on the touch LCD.
    SubOnTop,
}

/// A text BG layer's color mode.
#[derive(Debug, Clone, Copy, PartialEq, Eq, Default)]
pub enum ColorMode {
    /// 4bpp: 16-color banks.
    #[default]
    Bpp4,
    /// 8bpp: the full 256-color engine palette.
    Bpp8,
}

/// A text BG layer's map size.
#[derive(Debug, Clone, Copy, PartialEq, Eq, Default)]
pub enum ScreenSize {
    /// 256×256.
    #[default]
    W256xH256,
    /// 512×256.
    W512xH256,
    /// 256×512.
    W256xH512,
    /// 512×512.
    W512xH512,
}

impl ScreenSize {
    /// The layer's map width in 8×8 tiles (32 or 64).
    pub fn tiles_wide(self) -> (res: u16)
        ensures
            res == (match self {
                ScreenSize::W256xH256 | ScreenSize::W256xH512 => 32u16,
                ScreenSize::W512xH256 | ScreenSize::W512xH512 => 64u16,
            }),
    {
        match self {
            ScreenSize::W256xH256 | ScreenSize::W256xH512 => 32,
            ScreenSize::W512xH256 | ScreenSize::W512xH512 => 64,
        }
    }

    /// The layer's map height in 8×8 tiles (32 or 64).
    pub fn tiles_tall(self) -> (res: u16)
        ensures
            res == (match self {
                ScreenSize::W256xH256 | ScreenSize::W512xH256 => 32u16,
                ScreenSize::W256xH512 | ScreenSize::W512xH512 => 64u16,
            }),
    {
        match self {
            ScreenSize::W256xH256 | ScreenSize::W512xH256 => 32,
            ScreenSize::W256xH512 | ScreenSize::W512xH512 => 64,
        }
    }
}

/// One text BG layer: the parts of `BGxCNT` plus the scroll registers
/// that the rasterizer needs.
#[derive(Debug, Clone, Copy, PartialEq, Eq)]
pub struct BgLayer {
    /// Whether the layer is shown.
    pub enabled: bool,
    /// Which char-block slot (0–7) holds this layer's tiles.
    pub char_base: u8,
    /// The layer's screen (map) asset.
    pub screen: Option<AssetId>,
    /// The palette the layer decodes against.
    pub palette: Option<AssetId>,
    /// 4bpp or 8bpp.
    pub color_mode: ColorMode,
    /// Map size.
    pub size: ScreenSize,
    /// Horizontal scroll (0–511).
    pub scroll_x: u16,
    /// Vertical scroll (0–511).
    pub scroll_y: u16,
    /// Draw priority 0–3: lower draws on top.
    pub priority: u8,
}

impl Default for BgLayer {
    fn default() -> (res: Self)
        ensures
            !res.enabled && res.char_base == 0 && res.screen is None && res.palette is None
                && res.color_mode == ColorMode::Bpp4 && res.size == ScreenSize::W256xH256
                && res.scroll_x == 0 && res.scroll_y == 0 && res.priority == 0,
    {
        BgLayer {
            enabled: false,
            char_base: 0,
            screen: None,
            palette: None,
            color_mode: ColorMode::Bpp4,
            size: ScreenSize::W256xH256,
            scroll_x: 0,
            scroll_y: 0,
            priority: 0,
        }
    }
}

/// The blend effect in progress.
#[derive(Debug, Clone, Copy, PartialEq, Eq, Default)]
pub enum BlendEffect {
    /// No blending.
    #[default]
    NoBlend,
    /// Alpha blend: first target weighted EVA, second EBV.
    Alpha,
}

/// One engine's alpha-blend unit.
#[derive(Debug, Clone, Copy, PartialEq, Eq, Default)]
pub struct Blend {
    /// The first-target plane mask (`plane::*` bits).
    pub plane1: u8,
    /// The effect.
    pub effect: BlendEffect,
    /// The second-target plane mask.
    pub plane2: u8,
    /// First-target weight (0–31).
    pub eva: u8,
    /// Second-target weight (0–31).
    pub ebv: u8,
}

/// The master-brightness mode.
#[derive(Debug, Clone, Copy, PartialEq, Eq, Default)]
pub enum BrightnessMode {
    /// No effect.
    #[default]
    Disabled,
    /// Fade toward white.
    Up,
    /// Fade toward black.
    Down,
}

/// One engine's master-brightness unit.
#[derive(Debug, Clone, Copy, PartialEq, Eq, Default)]
pub struct MasterBrightness {
    /// The direction of the effect.
    pub mode: BrightnessMode,
    /// The weight, 0–16 in practice (31 max).
    pub value: u8,
}

/// One 2D engine's state: four text BG layers over the blend and
/// brightness units, plus the named char-block slots.
#[derive(Debug, Clone, Copy, PartialEq, Eq, Default)]
pub struct EngineFrame {
    /// The engine's four BG layers, BG0 through BG3.
    pub bgs: [BgLayer; 4],
    /// The char-block slots (indices 0–7) that `char_base` names.
    pub char_blocks: [Option<AssetId>; 8],
    /// The engine's alpha-blend unit.
    pub blend: Blend,
    /// The engine's master-brightness unit.
    pub brightness: MasterBrightness,
    /// The backdrop color, raw BGR555.
    pub backdrop: u16,
}

/// The complete observable video state at one tick.
#[derive(Debug, Clone, Copy, PartialEq, Eq, Default)]
pub struct LogicalFrame {
    /// Engine A (MAIN).
    pub main: EngineFrame,
    /// Engine B (SUB).
    pub sub: EngineFrame,
    /// The engine-to-LCD mapping.
    pub display: DisplaySelect,
}

} // verus!
