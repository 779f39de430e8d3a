//! Assembling a field scene from the map's parsed tables and archives:
//! the resident cells of the window with their land models, terrain and
//! props, the camera preset, and the player's image.

use vstd::prelude::*;
use vstd::string::*;

use crate::assets::AssetsError;
use crate::formats::btx::Btx;
use crate::formats::narc::Narc;
use crate::nds::NdsError;
use super::{CellWindow, FieldScene, LandCell, PropInstance};
use super::area::AreaData;
use super::events::MapEvents;
use super::land::{
    land_ok, land_model_start, land_bdhc_start, land_props_start, spec_section_sizes, spec_prop, LandData,
    PropPlacement, ATTRIBUTE_COUNT, HEADER_SIZE, PROP_RECORD_SIZE,
};
use super::map_header::MapHeader;
use super::matrix::{MapMatrix, NO_LAND};
use super::model::{self, model_run, mesh_is, binding_ok, binding_decoded, Mesh, SbcEnd, MeshSpec, Texture};
use super::ov01::{player_sprite, CameraPreset, CameraPresets, SpriteModelTable, SPRITE_HERO, SPRITE_HEROINE};
use super::script_header::InitScripts;
use super::terrain::TerrainAttributes;
use crate::nds::spec_u16le;

verus! {

/// The land id of cell `(x, z)` when it lies in the matrix and has land.
pub open spec fn land_at(m: MapMatrix, x: int, z: int) -> Option<u16> {
    if 0 <= x < m.width && 0 <= z < m.height && m.land_ids@[z * m.width + x] != NO_LAND {
        Some(m.land_ids@[z * m.width + x])
    } else {
        None
    }
}

/// The cells with land among the first `c` columns of row `z` of the
/// window, as `(x, z, land id)`.
pub open spec fn row_lands(m: MapMatrix, w: CellWindow, z: int, c: int) -> Seq<(i32, i32, u16)>
    decreases c,
{
    if c <= 0 {
        Seq::empty()
    } else {
        let x = w.x0 + c - 1;
        row_lands(m, w, z, c - 1) + match land_at(m, x, z) {
            Some(l) => seq![(x as i32, z as i32, l)],
            None => Seq::empty(),
        }
    }
}

/// The cells with land among the first `r` rows of the window, row by
/// row.
pub open spec fn window_rows(m: MapMatrix, w: CellWindow, r: int) -> Seq<(i32, i32, u16)>
    decreases r,
{
    if r <= 0 {
        Seq::empty()
    } else {
        window_rows(m, w, r - 1) + row_lands(m, w, w.z0 + r - 1, w.width as int)
    }
}

/// The resident cells of window `w`: every cell of the window, row by
/// row, that lies in the matrix and has land.
pub open spec fn resident_cells(m: MapMatrix, w: CellWindow) -> Seq<(i32, i32, u16)> {
    window_rows(m, w, w.height as int)
}

/// The world origin of cell `(x, z)`: its centre at its altitude.
pub open spec fn origin_of(m: MapMatrix, x: i32, z: i32) -> [i32; 3] {
    [
        (x * 0x200000 + 0x100000) as i32,
        (m.altitudes@[z * m.width + x] * 0x8000) as i32,
        (z * 0x200000 + 0x100000) as i32,
    ]
}

/// The map header of cell `(x, z)`: the matrix's own when it has
/// headers, else the map's.
pub open spec fn cell_map_id(m: MapMatrix, x: i32, z: i32, map_id: u16) -> u16 {
    if 0 <= x < m.width && 0 <= z < m.height {
        m.headers@[z * m.width + x]
    } else {
        map_id
    }
}

/// The model bytes of land member `b`.
pub open spec fn land_model(b: Seq<u8>) -> Seq<u8> {
    let s = spec_section_sizes(b);
    b.subrange(land_model_start(s), land_bdhc_start(s))
}

/// The number of props of land member `b`.
pub open spec fn land_prop_count(b: Seq<u8>) -> int {
    (spec_section_sizes(b).props / (PROP_RECORD_SIZE as u32)) as int
}

/// Prop `k` of land member `b`.
pub open spec fn land_prop(b: Seq<u8>, k: int) -> PropPlacement {
    let s = spec_section_sizes(b);
    spec_prop(b.subrange(land_props_start(s) + k * PROP_RECORD_SIZE, land_props_start(s) + (k + 1) * PROP_RECORD_SIZE))
}

/// The model a prop draws: its own when the building set lists it,
/// model 0 otherwise.
pub open spec fn prop_model(ids: Seq<u16>, model_id: i32) -> i32 {
    if model_id >= 0 && ids.contains(model_id as u16) {
        model_id
    } else {
        0
    }
}

/// Where a prop stands: the cell origin plus its offset on x and z.
pub open spec fn prop_at(origin: [i32; 3], p: PropPlacement) -> [i32; 3] {
    [(origin[0] + p.translation[0]) as i32, p.translation[1], (origin[2] + p.translation[2]) as i32]
}

/// The meshes of a finished model run.
pub open spec fn run_meshes(r: SbcEnd) -> Seq<MeshSpec> {
    match r {
        SbcEnd::Done(ms) => ms,
        _ => Seq::empty(),
    }
}

/// The land member of resident cell `e`.
pub open spec fn cell_bytes(lands: Narc, e: (i32, i32, u16)) -> Seq<u8> {
    lands.member_bytes(e.2 as int)
}

/// The model run of prop `k` of the land of cell `e`.
pub open spec fn prop_run(
    m: MapMatrix,
    lands: Narc,
    ids: Seq<u16>,
    props: Narc,
    ptex: Btx,
    e: (i32, i32, u16),
    k: int,
) -> SbcEnd {
    let p = land_prop(cell_bytes(lands, e), k);
    model_run(
        props.member_bytes(prop_model(ids, p.model_id) as int),
        ptex,
        ({
            let t = prop_at(origin_of(m, e.0, e.1), p);
            (t[0] as int, t[1] as int, t[2] as int)
        }),
    )
}

/// The model run of the land of cell `e`.
pub open spec fn land_run(m: MapMatrix, lands: Narc, tex: Btx, e: (i32, i32, u16)) -> SbcEnd {
    let o = origin_of(m, e.0, e.1);
    model_run(land_model(cell_bytes(lands, e)), tex, (o[0] as int, o[1] as int, o[2] as int))
}

/// Whether the arithmetic of placing cell `e` and its props stays in
/// range and no model run overflows: what the assembly needs of its
/// inputs not to fail on arithmetic.
pub open spec fn cell_fits(m: MapMatrix, lands: Narc, tex: Btx, ids: Seq<u16>, props: Narc, ptex: Btx, e: (
    i32,
    i32,
    u16,
)) -> bool {
    let b = cell_bytes(lands, e);
    let o = origin_of(m, e.0, e.1);
    (e.2 < lands.ranges().len() && land_ok(b)) ==> {
        &&& land_model(b).len() <= isize::MAX
        &&& !(land_run(m, lands, tex, e) is Overflow)
        &&& forall|k: int|
            0 <= k < land_prop_count(b) ==> {
                let p = #[trigger] land_prop(b, k);
                &&& i32::MIN <= o[0] + p.translation[0] <= i32::MAX
                &&& i32::MIN <= o[2] + p.translation[2] <= i32::MAX
                &&& props.member_bytes(prop_model(ids, p.model_id) as int).len() <= isize::MAX
                &&& !(prop_run(m, lands, ids, props, ptex, e, k) is Overflow)
            }
    }
}

/// Whether cell `e` assembles: its land member exists and is well
/// formed, its model runs to the end, and so does the model of each of
/// its props, which the prop archive holds.
pub open spec fn cell_ok(m: MapMatrix, lands: Narc, tex: Btx, ids: Seq<u16>, props: Narc, ptex: Btx, e: (
    i32,
    i32,
    u16,
)) -> bool {
    let b = cell_bytes(lands, e);
    &&& e.2 < lands.ranges().len()
    &&& land_ok(b)
    &&& land_run(m, lands, tex, e) is Done
    &&& forall|k: int|
        0 <= k < land_prop_count(b) ==> {
            &&& (prop_model(ids, #[trigger] land_prop(b, k).model_id) as int) < props.ranges().len()
            &&& prop_run(m, lands, ids, props, ptex, e, k) is Done
        }
}

/// Whether `c` is the resident cell `e`, assembled.
#[verifier::opaque]
pub open spec fn cell_built(c: LandCell, m: MapMatrix, lands: Narc, tex: Btx, e: (i32, i32, u16), map_id: u16) -> bool {
    let b = cell_bytes(lands, e);
    let ms = run_meshes(land_run(m, lands, tex, e));
    &&& c.cell_x as int == e.0
    &&& c.cell_z as int == e.1
    &&& c.land_id == e.2
    &&& c.map_id == cell_map_id(m, e.0, e.1, map_id)
    &&& c.origin == origin_of(m, e.0, e.1)
    &&& forall|i: int| 0 <= i < ATTRIBUTE_COUNT ==> #[trigger] c.attrs@[i] == spec_u16le(b, HEADER_SIZE + 2 * i)
    &&& c.meshes@.len() == ms.len()
    &&& forall|i: int| 0 <= i < ms.len() ==> #[trigger] mesh_is(c.meshes@[i], ms[i], tex)
}

/// Whether `q` is prop `k` of resident cell `e`, assembled.
#[verifier::opaque]
pub open spec fn prop_built(
    q: PropInstance,
    m: MapMatrix,
    lands: Narc,
    ids: Seq<u16>,
    props: Narc,
    ptex: Btx,
    e: (i32, i32, u16),
    k: int,
) -> bool {
    let p = land_prop(cell_bytes(lands, e), k);
    let ms = run_meshes(prop_run(m, lands, ids, props, ptex, e, k));
    &&& q.model_id == prop_model(ids, p.model_id)
    &&& q.cell == [e.0 as u8, e.1 as u8]
    &&& q.placement == p
    &&& q.translation == prop_at(origin_of(m, e.0, e.1), p)
    &&& q.meshes@.len() == ms.len()
    &&& forall|i: int| 0 <= i < ms.len() ==> #[trigger] mesh_is(q.meshes@[i], ms[i], ptex)
}

/// The props of the first `j` resident cells.
pub open spec fn props_before(lands: Narc, cells: Seq<(i32, i32, u16)>, j: int) -> int
    decreases j,
{
    if j <= 0 {
        0
    } else {
        props_before(lands, cells, j - 1) + land_prop_count(cell_bytes(lands, cells[j - 1]))
    }
}

/// The matrix facts the assembly reads: its tables cover it.
pub open spec fn matrix_wf(m: MapMatrix) -> bool {
    &&& m.land_ids@.len() == m.width * m.height
    &&& m.altitudes@.len() == m.width * m.height
    &&& m.headers@.len() == m.width * m.height
}

/// Whether window `w` keeps cell coordinates in `i32` range.
pub open spec fn window_fits(w: CellWindow) -> bool {
    &&& 0 <= w.x0
    &&& 0 <= w.z0
    &&& w.x0 + w.width <= 0x100
    &&& w.z0 + w.height <= 0x100
}

/// Which model a player of `gender` wears, by the sprite table.
pub open spec fn player_model(sprites: SpriteModelTable, gender: u8) -> Option<u16> {
    match sprites.spec_entry(if gender == 0 { SPRITE_HERO } else { SPRITE_HEROINE }) {
        Some(e) => Some(e.mmodel_id),
        None => None,
    }
}

/// The props before cell `j + 1` are those before cell `j` and its own.
proof fn lemma_props_before_step(lands: Narc, cells: Seq<(i32, i32, u16)>, j: int)
    requires
        0 <= j,
    ensures
        props_before(lands, cells, j + 1) == props_before(lands, cells, j) + land_prop_count(
            cell_bytes(lands, cells[j]),
        ),
{
}

/// The prop count before a cell never exceeds that before a later one.
proof fn lemma_props_before_mono(lands: Narc, cells: Seq<(i32, i32, u16)>, i: int, j: int)
    requires
        0 <= i <= j,
    ensures
        props_before(lands, cells, i) <= props_before(lands, cells, j),
    decreases j - i,
{
    if i < j {
        lemma_props_before_mono(lands, cells, i, j - 1);
    }
}

/// A resident cell lies in the matrix, in the window, and has land.
proof fn lemma_resident_cell(m: MapMatrix, w: CellWindow, j: int)
    requires
        window_fits(w),
        0 <= j < resident_cells(m, w).len(),
    ensures
        land_at(m, resident_cells(m, w)[j].0 as int, resident_cells(m, w)[j].1 as int) == Some(
            resident_cells(m, w)[j].2,
        ),
        0 <= resident_cells(m, w)[j].0 < 0x100,
        0 <= resident_cells(m, w)[j].1 < 0x100,
{
    lemma_rows_cells(m, w, w.height as int, j);
}

proof fn lemma_rows_cells(m: MapMatrix, w: CellWindow, r: int, j: int)
    requires
        window_fits(w),
        0 <= r <= w.height,
        0 <= j < window_rows(m, w, r).len(),
    ensures
        land_at(m, window_rows(m, w, r)[j].0 as int, window_rows(m, w, r)[j].1 as int) == Some(
            window_rows(m, w, r)[j].2,
        ),
        0 <= window_rows(m, w, r)[j].0 < 0x100,
        0 <= window_rows(m, w, r)[j].1 < 0x100,
    decreases r,
{
    let prev = window_rows(m, w, r - 1);
    if j < prev.len() {
        lemma_rows_cells(m, w, r - 1, j);
    } else {
        lemma_row_cells(m, w, w.z0 + r - 1, w.width as int, j - prev.len());
    }
}

proof fn lemma_row_cells(m: MapMatrix, w: CellWindow, z: int, c: int, j: int)
    requires
        window_fits(w),
        w.z0 <= z < w.z0 + w.height,
        0 <= c <= w.width,
        0 <= j < row_lands(m, w, z, c).len(),
    ensures
        land_at(m, row_lands(m, w, z, c)[j].0 as int, row_lands(m, w, z, c)[j].1 as int) == Some(
            row_lands(m, w, z, c)[j].2,
        ),
        0 <= row_lands(m, w, z, c)[j].0 < 0x100,
        0 <= row_lands(m, w, z, c)[j].1 < 0x100,
    decreases c,
{
    let prev = row_lands(m, w, z, c - 1);
    if j < prev.len() {
        lemma_row_cells(m, w, z, c - 1, j);
    }
}

/// Places prop `p` of the cell at `origin`: the model the building set
/// picks for it, from `props` against `ptex`, at the cell origin plus the
/// prop's offset; also returns a second copy of its meshes for the
/// scene's draw list.
fn build_prop(
    ids: &[u16],
    props: &Narc,
    ptex: &Btx,
    origin: [i32; 3],
    p: PropPlacement,
    cx: i32,
    cz: i32,
) -> (res: Result<(PropInstance, Vec<Mesh>), AssetsError>)
    requires
        i32::MIN <= origin[0] + p.translation[0] <= i32::MAX,
        i32::MIN <= origin[2] + p.translation[2] <= i32::MAX,
        (prop_model(ids@, p.model_id) as int) < props.ranges().len() ==> {
            let t = prop_at(origin, p);
            &&& props.member_bytes(prop_model(ids@, p.model_id) as int).len() <= isize::MAX
            &&& !(model_run(
                props.member_bytes(prop_model(ids@, p.model_id) as int),
                *ptex,
                (t[0] as int, t[1] as int, t[2] as int),
            ) is Overflow)
        },
    ensures
        ({
            let mid = prop_model(ids@, p.model_id);
            let t = prop_at(origin, p);
            let r = model_run(props.member_bytes(mid as int), *ptex, (t[0] as int, t[1] as int, t[2] as int));
            &&& res is Ok <==> (mid as int) < props.ranges().len() && r is Done
            &&& res matches Ok((q, _)) ==> {
                &&& q.model_id == mid
                &&& q.cell == [cx as u8, cz as u8]
                &&& q.placement == p
                &&& q.translation == t
                &&& q.meshes@.len() == run_meshes(r).len()
                &&& forall|i: int|
                    0 <= i < run_meshes(r).len() ==> #[trigger] mesh_is(q.meshes@[i], run_meshes(r)[i], *ptex)
            }
        }),
{
    let mid = FieldScene::prop_model_id(ids, p.model_id);
    let pbytes = match props.file(mid as usize) {
        Ok(b) => b,
        Err(_) => {
            return Err(AssetsError::Missing(String::from_str("prop model")));
        },
    };
    let t = FieldScene::prop_translation(origin, p.translation);
    assert(t == prop_at(origin, p));
    let pm = match model::parse(pbytes, ptex, t) {
        Ok(v) => v,
        Err(source) => {
            return Err(AssetsError::Corrupt { what: String::from_str("prop model"), source });
        },
    };
    let pm2 = match model::parse(pbytes, ptex, t) {
        Ok(v) => v,
        Err(source) => {
            return Err(AssetsError::Corrupt { what: String::from_str("prop model"), source });
        },
    };
    Ok((PropInstance { model_id: mid, cell: [cx as u8, cz as u8], placement: p, translation: t, meshes: pm }, pm2))
}

/// Builds resident cell `(cx, cz)` with land `land_id`: its land member
/// from `lands`, placed at the cell origin against `tex`, and its props;
/// also returns the meshes the scene draws for it (the land's, then each
/// prop's).
#[verifier::rlimit(40)]
fn build_cell(
    m: &MapMatrix,
    lands: &Narc,
    tex: &Btx,
    ids: &[u16],
    props: &Narc,
    ptex: &Btx,
    cx: i32,
    cz: i32,
    land_id: u16,
    map_id: u16,
) -> (res: Result<(LandCell, Vec<PropInstance>, Vec<Mesh>), AssetsError>)
    requires
        matrix_wf(*m),
        land_at(*m, cx as int, cz as int) == Some(land_id),
        cell_fits(*m, *lands, *tex, ids@, *props, *ptex, (cx, cz, land_id)),
    ensures
        ({
            let e = (cx, cz, land_id);
            &&& res is Ok <==> cell_ok(*m, *lands, *tex, ids@, *props, *ptex, e)
            &&& res matches Ok((c, ps, _)) ==> {
                &&& cell_built(c, *m, *lands, *tex, e, map_id)
                &&& ps@.len() == land_prop_count(cell_bytes(*lands, e))
                &&& forall|k: int|
                    0 <= k < ps@.len() ==> prop_built(#[trigger] ps@[k], *m, *lands, ids@, *props, *ptex, e, k)
            }
        }),
{
    let ghost e = (cx, cz, land_id);
    let bytes = match lands.file(land_id as usize) {
        Ok(b) => b,
        Err(_) => {
            return Err(AssetsError::Missing(String::from_str("land member")));
        },
    };
    assert(bytes@ == cell_bytes(*lands, e));
    let land = match LandData::parse(bytes) {
        Ok(l) => l,
        Err(source) => {
            return Err(AssetsError::Corrupt { what: String::from_str("land member"), source });
        },
    };
    let origin = match m.cell_origin(cx, cz) {
        Some(o) => o,
        None => {
            return Err(AssetsError::Missing(String::from_str("land cell outside the matrix")));
        },
    };
    assert(origin == origin_of(*m, cx, cz));
    assert(land.model@ == land_model(bytes@));
    let local = match model::parse(land.model.as_slice(), tex, origin) {
        Ok(v) => v,
        Err(source) => {
            return Err(AssetsError::Corrupt { what: String::from_str("land model"), source });
        },
    };
    let mut drawn = match model::parse(land.model.as_slice(), tex, origin) {
        Ok(v) => v,
        Err(source) => {
            return Err(AssetsError::Corrupt { what: String::from_str("land model"), source });
        },
    };
    let mut ps: Vec<PropInstance> = Vec::new();
    let mut k: usize = 0;
    while k < land.props.len()
        invariant
            ps@.len() == k,
            k <= land.props@.len(),
            land.props@.len() == land_prop_count(bytes@),
            forall|i: int| 0 <= i < land.props@.len() ==> #[trigger] land.props@[i] == land_prop(bytes@, i),
            bytes@ == cell_bytes(*lands, e),
            e == (cx, cz, land_id),
            origin == origin_of(*m, cx, cz),
            cell_fits(*m, *lands, *tex, ids@, *props, *ptex, e),
            land_id < lands.ranges().len(),
            land_ok(bytes@),
            forall|q: int|
                0 <= q < k ==> {
                    &&& (prop_model(ids@, #[trigger] land_prop(bytes@, q).model_id) as int) < props.ranges().len()
                    &&& prop_run(*m, *lands, ids@, *props, *ptex, e, q) is Done
                },
            forall|q: int| 0 <= q < k ==> prop_built(#[trigger] ps@[q], *m, *lands, ids@, *props, *ptex, e, q),
        decreases land.props@.len() - k,
    {
        let p = land.props[k];
        assert(p == land_prop(bytes@, k as int));
        let (q, mut pm) = match build_prop(ids, props, ptex, origin, p, cx, cz) {
            Ok(r) => r,
            Err(err) => {
                return Err(err);
            },
        };
        drawn.append(&mut pm);
        let ghost prev = ps@;
        ps.push(q);
        proof {
            reveal(prop_built);
            assert(prop_built(ps@[k as int], *m, *lands, ids@, *props, *ptex, e, k as int));
            assert forall|i: int| 0 <= i < k + 1 implies prop_built(#[trigger] ps@[i], *m, *lands, ids@, *props, *ptex, e, i) by {
                if i < k {
                    assert(ps@[i] == prev[i]);
                }
            }
        }
        k += 1;
    }
    let map = match m.header(cx, cz) {
        Some(h) => h,
        None => map_id,
    };
    let c = LandCell {
        cell_x: cx as u8,
        cell_z: cz as u8,
        map_id: map,
        land_id,
        origin,
        meshes: local,
        attrs: land.attributes,
        bdhc: land.bdhc,
    };
    proof {
        reveal(cell_built);
    }
    Ok((c, ps, drawn))
}

/// Appending the props of cell `j` keeps every earlier cell's props in
/// place and puts cell `j`'s right after them.
proof fn lemma_placed_extend(
    placed: Seq<PropInstance>,
    before: Seq<PropInstance>,
    own: Seq<PropInstance>,
    m: MapMatrix,
    lands: Narc,
    ids: Seq<u16>,
    props: Narc,
    ptex: Btx,
    cl: Seq<(i32, i32, u16)>,
    j: int,
)
    requires
        0 <= j < cl.len(),
        placed == before + own,
        before.len() == props_before(lands, cl, j),
        own.len() == land_prop_count(cell_bytes(lands, cl[j])),
        forall|i: int, k: int|
            0 <= i < j && 0 <= k < land_prop_count(cell_bytes(lands, cl[i])) ==> prop_built(
                #[trigger] before[props_before(lands, cl, i) + k],
                m,
                lands,
                ids,
                props,
                ptex,
                cl[i],
                k,
            ),
        forall|k: int| 0 <= k < own.len() ==> prop_built(#[trigger] own[k], m, lands, ids, props, ptex, cl[j], k),
    ensures
        placed.len() == props_before(lands, cl, j + 1),
        forall|i: int, k: int|
            0 <= i < j + 1 && 0 <= k < land_prop_count(cell_bytes(lands, cl[i])) ==> prop_built(
                #[trigger] placed[props_before(lands, cl, i) + k],
                m,
                lands,
                ids,
                props,
                ptex,
                cl[i],
                k,
            ),
{
    lemma_props_before_step(lands, cl, j);
    assert forall|i: int, k: int|
        0 <= i < j + 1 && 0 <= k < land_prop_count(cell_bytes(lands, cl[i])) implies prop_built(
        #[trigger] placed[props_before(lands, cl, i) + k],
        m,
        lands,
        ids,
        props,
        ptex,
        cl[i],
        k,
    ) by {
        if i < j {
            lemma_props_before_mono(lands, cl, i + 1, j);
            lemma_props_before_mono(lands, cl, 0, i);
            lemma_props_before_step(lands, cl, i);
            assert(placed[props_before(lands, cl, i) + k] == before[props_before(lands, cl, i) + k]);
        } else {
            lemma_props_before_mono(lands, cl, 0, i);
            assert(placed[props_before(lands, cl, i) + k] == own[k]);
        }
    }
}

/// Pushing cell `j` keeps every earlier cell in place.
proof fn lemma_cells_extend(
    cells: Seq<LandCell>,
    prev: Seq<LandCell>,
    m: MapMatrix,
    lands: Narc,
    tex: Btx,
    cl: Seq<(i32, i32, u16)>,
    j: int,
    map_id: u16,
)
    requires
        0 <= j < cl.len(),
        prev.len() == j,
        cells.len() == j + 1,
        forall|i: int| 0 <= i < j ==> cells[i] == prev[i],
        forall|i: int| 0 <= i < j ==> cell_built(#[trigger] prev[i], m, lands, tex, cl[i], map_id),
        cell_built(cells[j], m, lands, tex, cl[j], map_id),
    ensures
        forall|i: int| 0 <= i < j + 1 ==> cell_built(#[trigger] cells[i], m, lands, tex, cl[i], map_id),
{
    assert forall|i: int| 0 <= i < j + 1 implies cell_built(#[trigger] cells[i], m, lands, tex, cl[i], map_id) by {
        if i < j {
            assert(cells[i] == prev[i]);
        }
    }
}

impl FieldScene {
    /// The resident cells of `window`: every cell of the window, row by
    /// row, that lies in the matrix and has land (a land id other than
    /// the no-land marker), as `(x, z, land id)`.
    pub fn resident_cells(matrix: &MapMatrix, window: CellWindow) -> (res: Vec<(i32, i32, u16)>)
        requires
            matrix_wf(*matrix),
            window_fits(window),
        ensures
            res@ == resident_cells(*matrix, window),
    {
        let mut out: Vec<(i32, i32, u16)> = Vec::new();
        let mut r: usize = 0;
        while r < window.height
            invariant
                matrix_wf(*matrix),
                window_fits(window),
                r <= window.height,
                out@ == window_rows(*matrix, window, r as int),
            decreases window.height - r,
        {
            let z = window.z0 + r as i32;
            let ghost before = out@;
            let mut c: usize = 0;
            while c < window.width
                invariant
                    matrix_wf(*matrix),
                    window_fits(window),
                    r < window.height,
                    z == window.z0 + r,
                    c <= window.width,
                    out@ == before + row_lands(*matrix, window, z as int, c as int),
                decreases window.width - c,
            {
                let x = window.x0 + c as i32;
                let ghost prev = out@;
                match matrix.land_id(x, z) {
                    Some(l) => {
                        if l != NO_LAND {
                            out.push((x, z, l));
                        }
                    },
                    None => {},
                }
                proof {
                    assert(out@ =~= before + row_lands(*matrix, window, z as int, c as int + 1));
                }
                c += 1;
            }
            r += 1;
        }
        out
    }

    /// The move model the player of `gender` wears: the sprite table's
    /// model for the player's sprite; fails when the table lacks it.
    pub fn player_model(sprites: &SpriteModelTable, gender: u8) -> (res: Result<u16, AssetsError>)
        ensures
            match player_model(*sprites, gender) {
                Some(id) => res == Ok::<u16, AssetsError>(id),
                None => res is Err,
            },
    {
        let sprite = player_sprite(gender);
        match sprites.model_for_sprite(sprite) {
            Some(m) => Ok(m),
            None => Err(AssetsError::Missing(String::from_str("player sprite in the model table"))),
        }
    }

    /// The player's image: the first texture of its archive decoded
    /// against the first palette; fails when the archive has neither or
    /// the pair does not decode.
    pub fn player_texture(btx: &Btx) -> (res: Result<Texture, AssetsError>)
        ensures
            res is Ok <==> btx.spec_textures().len() > 0 && btx.spec_palettes().len() > 0 && binding_ok(
                *btx,
                btx.spec_textures()[0].spec_name()@,
                btx.spec_palettes()[0].spec_name()@,
            ),
            res matches Ok(t) ==> binding_decoded(
                t,
                *btx,
                btx.spec_textures()[0].spec_name()@,
                btx.spec_palettes()[0].spec_name()@,
            ),
    {
        let textures = btx.textures();
        let palettes = btx.palettes();
        if textures.len() == 0 || palettes.len() == 0 {
            return Err(
                AssetsError::Corrupt {
                    what: String::from_str("player texture archive"),
                    source: NdsError::Invalid { what: "player texture archive without a texture" },
                },
            );
        }
        match model::decode_texture(btx, textures[0].name(), palettes[0].name()) {
            Ok(t) => Ok(t),
            Err(source) => Err(AssetsError::Corrupt { what: String::from_str("player texture"), source }),
        }
    }

    /// Assembles the scene of map `map_id` over `window`: for each
    /// resident cell, row by row, its land member from `lands` placed at
    /// the cell origin against `map_texture`, its terrain attributes,
    /// and its props, each drawing the prop model that the area's
    /// building set lists (model 0 otherwise) from `props` against
    /// `prop_texture` at the cell origin plus the prop's offset; then
    /// the camera preset the header selects. Fails when a land member is
    /// missing or malformed, a model does not run to its end, a prop
    /// model is missing, or the header's camera preset does not exist.
    #[verifier::rlimit(100)]
    pub fn assemble(
        map_id: u16,
        name: String,
        header: MapHeader,
        matrix: MapMatrix,
        area: AreaData,
        window: CellWindow,
        building_ids: &[u16],
        lands: &Narc,
        map_texture: &Btx,
        props: &Narc,
        prop_texture: &Btx,
        presets: &CameraPresets,
        player: Texture,
        position: [i32; 2],
        events: MapEvents,
        init_scripts: InitScripts,
    ) -> (res: Result<FieldScene, AssetsError>)
        requires
            matrix_wf(matrix),
            window_fits(window),
            forall|j: int|
                0 <= j < resident_cells(matrix, window).len() ==> cell_fits(
                    matrix,
                    *lands,
                    *map_texture,
                    building_ids@,
                    *props,
                    *prop_texture,
                    #[trigger] resident_cells(matrix, window)[j],
                ),
        ensures
            ({
                let cl = resident_cells(matrix, window);
                &&& res is Ok <==> (forall|j: int|
                    0 <= j < cl.len() ==> cell_ok(
                        matrix,
                        *lands,
                        *map_texture,
                        building_ids@,
                        *props,
                        *prop_texture,
                        #[trigger] cl[j],
                    )) && (header.camera_type as int) < presets.spec_presets().len()
                &&& res matches Ok(sc) ==> {
                    &&& sc.map_id == map_id
                    &&& sc.name == name
                    &&& sc.header == header
                    &&& sc.matrix == matrix
                    &&& sc.area == area
                    &&& sc.window == window
                    &&& sc.cells@.len() == cl.len()
                    &&& forall|j: int|
                        0 <= j < cl.len() ==> cell_built(
                            #[trigger] sc.cells@[j],
                            matrix,
                            *lands,
                            *map_texture,
                            cl[j],
                            map_id,
                        )
                    &&& sc.props@.len() == props_before(*lands, cl, cl.len() as int)
                    &&& forall|j: int, k: int|
                        0 <= j < cl.len() && 0 <= k < land_prop_count(cell_bytes(*lands, cl[j]))
                            ==> prop_built(
                            #[trigger] sc.props@[props_before(*lands, cl, j) + k],
                            matrix,
                            *lands,
                            building_ids@,
                            *props,
                            *prop_texture,
                            cl[j],
                            k,
                        )
                    &&& sc.camera == presets.spec_presets()[header.camera_type as int]
                    &&& sc.player == player
                    &&& sc.position == position
                    &&& sc.terrain.spec_x0() == window.x0 && sc.terrain.spec_z0() == window.z0
                        && sc.terrain.spec_width() == window.width && sc.terrain.spec_height()
                        == window.height
                    &&& sc.events == events
                    &&& sc.init_scripts == init_scripts
                }
            }),
    {
        let ghost m = matrix;
        let ghost cl = resident_cells(matrix, window);
        let list = Self::resident_cells(&matrix, window);
        proof {
            assert(window.width * window.height <= 0x10000) by (nonlinear_arith)
                requires
                    window.width <= 0x100,
                    window.height <= 0x100,
            ;
        }
        let mut terrain = TerrainAttributes::new(window.x0, window.z0, window.width, window.height);
        let mut cells: Vec<LandCell> = Vec::new();
        let mut placed: Vec<PropInstance> = Vec::new();
        let mut meshes: Vec<Mesh> = Vec::new();
        let mut j: usize = 0;
        while j < list.len()
            invariant
                list@ == cl,
                cl == resident_cells(m, window),
                m == matrix,
                matrix_wf(m),
                window_fits(window),
                j <= cl.len(),
                forall|i: int|
                    0 <= i < cl.len() ==> cell_fits(
                        m,
                        *lands,
                        *map_texture,
                        building_ids@,
                        *props,
                        *prop_texture,
                        #[trigger] cl[i],
                    ),
                forall|i: int|
                    0 <= i < j ==> cell_ok(
                        m,
                        *lands,
                        *map_texture,
                        building_ids@,
                        *props,
                        *prop_texture,
                        #[trigger] cl[i],
                    ),
                terrain.wf(),
                terrain.spec_x0() == window.x0,
                terrain.spec_z0() == window.z0,
                terrain.spec_width() == window.width,
                terrain.spec_height() == window.height,
                cells@.len() == j,
                forall|i: int|
                    0 <= i < j ==> cell_built(#[trigger] cells@[i], m, *lands, *map_texture, cl[i], map_id),
                placed@.len() == props_before(*lands, cl, j as int),
                forall|i: int, k: int|
                    0 <= i < j && 0 <= k < land_prop_count(cell_bytes(*lands, cl[i])) ==> prop_built(
                        #[trigger] placed@[props_before(*lands, cl, i) + k],
                        m,
                        *lands,
                        building_ids@,
                        *props,
                        *prop_texture,
                        cl[i],
                        k,
                    ),
            decreases cl.len() - j,
        {
            let (cx, cz, land_id) = list[j];
            proof {
                lemma_resident_cell(m, window, j as int);
            }
            assert(cell_fits(m, *lands, *map_texture, building_ids@, *props, *prop_texture, cl[j as int]));
            let (c, mut ps, mut drawn) = match build_cell(
                &matrix,
                lands,
                map_texture,
                building_ids,
                props,
                prop_texture,
                cx,
                cz,
                land_id,
                map_id,
            ) {
                Ok(r) => r,
                Err(err) => {
                    return Err(err);
                },
            };
            terrain.insert(cx, cz, &c.attrs);
            meshes.append(&mut drawn);
            let ghost before = placed@;
            let ghost own = ps@;
            placed.append(&mut ps);
            let ghost prev_cells = cells@;
            cells.push(c);
            proof {
                lemma_placed_extend(placed@, before, own, m, *lands, building_ids@, *props, *prop_texture, cl, j as int);
                lemma_cells_extend(cells@, prev_cells, m, *lands, *map_texture, cl, j as int, map_id);
            }
            j += 1;
        }
        let camera = match presets.get(header.camera_type) {
            Some(c) => *c,
            None => {
                return Err(AssetsError::Missing(String::from_str("camera preset")));
            },
        };
        Ok(
            FieldScene {
                map_id,
                name,
                header,
                matrix,
                area,
                window,
                cells,
                props: placed,
                meshes,
                camera,
                player,
                position,
                terrain,
                events,
                init_scripts,
            },
        )
    }
}

} // verus!
