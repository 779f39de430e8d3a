use lib::field::events::MapEvents;
use lib::field::land::{ATTRIBUTE_BYTES, ATTRIBUTE_COUNT, MAGIC, PROP_RECORD_SIZE};
use lib::field::matrix::MapMatrix;
use lib::field::model::{parse, Texture, Vertex};
use lib::field::ov01::{CameraPreset, CameraPresets, Ov01, CAMERA_PRESETS_ADDRESS, CAMERA_PRESET_COUNT, CAMERA_PRESET_SIZE};
use lib::field::script_header::InitScripts;
use lib::field::{CellWindow, FieldScene};
use lib::formats::btx::Btx;
use lib::formats::narc::Narc;

fn u16b(v: u16) -> Vec<u8> {
    v.to_le_bytes().to_vec()
}

fn u32b(v: u32) -> Vec<u8> {
    v.to_le_bytes().to_vec()
}

/// A resource dictionary without trie nodes: the entry header right
/// after the 8-byte header, the payloads, then the 16-byte name slots.
fn dict(entries: &[(&str, Vec<u8>)], unit: usize) -> Vec<u8> {
    let n = entries.len();
    let mut d = vec![0, n as u8];
    let size = 8 + 4 + unit * n + 16 * n;
    d.extend(u16b(size as u16));
    d.extend(u16b(8));
    d.extend(u16b(8)); // entry header right after this header
    d.extend(u16b(unit as u16));
    d.extend(u16b((4 + unit * n) as u16));
    for (_, payload) in entries {
        assert_eq!(payload.len(), unit);
        d.extend(payload);
    }
    for (name, _) in entries {
        let mut slot = name.as_bytes().to_vec();
        slot.resize(16, 0);
        d.extend(slot);
    }
    d
}

/// A model file with one identity node, one untextured material and one
/// shape whose display list draws a single triangle.
fn build_model(commands: &[u8], color: u16, alpha: u32, flags: u32) -> Vec<u8> {
    // The model body; offsets are relative to the model start.
    let mut m = vec![0u8; 64];
    let nodes = dict(&[("node", u32b(0))], 4);
    m.extend(&nodes);
    // Node flags read at 64 + 0: the dictionary's own first two bytes
    // (0x00, 0x01) are not 7, so point the node at a flag word instead.
    let node_flags_at = m.len();
    m.extend(u16b(7));
    m.extend(u16b(0));
    // SBC program.
    let sbc_at = m.len();
    m.extend(commands);
    while m.len() % 4 != 0 {
        m.push(0);
    }
    // Material block: the two binding dictionary offsets, the material
    // dictionary at +4, two empty binding dictionaries, the record.
    let mat_at = m.len();
    let materials = dict(&[("mat", u32b(0))], 4);
    let binds_rel = 4 + materials.len();
    let empty = dict(&[], 4);
    let record_rel = binds_rel + empty.len();
    let mut material_record = vec![0u8; 24];
    material_record[4..6].copy_from_slice(&color.to_le_bytes());
    material_record[12..16].copy_from_slice(&(alpha << 16).to_le_bytes());
    material_record[20..24].copy_from_slice(&flags.to_le_bytes());
    let materials = dict(&[("mat", u32b(record_rel as u32))], 4);
    m.extend(u16b(binds_rel as u16));
    m.extend(u16b(binds_rel as u16));
    m.extend(&materials);
    m.extend(&empty);
    m.extend(&material_record);
    // Shape block: the dictionary, the shape record, the display list.
    let shp_at = m.len();
    let shape_rel = dict(&[("shp", u32b(0))], 4).len();
    let shapes = dict(&[("shp", u32b(shape_rel as u32))], 4);
    m.extend(&shapes);
    let mut dl = Vec::new();
    // BEGIN triangles, three VTX16, then END.
    dl.extend([0x40, 0x23, 0x23, 0x23]);
    dl.extend(u32b(0));
    for (x, y, z) in [(0i16, 0i16, 0i16), (16, 0, 0), (0, 16, 0)] {
        dl.extend(u16b(x as u16));
        dl.extend(u16b(y as u16));
        dl.extend(u16b(z as u16));
        dl.extend(u16b(0));
    }
    dl.extend([0x41, 0, 0, 0]);
    let mut shape_record = vec![0u8; 16];
    shape_record[8..12].copy_from_slice(&16u32.to_le_bytes());
    shape_record[12..16].copy_from_slice(&(dl.len() as u32).to_le_bytes());
    m.extend(&shape_record);
    m.extend(&dl);
    let total = m.len() as u32;
    m[0..4].copy_from_slice(&total.to_le_bytes());
    m[4..8].copy_from_slice(&(sbc_at as u32).to_le_bytes());
    m[8..12].copy_from_slice(&(mat_at as u32).to_le_bytes());
    m[12..16].copy_from_slice(&(shp_at as u32).to_le_bytes());
    m[28..32].copy_from_slice(&0x1000u32.to_le_bytes());
    // The node payload: the flag word's offset from 64.
    let node_payload_at = 64 + 12;
    m[node_payload_at..node_payload_at + 4].copy_from_slice(&((node_flags_at - 64) as u32).to_le_bytes());

    // The model set: "MDL0", its size, the one-model dictionary at 8.
    let models = dict(&[("model", u32b(0))], 4);
    let model_rel = 8 + models.len();
    let models = dict(&[("model", u32b(model_rel as u32))], 4);
    let mut set = b"MDL0".to_vec();
    set.extend(u32b((8 + models.len() + m.len()) as u32));
    set.extend(&models);
    set.extend(&m);

    let mut file = b"BMD0".to_vec();
    file.extend(u16b(0xFEFF));
    file.extend(u16b(2));
    file.extend(u32b(0)); // patched below
    file.extend(u16b(0x10));
    file.extend(u16b(1));
    file.extend(u32b(0x14));
    file.extend(&set);
    let len = file.len() as u32;
    file[8..12].copy_from_slice(&len.to_le_bytes());
    file
}

#[test]
fn parses_a_model_into_placed_triangles() {
    let textures = build_textures();
    let btx = Btx::parse(&textures).expect("texture archive parses");
    let data = build_model(&[0x04, 0, 0x05, 0, 0x01], 0x7C1F, 31, 0x1234_5678);
    let meshes = parse(&data, &btx, [100, 200, 300]).expect("model parses");
    assert_eq!(meshes.len(), 1);
    let mesh = &meshes[0];
    assert!(mesh.texture.is_none());
    assert_eq!(mesh.alpha, 31);
    assert_eq!(mesh.texture_flags, 0x1234_5678);
    let v = |x: i32, y: i32, z: i32| Vertex { position: [x, y, z], uv: [0, 0], color: 0x7C1F };
    assert_eq!(mesh.triangles, vec![[v(100, 200, 300), v(116, 200, 300), v(100, 216, 300)]]);
}

#[test]
fn rejects_models_outside_the_subset() {
    let textures = build_textures();
    let btx = Btx::parse(&textures).expect("texture archive parses");
    // An unknown structure opcode.
    let data = build_model(&[0x04, 0, 0x77, 0x01], 0, 0, 0);
    assert!(parse(&data, &btx, [0, 0, 0]).is_err());
    // A draw of a shape the dictionary does not have.
    let data = build_model(&[0x04, 0, 0x05, 3, 0x01], 0, 0, 0);
    assert!(parse(&data, &btx, [0, 0, 0]).is_err());
    // A wrong magic.
    let mut data = build_model(&[0x01], 0, 0, 0);
    data[0] = b'X';
    assert!(parse(&data, &btx, [0, 0, 0]).is_err());
    // A program that only selects and ends draws nothing.
    let data = build_model(&[0x04, 0, 0x00, 0x01], 0, 0, 0);
    assert_eq!(parse(&data, &btx, [0, 0, 0]).map(|m| m.len()).ok(), Some(0));
}

/// A minimal texture archive: one 8x8 A5I3 texture and one palette.
fn build_textures() -> Vec<u8> {
    let num = 1usize;
    let tex_blk = (12 + 4 * num) + (4 + 8 * num) + 16 * num;
    let pltt_blk = (12 + 4 * num) + (4 + 4 * num) + 16 * num;
    let tex_len = 64usize;
    let pltt_len = 32usize;
    let pltt_dict_off = 0x3C + tex_blk;
    let ofs_tex = pltt_dict_off + pltt_blk;
    let ofs_pltt = ofs_tex + tex_len;
    let total = 0x14 + ofs_pltt + pltt_len;
    let mut f = b"BTX0".to_vec();
    f.extend(u16b(0xFEFF));
    f.extend(u16b(1));
    f.extend(u32b(total as u32));
    f.extend(u16b(0x10));
    f.extend(u16b(1));
    f.extend(u32b(0x14));
    f.extend(b"TEX0");
    f.extend(u32b((total - 0x14) as u32));
    f.extend(u32b(0));
    f.extend(u16b((tex_len / 8) as u16));
    f.extend(u16b(0x3C));
    f.extend(u32b(0));
    f.extend(u32b(ofs_tex as u32));
    f.extend(u32b(0));
    f.extend(u16b(0));
    f.extend(u16b(0x3C));
    f.extend(u32b(0));
    f.extend(u32b(0));
    f.extend(u32b(0));
    f.extend(u32b(0));
    f.extend(u16b((pltt_len / 8) as u16));
    f.extend(u16b(0));
    f.extend(u16b(pltt_dict_off as u16));
    f.extend(u16b(0));
    f.extend(u32b(ofs_pltt as u32));
    // Texture dictionary.
    f.extend([0, num as u8]);
    f.extend(u16b(tex_blk as u16));
    f.extend(u16b(8));
    f.extend(u16b((12 + 4 * num) as u16));
    f.extend(vec![0u8; 4 + 4 * num]);
    f.extend(u16b(8));
    f.extend(u16b((4 + 8 * num) as u16));
    f.extend(u32b(6 << 26));
    f.extend(u32b(0x8000_0000 | (8 << 11) | 8));
    let mut name = b"tex".to_vec();
    name.resize(16, 0);
    f.extend(&name);
    // Palette dictionary.
    f.extend([0, num as u8]);
    f.extend(u16b(pltt_blk as u16));
    f.extend(u16b(8));
    f.extend(u16b((12 + 4 * num) as u16));
    f.extend(vec![0u8; 4 + 4 * num]);
    f.extend(u16b(4));
    f.extend(u16b((4 + 4 * num) as u16));
    f.extend(u16b(0));
    f.extend(u16b(0));
    let mut name = b"pal".to_vec();
    name.resize(16, 0);
    f.extend(&name);
    f.extend(vec![0x11u8; tex_len]);
    f.extend(vec![0x22u8; pltt_len]);
    assert_eq!(f.len(), total);
    f
}

/// An index-only archive holding `members`, with a root-only filename
/// table.
fn index_narc(members: &[Vec<u8>]) -> Vec<u8> {
    let n = members.len();
    let data_len: usize = members.iter().map(|m| m.len()).sum();
    let btaf = 12 + 8 * n;
    let total = 0x10 + btaf + 16 + 8 + data_len;
    let mut b = Vec::new();
    b.extend_from_slice(b"NARC");
    b.extend_from_slice(&[0xFE, 0xFF, 0x00, 0x01]);
    b.extend(u32b(total as u32));
    b.extend_from_slice(&[0x10, 0x00, 0x03, 0x00]);
    b.extend_from_slice(b"BTAF");
    b.extend(u32b(btaf as u32));
    b.extend(u16b(n as u16));
    b.extend_from_slice(&[0, 0]);
    let mut at = 0u32;
    for m in members {
        b.extend(u32b(at));
        at += m.len() as u32;
        b.extend(u32b(at));
    }
    b.extend_from_slice(b"BTNF");
    b.extend(u32b(16));
    b.extend_from_slice(&[0x04, 0x00, 0x00, 0x00, 0x00, 0x00, 0x01, 0x00]);
    b.extend_from_slice(b"GMIF");
    b.extend(u32b((8 + data_len) as u32));
    for m in members {
        b.extend_from_slice(m);
    }
    b
}

/// A land member with one prop (model 5 at offset (1, 2, 3) fx32) and
/// the given model.
fn land_with_prop(model: &[u8]) -> Vec<u8> {
    let mut b = Vec::new();
    b.extend(u32b(ATTRIBUTE_BYTES as u32));
    b.extend(u32b(PROP_RECORD_SIZE as u32));
    b.extend(u32b(model.len() as u32));
    b.extend(u32b(0));
    b.extend(u16b(MAGIC));
    b.extend(u16b(0));
    for i in 0..ATTRIBUTE_COUNT {
        b.extend(u16b(i as u16));
    }
    let words: [i32; 10] = [5, 0x1000, 0x2000, 0x3000, 0, 0, 0, 0x1000, 0x1000, 0x1000];
    for w in words {
        b.extend_from_slice(&w.to_le_bytes());
    }
    b.extend(std::iter::repeat_n(0u8, PROP_RECORD_SIZE - 40));
    b.extend_from_slice(model);
    b
}

#[test]
fn assembles_cells_props_and_the_camera() {
    let textures = build_textures();
    let btx = Btx::parse(&textures).expect("texture archive parses");
    let model = build_model(&[0x04, 0, 0x05, 0, 0x01], 0x7C1F, 31, 0);
    let lands_bytes = index_narc(&[land_with_prop(&model)]);
    let lands = Narc::parse(&lands_bytes).expect("land archive parses");
    let props_bytes = index_narc(&vec![model.clone(); 6]);
    let props = Narc::parse(&props_bytes).expect("prop archive parses");
    let ov = Ov01::from_image(CAMERA_PRESETS_ADDRESS, vec![0u8; CAMERA_PRESET_COUNT * CAMERA_PRESET_SIZE]);
    let presets = CameraPresets::from_overlay(&ov).expect("presets");
    let base = FieldScene::synthetic(0, Vec::new(), Texture { width: 0, height: 0, pixels: Vec::new() }, [0, 0], CameraPreset::default());
    let matrix = MapMatrix {
        id: 0,
        width: 1,
        height: 1,
        name: String::new(),
        has_headers: false,
        has_altitudes: false,
        headers: vec![7],
        altitudes: vec![0],
        land_ids: vec![0],
    };
    let window = CellWindow::all(&matrix);
    let events = || MapEvents { bg: Vec::new(), objects: Vec::new(), warps: Vec::new(), coords: Vec::new() };
    let scripts = || InitScripts { records: Vec::new(), frame_table: Vec::new() };
    let player = || Texture { width: 0, height: 0, pixels: Vec::new() };
    let scene = FieldScene::assemble(
        3, String::from("room"), base.header, matrix.clone(), base.area, window, &[5], &lands, &btx, &props, &btx,
        &presets, player(), [6, 6], events(), scripts(),
    )
    .expect("scene assembles");
    assert_eq!(scene.cells.len(), 1);
    let cell = &scene.cells[0];
    assert_eq!((cell.cell_x, cell.cell_z, cell.land_id, cell.map_id), (0, 0, 0, 7));
    assert_eq!(cell.origin, [0x100000, 0, 0x100000]);
    assert_eq!(cell.attrs[3], 3);
    assert_eq!(cell.meshes.len(), 1);
    assert_eq!(cell.meshes[0].triangles[0][0].position, [0x100000, 0, 0x100000]);
    assert_eq!(scene.props.len(), 1);
    let prop = &scene.props[0];
    assert_eq!(prop.model_id, 5);
    assert_eq!(prop.translation, [0x101000, 0x2000, 0x103000]);
    assert_eq!(prop.meshes[0].triangles[0][0].position, [0x101000, 0x2000, 0x103000]);
    // The draw list holds the land's meshes, then the prop's.
    assert_eq!(scene.meshes.len(), 2);
    assert_eq!(scene.meshes[1], prop.meshes[0]);
    assert_eq!(scene.camera, presets.presets()[0]);
    assert_eq!(scene.position, [6, 6]);

    // A prop whose model the building set does not list draws model 0.
    let scene = FieldScene::assemble(
        3, String::from("room"), base.header, matrix.clone(), base.area, window, &[], &lands, &btx, &props, &btx,
        &presets, player(), [6, 6], events(), scripts(),
    )
    .expect("scene assembles");
    assert_eq!(scene.props[0].model_id, 0);

    // A camera preset past the table fails.
    let mut header = base.header;
    header.camera_type = CAMERA_PRESET_COUNT as u8;
    assert!(FieldScene::assemble(
        3, String::from("room"), header, matrix.clone(), base.area, window, &[5], &lands, &btx, &props, &btx,
        &presets, player(), [6, 6], events(), scripts(),
    )
    .is_err());

    // A land member the archive lacks fails.
    let mut far = matrix.clone();
    far.land_ids = vec![1];
    assert!(FieldScene::assemble(
        3, String::from("room"), base.header, far, base.area, window, &[5], &lands, &btx, &props, &btx,
        &presets, player(), [6, 6], events(), scripts(),
    )
    .is_err());
}
