use lib::field::lighting::{
    archive_for_light_type, ascii_to_long, AreaLightArchive, AreaLightManager, Fields, Light,
    Lines, ModelLighting, ARCHIVE_PATHS,
};
use lib::field::time_state::{visual_state, BucketChange, TimeOfDayState, VISUAL_STATES};
use lib::rtc::TimeOfDay;

/// A three-record archive in the loader's exact shape, with invented
/// numbers: record 0 (`until` 0) lights 0 and 2 on, record 1 ends at
/// 1800 (01:00), record 2 at midnight. Light 2's `z` overshoots the
/// clamp, light 1's enable field is `0`, light 3's is `2`.
const FIXTURE: &[u8] = b"0,\r\n\
1,1,2,3,-10,-20,-30,\r\n\
0,0,0,0,0,0,0,\r\n\
1,4,5,6,0,0,5000,\r\n\
2,7,7,7,1,1,1,\r\n\
1,2,3,\r\n\
4,5,6,\r\n\
7,8,9,\r\n\
10,11,12,\r\n\
\r\n\
1800,\r\n\
1,9,9,9,100,200,300,\r\n\
0,0,0,0,0,0,0,\r\n\
0,0,0,0,0,0,0,\r\n\
0,0,0,0,0,0,0,\r\n\
1,1,1,\r\n\
2,2,2,\r\n\
3,3,3,\r\n\
4,4,4,\r\n\
\r\n\
43200,\r\n\
1,1,2,3,-10,-20,-30,\r\n\
0,0,0,0,0,0,0,\r\n\
1,4,5,6,0,0,-5000,\r\n\
0,0,0,0,0,0,0,\r\n\
1,2,3,\r\n\
4,5,6,\r\n\
7,8,9,\r\n\
10,11,12,\r\n\
\r\n\
EOF";

fn rgb(r: u16, g: u16, b: u16) -> u16 {
    r | g << 5 | b << 10
}

#[test]
fn parses_records_fields_and_clamps() {
    let archive = AreaLightArchive::parse(FIXTURE).expect("fixture parses");
    let t = archive.templates();
    assert_eq!(t.len(), 3);
    assert_eq!([t[0].until, t[1].until, t[2].until], [0, 1800, 43200]);
    let first = &t[0];
    assert_eq!(first.lights[0], Light { enabled: true, color: rgb(1, 2, 3), vector: [-10, -20, -30] });
    assert_eq!(first.lights[1], Light::default());
    assert_eq!(first.lights[2], Light { enabled: true, color: rgb(4, 5, 6), vector: [0, 0, 4096] });
    assert_eq!(first.lights[3], Light::default());
    assert_eq!(first.light_mask(), 0b0101);
    assert_eq!(first.diffuse, rgb(1, 2, 3));
    assert_eq!(first.ambient, rgb(4, 5, 6));
    assert_eq!(first.specular, rgb(7, 8, 9));
    assert_eq!(first.emission, rgb(10, 11, 12));
    assert_eq!(t[2].lights[2].vector, [0, 0, -4096]);
    assert_eq!(t[1].light_mask(), 0b0001);
    assert_eq!(archive.window(0), (0, 0));
    assert_eq!(archive.window(1), (0, 1800));
    assert_eq!(archive.window(2), (1800, 43200));
}

#[test]
fn apply_writes_every_attribute_and_zeroes_disabled_lights() {
    let archive = AreaLightArchive::parse(FIXTURE).expect("fixture parses");
    let mut attrs = ModelLighting {
        light_vectors: [[7; 3]; 4],
        light_colors: [7; 4],
        diffuse_is_vertex_color: true,
        specular_shininess: true,
        ..ModelLighting::default()
    };
    archive.templates()[0].apply(&mut attrs);
    assert_eq!(attrs.light_vectors, [[-10, -20, -30], [0; 3], [0, 0, 4096], [0; 3]]);
    assert_eq!(attrs.light_colors, [rgb(1, 2, 3), 0, rgb(4, 5, 6), 0]);
    assert_eq!(
        (attrs.diffuse, attrs.ambient, attrs.specular, attrs.emission),
        (rgb(1, 2, 3), rgb(4, 5, 6), rgb(7, 8, 9), rgb(10, 11, 12))
    );
    assert!(!attrs.diffuse_is_vertex_color);
    assert!(!attrs.specular_shininess);
}

#[test]
fn selection_compares_half_seconds_against_until() {
    let archive = AreaLightArchive::parse(FIXTURE).expect("fixture parses");
    assert_eq!(archive.initial_index(0), 1);
    assert_eq!(archive.initial_index(3599), 1);
    assert_eq!(archive.initial_index(3600), 2);
    assert_eq!(archive.initial_index(86_399), 2);
    assert_eq!(archive.template_at(0).until, 1800);
    let mut early = FIXTURE.to_vec();
    let last = early.windows(7).position(|w| w == b"43200,\r").expect("record 2");
    early.splice(last..last + 6, b"100,".iter().copied());
    let early = AreaLightArchive::parse(&early).expect("parses");
    assert_eq!(early.templates()[2].until, 100);
    assert_eq!(early.initial_index(199), 1);
    assert_eq!(early.initial_index(3599), 1);
    assert_eq!(early.initial_index(3600), 0);
}

#[test]
fn manager_steps_one_record_per_update_and_wraps_at_midnight() {
    let archive = AreaLightArchive::parse(FIXTURE).expect("fixture parses");
    let mut attrs = ModelLighting::default();
    let mut manager = AreaLightManager::new(archive, 0, &mut attrs);
    assert_eq!(manager.active(), 1);
    assert_eq!(attrs.light_colors[0], rgb(9, 9, 9));
    assert!(!manager.update(3599, &mut attrs));
    assert!(manager.update(3600, &mut attrs));
    assert_eq!(manager.active(), 2);
    assert_eq!(attrs.light_vectors[2], [0, 0, -4096]);
    assert!(!manager.update(86_399, &mut attrs));
    assert!(manager.update(0, &mut attrs));
    assert_eq!(manager.active(), 0);
    assert_eq!(attrs.light_vectors[2], [0, 0, 4096]);
    assert!(manager.update(0, &mut attrs));
    assert_eq!(manager.active(), 1);
    assert!(!manager.update(1, &mut attrs));
    assert!(manager.update(80_000, &mut attrs));
    assert_eq!(manager.active(), 2);
    assert!(!manager.update(80_000, &mut attrs));
    manager.set_enabled(false);
    let before = attrs;
    assert!(!manager.update(0, &mut attrs));
    assert_eq!(manager.active(), 0);
    assert_eq!(attrs, before);
}

#[test]
fn single_record_archives_never_update() {
    let mut text = FIXTURE.to_vec();
    let second = text.windows(6).position(|w| w == b"1800,\r").expect("record 1");
    text.truncate(second);
    text.extend_from_slice(b"EOF");
    let archive = AreaLightArchive::parse(&text).expect("one record");
    assert_eq!(archive.templates().len(), 1);
    let mut attrs = ModelLighting::default();
    let mut manager = AreaLightManager::new(archive, 40_000, &mut attrs);
    assert_eq!(manager.active(), 0);
    assert!(!manager.update(0, &mut attrs));
    assert!(!manager.update(86_399, &mut attrs));
}

#[test]
fn eof_on_a_tenth_line_ends_the_count() {
    let mut text = Vec::new();
    for line in FIXTURE.split(|&b| b == b'\n').take(9) {
        text.extend_from_slice(line);
        text.push(b'\n');
    }
    text.extend_from_slice(b"EOF\r\n");
    let archive = AreaLightArchive::parse(&text).expect("parses");
    assert_eq!(archive.templates().len(), 1);
    assert_eq!(archive.templates()[0].light_mask(), 0b0101);
}

#[test]
fn malformed_texts_are_rejected() {
    assert!(AreaLightArchive::parse(b"EOF").is_err(), "no records");
    assert!(AreaLightArchive::parse(b"").is_err(), "empty");
    let mut long = vec![b'1'; 300];
    long.extend_from_slice(b"\r\nEOF");
    assert!(AreaLightArchive::parse(&long).is_err(), "overlong line");
    let mut negative = FIXTURE.to_vec();
    negative.splice(0..2, b"-1,".iter().copied());
    assert!(AreaLightArchive::parse(&negative).is_err(), "negative threshold");
}

#[test]
fn str_to_long_matches_the_ascii_util_quirks() {
    assert_eq!(ascii_to_long(b"123"), 123);
    assert_eq!(ascii_to_long(b"-5"), -5);
    assert_eq!(ascii_to_long(b""), 0);
    assert_eq!(ascii_to_long(b"x42"), 42);
    assert_eq!(ascii_to_long(b"4x2"), -1);
    assert_eq!(ascii_to_long(b"12 "), -1);
}

#[test]
fn lines_and_fields_follow_get_delim() {
    let mut lines = Lines::new(b"a,b\r\nc\rd\n\r\ne");
    assert_eq!(lines.next().unwrap(), b"a,b");
    assert_eq!(lines.next().unwrap(), b"c");
    assert_eq!(lines.next().unwrap(), b"d\n");
    assert_eq!(lines.next().unwrap(), b"e");
    assert!(lines.exhausted());
    assert_eq!(lines.next().unwrap(), b"");
    let mut fields = Fields::new(b"1,22,,333");
    assert_eq!(fields.next(), b"1");
    assert_eq!(fields.next(), b"22");
    assert_eq!(fields.next(), b"");
    assert_eq!(fields.next(), b"333");
    assert_eq!(fields.next(), b"");
}

#[test]
fn archive_ids_follow_the_light_type_switch() {
    assert_eq!(archive_for_light_type(0, false), 1);
    assert_eq!(archive_for_light_type(1, false), 0);
    assert_eq!(archive_for_light_type(2, false), 3);
    assert_eq!(archive_for_light_type(2, true), 4);
    assert_eq!(archive_for_light_type(3, true), 0);
    assert_eq!(archive_for_light_type(0, true), 1);
    assert_eq!(ARCHIVE_PATHS.len(), 5);
}

#[test]
fn visual_state_table_folds_night_and_late() {
    assert_eq!(visual_state(TimeOfDay::Morn), 0);
    assert_eq!(visual_state(TimeOfDay::Day), 1);
    assert_eq!(visual_state(TimeOfDay::Eve), 2);
    assert_eq!(visual_state(TimeOfDay::Nite), 3);
    assert_eq!(visual_state(TimeOfDay::Late), 3);
    for index in 0..TimeOfDay::COUNT {
        let bucket = TimeOfDay::from_index(index).expect("bucket");
        assert!(usize::from(visual_state(bucket)) < VISUAL_STATES);
    }
}

#[test]
fn update_reports_bucket_edges_only() {
    let mut state = TimeOfDayState::new(TimeOfDay::Late);
    assert_eq!(state.visual_state(), 3);
    assert_eq!(state.update(TimeOfDay::Late), None);
    let dawn = state.update(TimeOfDay::Morn).expect("edge");
    assert_eq!(dawn, BucketChange { previous: TimeOfDay::Late, current: TimeOfDay::Morn });
    assert_eq!((dawn.previous_slot(), dawn.slot()), (3, 0));
    assert!(dawn.slot_changed());
    assert_eq!(state.current(), TimeOfDay::Morn);
    assert_eq!(state.update(TimeOfDay::Morn), None);
    let dusk = state.update(TimeOfDay::Nite).expect("edge");
    assert_eq!((dusk.previous_slot(), dusk.slot()), (0, 3));
    let midnight = state.update(TimeOfDay::Late).expect("edge");
    assert!(!midnight.slot_changed());
    assert_eq!((midnight.previous_slot(), midnight.slot()), (3, 3));
}
