use std::io::Write;

use gswt::basis_bank_sampling::basis_segment_points;
use gswt::catmull_rom_files::{
    parse_catmull_rom_meta_pt, parse_catmull_rom_tile_pt, read_meta, CatmullRomError,
    CatmullRomTileMotion, RequiredField,
};
use gswt::catmull_rom_loading::{
    append_tile_knots_splat_major, load_catmull_rom_motion_from_zip, CatmullRomLoadError,
    CatmullRomMotionZipEntry, ReorderError,
};
use gswt::catmull_rom_motion::{
    classify_catmull_rom_sample_times, detect_motion_file, periodic_segment, volume_key_segment,
    CatmullRomMotionTeacher, CatmullRomSampleTimeGrid, CatmullRomTimeSampling, MotionMode,
};
use gswt::pickle::{
    binunicode_memo_ids, find_binunicode, read_binunicode, read_pickle_bool, read_pickle_float,
    read_pickle_int, skip_binput, ParsedPt, PickleNumber,
};
use gswt::scene::Scene;
use gswt::torch_archive::PtError;
use gswt::zip_file::EntryError;

fn zip_of(files: &[(&str, Vec<u8>)]) -> Vec<u8> {
    let mut writer = zip::ZipWriter::new(std::io::Cursor::new(Vec::new()));
    for (name, bytes) in files {
        writer.start_file(*name, zip::write::SimpleFileOptions::default()).unwrap();
        writer.write_all(bytes).unwrap();
    }
    writer.finish().unwrap().into_inner()
}

fn text(value: &str) -> Vec<u8> {
    let mut out = vec![b'X'];
    out.extend_from_slice(&(value.len() as u32).to_le_bytes());
    out.extend_from_slice(value.as_bytes());
    out
}

enum Value {
    Text(&'static str),
    Byte(u8),
    Flag(bool),
    Bytes(Vec<u8>),
    Double(f64),
}

fn pickled(fields: &[(&str, Value)]) -> Vec<u8> {
    let mut out = b"\x80\x02}q\x00(".to_vec();
    for (key, value) in fields {
        out.extend(text(key));
        match value {
            Value::Text(v) => out.extend(text(v)),
            Value::Byte(v) => out.extend([b'K', *v]),
            Value::Flag(v) => out.push(if *v { 0x88 } else { 0x89 }),
            Value::Bytes(v) => out.extend(v.iter()),
            Value::Double(v) => {
                out.push(b'G');
                out.extend(v.to_be_bytes());
            }
        }
    }
    out.extend(b"u.");
    out
}

fn floats(values: &[f32]) -> Vec<u8> {
    values.iter().flat_map(|v| v.to_le_bytes()).collect()
}

fn bits(values: &[f32]) -> Vec<u32> {
    values.iter().map(|v| v.to_bits()).collect()
}

fn common() -> Vec<(&'static str, Value)> {
    vec![
        ("format", Value::Text("periodic_catmull_rom_delta_xyz")),
        ("format_version", Value::Byte(1)),
        ("delta_field", Value::Text("delta_xyz")),
        ("periodic", Value::Flag(true)),
    ]
}

fn meta_fields() -> Vec<(&'static str, Value)> {
    let mut fields = common();
    fields.push(("knot_count", Value::Byte(4)));
    fields.push(("include_lods", Value::Bytes(vec![b'(', b'K', 0, b't'])));
    fields.push(("time_sampling", Value::Text("volume_keys")));
    fields.push(("motion_teacher", Value::Text("volume")));
    fields.push(("volume_key_count", Value::Byte(4)));
    fields.push(("source_fps", Value::Double(30.0)));
    fields
}

fn meta_pt(fields: &[(&str, Value)], times: &[f32]) -> Vec<u8> {
    zip_of(&[("meta/data.pkl", pickled(fields)), ("meta/data/0", floats(times))])
}

fn tile_pt(tile: u8, lod: u8, knots: &[f32]) -> Vec<u8> {
    let mut fields = common();
    fields.push(("tile_index", Value::Byte(tile)));
    fields.push(("lod_index", Value::Byte(lod)));
    zip_of(&[
        ("tile/data.pkl", pickled(&fields)),
        ("tile/data/0", floats(knots)),
        ("tile/data/1", floats(&[0.0, 0.25, 0.5, 0.75])),
    ])
}

fn blend(knots: &[[f32; 3]], at: [usize; 4], u: f32) -> [f32; 3] {
    let mut out = [0.0_f32; 3];
    for axis in 0..3 {
        let p = [knots[at[0]][axis], knots[at[1]][axis], knots[at[2]][axis], knots[at[3]][axis]];
        out[axis] = 0.5
            * (2.0 * p[1]
                + (-p[0] + p[2]) * u
                + (2.0 * p[0] - 5.0 * p[1] + 4.0 * p[2] - p[3]) * u * u
                + (-p[0] + 3.0 * p[1] - 3.0 * p[2] + p[3]) * u * u * u);
    }
    out
}

fn periodic_delta(knots: &[[f32; 3]], time01: f32) -> [f32; 3] {
    let scaled = time01.rem_euclid(1.0) * knots.len() as f32;
    let segment = scaled.floor();
    blend(knots, periodic_segment(knots.len(), segment as usize), scaled - segment)
}

fn volume_key_delta(knots: &[[f32; 3]], time01: f32) -> [f32; 3] {
    let scaled = time01.clamp(0.0, 1.0) * (knots.len() - 1) as f32;
    let segment = scaled.floor();
    blend(knots, volume_key_segment(knots.len(), segment as usize), scaled - segment)
}

fn classify(times: &[f32]) -> CatmullRomSampleTimeGrid {
    let n = times.len() as f32;
    let errors = |step: f32| {
        times
            .iter()
            .enumerate()
            .map(|(i, t)| (t - i as f32 / step).abs().to_bits())
            .collect::<Vec<u32>>()
    };
    classify_catmull_rom_sample_times(&errors(n), &errors(n - 1.0))
}

#[test]
fn catmull_rom_evaluator_wraps_and_hits_knots() {
    let knots = [
        [0.0, 0.0, 0.0],
        [1.0, 0.0, 0.0],
        [1.0, 1.0, 0.0],
        [0.0, 1.0, 0.0],
    ];
    assert_eq!(periodic_delta(&knots, 0.0), periodic_delta(&knots, 1.0));
    for i in 0..knots.len() {
        assert_eq!(periodic_delta(&knots, i as f32 / knots.len() as f32), knots[i]);
    }
}

#[test]
fn catmull_rom_volume_key_evaluator_hits_volume_key_times() {
    let knots = [
        [0.0, 0.0, 0.0],
        [1.0, 0.0, 0.0],
        [2.0, 0.0, 0.0],
        [3.0, 0.0, 0.0],
    ];
    for i in 0..knots.len() {
        assert_eq!(
            volume_key_delta(&knots, i as f32 / (knots.len() - 1) as f32),
            knots[i]
        );
    }
}

#[test]
fn segments_of_a_curve_are_clamped_or_wrapped() {
    assert_eq!(periodic_segment(5, 0), [4, 0, 1, 2]);
    assert_eq!(periodic_segment(5, 4), [3, 4, 0, 1]);
    assert_eq!(volume_key_segment(5, 0), [0, 0, 1, 2]);
    assert_eq!(volume_key_segment(5, 3), [2, 3, 4, 4]);
    let knots: Vec<u32> = (0..24).collect();
    assert_eq!(
        basis_segment_points(&knots, 2, 4, 1, 0),
        Some([[21, 22, 23], [12, 13, 14], [15, 16, 17], [18, 19, 20]])
    );
    assert_eq!(basis_segment_points(&knots, 2, 4, 2, 0), None);
}

#[test]
fn sample_time_classifier_distinguishes_periodic_and_volume_keys() {
    let periodic = (0..25).map(|i| i as f32 / 25.0).collect::<Vec<_>>();
    let volume_keys = (0..25).map(|i| i as f32 / 24.0).collect::<Vec<_>>();
    let irregular = vec![0.0, 0.2, 0.5, 0.9];

    assert_eq!(classify(periodic.as_slice()), CatmullRomSampleTimeGrid::Periodic);
    assert_eq!(classify(volume_keys.as_slice()), CatmullRomSampleTimeGrid::VolumeKeys);
    assert_eq!(classify(irregular.as_slice()), CatmullRomSampleTimeGrid::Irregular);
}

#[test]
fn motion_teacher_labels_are_stable_for_asset_logs() {
    assert_eq!(CatmullRomMotionTeacher::Legacy.as_str(), "legacy");
    assert_eq!(CatmullRomMotionTeacher::Volume.as_str(), "volume");
    assert_eq!(
        CatmullRomMotionTeacher::DirectNetwork.as_str(),
        "direct_network"
    );
}

#[test]
fn samplings_are_named_and_numbered() {
    assert_eq!(CatmullRomTimeSampling::Periodic.as_str(), "periodic");
    assert_eq!(CatmullRomTimeSampling::VolumeKeys.as_str(), "volume_keys");
    assert_eq!(CatmullRomTimeSampling::Periodic.shader_value(), 0);
    assert_eq!(CatmullRomTimeSampling::VolumeKeys.shader_value(), 1);
    assert_eq!(CatmullRomSampleTimeGrid::Irregular.as_str(), "irregular");
}

#[test]
fn motion_modes_are_read_from_a_query() {
    assert_eq!(MotionMode::parse("Static"), Some(MotionMode::Static));
    assert_eq!(MotionMode::parse("nothing"), None);
    for mode in [
        MotionMode::Auto,
        MotionMode::BasisBank,
        MotionMode::CatmullRom,
        MotionMode::DeformationNetwork,
        MotionMode::Static,
    ] {
        assert_eq!(MotionMode::parse(mode.as_str()), Some(mode));
    }
    assert_eq!(MotionMode::from_url_query(""), MotionMode::Auto);
    assert_eq!(MotionMode::from_url_query("?a=1&motion_mode=static"), MotionMode::Static);
    assert_eq!(MotionMode::from_url_query("?motion_mode=unheard"), MotionMode::Auto);
}

#[test]
fn detects_motion_filenames() {
    assert_eq!(
        detect_motion_file("tile12_lod3_motion_catmull_rom.pt"),
        Some((12, 3))
    );
    assert_eq!(detect_motion_file("tile12_lod3.ply"), None);
}

#[test]
fn reads_pickle_binfloat() {
    let mut bytes = vec![b'G'];
    bytes.extend_from_slice(&2.5_f64.to_be_bytes());
    let mut pos = 0;
    match read_pickle_float(bytes.as_slice(), &mut pos) {
        Some(PickleNumber::Double { bits }) => assert_eq!(f64::from_bits(bits), 2.5),
        other => panic!("{other:?}"),
    }
    assert_eq!(pos, 9);
}

#[test]
fn reads_other_pickled_numbers() {
    let mut pos = 0;
    assert!(
        matches!(read_pickle_float(b"F1.5\n.", &mut pos), Some(PickleNumber::Text { text }) if text == "1.5")
    );
    assert_eq!(pos, 5);
    let mut pos = 0;
    assert!(matches!(
        read_pickle_float(b"K\x07.", &mut pos),
        Some(PickleNumber::Integer { value: 7 })
    ));
    let mut pos = 0;
    assert_eq!(read_pickle_int(b"M\x01\x02", &mut pos), Some(0x0201));
    assert_eq!(pos, 3);
    let mut pos = 0;
    assert_eq!(read_pickle_int(b"J\xff\xff\xff\xff", &mut pos), Some(-1));
    let mut pos = 0;
    assert_eq!(read_pickle_int(b"?", &mut pos), None);
    assert_eq!(read_pickle_bool(b"\x88\x89", 0), Some(true));
    assert_eq!(read_pickle_bool(b"\x88\x89", 1), Some(false));
    assert_eq!(read_pickle_bool(b"\x88\x89", 2), None);
}

#[test]
fn reads_pickled_texts() {
    let mut data = vec![b'.'];
    data.extend(text("caf\u{e9}"));
    assert_eq!(find_binunicode(&data, "caf\u{e9}"), Some(1));
    assert_eq!(find_binunicode(&data, "cafe"), None);
    let mut pos = 1;
    assert_eq!(read_binunicode(&data, &mut pos).as_deref(), Some("caf\u{e9}"));
    assert_eq!(pos, data.len());
    let mut bad = vec![b'X', 1, 0, 0, 0, 0xff];
    let mut pos = 0;
    assert_eq!(read_binunicode(&bad, &mut pos), None);
    bad.push(b'q');
    bad.push(3);
    let mut pos = 6;
    skip_binput(&bad, &mut pos);
    assert_eq!(pos, 8);
    let mut lone = 1;
    skip_binput(b".q", &mut lone);
    assert_eq!(lone, 3);
    assert_eq!(read_pickle_int(b".q", &mut lone), None);
    let mut memo = text("key");
    memo.extend(b"q\x05.");
    assert_eq!(binunicode_memo_ids(&memo, "key"), vec![5]);
}

#[test]
fn bool_field_reads_memoized_string_key() {
    let mut pkl = Vec::new();
    pkl.extend_from_slice(b"\x80\x02}q\x00(");
    pkl.extend_from_slice(b"X\r\0\0\0time_samplingq\x01");
    pkl.extend_from_slice(b"X\x08\0\0\0periodicq\x02");
    pkl.extend_from_slice(b"h\x02\x88u.");
    let parsed = ParsedPt {
        pkl,
        storages: Vec::new(),
    };

    assert_eq!(
        parsed.string_field("time_sampling").as_deref(),
        Some("periodic")
    );
    assert_eq!(parsed.bool_field("periodic"), Some(true));
}

#[test]
fn packs_tile_knots_using_renderer_source_row_permutation() {
    let tile_motion = CatmullRomTileMotion {
        tile_index: 0,
        lod_index: 0,
        splat_count: 3,
        knots: bits(&[
            0.0, 0.1, 0.2, 10.0, 10.1, 10.2, 20.0, 20.1, 20.2, 1.0, 1.1, 1.2, 11.0, 11.1, 11.2,
            21.0, 21.1, 21.2,
        ]),
    };
    let mut packed = Vec::new();

    append_tile_knots_splat_major(&mut packed, &tile_motion, 2, &[2, 0, 1]).unwrap();

    assert_eq!(
        packed,
        bits(&[
            20.0, 20.1, 20.2, 21.0, 21.1, 21.2, 0.0, 0.1, 0.2, 1.0, 1.1, 1.2, 10.0, 10.1, 10.2,
            11.0, 11.1, 11.2,
        ])
    );
}

#[test]
fn packs_tile_knots_identity_permutation_without_change() {
    let tile_motion = CatmullRomTileMotion {
        tile_index: 0,
        lod_index: 0,
        splat_count: 2,
        knots: bits(&[
            0.0, 0.1, 0.2, 10.0, 10.1, 10.2, 1.0, 1.1, 1.2, 11.0, 11.1, 11.2,
        ]),
    };
    let mut packed = Vec::new();

    append_tile_knots_splat_major(&mut packed, &tile_motion, 2, &[0, 1]).unwrap();

    assert_eq!(
        packed,
        bits(&[0.0, 0.1, 0.2, 1.0, 1.1, 1.2, 10.0, 10.1, 10.2, 11.0, 11.1, 11.2])
    );
}

#[test]
fn reordering_refuses_bad_permutations() {
    let tile_motion = CatmullRomTileMotion {
        tile_index: 0,
        lod_index: 0,
        splat_count: 2,
        knots: bits(&[0.0; 6]),
    };
    let mut packed = Vec::new();
    let error = append_tile_knots_splat_major(&mut packed, &tile_motion, 1, &[0]).unwrap_err();
    assert_eq!(error, ReorderError::RowCount { rows: 1, splats: 2 });
    assert_eq!(error.message(), "source-row permutation length 1 != motion splat count 2");
    let error = append_tile_knots_splat_major(&mut packed, &tile_motion, 1, &[0, 5]).unwrap_err();
    assert_eq!(error, ReorderError::Row { row: 5, splats: 2 });
    assert_eq!(
        error.message(),
        "source-row permutation contains out-of-range row 5 for 2 splats"
    );
}

#[test]
fn reads_motion_metadata_from_its_container() {
    let times = [0.0, 0.25, 0.5, 0.75];
    let meta = parse_catmull_rom_meta_pt(&meta_pt(&meta_fields(), &times)).unwrap();
    assert_eq!(meta.knot_count, 4);
    assert_eq!(meta.include_lods, vec![0]);
    assert_eq!(meta.sample_times, bits(&times));
    assert_eq!(meta.time_sampling, CatmullRomTimeSampling::VolumeKeys);
    assert!(meta.has_time_sampling_field);
    assert!(meta.periodic_flag);
    assert_eq!(meta.motion_teacher, CatmullRomMotionTeacher::Volume);
    assert_eq!(meta.volume_key_count, Some(4));
    assert_eq!(meta.source_knot_count, None);
    assert!(matches!(meta.source_fps, Some(PickleNumber::Double { bits }) if f64::from_bits(bits) == 30.0));
}

#[test]
fn metadata_refusals_say_why() {
    let times = [0.0, 0.25, 0.5, 0.75];
    let refuse = |fields: Vec<(&'static str, Value)>, times: &[f32]| {
        let container = meta_pt(&fields, times);
        parse_catmull_rom_meta_pt(&container).unwrap_err().message(&container)
    };
    let without = |key: &str| {
        meta_fields().into_iter().filter(|(k, _)| *k != key).collect::<Vec<_>>()
    };
    let with = |key: &'static str, value: Value| {
        let mut fields = without(key);
        fields.push((key, value));
        fields
    };
    assert_eq!(
        refuse(with("format", Value::Text("other")), &times),
        "unsupported Catmull-Rom motion format"
    );
    assert_eq!(
        refuse(with("format_version", Value::Byte(2)), &times),
        "unsupported Catmull-Rom motion format_version"
    );
    assert_eq!(
        refuse(with("delta_field", Value::Text("delta")), &times),
        "unsupported Catmull-Rom delta field"
    );
    assert_eq!(refuse(without("periodic"), &times), "Catmull-Rom motion must declare periodic");
    assert_eq!(refuse(without("knot_count"), &times), "missing knot_count");
    assert_eq!(refuse(without("include_lods"), &times), "missing include_lods");
    assert_eq!(refuse(meta_fields(), &times[..3]), "sample_times length 3 != knot_count 4");
    assert_eq!(
        refuse(with("time_sampling", Value::Text("odd")), &times),
        "unsupported Catmull-Rom time_sampling 'odd'"
    );
    assert_eq!(
        refuse(with("motion_teacher", Value::Text("none")), &times),
        "unsupported Catmull-Rom motion_teacher 'none'"
    );
}

#[test]
fn container_refusals_say_why() {
    let error = parse_catmull_rom_meta_pt(b"no zip").unwrap_err();
    assert!(matches!(error, CatmullRomError::Container { error: PtError::Archive }));
    let no_dictionary = zip_of(&[("x/data/0", floats(&[1.0]))]);
    assert!(parse_catmull_rom_meta_pt(&no_dictionary)
        .unwrap_err()
        .message(&no_dictionary)
        .contains("data.pkl"));
    let gap = zip_of(&[("x/data.pkl", pickled(&meta_fields())), ("x/data/1", floats(&[1.0]))]);
    assert!(parse_catmull_rom_meta_pt(&gap).unwrap_err().message(&gap).contains("data/0"));
    let odd = zip_of(&[("x/data.pkl", pickled(&meta_fields())), ("x/data/0", vec![1, 2, 3])]);
    assert!(parse_catmull_rom_meta_pt(&odd)
        .unwrap_err()
        .message(&odd)
        .contains("not divisible by 4"));
    assert!(error
        .message(b"no zip")
        .starts_with("failed to open nested torch .pt zip: invalid Zip archive: "));
    let huge = zip_of(&[("x/data/99999999999999999999", floats(&[1.0]))]);
    assert_eq!(
        parse_catmull_rom_meta_pt(&huge).unwrap_err().message(&huge),
        "number too large to fit in target type"
    );
    let none = ParsedPt { pkl: pickled(&meta_fields()), storages: Vec::new() };
    assert!(matches!(read_meta(&none), Err(CatmullRomError::Container { .. })));
}

#[test]
fn reads_tile_motion_from_its_container() {
    let knots: Vec<f32> = (0..24).map(|i| i as f32).collect();
    let tile = parse_catmull_rom_tile_pt(&tile_pt(3, 1, &knots), 4).unwrap();
    assert_eq!((tile.tile_index, tile.lod_index, tile.splat_count), (3, 1, 2));
    assert_eq!(tile.knots, bits(&knots));
    assert!(matches!(
        parse_catmull_rom_tile_pt(&tile_pt(3, 1, &knots[..20]), 4),
        Err(CatmullRomError::KnotValues { found: 20, per_splat: 12 })
    ));
    assert!(matches!(
        parse_catmull_rom_tile_pt(&tile_pt(3, 1, &knots), 5),
        Err(CatmullRomError::TileSampleTimes { found: 4, expected: 5 })
    ));
    let missing = zip_of(&[("t/data.pkl", pickled(&common()))]);
    assert!(matches!(
        parse_catmull_rom_tile_pt(&missing, 4),
        Err(CatmullRomError::Missing { field: RequiredField::TileIndex })
    ));
}

fn scene_of(rows: &[u32]) -> Scene {
    let mut scene = Scene::from_splat_rows(vec![0; rows.len() * 32]).unwrap();
    scene.source_row_indices = rows.to_vec();
    scene
}

#[test]
fn motion_of_an_archive_follows_the_order_of_its_scene() {
    let times = [0.0, 0.25, 0.5, 0.75];
    let knots: Vec<f32> = (0..24).map(|i| i as f32).collect();
    let archive = zip_of(&[
        ("motion_catmull_rom_meta.pt", meta_pt(&meta_fields(), &times)),
        ("tile0_lod0_motion_catmull_rom.pt", tile_pt(0, 0, &knots)),
    ]);
    let entries = vec![CatmullRomMotionZipEntry {
        index: 1,
        filename: "tile0_lod0_motion_catmull_rom.pt".to_string(),
        tile_id: 0,
        lod_id: 0,
    }];
    let scenes = vec![vec![scene_of(&[1, 0])], vec![scene_of(&[0])]];
    let motion = load_catmull_rom_motion_from_zip(&archive, 0, &entries, &scenes)
        .unwrap()
        .unwrap();
    assert_eq!(motion.total_splats, 3);
    let mut expected = Vec::new();
    for source in [1, 0] {
        for knot in 0..4 {
            for axis in 0..3 {
                expected.push(((knot * 2 + source) * 3 + axis) as f32);
            }
        }
    }
    expected.extend([0.0; 12]);
    assert_eq!(motion.global_knots, bits(&expected));

    let wrong = vec![vec![scene_of(&[0])]];
    assert!(load_catmull_rom_motion_from_zip(&archive, 0, &entries, &wrong).unwrap().is_none());
    let right = vec![vec![scene_of(&[1, 0])]];
    assert!(load_catmull_rom_motion_from_zip(&archive, 0, &[], &right).unwrap().is_none());
    let error = load_catmull_rom_motion_from_zip(&archive, 9, &entries, &right).unwrap_err();
    assert!(matches!(error, CatmullRomLoadError::MetaEntry { error: EntryError::Open { index: 9 } }));
    assert_eq!(
        error.message(&archive),
        "failed to open zip entry motion_catmull_rom_meta.pt: specified file not found in archive"
    );
    let error = load_catmull_rom_motion_from_zip(&archive, 1, &entries, &right).unwrap_err();
    assert!(matches!(error, CatmullRomLoadError::Meta { index: 1, .. }));
    assert!(error.message(&archive).starts_with("failed to parse Catmull-Rom meta: "));
}
