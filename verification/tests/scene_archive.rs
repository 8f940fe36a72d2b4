use std::io::Write;

use gswt::basis_bank_motion::{
    parse_basis_bank_meta_with_legacy_duration, BasisBankMotionWireMeta, BASIS_BANK_META_FILENAME,
};
use gswt::basis_bank_motion_gpu::check_runtime;
use gswt::basis_bank_sampling::read_legacy_duration;
use gswt::basis_motion_graph::{
    parse_basis_motion_graph, BasisMotionGraph, BasisMotionGraphLod, BasisMotionGraphScoreWeights,
    BASIS_MOTION_GRAPH_FILENAME,
};
use gswt::scene::Scene;
use gswt::scene_archive::{
    arrange_tiles, check_motion_assets, classify, decode_tile, entry_name, list_entries, load_archive_motion,
    open_scene_zip, read_tile_bytes, scan_entries, EntryKind, EntryName, SceneArchiveError,
    SceneZipData, TilePayload,
};
use gswt::scene_files::{
    classify_file, grid_file, open_scene_files, plan_grid, sort_out_files, sort_picked_files,
    take_picked_file, FileKind, PickedFile, SceneFilesError,
};
use gswt::zip_file::{read_zip_entry, read_zip_entry_prefix, EntryError};

fn zip_bytes(entries: Vec<(&str, Vec<u8>)>) -> Vec<u8> {
    let mut writer = zip::ZipWriter::new(std::io::Cursor::new(Vec::new()));
    for (name, bytes) in entries {
        writer.start_file(name, zip::write::SimpleFileOptions::default()).unwrap();
        writer.write_all(&bytes).unwrap();
    }
    writer.finish().unwrap().into_inner()
}

fn splat(count: usize) -> Vec<u8> {
    vec![0; count * 32]
}

fn meta(scope: &str, source_lod: usize, include_lods: &[usize]) -> Vec<u8> {
    let mut value: serde_json::Value = serde_json::from_str(
        r#"{
            "format": "loop_closed_catmull_rom_basis_bank_delta_xyz",
            "format_version": 2,
            "delta_field": "delta_xyz",
            "source_knot_count": 4,
            "exported_knot_count": 4,
            "loop_closure_knots": 0,
            "loop_closure_method": "cubic_hermite",
            "motion_teacher": "direct_network",
            "source_time_sampling": "inclusive",
            "motion_basis_closure_mode": "target_then_basis",
            "basis_count": 2,
            "top_k": 1,
            "duration_seconds": 2.5
        }"#,
    )
    .unwrap();
    value["basis_scope"] = scope.into();
    value["basis_source_lod"] = source_lod.into();
    value["include_lods"] = include_lods.to_vec().into();
    serde_json::to_vec(&value).unwrap()
}

fn version_one_meta() -> Vec<u8> {
    let mut value: serde_json::Value =
        serde_json::from_slice(&meta("shared_lod0", 0, &[0])).unwrap();
    value["format_version"] = 1.into();
    value.as_object_mut().unwrap().remove("duration_seconds");
    serde_json::to_vec(&value).unwrap()
}

fn wire(bytes: &[u8]) -> Result<BasisBankMotionWireMeta, String> {
    let value: serde_json::Value = serde_json::from_slice(bytes).map_err(|e| e.to_string())?;
    let text = |key: &str| value[key].as_str().map(str::to_string).ok_or(format!("missing {key}"));
    let number = |key: &str| {
        value[key].as_u64().map(|n| n as usize).ok_or(format!("missing {key}"))
    };
    Ok(BasisBankMotionWireMeta {
        format: text("format")?,
        format_version: number("format_version")? as u32,
        delta_field: text("delta_field")?,
        basis_scope: text("basis_scope")?,
        basis_source_lod: value["basis_source_lod"].as_u64().map(|lod| lod as usize),
        include_lods: value["include_lods"]
            .as_array()
            .ok_or("missing include_lods")?
            .iter()
            .map(|lod| lod.as_u64().unwrap() as usize)
            .collect(),
        source_knot_count: number("source_knot_count")?,
        exported_knot_count: number("exported_knot_count")?,
        loop_closure_knots: number("loop_closure_knots")?,
        loop_closure_method: text("loop_closure_method")?,
        motion_teacher: text("motion_teacher")?,
        source_time_sampling: text("source_time_sampling")?,
        motion_basis_closure_mode: text("motion_basis_closure_mode")?,
        basis_count: number("basis_count")?,
        top_k: number("top_k")?,
        duration_seconds: value["duration_seconds"].as_f64().map(|d| (d as f32).to_bits()),
    })
}

fn parse_scene_zip_bytes(archive: Vec<u8>) -> Result<SceneZipData, String> {
    let scan = open_scene_zip(&archive).map_err(|e| e.message(&archive))?;
    let mut tiles: Vec<Scene> = Vec::new();
    for entry in &scan.tiles {
        let bytes = read_tile_bytes(&archive, entry).map_err(|e| e.message(&archive))?;
        match decode_tile(&entry.filename, bytes).map_err(|e| e.message(&archive))? {
            TilePayload::Splats { scene } => tiles.push(scene),
            TilePayload::Ply { .. } => panic!("no PLY tiles here"),
        }
    }
    let scene_vec = arrange_tiles(tiles, scan.lod_count, scan.tile_count);
    let basis_bank_motion = match check_motion_assets(&scan).map_err(|e| e.message(&archive))? {
        None => None,
        Some(index) => {
            let bytes = read_zip_entry(&archive, index).map_err(|_| "unreadable".to_string())?;
            let wire = wire(&bytes)?;
            let duration =
                read_legacy_duration(&archive, wire.format_version, scan.deformation_weights)
                    .map_err(|e| e.message(&archive))?;
            let meta = parse_basis_bank_meta_with_legacy_duration(wire, duration)
                .map_err(|e| e.message(""))?;
            let graph = scan
                .graph
                .and_then(|index| read_zip_entry(&archive, index).ok())
                .and_then(|bytes| graph_from(&bytes));
            let motion = load_archive_motion(&archive, &scan, meta, graph, &scene_vec)
                .map_err(|e| e.message(&archive))?;
            Some(motion)
        }
    };
    Ok(SceneZipData { scene_vec, basis_bank_motion })
}

fn graph_json(basis_count: usize) -> Vec<u8> {
    let text = r#"{
        "format": "basis_motion_graph",
        "format_version": 1,
        "basis_scope": "shared_lod0",
        "basis_source_lod": 0,
        "node_unit": "basis_segment",
        "include_lods": [0],
        "knot_count": 4,
        "branch_top_k": 1
    }"#;
    let mut value: serde_json::Value = serde_json::from_str(text).unwrap();
    value["basis_count"] = basis_count.into();
    serde_json::to_vec(&value).unwrap()
}

/// A graph without branches.
fn graph_from(bytes: &[u8]) -> Option<BasisMotionGraph> {
    let value: serde_json::Value = serde_json::from_slice(bytes).ok()?;
    let text = |key: &str| value[key].as_str().map(str::to_string);
    let number = |key: &str| value[key].as_u64().map(|n| n as usize);
    parse_basis_motion_graph(BasisMotionGraph {
        format: text("format")?,
        format_version: number("format_version")? as u32,
        basis_scope: text("basis_scope")?,
        basis_source_lod: number("basis_source_lod"),
        node_unit: text("node_unit")?,
        include_lods: value["include_lods"]
            .as_array()?
            .iter()
            .map(|lod| lod.as_u64().unwrap() as usize)
            .collect(),
        basis_count: number("basis_count")?,
        knot_count: number("knot_count")?,
        branch_top_k: number("branch_top_k")?,
        score_weights: BasisMotionGraphScoreWeights {
            position: 1.0_f32.to_bits(),
            velocity: 1.0_f32.to_bits(),
            acceleration: 1.0_f32.to_bits(),
            usage: 0,
        },
        lods: vec![BasisMotionGraphLod { lod_id: 0, branches: vec![] }],
    })
    .ok()
}

fn deformation_header(temporal_resolution: u32) -> Vec<u8> {
    let mut bytes = Vec::new();
    bytes.extend_from_slice(b"DFWT");
    for value in [1_u32, 3, 6, 32, 64, temporal_resolution] {
        bytes.extend_from_slice(&value.to_le_bytes());
    }
    bytes
}

fn basis_payload() -> Vec<u8> {
    let mut bytes = Vec::new();
    bytes.extend_from_slice(b"MBSB");
    for value in [2_u32, 0, 2, 4] {
        bytes.extend_from_slice(&value.to_le_bytes());
    }
    for value in 0..24 {
        bytes.extend_from_slice(&(value as f32).to_le_bytes());
    }
    bytes
}

fn coeff_payload(tile: u32, lod: u32, ids: &[u32]) -> Vec<u8> {
    let mut bytes = Vec::new();
    bytes.extend_from_slice(b"MBCF");
    for value in [2_u32, tile, lod, ids.len() as u32, 1] {
        bytes.extend_from_slice(&value.to_le_bytes());
    }
    for id in ids {
        bytes.extend_from_slice(&id.to_le_bytes());
    }
    for _ in ids {
        bytes.extend_from_slice(&1.0_f32.to_le_bytes());
    }
    bytes
}

fn set_payload_version(bytes: &mut [u8], version: u32) {
    bytes[4..8].copy_from_slice(&version.to_le_bytes());
}

fn valid_dynamic_entries() -> Vec<(&'static str, Vec<u8>)> {
    vec![
        ("tile0_lod0.splat", splat(1)),
        (BASIS_BANK_META_FILENAME, meta("shared_lod0", 0, &[0])),
        ("lod0_motion_basis.bin", basis_payload()),
        (
            "tile0_lod0_motion_basis_coeffs.bin",
            coeff_payload(0, 0, &[1]),
        ),
    ]
}

fn valid_version_one_dynamic_entries() -> Vec<(&'static str, Vec<u8>)> {
    let mut basis = basis_payload();
    let mut coeffs = coeff_payload(0, 0, &[1]);
    set_payload_version(&mut basis, 1);
    set_payload_version(&mut coeffs, 1);
    vec![
        ("tile0_lod0.splat", splat(1)),
        (BASIS_BANK_META_FILENAME, version_one_meta()),
        ("lod0_motion_basis.bin", basis),
        ("tile0_lod0_motion_basis_coeffs.bin", coeffs),
        ("deformation_weights.bin", deformation_header(75)),
    ]
}

fn error_for(entries: Vec<(&str, Vec<u8>)>) -> String {
    match parse_scene_zip_bytes(zip_bytes(entries)) {
        Ok(_) => panic!("archive unexpectedly accepted"),
        Err(error) => error,
    }
}

#[test]
fn accepts_static_archive() {
    let archive = parse_scene_zip_bytes(zip_bytes(vec![("tile0_lod0.splat", splat(1))])).unwrap();
    assert!(archive.basis_bank_motion.is_none());
    assert_eq!(archive.scene_vec.len(), 1);
}

#[test]
fn accepts_valid_shared_lod0_archive() {
    let archive = parse_scene_zip_bytes(zip_bytes(valid_dynamic_entries())).unwrap();
    let motion = archive.basis_bank_motion.unwrap();
    assert_eq!(motion.basis_count, 2);
    assert_eq!(motion.basis_ids, vec![1]);
    assert_eq!(f32::from_bits(motion.meta.duration_seconds), 2.5);
    assert_eq!(motion.basis_knots.len(), 24);
    assert_eq!(f32::from_bits(motion.basis_knots[23]), 23.0);
    assert!(check_runtime(&motion).is_ok());
}

#[test]
fn accepts_version_one_archive_and_infers_duration_from_temporal_resolution() {
    let archive = parse_scene_zip_bytes(zip_bytes(valid_version_one_dynamic_entries())).unwrap();
    let motion = archive.basis_bank_motion.unwrap();
    assert_eq!(f32::from_bits(motion.meta.duration_seconds), 5.0);
}

#[test]
fn rejects_version_one_archive_without_deformation_header() {
    let mut entries = valid_version_one_dynamic_entries();
    entries.pop();
    let error = error_for(entries);
    assert!(error.contains("deformation_weights.bin"), "{error}");
}

#[test]
fn rejects_version_one_archive_with_invalid_temporal_resolution() {
    let mut entries = valid_version_one_dynamic_entries();
    entries[4].1 = deformation_header(0);
    let error = error_for(entries);
    assert!(error.contains("temporal resolution"), "{error}");
}

#[test]
fn rejects_mixed_basis_asset_versions() {
    let mut entries = valid_version_one_dynamic_entries();
    set_payload_version(&mut entries[2].1, 2);
    let error = error_for(entries);
    assert!(error.contains("version 2"), "{error}");
    assert!(error.contains("metadata version 1"), "{error}");
}

#[test]
fn rejects_per_lod_scope() {
    let mut entries = valid_dynamic_entries();
    entries[1].1 = meta("per_lod", 0, &[0]);
    assert!(error_for(entries).contains("expected shared_lod0"));
}

#[test]
fn rejects_wrong_source_lod() {
    let mut entries = valid_dynamic_entries();
    entries[1].1 = meta("shared_lod0", 1, &[0]);
    assert!(error_for(entries).contains("basis_source_lod=0"));
}

#[test]
fn rejects_incomplete_lod_coverage() {
    let mut entries = valid_dynamic_entries();
    entries.insert(1, ("tile0_lod1.splat", splat(1)));
    entries.push((
        "tile0_lod1_motion_basis_coeffs.bin",
        coeff_payload(0, 1, &[0]),
    ));
    assert!(error_for(entries).contains("include_lods"));
}

#[test]
fn rejects_missing_coefficient_payload() {
    let mut entries = valid_dynamic_entries();
    entries.pop();
    assert!(error_for(entries).contains("coefficient files"));
}

#[test]
fn rejects_duplicate_coefficient_payload() {
    let mut entries = valid_dynamic_entries();
    entries.push((
        "Tile0_Lod0_Motion_Basis_Coeffs.bin",
        coeff_payload(0, 0, &[0]),
    ));
    let error = error_for(entries);
    assert!(error.contains("coefficient files") || error.contains("duplicate"));
}

#[test]
fn rejects_bad_coefficient_header() {
    let mut entries = valid_dynamic_entries();
    entries[3].1 = coeff_payload(9, 0, &[0]);
    assert!(error_for(entries).contains("expected tile0_lod0"));
}

#[test]
fn rejects_out_of_range_basis_id() {
    let mut entries = valid_dynamic_entries();
    entries[3].1 = coeff_payload(0, 0, &[2]);
    let error = error_for(entries);
    assert!(
        error.contains("basis coefficient ID 2 is out of range"),
        "{error}"
    );
}

#[test]
fn rejects_deformation_only_archive() {
    let error = error_for(vec![
        ("tile0_lod0.splat", splat(1)),
        ("deformation_weights.bin", vec![1, 2, 3]),
    ]);
    assert!(error.contains("deformation_weights.bin"));
    assert!(error.contains("rebuild"));
}

#[test]
fn rejects_dense_catmull_rom_archive() {
    let error = error_for(vec![
        ("tile0_lod0.splat", splat(1)),
        ("motion_catmull_rom_meta.pt", vec![1]),
    ]);
    assert!(error.contains("legacy dense Catmull-Rom"));
}

#[test]
fn invalid_optional_graph_keeps_basis_playback() {
    let mut entries = valid_dynamic_entries();
    entries.push((BASIS_MOTION_GRAPH_FILENAME, b"{}".to_vec()));
    let archive = parse_scene_zip_bytes(zip_bytes(entries)).unwrap();
    let motion = archive.basis_bank_motion.unwrap();
    assert!(motion.motion_graph.is_none());
}

#[test]
fn graphs_of_other_banks_are_dropped() {
    let graph_for = |basis_count: usize| {
        let mut entries = valid_dynamic_entries();
        entries.push((BASIS_MOTION_GRAPH_FILENAME, graph_json(basis_count)));
        let archive = parse_scene_zip_bytes(zip_bytes(entries)).unwrap();
        archive.basis_bank_motion.unwrap().motion_graph
    };
    assert!(graph_from(&graph_json(3)).is_some());
    assert!(graph_for(3).is_none());
    assert_eq!(graph_for(2).unwrap().basis_count, 2);
}

#[test]
fn tiles_are_arranged_by_lod() {
    let tiles = |count: usize| {
        (0..count)
            .map(|i| Scene::from_splat_rows(splat(i)).unwrap())
            .collect::<Vec<Scene>>()
    };
    let counts = |rows: Vec<Vec<Scene>>| {
        rows.iter()
            .map(|row| row.iter().map(|scene| scene.splat_count).collect())
            .collect::<Vec<Vec<usize>>>()
    };
    assert_eq!(counts(arrange_tiles(tiles(6), 2, 3)), vec![vec![0, 1, 2], vec![3, 4, 5]]);
    assert_eq!(counts(arrange_tiles(tiles(3), 3, 1)), vec![vec![0], vec![1], vec![2]]);
    assert!(arrange_tiles(Vec::new(), 0, 4).is_empty());
}

#[test]
fn splats_of_all_tiles_keep_their_coefficients() {
    let mut entries = vec![
        ("tile0_lod0.splat", splat(2)),
        ("tile1_lod0.splat", splat(1)),
        ("tile0_lod1.splat", splat(3)),
        ("tile1_lod1.splat", splat(1)),
        (BASIS_BANK_META_FILENAME, meta("shared_lod0", 0, &[0, 1])),
        ("lod0_motion_basis.bin", basis_payload()),
    ];
    entries.push(("tile0_lod1_motion_basis_coeffs.bin", coeff_payload(0, 1, &[1, 1, 0])));
    entries.push(("tile1_lod0_motion_basis_coeffs.bin", coeff_payload(1, 0, &[1])));
    entries.push(("tile0_lod0_motion_basis_coeffs.bin", coeff_payload(0, 0, &[0, 1])));
    entries.push(("tile1_lod1_motion_basis_coeffs.bin", coeff_payload(1, 1, &[0])));
    let motion = parse_scene_zip_bytes(zip_bytes(entries)).unwrap().basis_bank_motion.unwrap();
    assert_eq!(motion.total_splats, 7);
    assert_eq!(motion.basis_ids, vec![0, 1, 1, 1, 1, 0, 0]);
}

#[test]
fn tile_grids_must_be_complete() {
    let grid = |names: &[&str]| {
        let entries = names.iter().map(|name| (*name, splat(1))).collect();
        let archive = zip_bytes(entries);
        match open_scene_zip(&archive) {
            Ok(scan) => Ok((scan.lod_count, scan.tile_count)),
            Err(error) => Err(error.message(&archive)),
        }
    };
    assert_eq!(
        grid(&["tile1_lod0.splat", "tile0_lod1.ply", "tile1_lod1.splat", "TILE0_LOD0.SPLAT"]),
        Ok((2, 2))
    );
    assert_eq!(
        grid(&["tile0_lod0.splat", "tile1_lod1.splat"]).unwrap_err(),
        "incomplete tile grid: found 2 scene files, expected 2 LoDs x 2 tiles = 4 files"
    );
    assert!(grid(&["tile0_lod0.splat", "x/tile0_lod0.splat", "tile1_lod1.splat", "tile1_lod0.splat"])
        .unwrap_err()
        .starts_with("incomplete tile grid: expected tile"));
    assert!(grid(&["readme.txt"]).unwrap_err().contains("no tile"));
    assert_eq!(
        grid(&["tile99999999999999999999_lod0.ply"]).unwrap_err(),
        "99999999999999999999".parse::<usize>().unwrap_err().to_string()
    );
    assert_eq!(
        grid(&["tile1_lod\u{663}.ply"]).unwrap_err(),
        "\u{663}".parse::<usize>().unwrap_err().to_string()
    );
}

#[test]
fn repeated_assets_are_refused() {
    let twice = |name: &str, other: &str| {
        error_for(vec![("tile0_lod0.splat", splat(1)), (name, vec![]), (other, vec![])])
    };
    assert!(twice("deformation_weights.bin", "a/deformation_weights.bin").contains("duplicate"));
    assert!(twice("motion_graph_basis.json", "a/motion_graph_basis.json").contains("duplicate"));
    let meta_twice = format!("a/{BASIS_BANK_META_FILENAME}");
    assert!(twice(BASIS_BANK_META_FILENAME, &meta_twice).contains("duplicate"));
    let stray = error_for(vec![
        ("tile0_lod0.splat", splat(1)),
        ("lod0_motion_basis.bin", basis_payload()),
    ]);
    assert!(stray.contains("is missing"), "{stray}");
    assert!(error_for(vec![("tile0_lod0.splat", vec![0; 33])]).contains("multiple of 32"));
}

#[test]
fn entry_names_are_sorted_out() {
    assert!(matches!(entry_name(Err(())), EntryName::Unreadable));
    assert!(matches!(entry_name(Ok(None)), EntryName::UnsafePath));
    assert!(matches!(entry_name(Ok(Some(None))), EntryName::NotText));
    for (name, bad) in [
        (EntryName::Unreadable, "invalid Zip archive"),
        (EntryName::UnsafePath, "unsafe path"),
        (EntryName::NotText, "non-UTF-8"),
    ] {
        assert!(scan_entries(&vec![name]).err().unwrap().message(b"no zip").contains(bad));
    }
    assert!(matches!(open_scene_zip(b"no zip"), Err(SceneArchiveError::Unopenable)));
    assert!(SceneArchiveError::Unopenable
        .message(b"no zip")
        .starts_with("failed to open GSWT ZIP archive: invalid Zip archive: "));
    assert_eq!(classify("tile3_lod1.ply"), EntryKind::Scene { tile: 3, lod: 1 });
    assert_eq!(classify("lod0_motion_basis.bin"), EntryKind::Basis { lod: 0 });
    assert_eq!(classify("notes.txt"), EntryKind::Other);
}

#[test]
fn entries_are_read_whole_or_in_part() {
    let archive = zip_bytes(vec![("a", (0..100).collect())]);
    assert_eq!(read_zip_entry(&archive, 0).unwrap(), (0..100).collect::<Vec<u8>>());
    assert_eq!(read_zip_entry_prefix(&archive, 0, 3).unwrap(), vec![0, 1, 2]);
    assert_eq!(
        read_zip_entry_prefix(&archive, 0, 101),
        Err(EntryError::TooSmall { size: 100, expected: 101 })
    );
    assert_eq!(read_zip_entry(&archive, 1), Err(EntryError::Open { index: 1 }));
    assert_eq!(
        EntryError::Open { index: 1 }.cause(&archive),
        "specified file not found in archive"
    );
    assert_eq!(read_zip_entry(b"", 0), Err(EntryError::Open { index: 0 }));
    let short = std::io::Read::read_exact(&mut [1_u8].as_slice(), &mut [0_u8; 2]).unwrap_err();
    assert_eq!(EntryError::Short.cause(&archive), short.to_string());
}

#[test]
fn older_archives_are_sorted_out_by_name() {
    assert_eq!(classify_file("Deformation_Weights.bin"), FileKind::Weights);
    assert_eq!(classify_file("motion_catmull_rom_meta.pt"), FileKind::MotionMeta);
    assert_eq!(
        classify_file("tile2_lod1_motion_catmull_rom.pt"),
        FileKind::Motion { tile: 2, lod: 1 }
    );
    assert_eq!(classify_file("my_tile2_lod1.ply"), FileKind::Scene { tile: 2, lod: 1 });
    assert_eq!(classify_file("Tile2_Lod1.ply"), FileKind::Other);
    assert_eq!(classify_file("tile2_lod1.txt"), FileKind::Other);
    assert_eq!(classify_file("tile99999999999999999999_lod1.ply"), FileKind::SceneNumber);

    let archive = zip_bytes(vec![
        ("tile1_lod2.splat", splat(1)),
        ("tile0_lod2.splat", splat(2)),
        ("motion_catmull_rom_meta.pt", vec![]),
        ("tile1_lod1.splat", splat(3)),
        ("tile0_lod1.splat", splat(4)),
        ("deformation_weights.bin", vec![]),
        ("tile0_lod1_motion_catmull_rom.pt", vec![]),
    ]);
    let files = open_scene_files(&archive).unwrap();
    assert_eq!((files.weights, files.motion_meta), (Some(5), Some(2)));
    assert_eq!(files.motion.len(), 1);
    assert_eq!(files.motion[0].index, 6);
    let order: Vec<usize> = files.tiles.iter().map(|tile| tile.index).collect();
    assert_eq!(order, vec![4, 3, 1, 0]);
    let (lods, columns) = plan_grid(&files.tiles).unwrap();
    assert_eq!((lods, columns), (2, 2));
    assert_eq!(grid_file(&files.tiles, lods, columns, 1, 0).filename, "tile0_lod2.splat");
}

#[test]
fn older_archives_with_gaps_are_refused() {
    assert_eq!(open_scene_files(b"no zip").unwrap_err(), SceneFilesError::Unopenable);
    let bad = vec![EntryName::Name { name: "x".into() }, EntryName::NotText];
    assert_eq!(sort_out_files(&bad).unwrap_err(), SceneFilesError::BadName { index: 1 });
    let files = open_scene_files(&zip_bytes(vec![
        ("tile0_lod0.splat", splat(1)),
        ("tile1_lod1.splat", splat(1)),
    ]))
    .unwrap();
    assert_eq!(plan_grid(&files.tiles), Err(SceneFilesError::MissingTile));
    assert_eq!(plan_grid(&Vec::new()), Ok((0, 0)));
}

#[test]
fn picked_files_are_sorted_by_their_numbers() {
    let names = ["lod1_tile_0.ply", "lod0_tile_10.ply", "lod0_tile_9.splat"].map(String::from);
    let tiles = sort_picked_files(&names.to_vec()).unwrap();
    let order: Vec<usize> = tiles.iter().map(|tile| tile.index).collect();
    assert_eq!(order, vec![2, 1, 0]);
    assert_eq!(
        sort_picked_files(&vec!["scene.ply".to_string()]).unwrap_err(),
        SceneFilesError::BadName { index: 0 }
    );
    assert_eq!(
        sort_picked_files(&vec!["lod0_tile_3000000000.ply".to_string()]).unwrap_err(),
        SceneFilesError::BadName { index: 0 }
    );
}

#[test]
fn picked_files_are_taken_by_their_format() {
    assert!(matches!(
        take_picked_file(&"a.ply".to_string(), vec![1, 2]),
        Ok(PickedFile::Ply { bytes }) if bytes == vec![1, 2]
    ));
    match take_picked_file(&"a.splat.bak".to_string(), splat(2)).unwrap() {
        PickedFile::Splats { scene } => assert_eq!(scene.splat_count, 2),
        PickedFile::Ply { .. } => panic!("not a PLY file"),
    }
    assert!(matches!(
        take_picked_file(&"a.SPLAT".to_string(), splat(2)),
        Err(SceneFilesError::UnknownFormat { filename }) if filename == "a.SPLAT"
    ));
}

#[test]
fn lists_of_lods_are_spelled_out() {
    let mut entries = valid_dynamic_entries();
    entries[1].1 = meta("shared_lod0", 0, &[0, 2, 1]);
    assert!(error_for(entries)
        .contains("basis metadata include_lods [0, 2, 1] does not match scene LoDs [0]"));
}

#[test]
fn partial_motion_assets_are_refused() {
    for kept in [1, 2, 3] {
        let mut entries = valid_dynamic_entries();
        let last = entries.remove(kept);
        assert!(parse_scene_zip_bytes(zip_bytes(entries)).is_err(), "without {}", last.0);
    }
    let mut entries = valid_dynamic_entries();
    entries.push(("tile0_lod0_motion_catmull_rom.pt", Vec::new()));
    assert!(error_for(entries).contains("legacy dense Catmull-Rom motion"));
}

#[test]
fn a_network_changes_nothing_in_current_archives() {
    let plain = parse_scene_zip_bytes(zip_bytes(valid_dynamic_entries())).unwrap();
    let expected = plain.basis_bank_motion.unwrap();
    for (place, network) in [
        (4, deformation_header(75)),
        (4, vec![1, 2, 3]),
        (0, deformation_header(0)),
        (2, Vec::new()),
    ] {
        let mut entries = valid_dynamic_entries();
        entries.insert(place, ("deformation_weights.bin", network));
        let data = parse_scene_zip_bytes(zip_bytes(entries)).unwrap();
        assert_eq!(data.scene_vec.len(), plain.scene_vec.len());
        assert_eq!(data.scene_vec[0][0].buffer, plain.scene_vec[0][0].buffer);
        let motion = data.basis_bank_motion.unwrap();
        assert_eq!(motion.meta.duration_seconds, expected.meta.duration_seconds);
        assert_eq!(motion.basis_knots, expected.basis_knots);
        assert_eq!(motion.basis_ids, expected.basis_ids);
        assert_eq!(motion.global_weights, expected.global_weights);
    }
}

#[test]
fn folders_are_looked_into_but_not_left() {
    let names = |stored: &[&str]| {
        let entries = stored.iter().map(|name| (*name, splat(1))).collect();
        list_entries(&zip_bytes(entries)).unwrap()
    };
    let listed = names(&["scene_a/lod0/tile0_lod0.splat", "../tile0_lod0.splat", "a_b/../x.txt"]);
    assert!(matches!(&listed[0], EntryName::Name { name } if name == "tile0_lod0.splat"));
    assert!(matches!(listed[1], EntryName::UnsafePath));
    assert!(matches!(&listed[2], EntryName::Name { name } if name == "x.txt"));
    let spelled = names(&[
        "data/my-scene/read-me (1).txt",
        "./a//b/../t\u{e4}st.bin",
        "/root.txt",
        "a/../../x",
        "a/..",
    ]);
    assert!(matches!(&spelled[0], EntryName::Name { name } if name == "read-me (1).txt"));
    assert!(matches!(&spelled[1], EntryName::Name { name } if name == "t\u{e4}st.bin"));
    assert!(matches!(&spelled[2], EntryName::Name { name } if name == "root.txt"));
    assert!(matches!(spelled[3], EntryName::UnsafePath));
    assert!(matches!(spelled[4], EntryName::NotText));
    let archive = zip_bytes(vec![("scene/tile0_lod0.splat", splat(2))]);
    assert_eq!(open_scene_zip(&archive).unwrap().tile_count, 1);
    let error = error_for(vec![("../tile0_lod0.splat", splat(1))]);
    assert_eq!(error, "ZIP entry 0 has an unsafe path");
}
