use gswt::basis_bank_messages::BasisPayload;
use gswt::basis_bank_motion::{
    append_tile_coefficients_splat_major, detect_basis_coeffs_file, detect_basis_lod_file,
    parse_basis_bank_meta, parse_basis_bank_meta_with_legacy_duration, parse_basis_lod_motion,
    parse_basis_tile_coefficients, parse_legacy_temporal_resolution, AppendError,
    BasisBankMotionMeta, BasisBankMotionSet, BasisBankMotionWireMeta, BasisBankTileCoefficients,
    BasisPayloadError, LegacyHeaderError,
};
use gswt::basis_bank_motion_gpu::{
    check_runtime, motion_uniform, pack_basis_knots, BasisRuntimeError,
};
use gswt::basis_bank_sampling::{
    affected_splat_counts, legacy_duration, parse_legacy_deformation_duration_seconds,
    read_legacy_duration, LegacyDurationError,
};
use gswt::zip_file::EntryError;

const CURRENT_META: &str = r#"{
    "format": "loop_closed_catmull_rom_basis_bank_delta_xyz",
    "format_version": 2,
    "delta_field": "delta_xyz",
    "basis_scope": "shared_lod0",
    "basis_source_lod": 0,
    "include_lods": [0, 1],
    "source_knot_count": 4,
    "exported_knot_count": 4,
    "loop_closure_knots": 0,
    "loop_closure_method": "cubic_hermite",
    "motion_teacher": "direct_network",
    "source_time_sampling": "inclusive",
    "motion_basis_closure_mode": "target_then_basis",
    "basis_count": 2,
    "top_k": 1,
    "duration_seconds": 2.5
}"#;

fn current_meta() -> serde_json::Value {
    serde_json::from_str(CURRENT_META).unwrap()
}

fn wire(value: &serde_json::Value) -> BasisBankMotionWireMeta {
    let text = |key: &str| value[key].as_str().unwrap().to_string();
    let number = |key: &str| value[key].as_u64().unwrap() as usize;
    BasisBankMotionWireMeta {
        format: text("format"),
        format_version: number("format_version") as u32,
        delta_field: text("delta_field"),
        basis_scope: text("basis_scope"),
        basis_source_lod: value["basis_source_lod"].as_u64().map(|lod| lod as usize),
        include_lods: value["include_lods"]
            .as_array()
            .unwrap()
            .iter()
            .map(|lod| lod.as_u64().unwrap() as usize)
            .collect(),
        source_knot_count: number("source_knot_count"),
        exported_knot_count: number("exported_knot_count"),
        loop_closure_knots: number("loop_closure_knots"),
        loop_closure_method: text("loop_closure_method"),
        motion_teacher: text("motion_teacher"),
        source_time_sampling: text("source_time_sampling"),
        motion_basis_closure_mode: text("motion_basis_closure_mode"),
        basis_count: number("basis_count"),
        top_k: number("top_k"),
        duration_seconds: value["duration_seconds"].as_f64().map(|d| (d as f32).to_bits()),
    }
}

fn bits(values: &[f32]) -> Vec<u32> {
    values.iter().map(|v| v.to_bits()).collect()
}

#[test]
fn accepts_current_constructor_metadata() {
    let meta = parse_basis_bank_meta(wire(&current_meta())).unwrap();
    assert_eq!(meta.include_lods, vec![0, 1]);
    assert_eq!(meta.basis_count, 2);
    assert_eq!(f32::from_bits(meta.duration_seconds), 2.5);
}

#[test]
fn version_one_metadata_requires_legacy_duration_context() {
    let mut value = current_meta();
    value["format_version"] = 1.into();
    value.as_object_mut().unwrap().remove("duration_seconds");
    let error = parse_basis_bank_meta(wire(&value)).unwrap_err().message("");
    assert!(error.contains("deformation_weights.bin"), "{error}");
    let meta =
        parse_basis_bank_meta_with_legacy_duration(wire(&value), Some(5.0_f32.to_bits())).unwrap();
    assert_eq!(f32::from_bits(meta.duration_seconds), 5.0);
}

#[test]
fn infers_five_seconds_from_temporal_resolution_75() {
    let mut header = vec![0; 28];
    header[0..4].copy_from_slice(b"DFWT");
    header[4..8].copy_from_slice(&1_u32.to_le_bytes());
    header[24..28].copy_from_slice(&75_u32.to_le_bytes());
    assert_eq!(
        f32::from_bits(parse_legacy_deformation_duration_seconds(&header).unwrap()),
        5.0
    );
}

#[test]
fn legacy_durations_match_floating_point() {
    for resolution in [1_u32, 2, 3, 7, 29, 30, 31, 75, 100, 16_777_217, u32::MAX] {
        let expected = resolution as f32 * 2.0 / 30.0;
        assert_eq!(f32::from_bits(legacy_duration(resolution)), expected);
    }
}

#[test]
fn legacy_headers_are_checked() {
    let mut header = vec![0; 28];
    let refuse = |header: &[u8]| parse_legacy_temporal_resolution(header).unwrap_err();
    assert_eq!(refuse(&header[..27]), LegacyHeaderError::TooSmall { found: 27 });
    assert_eq!(refuse(&header), LegacyHeaderError::Magic);
    header[0..4].copy_from_slice(b"DFWT");
    assert_eq!(refuse(&header), LegacyHeaderError::Version { version: 0 });
    header[4] = 1;
    assert_eq!(refuse(&header), LegacyHeaderError::NoTemporalResolution);
    assert!(refuse(&header).message().contains("temporal resolution"));
    header[24] = 9;
    assert_eq!(parse_legacy_temporal_resolution(&header), Ok(9));
    assert_eq!(read_legacy_duration(&[], 2, None), Ok(None));
    assert_eq!(read_legacy_duration(&[], 1, None), Err(LegacyDurationError::NoNetwork));
    let error = read_legacy_duration(b"no archive", 1, Some(0)).unwrap_err();
    assert!(error
        .message(b"no archive")
        .starts_with("failed to open deformation_weights.bin: invalid Zip archive: "));
    let short = LegacyDurationError::Read { error: EntryError::TooSmall { size: 9, expected: 28 } };
    assert_eq!(
        short.message(&[]),
        "deformation_weights.bin is too small: got 9 bytes, expected at least 28"
    );
}

#[test]
fn rejects_missing_or_invalid_duration() {
    for duration in [serde_json::Value::Null, 0.0.into(), (-1.0).into()] {
        let mut value = current_meta();
        value["duration_seconds"] = duration;
        assert!(parse_basis_bank_meta(wire(&value)).is_err());
    }
    let mut meta = wire(&current_meta());
    meta.duration_seconds = Some(f32::NAN.to_bits());
    assert!(parse_basis_bank_meta(meta).is_err());
}

#[test]
fn rejects_inconsistent_knot_counts() {
    let mut value = current_meta();
    value["loop_closure_knots"] = 1.into();
    let error = parse_basis_bank_meta(wire(&value)).unwrap_err().message("");
    assert!(error.contains("source_knot_count"), "{error}");
}

#[test]
fn accepts_both_current_closure_modes() {
    let mut value = current_meta();
    value["motion_basis_closure_mode"] = "basis_then_closure".into();
    assert!(parse_basis_bank_meta(wire(&value)).is_ok());
}

#[test]
fn rejects_legacy_or_mismatched_metadata_policy() {
    for (key, value, expected) in [
        ("basis_scope", "per_lod", "expected shared_lod0"),
        ("motion_teacher", "volume", "direct_network"),
        ("source_time_sampling", "exclusive", "inclusive"),
        ("loop_closure_method", "none", "cubic_hermite"),
        ("motion_basis_closure_mode", "none", "target_then_basis"),
    ] {
        let mut meta = current_meta();
        meta[key] = value.into();
        let error = parse_basis_bank_meta(wire(&meta)).unwrap_err().message("");
        assert!(error.contains(expected), "{key}: {error}");
    }
}

#[test]
fn rejects_other_broken_metadata() {
    let broken = |change: &dyn Fn(&mut BasisBankMotionWireMeta)| {
        let mut meta = wire(&current_meta());
        change(&mut meta);
        parse_basis_bank_meta(meta).unwrap_err().message("-1")
    };
    assert!(broken(&|m| m.format = "other".into()).contains("other"));
    assert!(broken(&|m| m.format_version = 7).contains('7'));
    assert!(broken(&|m| m.delta_field = "dx".into()).contains("dx"));
    assert!(broken(&|m| m.basis_source_lod = None).contains("basis_source_lod=0"));
    assert!(broken(&|m| m.include_lods = vec![1]).contains("include_lods"));
    assert!(broken(&|m| m.source_knot_count = 0).contains("source_knot_count"));
    assert!(!broken(&|m| {
        m.source_knot_count = usize::MAX;
        m.loop_closure_knots = 1;
    })
    .is_empty());
    assert!(!broken(&|m| {
        m.source_knot_count = 3;
        m.exported_knot_count = 3;
    })
    .is_empty());
    assert!(broken(&|m| m.basis_count = 0).contains("basis_count"));
    assert!(broken(&|m| m.top_k = 3).contains("top_k"));
    assert_eq!(
        broken(&|m| m.loop_closure_knots = 1),
        "basis-bank source_knot_count 4 + loop_closure_knots 1 must equal exported_knot_count 4, \
         expected 5"
    );
    assert_eq!(
        broken(&|m| m.duration_seconds = Some((-1.0_f32).to_bits())),
        "basis-bank duration_seconds must be finite and positive, got -1"
    );
}

#[test]
fn payload_errors_name_their_file() {
    let lod = |error: BasisPayloadError| error.message(BasisPayload::Lod);
    let coefficients = |error: BasisPayloadError| error.message(BasisPayload::Coefficients);
    assert_eq!(lod(BasisPayloadError::TooSmall), "basis LOD payload is too small");
    assert_eq!(coefficients(BasisPayloadError::Magic), "bad basis coefficient magic");
    assert_eq!(
        lod(BasisPayloadError::Version { version: 3 }),
        "unsupported basis LOD version 3"
    );
    assert_eq!(lod(BasisPayloadError::CountOverflow), "basis LOD value count overflow");
    assert_eq!(
        coefficients(BasisPayloadError::CountOverflow),
        "basis coefficient count overflow"
    );
    assert_eq!(
        coefficients(BasisPayloadError::LengthOverflow),
        "basis coefficient byte length overflow"
    );
    assert_eq!(
        lod(BasisPayloadError::Length { found: 1, expected: 2 }),
        "basis LOD byte length mismatch: got 1, expected 2"
    );
    assert_eq!(
        lod(BasisPayloadError::NonFinite),
        "basis LOD payload contains non-finite knot values"
    );
    assert_eq!(
        coefficients(BasisPayloadError::NonFinite),
        "basis coefficient payload contains non-finite weights"
    );
}

#[test]
fn coefficient_reordering_follows_sorted_scene_source_rows() {
    let coeffs = BasisBankTileCoefficients {
        format_version: 2,
        tile_index: 0,
        lod_index: 0,
        splat_count: 3,
        top_k: 1,
        basis_ids: vec![0, 1, 0],
        weights: bits(&[0.1, 0.2, 0.3]),
    };
    let mut ids = Vec::new();
    let mut weights = Vec::new();
    append_tile_coefficients_splat_major(&mut ids, &mut weights, &coeffs, &[2, 0, 1], 2).unwrap();
    assert_eq!(ids, vec![0, 0, 1]);
    assert_eq!(weights, bits(&[0.3, 0.1, 0.2]));
}

#[test]
fn coefficient_reordering_refuses_bad_rows_and_bases() {
    let coeffs = BasisBankTileCoefficients {
        format_version: 2,
        tile_index: 0,
        lod_index: 0,
        splat_count: 2,
        top_k: 1,
        basis_ids: vec![0, 5],
        weights: bits(&[0.1, 0.2]),
    };
    let (mut ids, mut weights) = (Vec::new(), Vec::new());
    let mut append = |rows: &[u32], bases: usize| {
        append_tile_coefficients_splat_major(&mut ids, &mut weights, &coeffs, rows, bases)
    };
    assert_eq!(append(&[0], 6), Err(AppendError::RowCount { rows: 1, splats: 2 }));
    assert_eq!(append(&[0, 2], 6), Err(AppendError::Row { row: 2, splats: 2 }));
    assert_eq!(append(&[0, 1], 2), Err(AppendError::BasisId { id: 5, basis_count: 2 }));
    assert!(append(&[0, 1], 2)
        .unwrap_err()
        .message()
        .contains("basis coefficient ID 5 is out of range"));
}

#[test]
fn coefficients_before_a_bad_row_are_appended() {
    let coeffs = BasisBankTileCoefficients {
        format_version: 2,
        tile_index: 0,
        lod_index: 0,
        splat_count: 3,
        top_k: 2,
        basis_ids: vec![0, 1, 1, 0, 1, 7],
        weights: bits(&[0.1, 0.2, 0.3, 0.4, 0.5, 0.6]),
    };
    let (mut ids, mut weights) = (vec![9], bits(&[0.9]));
    let r = append_tile_coefficients_splat_major(&mut ids, &mut weights, &coeffs, &[1, 2, 0], 2);
    assert_eq!(r, Err(AppendError::BasisId { id: 7, basis_count: 2 }));
    assert_eq!(ids, vec![9, 1, 0, 1]);
    assert_eq!(weights, bits(&[0.9, 0.3, 0.4, 0.5]));
}

fn lod_bytes(header: [u32; 4], values: &[f32]) -> Vec<u8> {
    let mut bytes = b"MBSB".to_vec();
    for value in header {
        bytes.extend_from_slice(&value.to_le_bytes());
    }
    for value in values {
        bytes.extend_from_slice(&value.to_le_bytes());
    }
    bytes
}

fn coefficient_bytes(header: [u32; 5]) -> Vec<u8> {
    let mut bytes = b"MBCF".to_vec();
    for value in header {
        bytes.extend_from_slice(&value.to_le_bytes());
    }
    bytes
}

#[test]
fn rejects_non_finite_basis_knots() {
    let bytes = lod_bytes([2, 0, 1, 4], &[f32::NAN; 12]);
    let error = parse_basis_lod_motion(&bytes).unwrap_err().message(BasisPayload::Lod);
    assert!(error.contains("non-finite"), "{error}");
}

#[test]
fn rejects_non_finite_coefficient_weights() {
    let mut bytes = coefficient_bytes([2, 0, 0, 1, 1]);
    bytes.extend_from_slice(&0_u32.to_le_bytes());
    bytes.extend_from_slice(&f32::NAN.to_le_bytes());
    let error = parse_basis_tile_coefficients(&bytes).unwrap_err().message(BasisPayload::Coefficients);
    assert!(error.contains("non-finite"), "{error}");
}

#[test]
fn coefficient_size_overflow_returns_error_instead_of_panicking() {
    let bytes = coefficient_bytes([2, 0, 0, u32::MAX, u32::MAX]);
    assert!(parse_basis_tile_coefficients(&bytes).is_err());
}

#[test]
fn payloads_are_read_and_checked() {
    let values: Vec<f32> = (0..12).map(|i| i as f32).collect();
    let motion = parse_basis_lod_motion(&lod_bytes([2, 0, 1, 4], &values)).unwrap();
    assert_eq!((motion.basis_count, motion.knot_count), (1, 4));
    assert_eq!(motion.basis_knots, bits(&values));
    let refuse = |bytes: &[u8]| parse_basis_lod_motion(bytes).unwrap_err();
    assert_eq!(refuse(b"MBSB"), BasisPayloadError::TooSmall);
    assert_eq!(refuse(&[0; 20]), BasisPayloadError::Magic);
    assert_eq!(refuse(&lod_bytes([3, 0, 1, 4], &[])), BasisPayloadError::Version { version: 3 });
    assert_eq!(
        refuse(&lod_bytes([2, 0, 1, 4], &[0.0])),
        BasisPayloadError::Length { found: 24, expected: 68 }
    );
    assert!(matches!(
        refuse(&lod_bytes([2, 0, u32::MAX, u32::MAX], &[])),
        BasisPayloadError::CountOverflow | BasisPayloadError::LengthOverflow
    ));
    let mut bytes = coefficient_bytes([1, 3, 2, 1, 2]);
    for v in [4_u32, 5] {
        bytes.extend_from_slice(&v.to_le_bytes());
    }
    for v in [0.5_f32, 0.25] {
        bytes.extend_from_slice(&v.to_le_bytes());
    }
    let coeffs = parse_basis_tile_coefficients(&bytes).unwrap();
    assert_eq!((coeffs.tile_index, coeffs.lod_index, coeffs.top_k), (3, 2, 2));
    assert_eq!(coeffs.basis_ids, vec![4, 5]);
    assert_eq!(coeffs.weights, bits(&[0.5, 0.25]));
}

#[test]
fn basis_files_are_found_by_name() {
    assert_eq!(detect_basis_lod_file("lod3_motion_basis.bin"), Some(3));
    assert_eq!(detect_basis_lod_file("lod_motion_basis.bin"), None);
    assert_eq!(detect_basis_coeffs_file("tile7_lod2_motion_basis_coeffs.bin"), Some((7, 2)));
    assert_eq!(detect_basis_coeffs_file("tile7_lod2.ply"), None);
}

#[test]
fn usage_counts_splats_that_a_basis_moves() {
    let ids = [0, 1, 1, 1, 0, 7];
    let weights = bits(&[0.5, 0.0, 0.25, -0.25, 0.0, 1.0]);
    assert_eq!(affected_splat_counts(&ids, &weights, 2, 2), vec![1, 1]);
    assert_eq!(affected_splat_counts(&ids, &weights, 2, 0), vec![0, 0]);
    assert_eq!(affected_splat_counts(&ids, &weights[..5], 2, 2), vec![0, 0]);
}

fn motion() -> BasisBankMotionSet {
    BasisBankMotionSet {
        meta: BasisBankMotionMeta {
            format_version: 2,
            include_lods: vec![0],
            source_knot_count: 4,
            exported_knot_count: 4,
            loop_closure_knots: 0,
            basis_count: 2,
            top_k: 1,
            duration_seconds: 2.5_f32.to_bits(),
        },
        motion_graph: None,
        total_splats: 3,
        basis_count: 2,
        basis_knots: vec![0; 24],
        basis_ids: vec![0, 1, 1],
        global_weights: vec![0; 3],
    }
}

#[test]
fn basis_motion_uniform_is_32_bytes() {
    let sizes = check_runtime(&motion()).unwrap();
    let words = motion_uniform(0.5_f32.to_bits(), 2048, sizes);
    assert_eq!(std::mem::size_of_val(&words), 32);
    assert_eq!(words, [0.5_f32.to_bits(), 3, 2048, 4, 1, 0, 0, 0]);
}

#[test]
fn packs_basis_knots_as_vec4_rows() {
    let packed = pack_basis_knots(&bits(&[1.0, 2.0, 3.0, 4.0, 5.0, 6.0]));
    assert_eq!(
        packed,
        vec![[1.0_f32, 2.0, 3.0, 0.0].map(f32::to_bits), [4.0_f32, 5.0, 6.0, 0.0].map(f32::to_bits)]
    );
}

#[test]
fn runtime_refuses_inconsistent_motion() {
    let mut bad = motion();
    bad.basis_knots.pop();
    assert_eq!(
        check_runtime(&bad),
        Err(BasisRuntimeError::BasisValues { found: 23, expected: 24 })
    );
    let mut bad = motion();
    bad.basis_ids.pop();
    assert_eq!(
        check_runtime(&bad),
        Err(BasisRuntimeError::Coefficients { ids: 2, weights: 3, expected: 3 })
    );
    let mut bad = motion();
    bad.basis_count = 0;
    assert_eq!(check_runtime(&bad), Err(BasisRuntimeError::BasisCount { count: 0 }));
    let mut bad = motion();
    bad.meta.top_k = 0;
    assert_eq!(check_runtime(&bad).unwrap_err().message(), "invalid basis-bank top_k 0");
    let mut bad = motion();
    bad.meta.exported_knot_count = 0;
    assert!(check_runtime(&bad).is_err());
}
