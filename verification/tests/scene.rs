use std::collections::HashMap;

use gswt::bytes::{le_u16_at, le_u32_at, le_u32_vec, le_u64_at, push_le_u32};
use gswt::float_bits::{clamp, is_finite, is_less, is_nan, is_same_value, total_order_key};
use gswt::ordering::{
    depth_range, order_ascending, order_by_bins, order_by_size, order_merged, LastView,
};
use gswt::ply::{
    find_splat_columns, header_text_len, parse_file_header, read_splat_rows, PlyHeaderError,
    PlyLoadError, PlyRow, PlyScalarType, RawScalar,
};
use gswt::scene::{merge_scene, Scene, SplatRow};
use gswt::text::{contains_text, decimal, ends_with, option_decimal, same_text};

fn number(value: RawScalar) -> f32 {
    match value {
        RawScalar::Integer { value } => value as f32,
        RawScalar::Single { bits } => f32::from_bits(bits),
        RawScalar::Double { bits } => f64::from_bits(bits) as f32,
    }
}

fn splat_row(row: &PlyRow) -> SplatRow {
    let scale = row.scale.map(|s| number(s).exp());
    let alpha = 1.0 / (1.0 + (-number(row.opacity)).exp());
    let quat = row.rotation.map(number);
    let length = quat.iter().map(|q| q * q).sum::<f32>().sqrt().max(1.0e-8);
    let dc = row.f_dc.map(|c| ((0.5 + 0.282_094_8 * number(c)) * 255.0) as u8);
    SplatRow {
        position: row.position.map(|p| number(p).to_bits()),
        scale: scale.map(f32::to_bits),
        color: [dc[0], dc[1], dc[2], (alpha * 255.0) as u8],
        rotation: quat.map(|q| ((q / length + 1.0) * 0.5 * 255.0) as u8),
        quat: quat.map(f32::to_bits),
        size: (scale[0] * scale[1] * scale[2] * alpha).to_bits(),
    }
}

fn load(bytes: &[u8]) -> Result<Scene, String> {
    let header = parse_file_header(bytes).map_err(|e| format!("{e:?}"))?;
    let rows = read_splat_rows(&header, bytes).map_err(|e| e.message())?;
    let splats: Vec<SplatRow> = rows.iter().map(splat_row).collect();
    let origins: Option<Vec<[u32; 3]>> = rows
        .iter()
        .map(|row| row.origin.map(|o| o.map(|v| number(v).to_bits())))
        .collect();
    let mut scene = Scene::new();
    scene.load(&splats, origins.as_ref());
    Ok(scene)
}

fn build_test_ply(
    props: &[&str],
    rows: &[HashMap<&str, f32>],
    truncate_payload_bytes: usize,
) -> Vec<u8> {
    let mut out = Vec::<u8>::new();
    out.extend_from_slice(b"ply\n");
    out.extend_from_slice(b"format binary_little_endian 1.0\n");
    out.extend_from_slice(format!("element vertex {}\n", rows.len()).as_bytes());
    for p in props {
        out.extend_from_slice(format!("property float {}\n", p).as_bytes());
    }
    out.extend_from_slice(b"end_header\n");

    for row in rows {
        for p in props {
            let v = *row.get(p).unwrap_or(&0.0);
            out.extend_from_slice(&v.to_le_bytes());
        }
    }
    if truncate_payload_bytes > 0 && out.len() > truncate_payload_bytes {
        out.truncate(out.len() - truncate_payload_bytes);
    }
    out
}

const PLAIN: [&str; 15] = [
    "x", "y", "z", "f_dc_0", "f_dc_1", "f_dc_2", "f_rest_0", "opacity", "scale_0", "scale_1",
    "scale_2", "rot_0", "rot_1", "rot_2", "rot_3",
];

fn row_of(x: f32, opacity: f32, scale: f32) -> HashMap<&'static str, f32> {
    HashMap::from([
        ("x", x),
        ("y", 0.0),
        ("z", 0.0),
        ("f_dc_0", 0.0),
        ("f_dc_1", 0.0),
        ("f_dc_2", 0.0),
        ("f_rest_0", 0.0),
        ("opacity", opacity),
        ("scale_0", scale),
        ("scale_1", scale),
        ("scale_2", scale),
        ("rot_0", 0.0),
        ("rot_1", 0.0),
        ("rot_2", 0.0),
        ("rot_3", 1.0),
    ])
}

#[test]
fn ply_parser_reads_properties_by_name_and_keeps_sorted_alignment() {
    let props = vec![
        "rot_1", "x", "f_rest_0", "scale_1", "opacity", "orig_z", "rot_0", "y", "f_dc_2",
        "scale_2", "rot_3", "orig_y", "scale_0", "f_dc_0", "z", "rot_2", "f_dc_1", "orig_x",
    ];

    let row_a = HashMap::from([
        ("x", 1.0),
        ("y", 2.0),
        ("z", 3.0),
        ("f_dc_0", 0.10),
        ("f_dc_1", 0.20),
        ("f_dc_2", 0.30),
        ("f_rest_0", 0.01),
        ("opacity", 2.0),
        ("scale_0", 1.0),
        ("scale_1", 1.0),
        ("scale_2", 1.0),
        ("rot_0", 0.1),
        ("rot_1", 0.2),
        ("rot_2", 0.3),
        ("rot_3", 0.4),
        ("orig_x", 10.0),
        ("orig_y", 11.0),
        ("orig_z", 12.0),
    ]);
    let row_b = HashMap::from([
        ("x", -1.0),
        ("y", -2.0),
        ("z", -3.0),
        ("f_dc_0", 0.40),
        ("f_dc_1", 0.50),
        ("f_dc_2", 0.60),
        ("f_rest_0", 0.02),
        ("opacity", -1.0),
        ("scale_0", 0.0),
        ("scale_1", 0.0),
        ("scale_2", 0.0),
        ("rot_0", 0.5),
        ("rot_1", 0.6),
        ("rot_2", 0.7),
        ("rot_3", 0.8),
        ("orig_x", 20.0),
        ("orig_y", 21.0),
        ("orig_z", 22.0),
    ]);

    let ply = build_test_ply(props.as_slice(), &[row_a, row_b], 0);
    let scene = load(&ply).unwrap();

    assert_eq!(scene.splat_count, 2);
    assert_eq!(scene.source_row_indices, vec![0, 1]);
    let position = scene.position(0).map(f32::from_bits);
    assert!((position[0] - 1.0).abs() < 1e-6);
    assert!((position[1] - 2.0).abs() < 1e-6);
    assert!((position[2] - 3.0).abs() < 1e-6);

    let orig_means = scene.orig_means.as_ref().unwrap();
    assert_eq!(orig_means.len(), 2);
    let mean = orig_means[0].map(f32::from_bits);
    assert!((mean[0] - 10.0).abs() < 1e-6);
    assert!((mean[1] - 11.0).abs() < 1e-6);
    assert!((mean[2] - 12.0).abs() < 1e-6);

    let orig_quats = scene.orig_quats.as_ref().unwrap();
    assert_eq!(orig_quats.len(), 2);
    let quat = orig_quats[0].map(f32::from_bits);
    assert!((quat[0] - 0.1).abs() < 1e-6);
    assert!((quat[1] - 0.2).abs() < 1e-6);
    assert!((quat[2] - 0.3).abs() < 1e-6);
    assert!((quat[3] - 0.4).abs() < 1e-6);
}

#[test]
fn ply_parser_records_source_rows_after_size_sorting() {
    let row_small = row_of(0.0, 0.0, 0.0);
    let row_large = row_of(1.0, 10.0, 1.0);
    let row_mid = row_of(2.0, 5.0, 0.0);

    let ply = build_test_ply(&PLAIN, &[row_small, row_large, row_mid], 0);
    let scene = load(&ply).unwrap();

    assert_eq!(scene.source_row_indices, vec![1, 2, 0]);
}

#[test]
fn scene_merge_preserves_source_row_mappings() {
    let mut a = Scene::new();
    a.splat_count = 2;
    a.source_row_indices = vec![3, 1];
    let mut b = Scene::new();
    b.splat_count = 1;
    b.source_row_indices = vec![2];

    let mut merged = Scene::new();
    merged.merge(&a);
    merged.merge(&b);

    assert_eq!(merged.splat_count, 3);
    assert_eq!(merged.source_row_indices, vec![3, 1, 2]);
}

#[test]
fn ply_parser_rejects_missing_required_property() {
    let props: Vec<&str> = PLAIN.iter().copied().filter(|p| *p != "scale_2").collect();
    let ply = build_test_ply(&props, &[row_of(0.0, 0.0, 0.0)], 0);
    let err = load(&ply).err().unwrap();
    assert!(err.contains("scale_2"));
}

#[test]
fn ply_parser_rejects_truncated_payload() {
    let ply = build_test_ply(&PLAIN, &[row_of(0.0, 0.0, 0.0)], 8);
    let err = load(&ply).err().unwrap();
    assert!(err.contains("failed to read payload"));
}

#[test]
fn ply_headers_are_refused_with_a_reason() {
    let refuse = |text: &str| parse_file_header(text.as_bytes()).unwrap_err();
    assert!(matches!(refuse("ply\nno end\n"), PlyHeaderError::NotFormatted));
    assert!(matches!(refuse("ply\nend_header\n"), PlyHeaderError::NotBinaryLittleEndian));
    let head = "ply\nformat binary_little_endian 1.0\n";
    assert!(matches!(
        refuse(&format!("{head}element vertex many\nend_header\n")),
        PlyHeaderError::VertexCount { token } if token == b"many"
    ));
    assert!(matches!(
        refuse(&format!("{head}element vertex 1\nproperty half x\nend_header\n")),
        PlyHeaderError::ScalarType { token } if token == b"half"
    ));
    assert!(matches!(
        refuse(&format!("{head}element vertex 1\nproperty float\nend_header\n")),
        PlyHeaderError::PropertySyntax { .. }
    ));
    assert!(matches!(
        refuse("ply\nformat ascii 1.0\nelement vertex 1\nproperty float x\nend_header\n"),
        PlyHeaderError::NotBinaryLittleEndian
    ));
    assert!(matches!(
        refuse(&format!("{head}element vertex 1\nend_header\n")),
        PlyHeaderError::NoProperties
    ));
}

#[test]
fn ply_columns_have_their_widths() {
    let text = "ply\nformat binary_little_endian 1.0\nelement vertex 2\nproperty uchar a\n\
                property double b\nproperty short c\nend_header\nrest";
    let header = parse_file_header(text.as_bytes()).unwrap();
    assert_eq!((header.splat_count, header.row_stride), (2, 11));
    assert_eq!(header.file_header_size, text.len() - 4);
    assert_eq!(header_text_len(text.as_bytes()), text.len() - 4);
    let offsets: Vec<usize> = header.properties.iter().map(|p| p.byte_offset).collect();
    assert_eq!(offsets, vec![0, 1, 9]);
    assert_eq!(header.properties[1].data_type, PlyScalarType::Double);
    assert_eq!(PlyScalarType::from_token(b"uint").unwrap().byte_size(), 4);
    assert!(PlyScalarType::from_token(b"word").is_none());
    assert_eq!(
        find_splat_columns(&header).unwrap_err(),
        PlyLoadError::MissingProperty { which: 0 }
    );
}

#[test]
fn ply_columns_are_checked() {
    let with = |extra: &[&'static str], drop: &str| {
        let mut props: Vec<&str> = PLAIN.iter().copied().filter(|p| *p != drop).collect();
        props.extend(extra);
        load(&build_test_ply(&props, &[row_of(0.0, 0.0, 0.0)], 0))
    };
    assert!(with(&[], "f_rest_0").err().unwrap().contains("f_rest_*"));
    assert!(with(&["orig_x"], "").err().unwrap().contains("partial orig"));
    assert!(with(&["ox", "oy", "oz"], "").unwrap().orig_means.is_some());
    assert!(with(&[], "").unwrap().orig_means.is_none());
    assert!(with(&[], "y").err().unwrap().contains("'y'"));
}

#[test]
fn merged_scenes_keep_their_rows() {
    let rows = |n: usize, first: u8| {
        let mut scene = Scene::from_splat_rows(vec![first; n * 32]).unwrap();
        scene.source_row_indices.reverse();
        scene
    };
    let scenes = vec![rows(2, 1), rows(3, 2)];
    let merged = merge_scene(&scenes);
    assert_eq!(merged.splat_count, 5);
    assert_eq!(merged.buffer.len(), 160);
    assert_eq!((merged.buffer[63], merged.buffer[64]), (1, 2));
    assert_eq!(merged.source_row_indices, vec![1, 0, 2, 1, 0]);
    assert!(merged.orig_means.is_none());
    assert!(Scene::from_splat_rows(vec![0; 33]).is_none());
    let mut copy = Scene::new();
    copy.copy_from(&merged);
    assert_eq!(copy.buffer, merged.buffer);
    assert_eq!(copy.clone().splat_count, 5);
}

#[test]
fn positions_are_read_and_written() {
    let mut scene = Scene::from_splat_rows(vec![0; 64]).unwrap();
    scene.set_position(1, [1.0_f32, 2.0, 3.0].map(f32::to_bits));
    assert_eq!(scene.position(1).map(f32::from_bits), [1.0, 2.0, 3.0]);
    assert_eq!(scene.position(0), [0; 3]);
    assert_eq!(scene.scale(1), [0; 3]);
}

#[test]
fn textures_hold_eight_words_per_splat() {
    let mut bytes = vec![0; 64];
    bytes[32..36].copy_from_slice(&7.0_f32.to_le_bytes());
    bytes[56..60].copy_from_slice(&[1, 2, 3, 4]);
    let mut scene = Scene::from_splat_rows(bytes).unwrap();
    scene.generate_texture(&[[10, 11, 12], [20, 21, 22]]);
    assert_eq!(scene.tex_width, 2048);
    assert_eq!(scene.tex_height, 1);
    assert!(scene.tex_data.len() >= 16);
    assert_eq!(scene.tex_data[8], 7.0_f32.to_bits());
    assert_eq!(&scene.tex_data[12..15], &[20, 21, 22]);
    assert_eq!(scene.tex_data[15], u32::from_le_bytes([1, 2, 3, 4]));
}

#[test]
fn splats_are_ordered_back_to_front() {
    let order = order_by_bins(&[5, 0, 5, 9]);
    assert_eq!(order[0], 3);
    let mut rest = order[1..3].to_vec();
    rest.sort();
    assert_eq!(rest, vec![0, 2]);
    assert_eq!(order[3], 1);
    assert_eq!(order_by_bins(&[]), Vec::<u32>::new());
    let merged = order_merged(&vec![vec![1, 7], vec![3]]);
    assert_eq!(merged, vec![(0, 1), (1, 0), (0, 0)]);
    assert_eq!(depth_range(&[3, -5, 9]), (-5, 9));
    let sizes = [1.0_f32, 4.0, 2.0].map(f32::to_bits);
    assert_eq!(order_by_size(&sizes), vec![1, 2, 0]);
    assert_eq!(order_ascending(&sizes), vec![0, 2, 1]);
    let nan = f32::NAN;
    let mixed = [1.0, nan, 4.0, -0.0, nan, 0.0, 9.0].map(f32::to_bits);
    assert_eq!(order_by_size(&mixed), vec![6, 1, 2, 0, 4, 3, 5]);
    assert_eq!(order_by_size(&[nan, nan, -nan].map(f32::to_bits)), vec![0, 1, 2]);
    assert_eq!(order_by_size(&[2.0, nan, 2.0].map(f32::to_bits)), vec![0, 1, 2]);
}

#[test]
fn orders_follow_depths_and_are_made_once_for_a_view() {
    let depths = [40, -3, 40, 7, 100];
    let (least, _) = depth_range(&depths);
    let bins: Vec<u32> = depths.iter().map(|d| (d - least) as u32).collect();
    assert_eq!(order_by_bins(&bins), vec![4, 2, 0, 3, 1]);
    let mut last = LastView::default();
    let axis = [0.0_f32, 0.6, 0.8].map(f32::to_bits);
    assert!(last.turn_to(axis, 0));
    assert!(!last.turn_to(axis, 0.0_f32.to_bits()));
    assert!(!last.turn_to([0; 3], 0.009_f32.to_bits()));
    assert_eq!(last.axis, Some(axis));
    assert!(last.turn_to([0; 3], 0.01_f32.to_bits()));
    assert_eq!(last.axis, Some([0; 3]));
}

#[test]
fn header_text_ends_at_the_first_refused_line() {
    let mut text = b"ply\nelement vertex many\n".to_vec();
    let read = text.len();
    text.extend_from_slice(b"\xff\xff\nend_header\n");
    assert_eq!(header_text_len(&text), read);
    assert!(matches!(parse_file_header(&text), Err(PlyHeaderError::VertexCount { .. })));
    let header = "ply\nformat binary_little_endian 1.0\nelement vertex 2\nproperty float x\nend_header\n";
    assert_eq!(header_text_len(header.as_bytes()), header.len());
}

#[test]
fn numbers_are_read_little_endian() {
    let bytes = [1, 2, 3, 4, 5, 6, 7, 8, 9];
    assert_eq!(le_u16_at(&bytes, 1), 0x0302);
    assert_eq!(le_u32_at(&bytes, 1), 0x0504_0302);
    assert_eq!(le_u64_at(&bytes, 1), 0x0908_0706_0504_0302);
    assert_eq!(le_u32_vec(&bytes, 0, 2), vec![0x0403_0201, 0x0807_0605]);
    let mut out = Vec::new();
    push_le_u32(&mut out, 0x0403_0201);
    assert_eq!(out, vec![1, 2, 3, 4]);
}

#[test]
fn bit_patterns_compare_as_numbers() {
    let values = [
        0.0_f32,
        -0.0,
        1.0,
        -1.0,
        f32::NAN,
        f32::INFINITY,
        f32::NEG_INFINITY,
        1e-40,
        -1e-40,
        f32::MAX,
    ];
    for a in values {
        assert_eq!(is_finite(a.to_bits()), a.is_finite());
        assert_eq!(is_nan(a.to_bits()), a.is_nan());
        for b in values {
            assert_eq!(is_less(a.to_bits(), b.to_bits()), a < b);
            assert_eq!(is_same_value(a.to_bits(), b.to_bits()), a == b);
            assert_eq!(
                total_order_key(a.to_bits()).cmp(&total_order_key(b.to_bits())),
                a.total_cmp(&b)
            );
            if a <= b {
                for v in values {
                    let clamped = f32::from_bits(clamp(v.to_bits(), a.to_bits(), b.to_bits()));
                    assert!(clamped == v.clamp(a, b) || (v.is_nan() && clamped.is_nan()));
                }
            }
        }
    }
}

#[test]
fn texts_are_written_and_compared() {
    assert_eq!(decimal(0), "0");
    assert_eq!(decimal(u64::MAX), u64::MAX.to_string());
    assert_eq!(option_decimal(Some(12)), "Some(12)");
    assert_eq!(option_decimal(None), "None");
    assert!(same_text("a", "a") && !same_text("a", "b"));
    assert!(ends_with("scene.ply", ".ply") && !ends_with("ply", ".ply"));
    assert!(contains_text("a.ply.gz", ".ply") && !contains_text("a.pl", ".ply"));
    assert!(contains_text("x", ""));
}

#[test]
fn refused_headers_are_spelled_out() {
    let said = |text: &str| parse_file_header(text.as_bytes()).err().unwrap().message();
    let start = "ply\nformat binary_little_endian 1.0\n";
    for (text, expected) in [
        ("ply\n".to_string(), "ERROR: the file is not correctly formatted."),
        ("end_header\n".to_string(), "only binary_little_endian PLY is supported."),
        (format!("{start}end_header\n"), "vertex element has no scalar properties."),
        (format!("{start}element vertex m\u{e4}ny\n"), "invalid vertex count 'm\u{e4}ny'"),
        (
            format!("{start}element vertex 1\nproperty half x\n"),
            "unsupported PLY scalar type 'half'",
        ),
        (
            format!("{start}element vertex 1\nproperty list uchar int x\n"),
            "unsupported vertex property syntax 'property list uchar int x'",
        ),
    ] {
        assert_eq!(said(&text), format!("Scene::parse_file_header(): {expected}"));
    }
}
