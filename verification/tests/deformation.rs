use gswt::deformation::{read_bounds, ByteReader, DeformationNetwork, GridPlane, MlpLayer};
use gswt::deformation_errors::{DeformationError, FormatFault, MlpName, PackLabel, ShapeFault};
use gswt::deformation_eval::{check_batch_lengths, plane_dims};
use gswt::deformation_gpu::{
    animation_uniform, ceil_div, check_inputs, clamp_volume, extract_base_rgba, network_uniform,
    pack_layer_descs, pack_plane_descs, plan_bake, plan_chunks, plan_volume, to_vec4_from_vec3,
    validate_packed_dims, volume_sample, workgroup_count, GpuPlanError,
};
use gswt::deformation_packing::usize_to_u32;

fn pack_u32(v: u32, out: &mut Vec<u8>) {
    out.extend_from_slice(&v.to_le_bytes());
}

fn pack_f32(v: f32, out: &mut Vec<u8>) {
    out.extend_from_slice(&v.to_le_bytes());
}

fn pack_f32_slice(values: &[f32], out: &mut Vec<u8>) {
    for &v in values {
        pack_f32(v, out);
    }
}

fn pack_layer(inputs: u32, outputs: u32, relu: u32, weights: &[f32], bias: &[f32], out: &mut Vec<u8>) {
    pack_u32(inputs, out);
    pack_u32(outputs, out);
    pack_u32(relu, out);
    pack_f32_slice(weights, out);
    pack_f32_slice(bias, out);
}

fn diagonal(v: f32) -> Vec<f32> {
    vec![v, 0.0, 0.0, 0.0, v, 0.0, 0.0, 0.0, v]
}

fn build_minimal_valid_bin() -> Vec<u8> {
    let mut out = Vec::new();
    out.extend_from_slice(b"DFWT");
    for v in [1, 1, 6, 2, 3, 4] {
        pack_u32(v, &mut out);
    }
    pack_f32_slice(&[1.0, 1.0, 1.0], &mut out); // aabb_max
    pack_f32_slice(&[-1.0, -1.0, -1.0], &mut out); // aabb_min
    pack_f32(1.0, &mut out); // scale_factor
    pack_f32_slice(&[0.0, 0.0, 0.0], &mut out); // source_offset
    pack_u32(0, &mut out); // pad

    for _ in 0..6 {
        pack_u32(2, &mut out); // H
        pack_u32(2, &mut out); // W
        pack_f32_slice(&[0.1, 0.2, 0.3, 0.4, 1.0, 1.1, 1.2, 1.3], &mut out);
    }

    pack_u32(1, &mut out);
    pack_layer(2, 3, 0, &[1.0, 0.0, 0.0, 1.0, 1.0, 1.0], &[0.0, 0.0, 0.0], &mut out);

    pack_u32(2, &mut out);
    pack_layer(3, 3, 0, &diagonal(1.0), &[0.0, 0.0, 0.0], &mut out);
    pack_layer(3, 3, 1, &diagonal(0.1), &[0.01, -0.02, 0.03], &mut out);

    pack_u32(2, &mut out);
    pack_layer(3, 3, 0, &diagonal(0.5), &[0.0, 0.0, 0.0], &mut out);
    let mut last = diagonal(0.2);
    last.extend([0.1, 0.1, 0.1]);
    pack_layer(3, 4, 1, &last, &[0.0, 0.0, 0.0, 0.0], &mut out);
    out
}

fn from_bytes(bytes: &[u8]) -> Result<DeformationNetwork, DeformationError> {
    let spans = match read_bounds(bytes) {
        Some((max, min)) => {
            let span = |axis: usize| (f32::from_bits(min[axis]) - f32::from_bits(max[axis])).to_bits();
            [span(0), span(1), span(2)]
        }
        None => [0; 3],
    };
    DeformationNetwork::from_bytes(bytes, spans)
}

fn sample_bilinear_border(plane: &GridPlane, u: f32, v: f32) -> Vec<f32> {
    let at = |c: f32, n: usize| {
        if n <= 1 {
            0.0
        } else {
            ((c + 1.0) * 0.5 * (n as f32 - 1.0)).clamp(0.0, n as f32 - 1.0)
        }
    };
    let (x, y) = (at(u, plane.width), at(v, plane.height));
    let (tx, ty) = (x - x.floor(), y - y.floor());
    (0..plane.channels)
        .map(|c| {
            let [v00, v10, v01, v11] =
                plane.corners(c, x.floor() as usize, y.floor() as usize).map(f32::from_bits);
            v00 * (1.0 - tx) * (1.0 - ty) + v10 * tx * (1.0 - ty) + v01 * (1.0 - tx) * ty + v11 * tx * ty
        })
        .collect()
}

fn layer_forward(layer: &MlpLayer, input: &[f32]) -> Result<Vec<f32>, DeformationError> {
    layer.check_input(input.len())?;
    let input: Vec<f32> =
        input.iter().map(|v| if layer.has_relu_before { v.max(0.0) } else { *v }).collect();
    Ok((0..layer.out_features)
        .map(|o| {
            let dot: f32 =
                layer.row(o).iter().zip(&input).map(|(w, x)| f32::from_bits(*w) * x).sum();
            dot + f32::from_bits(layer.bias[o])
        })
        .collect())
}

fn forward(layers: &[MlpLayer], input: &[f32]) -> Result<Vec<f32>, DeformationError> {
    let mut current = input.to_vec();
    for layer in layers {
        current = layer_forward(layer, &current)?;
    }
    Ok(current)
}

fn normalize_quaternion(q: [f32; 4]) -> [f32; 4] {
    let norm = q.iter().map(|v| v * v).sum::<f32>().sqrt();
    q.map(|v| v * (1.0 / norm.max(1.0e-12)))
}

fn deform_delta(net: &DeformationNetwork, mean: [f32; 3], time: f32) -> Result<(Vec<f32>, Vec<f32>), DeformationError> {
    let meta = net.metadata();
    let mut coords = [0.0_f32; 4];
    for axis in 0..3 {
        let (max, min) = (f32::from_bits(meta.aabb_max[axis]), f32::from_bits(meta.aabb_min[axis]));
        coords[axis] = (mean[axis] - max) * (2.0 / (min - max)) - 1.0;
    }
    coords[3] = time;
    let mut features = Vec::new();
    for level in &net.grid_levels {
        let mut feature = vec![1.0_f32; meta.feature_dim];
        for (index, plane) in level.iter().enumerate() {
            let (u, v) = plane_dims(index);
            let sampled = sample_bilinear_border(plane, coords[u], coords[v]);
            for c in 0..meta.feature_dim {
                feature[c] *= sampled[c];
            }
        }
        features.extend(feature);
    }
    let hidden = forward(&net.feature_out.layers, &features)?;
    Ok((forward(&net.pos_deform.layers, &hidden)?, forward(&net.rotations_deform.layers, &hidden)?))
}

#[test]
fn parser_rejects_bad_magic() {
    let mut bin = build_minimal_valid_bin();
    bin[0] = b'X';
    let err = from_bytes(&bin).unwrap_err();
    assert!(matches!(err, DeformationError::BadMagic(_)));
}

#[test]
fn parser_rejects_bad_version() {
    let mut bin = build_minimal_valid_bin();
    // version offset: 4..8
    bin[4..8].copy_from_slice(&2_u32.to_le_bytes());
    let err = from_bytes(&bin).unwrap_err();
    assert!(matches!(err, DeformationError::UnsupportedVersion(2)));
}

#[test]
fn parser_rejects_truncated_payload() {
    let mut bin = build_minimal_valid_bin();
    bin.truncate(bin.len() - 7);
    let err = from_bytes(&bin).unwrap_err();
    assert!(matches!(err, DeformationError::UnexpectedEof { .. }));
}

#[test]
fn parser_accepts_minimal_valid_payload() {
    let bin = build_minimal_valid_bin();
    let net = from_bytes(&bin).unwrap();
    let meta = net.metadata();
    assert_eq!(meta.n_grid_levels, 1);
    assert_eq!(meta.n_planes_per_level, 6);
    assert_eq!(meta.feature_dim, 2);
    assert_eq!(meta.net_width, 3);
    assert_eq!(meta.n_time_frames, 4);
}

#[test]
fn parser_says_what_is_wrong() {
    let changed = |at: usize, v: u32| {
        let mut bin = build_minimal_valid_bin();
        bin[at..at + 4].copy_from_slice(&v.to_le_bytes());
        from_bytes(&bin).unwrap_err()
    };
    assert_eq!(changed(8, 0), DeformationError::InvalidFormat(FormatFault::NoGridLevels));
    assert_eq!(
        changed(12, 5),
        DeformationError::InvalidFormat(FormatFault::PlanesPerLevel { found: 5 })
    );
    assert!(changed(12, 5).message("", "").contains("expected 6 planes per level, got 5"));
    assert!(matches!(
        changed(16, 0),
        DeformationError::InvalidFormat(FormatFault::Dimensions { feature_dim: 0, .. })
    ));
    assert_eq!(
        changed(28, (-1.0_f32).to_bits()),
        DeformationError::InvalidFormat(FormatFault::DegenerateAxis {
            axis: 0,
            min: (-1.0_f32).to_bits(),
            max: (-1.0_f32).to_bits(),
        })
    );
    assert_eq!(
        changed(28, (-1.0_f32).to_bits()).message("-1", "-1"),
        "invalid DFWT format: degenerate aabb axis 0: min=-1 max=-1"
    );
    assert!(matches!(
        changed(72, 0),
        DeformationError::InvalidFormat(FormatFault::PlaneShape { level: 0, plane: 0, .. })
    ));
    assert!(matches!(changed(72, u32::MAX), DeformationError::UnexpectedEof { .. }));
    let mut long = build_minimal_valid_bin();
    long.push(0);
    assert_eq!(
        from_bytes(&long).unwrap_err(),
        DeformationError::InvalidFormat(FormatFault::TrailingBytes { count: 1 })
    );
    let mlp = 72 + 6 * 40;
    assert_eq!(
        changed(mlp, 0),
        DeformationError::InvalidFormat(FormatFault::NoLayers { mlp: MlpName::FeatureOut })
    );
    assert!(matches!(
        changed(mlp + 12, 2),
        DeformationError::InvalidFormat(FormatFault::ReluFlag { layer: 0, value: 2, .. })
    ));
    assert!(matches!(
        changed(mlp + 4, 0),
        DeformationError::InvalidFormat(FormatFault::LayerShape { layer: 0, .. })
    ));
    assert!(matches!(
        changed(20, 4),
        DeformationError::ShapeMismatch(ShapeFault::FeatureOutput { .. })
    ));
}

#[test]
fn reader_keeps_its_place() {
    let bytes = [1, 0, 0, 0, 0, 0, 128, 63, 9];
    let mut reader = ByteReader::new(&bytes);
    assert_eq!(reader.read_u32().unwrap(), 1);
    assert_eq!(reader.read_f32_vec(1).unwrap(), vec![1.0_f32.to_bits()]);
    assert_eq!(reader.remaining(), 1);
    assert_eq!(
        reader.read_u32().unwrap_err(),
        DeformationError::UnexpectedEof { offset: 8, needed: 4, len: 9 }
    );
    assert_eq!(reader.read_exact(1).unwrap(), &[9]);
    assert_eq!(reader.remaining(), 0);
}

#[test]
fn bilinear_sampling_matches_expected_center_average() {
    let plane = GridPlane {
        channels: 1,
        height: 2,
        width: 2,
        data: [1.0_f32, 2.0, 3.0, 4.0].map(f32::to_bits).to_vec(),
    };
    let sampled = sample_bilinear_border(&plane, 0.0, 0.0);
    assert!((sampled[0] - 2.5).abs() < 1.0e-6);
    assert_eq!(plane.corners(0, 1, 0).map(f32::from_bits), [2.0, 2.0, 4.0, 4.0]);
}

#[test]
fn networks_fill_their_files() {
    let bin = build_minimal_valid_bin();
    for n in 0..bin.len() {
        let error = from_bytes(&bin[..n]).unwrap_err();
        assert!(matches!(error, DeformationError::UnexpectedEof { .. }), "{n}: {error:?}");
    }
    let mut long = bin.clone();
    long.extend([1, 2, 3]);
    assert_eq!(
        from_bytes(&long).unwrap_err(),
        DeformationError::InvalidFormat(FormatFault::TrailingBytes { count: 3 })
    );
    let mut other = bin.clone();
    other[..4].copy_from_slice(b"DFWX");
    assert_eq!(from_bytes(&other).unwrap_err(), DeformationError::BadMagic(*b"DFWX"));
    let mut newer = bin;
    newer[4..8].copy_from_slice(&0x0102_0304_u32.to_le_bytes());
    assert_eq!(
        from_bytes(&newer).unwrap_err(),
        DeformationError::UnsupportedVersion(0x0102_0304)
    );
}

#[test]
fn packed_planes_and_layers_leave_no_gaps() {
    let packed = from_bytes(&build_minimal_valid_bin()).unwrap().pack_for_gpu().unwrap();
    let mut end = 0;
    for desc in &packed.plane_descs {
        assert_eq!(desc.data_offset, end);
        end += desc.width * desc.height * desc.channels;
    }
    assert_eq!(end as usize, packed.plane_data.len());
    let (mut weights, mut bias) = (0, 0);
    for desc in &packed.rot_layers {
        assert_eq!((desc.weight_offset, desc.bias_offset), (weights, bias));
        weights += desc.in_features * desc.out_features;
        bias += desc.out_features;
    }
    assert_eq!(weights as usize, packed.rot_weights.len());
    assert_eq!(bias as usize, packed.rot_bias.len());
}

#[test]
fn deform_batch_runs_and_returns_shapes() {
    let bin = build_minimal_valid_bin();
    let net = from_bytes(&bin).unwrap();

    let orig_means = vec![[0.2, -0.1, 0.3], [0.0, 0.0, 0.0]];
    let tile_means = vec![[1.0, 2.0, 3.0], [0.5, -0.5, 1.5]];
    let orig_quats = vec![[1.0, 0.0, 0.0, 0.0], [0.707, 0.0, 0.707, 0.0]];

    check_batch_lengths(orig_means.len(), tile_means.len(), orig_quats.len()).unwrap();
    let mut means: Vec<[f32; 3]> = Vec::new();
    let mut quats: Vec<[f32; 4]> = Vec::new();
    for i in 0..orig_means.len() {
        let (dx, dr) = deform_delta(&net, orig_means[i], 0.25).unwrap();
        means.push(std::array::from_fn(|k| tile_means[i][k] + dx[k]));
        quats.push(normalize_quaternion(std::array::from_fn(|k| orig_quats[i][k] + dr[k])));
    }
    assert_eq!(means.len(), 2);
    assert_eq!(quats.len(), 2);
    assert!(means.iter().all(|m| m.iter().all(|v: &f32| v.is_finite())));
    assert!(quats.iter().all(|q| q.iter().all(|v: &f32| v.is_finite())));
    assert_eq!(
        check_batch_lengths(2, 1, 2),
        Err(DeformationError::ShapeMismatch(ShapeFault::BatchLengths {
            orig_means: 2,
            tile_means: 1,
            orig_quats: 2
        }))
    );
    assert!(layer_forward(&net.feature_out.layers[0], &[1.0]).is_err());
}

#[test]
fn pack_for_gpu_produces_consistent_offsets() {
    let bin = build_minimal_valid_bin();
    let net = from_bytes(&bin).unwrap();
    let packed = net.pack_for_gpu().unwrap();

    assert_eq!(
        packed.plane_descs.len(),
        net.metadata().n_grid_levels * net.metadata().n_planes_per_level
    );
    assert!(!packed.plane_data.is_empty());
    assert_eq!(packed.feature_layers.len(), 1);
    assert_eq!(packed.pos_layers.len(), 2);
    assert_eq!(packed.rot_layers.len(), 2);
    assert_eq!(packed.feature_layers[0].weight_offset, 0);
    assert_eq!(packed.feature_layers[0].bias_offset, 0);
    assert_eq!(packed.plane_descs[5].data_offset, 40);
    assert_eq!(packed.rot_layers[1].weight_offset, 9);
    assert_eq!(packed.rot_layers[1].bias_offset, 3);
    assert_eq!(f32::from_bits(packed.rot_weights[20]), 0.1);
    assert_eq!(
        usize_to_u32(1 << 40, PackLabel::PlaneWidth),
        Err(DeformationError::InvalidFormat(FormatFault::TooLargeForGpu {
            label: PackLabel::PlaneWidth,
            value: 1 << 40
        }))
    );
}

#[test]
fn gpu_descriptions_follow_the_network() {
    let net = from_bytes(&build_minimal_valid_bin()).unwrap();
    let packed = net.pack_for_gpu().unwrap();
    assert!(validate_packed_dims(&packed).is_ok());
    assert_eq!(pack_plane_descs(&packed.plane_descs)[1], [2, 2, 2, 8]);
    assert_eq!(pack_layer_descs(&packed.pos_layers)[1], [3, 3, 1, 9, 3]);
    let words = network_uniform(&packed, 2, 16, 25);
    assert_eq!(words.len(), 24);
    assert!(words.contains(&16) && words.contains(&25));
    assert_eq!(
        animation_uniform(7.0_f32.to_bits(), 5, 2048, 2),
        [1.0_f32.to_bits(), 5, 2048, 2]
    );
    let mut wide = net.pack_for_gpu().unwrap();
    wide.metadata.net_width = 513;
    assert_eq!(validate_packed_dims(&wide), Err(GpuPlanError::NetWidth { width: 513 }));
    let mut deep = net.pack_for_gpu().unwrap();
    deep.metadata.feature_dim = 600;
    assert_eq!(validate_packed_dims(&deep), Err(GpuPlanError::GridFeatures { count: 600 }));
    let mut layer = net.pack_for_gpu().unwrap();
    layer.pos_layers[1].out_features = 600;
    assert!(matches!(validate_packed_dims(&layer), Err(GpuPlanError::LayerWidth { layer: 1, .. })));
}

#[test]
fn inputs_must_match_the_splats() {
    assert_eq!(check_inputs(2, 2, 2, 2, 2, 16), Ok(()));
    assert!(matches!(check_inputs(2, 2, 2, 1, 2, 16), Err(GpuPlanError::InputLengths { .. })));
    assert!(matches!(check_inputs(2, 2, 2, 2, 2, 15), Err(GpuPlanError::BaseTexture { .. })));
    assert!(check_inputs(2, 2, 2, 2, 2, 15).unwrap_err().message().contains("15"));
}

#[test]
fn volumes_are_planned_and_cut_into_chunks() {
    assert_eq!(clamp_volume(0, 0), (2, 1));
    assert_eq!(ceil_div(257, 128), 3);
    assert_eq!(workgroup_count(256), 2);
    let plan = plan_volume(16, 25).unwrap();
    assert_eq!((plan.samples, plan.words), (102_400, 409_600));
    assert_eq!(plan_bake(16, 25), Ok((102_400, 1_638_400)));
    assert!(plan_bake(2048, 2).is_err());
    let chunks = plan_chunks(102_400, 4).unwrap();
    let mut next = 0;
    for chunk in &chunks {
        assert_eq!(chunk.base_sample, next);
        assert!(chunk.workgroups <= 4 && chunk.workgroups * 128 >= chunk.sample_count);
        next += chunk.sample_count;
    }
    assert_eq!(next, 102_400);
    assert_eq!(plan_chunks(1, 0), Err(GpuPlanError::ChunkLimit { chunk: 1, limit: 0 }));
    assert_eq!(volume_sample(((3 * 5 + 2) * 5 + 1) * 5 + 4, 5), (3, 2, 1, 4));
}

#[test]
fn textures_give_colour_words() {
    let texture: Vec<u32> = (0..16).collect();
    assert_eq!(extract_base_rgba(&texture, 2), vec![[3, 7, 0, 0], [11, 15, 0, 0]]);
    assert_eq!(to_vec4_from_vec3(&[[1, 2, 3]]), vec![[1, 2, 3, 0]]);
}
