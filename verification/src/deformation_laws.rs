//! Laws of deformation networks: where their numbers stand in a file, and where they go.

use crate::deformation::{DeformationMetadata, GridPlane, LayerModel, PlaneModel};
use crate::deformation_errors::{DeformationError, FormatFault, MlpName, ShapeFault};
use crate::deformation_gpu::{BakeChunk, GpuPlanError};
use crate::deformation_packing::{PackedDeformationNetwork, PackedMlpLayerDesc};
use vstd::prelude::*;

verus! {

/// A header is accepted where it is whole, starts with `DFWT` and is of version 1. The error tells a
/// file that ends early, and where, from another kind of file or another version.
pub proof fn headers_are_accepted_where_all_holds(bytes: Seq<u8>)
    requires
        bytes.len() <= usize::MAX,
    ensures
        ({
            let error = crate::deformation::header_error(bytes);
            let tag = bytes[0] == 'D' as u8 && bytes[1] == 'F' as u8 && bytes[2] == 'W' as u8
                && bytes[3] == 'T' as u8;
            &&& error is None <==> bytes.len() >= 72 && tag && crate::bank_laws::word(bytes, 4) == 1
            &&& error matches Some(e) ==> match e {
                DeformationError::BadMagic(found) => {
                    &&& bytes.len() >= 4
                    &&& !tag
                    &&& found[0] == bytes[0]
                    &&& found[1] == bytes[1]
                    &&& found[2] == bytes[2]
                    &&& found[3] == bytes[3]
                },
                DeformationError::UnsupportedVersion(version) => {
                    &&& bytes.len() >= 8
                    &&& version == crate::bank_laws::word(bytes, 4)
                    &&& version != 1
                },
                DeformationError::UnexpectedEof { offset, needed, len } => {
                    &&& len == bytes.len()
                    &&& offset <= len < offset + needed
                    &&& offset + needed <= 72
                },
                _ => false,
            }
        }),
{
    assert(crate::bytes::le_u32(bytes, 4) == crate::bank_laws::word(bytes, 4));
}

/// The numbers of a header stand one after the other: the counts from byte 8 on, the upper and the
/// lower bounds, the scale and the offset of the source.
pub proof fn headers_hold_their_numbers(bytes: Seq<u8>)
    ensures
        ({
            let meta = crate::deformation::header_metadata(bytes);
            &&& meta.n_grid_levels == crate::bank_laws::word(bytes, 8)
            &&& meta.n_planes_per_level == crate::bank_laws::word(bytes, 12)
            &&& meta.feature_dim == crate::bank_laws::word(bytes, 16)
            &&& meta.net_width == crate::bank_laws::word(bytes, 20)
            &&& meta.n_time_frames == crate::bank_laws::word(bytes, 24)
            &&& meta.aabb_max[0] == crate::bank_laws::word(bytes, 28)
            &&& meta.aabb_max[1] == crate::bank_laws::word(bytes, 32)
            &&& meta.aabb_max[2] == crate::bank_laws::word(bytes, 36)
            &&& meta.aabb_min[0] == crate::bank_laws::word(bytes, 40)
            &&& meta.aabb_min[1] == crate::bank_laws::word(bytes, 44)
            &&& meta.aabb_min[2] == crate::bank_laws::word(bytes, 48)
            &&& meta.scale_factor == crate::bank_laws::word(bytes, 52)
            &&& meta.source_offset[0] == crate::bank_laws::word(bytes, 56)
            &&& meta.source_offset[1] == crate::bank_laws::word(bytes, 60)
            &&& meta.source_offset[2] == crate::bank_laws::word(bytes, 64)
        }),
{
    words_are_numbers(bytes, 8);
    words_are_numbers(bytes, 12);
    words_are_numbers(bytes, 16);
    words_are_numbers(bytes, 20);
    words_are_numbers(bytes, 24);
    words_are_numbers(bytes, 28);
    words_are_numbers(bytes, 32);
    words_are_numbers(bytes, 36);
    words_are_numbers(bytes, 40);
    words_are_numbers(bytes, 44);
    words_are_numbers(bytes, 48);
    words_are_numbers(bytes, 52);
    words_are_numbers(bytes, 56);
    words_are_numbers(bytes, 60);
    words_are_numbers(bytes, 64);
}

proof fn words_are_numbers(bytes: Seq<u8>, at: int)
    ensures
        crate::bytes::le_u32(bytes, at) == crate::bank_laws::word(bytes, at),
{
}

/// Metadata is accepted where there is a level, six planes in each, no dimension is zero, and the
/// bounds have an extent of at least 1e-8 along every axis. The fault names what is wrong.
pub proof fn metadata_is_accepted_where_all_holds(meta: DeformationMetadata, spans: [u32; 3])
    ensures
        ({
            let wide = |span: u32| !crate::float_bits::less((span % 0x8000_0000) as u32, 0x322b_cc77);
            let fault = crate::deformation::metadata_error(meta, spans);
            &&& fault is None <==> {
                &&& meta.n_grid_levels >= 1
                &&& meta.n_planes_per_level == 6
                &&& meta.feature_dim >= 1
                &&& meta.net_width >= 1
                &&& meta.n_time_frames >= 1
                &&& wide(spans[0])
                &&& wide(spans[1])
                &&& wide(spans[2])
            }
            &&& fault matches Some(f) ==> match f {
                FormatFault::NoGridLevels => meta.n_grid_levels == 0,
                FormatFault::PlanesPerLevel { found } => found == meta.n_planes_per_level && found
                    != 6,
                FormatFault::Dimensions { feature_dim, net_width, n_time_frames } => {
                    &&& feature_dim == meta.feature_dim
                    &&& net_width == meta.net_width
                    &&& n_time_frames == meta.n_time_frames
                    &&& feature_dim == 0 || net_width == 0 || n_time_frames == 0
                },
                FormatFault::DegenerateAxis { axis, min, max } => {
                    &&& axis < 3
                    &&& min == meta.aabb_min[axis as int]
                    &&& max == meta.aabb_max[axis as int]
                    &&& !wide(spans[axis as int])
                    &&& axis > 0 ==> wide(spans[0])
                    &&& axis > 1 ==> wide(spans[1])
                },
                _ => false,
            }
        }),
{
    assert forall|span: u32|
        crate::float_bits::magnitude(span) == #[trigger] (span % 0x8000_0000) by {}
    assert(crate::float_bits::abs_bits(spans[0]) == (spans[0] % 0x8000_0000) as u32);
    assert(crate::float_bits::abs_bits(spans[1]) == (spans[1] % 0x8000_0000) as u32);
    assert(crate::float_bits::abs_bits(spans[2]) == (spans[2] % 0x8000_0000) as u32);
}

/// A layer of a file: its inputs, outputs and flag, then a weight for every pair of them, then a bias
/// for every output. It ends where the next begins.
pub proof fn layers_hold_their_numbers(bytes: Seq<u8>, at: int, mlp: MlpName, layer: int)
    requires
        0 <= at,
    ensures
        ({
            let inputs = crate::bank_laws::word(bytes, at);
            let outputs = crate::bank_laws::word(bytes, at + 4);
            let relu = crate::bank_laws::word(bytes, at + 8);
            let r = crate::deformation::layer_at(bytes, at, mlp, layer);
            &&& r is Ok <==> {
                &&& at + 12 <= bytes.len()
                &&& relu <= 1
                &&& inputs >= 1
                &&& outputs >= 1
                &&& at + 12 + 4 * (inputs * outputs) + 4 * outputs <= bytes.len()
            }
            &&& r matches Ok((l, end)) ==> {
                &&& l.in_features == inputs
                &&& l.out_features == outputs
                &&& l.has_relu_before <==> relu == 1
                &&& l.weights.len() == inputs * outputs
                &&& l.bias.len() == outputs
                &&& forall|i: int|
                    0 <= i < l.weights.len() ==> #[trigger] l.weights[i] == crate::bank_laws::word(
                        bytes,
                        at + 12 + 4 * i,
                    )
                &&& forall|i: int|
                    0 <= i < l.bias.len() ==> #[trigger] l.bias[i] == crate::bank_laws::word(
                        bytes,
                        at + 12 + 4 * (inputs * outputs) + 4 * i,
                    )
                &&& end == at + 12 + 4 * (inputs * outputs) + 4 * outputs
            }
        }),
{
    words_are_numbers(bytes, at);
    words_are_numbers(bytes, at + 4);
    words_are_numbers(bytes, at + 8);
    let inputs = crate::bank_laws::word(bytes, at);
    let outputs = crate::bank_laws::word(bytes, at + 4);
    assert(inputs * outputs >= 0) by (nonlinear_arith)
        requires
            inputs >= 0,
            outputs >= 0,
    ;
}

/// A plane of a file: its height and width, then a number for every channel, row and column.
pub proof fn planes_hold_their_numbers(
    bytes: Seq<u8>,
    at: int,
    channels: usize,
    level: int,
    plane: int,
)
    requires
        0 <= at,
    ensures
        ({
            let height = crate::bank_laws::word(bytes, at);
            let width = crate::bank_laws::word(bytes, at + 4);
            let r = crate::deformation::plane_at(bytes, at, channels, level, plane);
            &&& r is Ok <==> {
                &&& at + 8 <= bytes.len()
                &&& height >= 1
                &&& width >= 1
                &&& at + 8 + 4 * (channels * height * width) <= bytes.len()
            }
            &&& r matches Ok((p, end)) ==> {
                &&& p.channels == channels
                &&& p.height == height
                &&& p.width == width
                &&& p.data.len() == channels * height * width
                &&& forall|i: int|
                    0 <= i < p.data.len() ==> #[trigger] p.data[i] == crate::bank_laws::word(
                        bytes,
                        at + 8 + 4 * i,
                    )
                &&& end == at + 8 + 4 * (channels * height * width)
            }
        }),
{
    words_are_numbers(bytes, at);
    words_are_numbers(bytes, at + 4);
    let height = crate::bank_laws::word(bytes, at);
    let width = crate::bank_laws::word(bytes, at + 4);
    assert(channels * height * width >= 0) by (nonlinear_arith)
        requires
            channels >= 0,
            height >= 0,
            width >= 0,
    ;
}

/// The perceptrons fit together where the first takes all features of the grid, gives as many as the
/// net is wide, and from those the others give a place of three and a turn of four numbers.
pub proof fn perceptrons_fit_where_all_holds(
    meta: DeformationMetadata,
    feature_out: Seq<LayerModel>,
    pos_deform: Seq<LayerModel>,
    rotations_deform: Seq<LayerModel>,
)
    requires
        feature_out.len() > 0,
        pos_deform.len() > 0,
        rotations_deform.len() > 0,
    ensures
        ({
            let fault = crate::deformation::dims_error(
                meta,
                feature_out,
                pos_deform,
                rotations_deform,
            );
            &&& fault is None <==> {
                &&& feature_out[0].in_features == meta.n_grid_levels * meta.feature_dim
                &&& feature_out.last().out_features == meta.net_width
                &&& pos_deform[0].in_features == meta.net_width
                &&& pos_deform.last().out_features == 3
                &&& rotations_deform[0].in_features == meta.net_width
                &&& rotations_deform.last().out_features == 4
            }
            &&& fault matches Some(f) ==> match f {
                ShapeFault::FeatureInput { found, expected: _ } => found
                    == feature_out[0].in_features && found != meta.n_grid_levels * meta.feature_dim,
                ShapeFault::FeatureOutput { found, expected } => found
                    == feature_out.last().out_features && expected == meta.net_width && found
                    != expected,
                ShapeFault::PosDims { input, output, expected } => {
                    &&& input == pos_deform[0].in_features
                    &&& output == pos_deform.last().out_features
                    &&& expected == meta.net_width
                    &&& input != expected || output != 3
                },
                ShapeFault::RotationDims { input, output, expected } => {
                    &&& input == rotations_deform[0].in_features
                    &&& output == rotations_deform.last().out_features
                    &&& expected == meta.net_width
                    &&& input != expected || output != 4
                },
                _ => false,
            }
        }),
{
}

/// The six planes are the pairs of the four coordinates, in order.
pub proof fn planes_are_the_pairs_of_coordinates(u: int, v: int, x: int, y: int)
    requires
        0 <= u < v < 4,
        0 <= x < y < 4,
    ensures
        0 <= crate::deformation_eval::pair_rank(u, v) < 6,
        crate::deformation_eval::pair_rank(u, v) < crate::deformation_eval::pair_rank(x, y) <==> u
            < x || (u == x && v < y),
{
}

/// The neighbour of a cell is the next one, and of the last cell the last itself.
pub proof fn cells_have_a_neighbour(cell: int, size: int)
    requires
        0 <= cell < size,
    ensures
        0 <= crate::deformation_eval::next_cell(cell, size) < size,
        cell + 1 < size ==> crate::deformation_eval::next_cell(cell, size) == cell + 1,
        cell + 1 == size ==> crate::deformation_eval::next_cell(cell, size) == cell,
{
}

/// The values of a plane are stored column by column within a row, row by row within a channel.
pub proof fn planes_are_stored_by_channel(plane: GridPlane, channel: int, row: int, column: int)
    ensures
        ({
            let area = plane.height * plane.width;
            let at = channel * area + row * plane.width + column;
            &&& crate::deformation_eval::value_at(plane, channel, row, column) == plane.data@[at]
            &&& crate::deformation_eval::value_at(plane, channel, row, column + 1)
                == plane.data@[at + 1]
            &&& crate::deformation_eval::value_at(plane, channel, row + 1, column)
                == plane.data@[at + plane.width]
            &&& crate::deformation_eval::value_at(plane, channel + 1, row, column)
                == plane.data@[at + area]
        }),
{
    let area = plane.height * plane.width;
    assert((row + 1) * plane.width == row * plane.width + plane.width) by (nonlinear_arith);
    assert((channel + 1) * area == channel * area + area) by (nonlinear_arith);
}

proof fn wide_layers_are_found(layers: Seq<PackedMlpLayerDesc>, mlp: MlpName, from: nat)
    requires
        from <= layers.len() <= usize::MAX,
    ensures
        match crate::deformation_gpu::wide_layer(layers, mlp, from) {
            None => forall|i: int|
                from <= i < layers.len() ==> (#[trigger] layers[i]).in_features <= 512
                    && layers[i].out_features <= 512,
            Some(error) => error matches GpuPlanError::LayerWidth {
                mlp: name,
                layer,
                in_features,
                out_features,
            } && name == mlp && from <= layer < layers.len() && in_features
                == layers[layer as int].in_features && out_features
                == layers[layer as int].out_features && (in_features > 512 || out_features > 512),
        },
    decreases layers.len() - from,
{
    if from < layers.len() && layers[from as int].in_features <= 512
        && layers[from as int].out_features <= 512 {
        wide_layers_are_found(layers, mlp, from + 1);
    }
}

/// A network fits the shaders where its grid features, its width and both sides of all its layers are
/// at most 512. The error says what is not.
pub proof fn networks_fit_the_shaders_where_all_holds(packed: PackedDeformationNetwork)
    requires
        packed.metadata.n_grid_levels * packed.metadata.feature_dim <= u32::MAX,
        packed.metadata.net_width <= u32::MAX,
        packed.feature_layers@.len() <= usize::MAX,
        packed.pos_layers@.len() <= usize::MAX,
        packed.rot_layers@.len() <= usize::MAX,
    ensures
        ({
            let narrow = |layers: Seq<PackedMlpLayerDesc>|
                forall|i: int|
                    0 <= i < layers.len() ==> (#[trigger] layers[i]).in_features <= 512
                        && layers[i].out_features <= 512;
            let error = crate::deformation_gpu::dims_error(packed);
            &&& error is None <==> {
                &&& packed.metadata.n_grid_levels * packed.metadata.feature_dim <= 512
                &&& packed.metadata.net_width <= 512
                &&& narrow(packed.feature_layers@)
                &&& narrow(packed.pos_layers@)
                &&& narrow(packed.rot_layers@)
            }
            &&& error matches Some(e) ==> match e {
                GpuPlanError::GridFeatures { count } => count == packed.metadata.n_grid_levels
                    * packed.metadata.feature_dim && count > 512,
                GpuPlanError::NetWidth { width } => width == packed.metadata.net_width && width
                    > 512,
                GpuPlanError::LayerWidth { mlp, layer: _, in_features, out_features } => {
                    &&& in_features > 512 || out_features > 512
                    &&& mlp is FeatureOut ==> !narrow(packed.feature_layers@)
                    &&& mlp is PosDeform ==> !narrow(packed.pos_layers@)
                    &&& mlp is RotationsDeform ==> !narrow(packed.rot_layers@)
                },
                _ => false,
            }
        }),
{
    assert(packed.metadata.n_grid_levels * packed.metadata.feature_dim >= 0) by (nonlinear_arith)
        requires
            packed.metadata.n_grid_levels >= 0,
            packed.metadata.feature_dim >= 0,
    ;
    wide_layers_are_found(packed.feature_layers@, MlpName::FeatureOut, 0);
    wide_layers_are_found(packed.pos_layers@, MlpName::PosDeform, 0);
    wide_layers_are_found(packed.rot_layers@, MlpName::RotationsDeform, 0);
}

/// Inputs are accepted where all lists are as long as there are splats and the texture has eight
/// words for each.
pub proof fn inputs_are_accepted_where_all_holds(
    splats: usize,
    tile_means: usize,
    scales: usize,
    orig_means: usize,
    orig_quats: usize,
    texture_words: usize,
)
    ensures
        ({
            let error = crate::deformation_gpu::inputs_error(
                splats,
                tile_means,
                scales,
                orig_means,
                orig_quats,
                texture_words,
            );
            &&& error is None <==> {
                &&& tile_means == splats
                &&& scales == splats
                &&& orig_means == splats
                &&& orig_quats == splats
                &&& texture_words >= 8 * splats
            }
            &&& error matches Some(e) ==> match e {
                GpuPlanError::InputLengths {
                    splats: a,
                    tile_means: b,
                    scales: c,
                    orig_means: d,
                    orig_quats: f,
                } => {
                    &&& a == splats
                    &&& b == tile_means
                    &&& c == scales
                    &&& d == orig_means
                    &&& f == orig_quats
                },
                GpuPlanError::BaseTexture { len, expected } => len == texture_words && len
                    < 8 * splats && (8 * splats <= usize::MAX ==> expected == 8 * splats),
                _ => false,
            }
        }),
{
}

/// A volume has at least two samples a side and one key; what has more is kept.
pub proof fn volumes_are_large_enough(res: u32, keys: u32)
    ensures
        ({
            let (r, k) = crate::deformation_gpu::volume_size(res, keys);
            &&& r >= 2
            &&& k >= 1
            &&& res >= 2 ==> r == res
            &&& res < 2 ==> r == 2
            &&& keys >= 1 ==> k == keys
            &&& keys == 0 ==> k == 1
        }),
{
}

/// A volume has a sample for every point of its cube and every key, and four words for each; it is
/// baked where the samples fit 32 bits, in four bytes a word.
pub proof fn volumes_have_a_sample_for_every_point(res: u32, keys: u32)
    ensures
        ({
            let samples = res * res * res * keys;
            let volume = crate::deformation_gpu::planned_volume(res, keys);
            let bake = crate::deformation_gpu::planned_bake(res, keys);
            &&& volume is Ok <==> samples * 4 <= usize::MAX
            &&& volume matches Ok(v) ==> v.samples == samples && v.words == 4 * samples
            &&& volume matches Err(e) ==> if samples > usize::MAX {
                e is SampleOverflow
            } else {
                e is WordOverflow
            }
            &&& bake is Ok <==> samples * 4 <= usize::MAX && samples <= u32::MAX
            &&& bake matches Ok((n, bytes)) ==> n == samples && bytes == 16 * samples
        }),
{
    assert(res * res * res * keys >= 0) by (nonlinear_arith)
        requires
            res >= 0,
            keys >= 0,
    ;
}

/// A piece of a volume takes as many workgroups as the device allows, at most 4096 and at least one.
pub proof fn pieces_keep_to_the_device(limit: u32)
    ensures
        1 <= crate::deformation_gpu::chunk_workgroups(limit) <= 4096,
        1 <= limit <= 4096 ==> crate::deformation_gpu::chunk_workgroups(limit) == limit,
        limit > 4096 ==> crate::deformation_gpu::chunk_workgroups(limit) == 4096,
{
}

/// The uniforms of a network are its counts, its layers, its bounds and scale, and in the volume mode
/// the size of the volume.
pub proof fn network_uniforms_show_the_network(
    meta: DeformationMetadata,
    feature_layers: u32,
    pos_layers: u32,
    rot_layers: u32,
    debug_mode: u32,
    res: u32,
    keys: u32,
)
    ensures
        ({
            let w = crate::deformation_gpu::network_words(
                meta,
                feature_layers as int,
                pos_layers as int,
                rot_layers as int,
                debug_mode,
                res,
                keys,
            );
            &&& w.len() == 24
            &&& w[0] == meta.n_grid_levels as u32
            &&& w[1] == meta.n_planes_per_level as u32
            &&& w[2] == meta.feature_dim as u32
            &&& w[3] == meta.net_width as u32
            &&& w[4] == meta.n_time_frames as u32
            &&& w[5] == feature_layers
            &&& w[6] == pos_layers
            &&& w[7] == rot_layers
            &&& w[8] == meta.aabb_max[0]
            &&& w[9] == meta.aabb_max[1]
            &&& w[10] == meta.aabb_max[2]
            &&& w[11] == 0
            &&& w[12] == meta.aabb_min[0]
            &&& w[13] == meta.aabb_min[1]
            &&& w[14] == meta.aabb_min[2]
            &&& w[15] == 0
            &&& w[16] == meta.scale_factor
            &&& w[17] == 0 && w[18] == 0 && w[19] == 0 && w[23] == 0
            &&& debug_mode == 2 ==> w[20] == res && w[21] == keys && w[22] == 4
            &&& debug_mode != 2 ==> w[20] == 0 && w[21] == 0 && w[22] == 0
        }),
{
}

/// The description of a layer tells its sides and whether it is rectified.
pub proof fn layer_descriptions_show_the_layer(layers: Seq<LayerModel>, i: int)
    requires
        0 <= i < layers.len(),
        layers[i].in_features <= u32::MAX,
        layers[i].out_features <= u32::MAX,
    ensures
        ({
            let desc = crate::deformation_packing::layer_descs(layers)[i];
            &&& desc.in_features == layers[i].in_features
            &&& desc.out_features == layers[i].out_features
            &&& layers[i].has_relu_before ==> desc.has_relu_before == 1
            &&& !layers[i].has_relu_before ==> desc.has_relu_before == 0
        }),
{
}

proof fn planes_are_counted(levels: Seq<Seq<PlaneModel>>, planes: nat, level: nat, plane: nat)
    requires
        level <= levels.len(),
        forall|l: int| 0 <= l < levels.len() ==> (#[trigger] levels[l]).len() == planes,
    ensures
        crate::deformation_packing::descs_before(levels, level, plane).len() == level * planes
            + plane,
    decreases level, plane,
{
    if plane > 0 {
        planes_are_counted(levels, planes, level, (plane - 1) as nat);
    } else if level > 0 {
        let k = (level - 1) as nat;
        assert(levels[k as int].len() == planes);
        planes_are_counted(levels, planes, k, planes);
        assert(level * planes == k * planes + planes) by (nonlinear_arith)
            requires
                level == k + 1,
        ;
    } else {
        assert(level * planes == 0) by (nonlinear_arith)
            requires
                level == 0,
        ;
    }
}

proof fn planes_stay_packed(
    levels: Seq<Seq<PlaneModel>>,
    planes: nat,
    level: nat,
    plane: nat,
    l: int,
    p: int,
)
    requires
        level <= levels.len(),
        plane <= planes,
        forall|k: int| 0 <= k < levels.len() ==> (#[trigger] levels[k]).len() == planes,
        0 <= l < levels.len(),
        0 <= p < planes,
        l < level || (l == level && p < plane),
    ensures
        ({
            let descs = crate::deformation_packing::descs_before(levels, level, plane);
            let data = crate::deformation_packing::data_before(levels, level, plane);
            let start = crate::deformation_packing::data_before(
                levels,
                l as nat,
                p as nat,
            ).len() as int;
            &&& 0 <= l * planes + p < descs.len()
            &&& descs[l * planes + p] == crate::deformation_packing::plane_desc(levels, l, p)
            &&& start + levels[l][p].data.len() <= data.len()
            &&& data.subrange(start, start + levels[l][p].data.len()) == levels[l][p].data
        }),
    decreases level, plane,
{
    let descs = crate::deformation_packing::descs_before(levels, level, plane);
    let data = crate::deformation_packing::data_before(levels, level, plane);
    let start = crate::deformation_packing::data_before(levels, l as nat, p as nat).len() as int;
    let n = levels[l][p].data.len() as int;
    if plane > 0 {
        let q = (plane - 1) as nat;
        let before = crate::deformation_packing::descs_before(levels, level, q);
        let front = crate::deformation_packing::data_before(levels, level, q);
        planes_are_counted(levels, planes, level, q);
        assert(data == front + levels[level as int][q as int].data);
        if l == level && p == q {
            assert(data.subrange(start, start + n) =~= levels[l][p].data);
        } else {
            planes_stay_packed(levels, planes, level, q, l, p);
            assert(data.subrange(start, start + n) =~= front.subrange(start, start + n));
        }
    } else {
        let k = (level - 1) as nat;
        assert(levels[k as int].len() == planes);
        planes_stay_packed(levels, planes, k, planes, l, p);
    }
}

/// Every plane of a grid is found in the packed data: its description, in its place, tells its sides
/// and where its numbers begin, and there they stand.
pub proof fn packed_planes_are_found(
    levels: Seq<Seq<PlaneModel>>,
    planes: nat,
    level: int,
    plane: int,
)
    requires
        forall|l: int| 0 <= l < levels.len() ==> (#[trigger] levels[l]).len() == planes,
        0 <= level < levels.len(),
        0 <= plane < planes,
        levels[level][plane].width <= u32::MAX,
        levels[level][plane].height <= u32::MAX,
        levels[level][plane].channels <= u32::MAX,
        crate::deformation_packing::data_before(levels, level as nat, plane as nat).len()
            <= u32::MAX,
    ensures
        ({
            let descs = crate::deformation_packing::descs_before(levels, levels.len(), 0);
            let data = crate::deformation_packing::data_before(levels, levels.len(), 0);
            let desc = descs[level * planes + plane];
            let model = levels[level][plane];
            &&& descs.len() == levels.len() * planes
            &&& 0 <= level * planes + plane < descs.len()
            &&& desc.width == model.width
            &&& desc.height == model.height
            &&& desc.channels == model.channels
            &&& desc.data_offset + model.data.len() <= data.len()
            &&& data.subrange(desc.data_offset as int, desc.data_offset + model.data.len())
                == model.data
        }),
{
    planes_are_counted(levels, planes, levels.len(), 0);
    planes_stay_packed(levels, planes, levels.len(), 0, level, plane);
}

/// Every piece of a bake has samples, and as many workgroups as they need.
pub proof fn pieces_have_samples(chunks: Seq<BakeChunk>, samples: int, size: int, i: int)
    requires
        crate::deformation_gpu::are_chunks(chunks, samples, size),
        size > 0,
        0 <= i < chunks.len(),
    ensures
        0 < chunks[i].sample_count <= size,
        chunks[i].base_sample + chunks[i].sample_count <= samples,
        i + 1 < chunks.len() ==> chunks[i].base_sample + chunks[i].sample_count
            == chunks[i + 1].base_sample,
{
    assert(crate::deformation_gpu::is_chunk(chunks[i], i, samples, size));
    assert(i * size <= (chunks.len() - 1) * size) by (nonlinear_arith)
        requires
            i <= chunks.len() - 1,
            size > 0,
    ;
    if i + 1 < chunks.len() {
        assert(crate::deformation_gpu::is_chunk(chunks[i + 1], i + 1, samples, size));
        assert((i + 1) * size == i * size + size) by (nonlinear_arith);
        assert((i + 1) * size <= (chunks.len() - 1) * size) by (nonlinear_arith)
            requires
                i + 1 <= chunks.len() - 1,
                size > 0,
        ;
    }
}

} // verus!
