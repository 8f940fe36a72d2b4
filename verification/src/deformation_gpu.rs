//! Sizes, checks and buffer contents for the evaluation of a deformation network on the GPU.

use crate::deformation::DeformationMetadata;
use crate::deformation_errors::MlpName;
use crate::deformation_packing::{PackedDeformationNetwork, PackedMlpLayerDesc, PackedPlaneDesc};
use crate::text::decimal;
use vstd::prelude::*;

verus! {

pub const WORKGROUP_SIZE: u32 = 128;

pub const MAX_GRID_FEATURES: u32 = 512;

pub const MAX_MLP_WIDTH: u32 = 512;

/// The mode that samples a baked volume.
pub const DEFORMATION_DEBUG_VOLUME: u32 = 2;

pub const VOLUME_WORDS_PER_SAMPLE: u32 = 4;

/// Workgroups of a bake that are submitted together.
pub const MAX_CHUNK_WORKGROUPS: u32 = 4096;

/// `n / d`, rounded up.
pub fn ceil_div(n: u32, d: u32) -> (r: u32)
    requires
        d > 0,
    ensures
        r * d >= n,
        r > 0 ==> (r - 1) * d < n,
        n == 0 ==> r == 0,
        r <= n,
{
    let whole: u32 = n / d;
    proof {
        vstd::arithmetic::div_mod::lemma_fundamental_div_mod(n as int, d as int);
        assert(whole * d == d * whole) by (nonlinear_arith);
        assert((whole + 1) * d == whole * d + d) by (nonlinear_arith);
        assert((whole - 1) * d == whole * d - d) by (nonlinear_arith);
        assert(whole <= whole * d) by (nonlinear_arith)
            requires
                d >= 1,
        ;
    }
    if n % d > 0 {
        whole + 1
    } else {
        whole
    }
}

/// Workgroups that cover `n` items.
pub fn workgroup_count(n: u32) -> (r: u32)
    ensures
        WORKGROUP_SIZE * r >= n,
        r > 0 ==> WORKGROUP_SIZE * (r - 1) < n,
        n == 0 ==> r == 0,
{
    ceil_div(n, WORKGROUP_SIZE)
}

/// Why the GPU cannot evaluate a network.
#[derive(Debug, Clone, Copy, PartialEq, Eq, Structural)]
pub enum GpuPlanError {
    GridFeatures { count: usize },
    NetWidth { width: usize },
    LayerWidth { mlp: MlpName, layer: usize, in_features: u32, out_features: u32 },
    InputLengths {
        splats: usize,
        tile_means: usize,
        scales: usize,
        orig_means: usize,
        orig_quats: usize,
    },
    BaseTexture { len: usize, expected: usize },
    SampleOverflow,
    WordOverflow,
    TooManySamples,
    ByteOverflow,
    ChunkLimit { chunk: u32, limit: u32 },
}

impl GpuPlanError {
    pub open spec fn text(self) -> Seq<char> {
        match self {
            GpuPlanError::GridFeatures { count } => {
                "grid feature size "@ + crate::text::decimal_text(count as nat)
                    + " exceeds MAX_GRID_FEATURES 512"@
            },
            GpuPlanError::NetWidth { width } => {
                "net_width "@ + crate::text::decimal_text(width as nat)
                    + " exceeds MAX_MLP_WIDTH 512"@
            },
            GpuPlanError::LayerWidth { mlp, layer, in_features, out_features } => {
                mlp.text() + " layer "@ + crate::text::decimal_text(layer as nat) + " has dims in="@
                    + crate::text::decimal_text(in_features as nat) + " out="@
                    + crate::text::decimal_text(out_features as nat)
                    + " exceeding MAX_MLP_WIDTH 512"@
            },
            GpuPlanError::InputLengths { splats, tile_means, scales, orig_means, orig_quats } => {
                "splat input length mismatch: splats="@ + crate::text::decimal_text(splats as nat)
                    + ", base_tile_means="@ + crate::text::decimal_text(tile_means as nat)
                    + ", base_scales="@ + crate::text::decimal_text(scales as nat)
                    + ", orig_means="@ + crate::text::decimal_text(orig_means as nat)
                    + ", orig_quats="@ + crate::text::decimal_text(orig_quats as nat)
            },
            GpuPlanError::BaseTexture { len, expected } => {
                "base_tex_data too short: len="@ + crate::text::decimal_text(len as nat)
                    + " expected_at_least="@ + crate::text::decimal_text(expected as nat)
            },
            GpuPlanError::SampleOverflow => "deformation volume sample count overflow"@,
            GpuPlanError::WordOverflow => "deformation volume word count overflow"@,
            GpuPlanError::TooManySamples => "deformation volume sample count exceeds u32"@,
            GpuPlanError::ByteOverflow => "deformation volume byte count overflow"@,
            GpuPlanError::ChunkLimit { chunk, limit } => {
                "max chunk workgroups "@ + crate::text::decimal_text(chunk as nat)
                    + " exceeds device limit "@ + crate::text::decimal_text(limit as nat)
            },
        }
    }

    /// The error in words.
    pub fn message(&self) -> (r: String)
        ensures
            r@ == self.text(),
    {
        match self {
            GpuPlanError::GridFeatures { count } => {
                let mut s: String = "grid feature size ".to_owned();
                s.append(decimal(*count as u64).as_str());
                s.append(" exceeds MAX_GRID_FEATURES 512");
                s
            },
            GpuPlanError::NetWidth { width } => {
                let mut s: String = "net_width ".to_owned();
                s.append(decimal(*width as u64).as_str());
                s.append(" exceeds MAX_MLP_WIDTH 512");
                s
            },
            GpuPlanError::LayerWidth { mlp, layer, in_features, out_features } => {
                let mut s: String = mlp.message();
                s.append(" layer ");
                s.append(decimal(*layer as u64).as_str());
                s.append(" has dims in=");
                s.append(decimal(*in_features as u64).as_str());
                s.append(" out=");
                s.append(decimal(*out_features as u64).as_str());
                s.append(" exceeding MAX_MLP_WIDTH 512");
                s
            },
            GpuPlanError::InputLengths { splats, tile_means, scales, orig_means, orig_quats } => {
                let mut s: String = "splat input length mismatch: splats=".to_owned();
                s.append(decimal(*splats as u64).as_str());
                s.append(", base_tile_means=");
                s.append(decimal(*tile_means as u64).as_str());
                s.append(", base_scales=");
                s.append(decimal(*scales as u64).as_str());
                s.append(", orig_means=");
                s.append(decimal(*orig_means as u64).as_str());
                s.append(", orig_quats=");
                s.append(decimal(*orig_quats as u64).as_str());
                s
            },
            GpuPlanError::BaseTexture { len, expected } => {
                let mut s: String = "base_tex_data too short: len=".to_owned();
                s.append(decimal(*len as u64).as_str());
                s.append(" expected_at_least=");
                s.append(decimal(*expected as u64).as_str());
                s
            },
            GpuPlanError::SampleOverflow => "deformation volume sample count overflow".to_owned(),
            GpuPlanError::WordOverflow => "deformation volume word count overflow".to_owned(),
            GpuPlanError::TooManySamples => {
                "deformation volume sample count exceeds u32".to_owned()
            },
            GpuPlanError::ByteOverflow => "deformation volume byte count overflow".to_owned(),
            GpuPlanError::ChunkLimit { chunk, limit } => {
                let mut s: String = "max chunk workgroups ".to_owned();
                s.append(decimal(*chunk as u64).as_str());
                s.append(" exceeds device limit ");
                s.append(decimal(*limit as u64).as_str());
                s
            },
        }
    }
}

/// The layers of a perceptron that are too wide, the first from `from` on.
pub open spec fn wide_layer(layers: Seq<PackedMlpLayerDesc>, mlp: MlpName, from: nat) -> Option<
    GpuPlanError,
>
    decreases layers.len() - from,
{
    if from >= layers.len() {
        None
    } else if layers[from as int].in_features > MAX_MLP_WIDTH || layers[from as int].out_features
        > MAX_MLP_WIDTH {
        Some(
            GpuPlanError::LayerWidth {
                mlp,
                layer: from as usize,
                in_features: layers[from as int].in_features,
                out_features: layers[from as int].out_features,
            },
        )
    } else {
        wide_layer(layers, mlp, from + 1)
    }
}

fn find_wide_layer(layers: &Vec<PackedMlpLayerDesc>, mlp: MlpName) -> (r: Option<GpuPlanError>)
    ensures
        r == wide_layer(layers@, mlp, 0),
{
    for i in 0..layers.len()
        invariant
            wide_layer(layers@, mlp, 0) == wide_layer(layers@, mlp, i as nat),
    {
        if layers[i].in_features > MAX_MLP_WIDTH || layers[i].out_features > MAX_MLP_WIDTH {
            return Some(
                GpuPlanError::LayerWidth {
                    mlp,
                    layer: i,
                    in_features: layers[i].in_features,
                    out_features: layers[i].out_features,
                },
            );
        }
    }
    None
}

/// Dimensions that the shader has no room for. Sizes count as the 32-bit numbers that the shader
/// gets.
pub open spec fn dims_error(packed: PackedDeformationNetwork) -> Option<GpuPlanError> {
    let features = packed.metadata.n_grid_levels * packed.metadata.feature_dim;
    if (features as usize) as u32 > MAX_GRID_FEATURES {
        Some(GpuPlanError::GridFeatures { count: features as usize })
    } else if packed.metadata.net_width as u32 > MAX_MLP_WIDTH {
        Some(GpuPlanError::NetWidth { width: packed.metadata.net_width })
    } else if wide_layer(packed.feature_layers@, MlpName::FeatureOut, 0) is Some {
        wide_layer(packed.feature_layers@, MlpName::FeatureOut, 0)
    } else if wide_layer(packed.pos_layers@, MlpName::PosDeform, 0) is Some {
        wide_layer(packed.pos_layers@, MlpName::PosDeform, 0)
    } else {
        wide_layer(packed.rot_layers@, MlpName::RotationsDeform, 0)
    }
}

/// Checks that the shader has room for a network.
pub fn validate_packed_dims(packed: &PackedDeformationNetwork) -> (r: Result<(), GpuPlanError>)
    requires
        packed.metadata.n_grid_levels * packed.metadata.feature_dim <= usize::MAX,
    ensures
        match r {
            Ok(_) => dims_error(*packed) is None,
            Err(error) => dims_error(*packed) == Some(error),
        },
{
    let features: usize = packed.metadata.n_grid_levels * packed.metadata.feature_dim;
    if features as u32 > MAX_GRID_FEATURES {
        return Err(GpuPlanError::GridFeatures { count: features });
    }
    if packed.metadata.net_width as u32 > MAX_MLP_WIDTH {
        return Err(GpuPlanError::NetWidth { width: packed.metadata.net_width });
    }
    if let Some(error) = find_wide_layer(&packed.feature_layers, MlpName::FeatureOut) {
        return Err(error);
    }
    if let Some(error) = find_wide_layer(&packed.pos_layers, MlpName::PosDeform) {
        return Err(error);
    }
    if let Some(error) = find_wide_layer(&packed.rot_layers, MlpName::RotationsDeform) {
        return Err(error);
    }
    Ok(())
}

/// Inputs that do not have a row for each splat, or a texture without the splats.
pub open spec fn inputs_error(
    splats: usize,
    tile_means: usize,
    scales: usize,
    orig_means: usize,
    orig_quats: usize,
    texture_words: usize,
) -> Option<GpuPlanError> {
    if splats != tile_means || splats != scales || splats != orig_means || splats != orig_quats {
        Some(
            GpuPlanError::InputLengths { splats, tile_means, scales, orig_means, orig_quats },
        )
    } else if texture_words < 8 * splats {
        Some(
            GpuPlanError::BaseTexture {
                len: texture_words,
                expected: crate::basis_bank_edit::saturated(8 * splats) as usize,
            },
        )
    } else {
        None
    }
}

/// Checks that every input has a row for each splat.
pub fn check_inputs(
    splats: usize,
    tile_means: usize,
    scales: usize,
    orig_means: usize,
    orig_quats: usize,
    texture_words: usize,
) -> (r: Result<(), GpuPlanError>)
    ensures
        match r {
            Ok(_) => inputs_error(
                splats,
                tile_means,
                scales,
                orig_means,
                orig_quats,
                texture_words,
            ) is None,
            Err(error) => inputs_error(
                splats,
                tile_means,
                scales,
                orig_means,
                orig_quats,
                texture_words,
            ) == Some(error),
        },
{
    if splats != tile_means || splats != scales || splats != orig_means || splats != orig_quats {
        return Err(
            GpuPlanError::InputLengths { splats, tile_means, scales, orig_means, orig_quats },
        );
    }
    if texture_words / 8 < splats {
        return Err(
            GpuPlanError::BaseTexture {
                len: texture_words,
                expected: crate::basis_bank_edit::saturating_product(8, splats),
            },
        );
    }
    Ok(())
}

/// The volume that is asked for: at least two samples along each axis and one key.
pub open spec fn volume_size(res: u32, keys: u32) -> (u32, u32) {
    (
        if res < 2 {
            2
        } else {
            res
        },
        if keys < 1 {
            1
        } else {
            keys
        },
    )
}

pub fn clamp_volume(res: u32, keys: u32) -> (r: (u32, u32))
    ensures
        r == volume_size(res, keys),
{
    (
        if res < 2 {
            2
        } else {
            res
        },
        if keys < 1 {
            1
        } else {
            keys
        },
    )
}

/// The words of the network uniform: dimensions, layer counts, bounds, scale and volume size, in
/// rows of four.
pub open spec fn network_words(
    meta: DeformationMetadata,
    feature_layers: int,
    pos_layers: int,
    rot_layers: int,
    debug_mode: u32,
    res: u32,
    keys: u32,
) -> Seq<u32> {
    let volume = debug_mode == DEFORMATION_DEBUG_VOLUME;
    seq![
        meta.n_grid_levels as u32,
        meta.n_planes_per_level as u32,
        meta.feature_dim as u32,
        meta.net_width as u32,
        meta.n_time_frames as u32,
        (feature_layers as usize) as u32,
        (pos_layers as usize) as u32,
        (rot_layers as usize) as u32,
        meta.aabb_max[0],
        meta.aabb_max[1],
        meta.aabb_max[2],
        crate::float_bits::ZERO,
        meta.aabb_min[0],
        meta.aabb_min[1],
        meta.aabb_min[2],
        crate::float_bits::ZERO,
        meta.scale_factor,
        crate::float_bits::ZERO,
        crate::float_bits::ZERO,
        crate::float_bits::ZERO,
        if volume {
            res
        } else {
            0
        },
        if volume {
            keys
        } else {
            0
        },
        if volume {
            VOLUME_WORDS_PER_SAMPLE
        } else {
            0
        },
        0u32,
    ]
}

/// The words of the network uniform.
pub fn network_uniform(
    packed: &PackedDeformationNetwork,
    debug_mode: u32,
    res: u32,
    keys: u32,
) -> (r: [u32; 24])
    ensures
        r@ == network_words(
            packed.metadata,
            packed.feature_layers@.len() as int,
            packed.pos_layers@.len() as int,
            packed.rot_layers@.len() as int,
            debug_mode,
            res,
            keys,
        ),
{
    let meta: &DeformationMetadata = &packed.metadata;
    let volume: bool = debug_mode == DEFORMATION_DEBUG_VOLUME;
    let r: [u32; 24] = [
        meta.n_grid_levels as u32,
        meta.n_planes_per_level as u32,
        meta.feature_dim as u32,
        meta.net_width as u32,
        meta.n_time_frames as u32,
        packed.feature_layers.len() as u32,
        packed.pos_layers.len() as u32,
        packed.rot_layers.len() as u32,
        meta.aabb_max[0],
        meta.aabb_max[1],
        meta.aabb_max[2],
        crate::float_bits::ZERO,
        meta.aabb_min[0],
        meta.aabb_min[1],
        meta.aabb_min[2],
        crate::float_bits::ZERO,
        meta.scale_factor,
        crate::float_bits::ZERO,
        crate::float_bits::ZERO,
        crate::float_bits::ZERO,
        if volume {
            res
        } else {
            0
        },
        if volume {
            keys
        } else {
            0
        },
        if volume {
            VOLUME_WORDS_PER_SAMPLE
        } else {
            0
        },
        0u32,
    ];
    assert(r@ =~= network_words(
        packed.metadata,
        packed.feature_layers@.len() as int,
        packed.pos_layers@.len() as int,
        packed.rot_layers@.len() as int,
        debug_mode,
        res,
        keys,
    ));
    r
}

/// The words of the animation uniform: the time within `[0, 1]`, the splats, the texture width and
/// the mode.
pub fn animation_uniform(
    time01: u32,
    splat_count: u32,
    texture_width: u32,
    debug_mode: u32,
) -> (r: [u32; 4])
    ensures
        r@ == seq![
            crate::float_bits::clamped(time01, crate::float_bits::ZERO, crate::float_bits::ONE),
            splat_count,
            texture_width,
            debug_mode,
        ],
{
    let r: [u32; 4] = [
        crate::float_bits::clamp(time01, crate::float_bits::ZERO, crate::float_bits::ONE),
        splat_count,
        texture_width,
        debug_mode,
    ];
    assert(r@ =~= seq![
        crate::float_bits::clamped(time01, crate::float_bits::ZERO, crate::float_bits::ONE),
        splat_count,
        texture_width,
        debug_mode,
    ]);
    r
}

/// How much a volume holds.
#[derive(Debug, Clone, Copy, PartialEq, Eq, Structural)]
pub struct VolumePlan {
    pub samples: usize,
    pub words: usize,
}

/// Four words for each sample: a cube of samples for each key.
pub open spec fn planned_volume(res: u32, keys: u32) -> Result<VolumePlan, GpuPlanError> {
    let samples = res * res * res * keys;
    if samples > usize::MAX {
        Err(GpuPlanError::SampleOverflow)
    } else if samples * 4 > usize::MAX {
        Err(GpuPlanError::WordOverflow)
    } else {
        Ok(VolumePlan { samples: samples as usize, words: (samples * 4) as usize })
    }
}

/// Counts the samples and words of a volume.
pub fn plan_volume(res: u32, keys: u32) -> (r: Result<VolumePlan, GpuPlanError>)
    requires
        res * res * res <= usize::MAX,
    ensures
        r == planned_volume(res, keys),
{
    let side: usize = res as usize;
    proof {
        assert(res * res <= res * res * res || res == 0) by (nonlinear_arith);
    }
    let cube: usize = if res == 0 {
        0
    } else {
        side * side * side
    };
    let samples: usize = match cube.checked_mul(keys as usize) {
        Some(n) => n,
        None => {
            return Err(GpuPlanError::SampleOverflow);
        },
    };
    match samples.checked_mul(VOLUME_WORDS_PER_SAMPLE as usize) {
        Some(words) => Ok(VolumePlan { samples, words }),
        None => Err(GpuPlanError::WordOverflow),
    }
}

/// The size of a volume buffer, and its samples as the shader counts them.
pub open spec fn planned_bake(res: u32, keys: u32) -> Result<(u32, u64), GpuPlanError> {
    match planned_volume(res, keys) {
        Err(error) => Err(error),
        Ok(plan) => if plan.samples > u32::MAX {
            Err(GpuPlanError::TooManySamples)
        } else if plan.words * 4 > u64::MAX {
            Err(GpuPlanError::ByteOverflow)
        } else {
            Ok((plan.samples as u32, (plan.words * 4) as u64))
        },
    }
}

/// The samples of a bake and the bytes of its buffer.
pub fn plan_bake(res: u32, keys: u32) -> (r: Result<(u32, u64), GpuPlanError>)
    requires
        res * res * res <= usize::MAX,
    ensures
        r == planned_bake(res, keys),
{
    let plan: VolumePlan = match plan_volume(res, keys) {
        Ok(plan) => plan,
        Err(error) => {
            return Err(error);
        },
    };
    if plan.samples as u64 > u32::MAX as u64 {
        return Err(GpuPlanError::TooManySamples);
    }
    match (plan.words as u64).checked_mul(4) {
        Some(bytes) => Ok((plan.samples as u32, bytes)),
        None => Err(GpuPlanError::ByteOverflow),
    }
}

/// Part of a bake: `sample_count` samples from `base_sample` on.
#[derive(Debug, Clone, Copy, PartialEq, Eq, Structural)]
pub struct BakeChunk {
    pub base_sample: u32,
    pub sample_count: u32,
    pub workgroups: u32,
}

/// Workgroups of a chunk on a device.
pub open spec fn chunk_workgroups(device_limit: u32) -> u32 {
    if device_limit < 1 {
        1
    } else if device_limit < MAX_CHUNK_WORKGROUPS {
        device_limit
    } else {
        MAX_CHUNK_WORKGROUPS
    }
}

/// Samples of the chunk that starts at a sample.
pub open spec fn chunk_samples_from(base: int, samples: int, size: int) -> int {
    if samples - base < size {
        samples - base
    } else {
        size
    }
}

/// Chunk `i` starts at sample `i * size` and takes `size` samples or what is left, with just as
/// many workgroups as it needs.
pub open spec fn is_chunk(chunk: BakeChunk, i: int, samples: int, size: int) -> bool {
    &&& chunk.base_sample == i * size
    &&& chunk.sample_count == chunk_samples_from(i * size, samples, size)
    &&& WORKGROUP_SIZE * (chunk.workgroups - 1) < chunk.sample_count <= WORKGROUP_SIZE
        * chunk.workgroups
}

/// The chunks of a bake: as many as it takes.
pub open spec fn are_chunks(chunks: Seq<BakeChunk>, samples: int, size: int) -> bool {
    &&& forall|i: int| 0 <= i < chunks.len() ==> is_chunk(#[trigger] chunks[i], i, samples, size)
    &&& chunks.len() * size >= samples
    &&& chunks.len() > 0 ==> (chunks.len() - 1) * size < samples
}

/// Splits a bake into submissions that fit the device.
pub fn plan_chunks(samples: u32, device_limit: u32) -> (r: Result<Vec<BakeChunk>, GpuPlanError>)
    ensures
        match r {
            Ok(chunks) => device_limit >= 1 && are_chunks(
                chunks@,
                samples as int,
                WORKGROUP_SIZE * chunk_workgroups(device_limit),
            ),
            Err(error) => device_limit == 0 && error == (GpuPlanError::ChunkLimit {
                chunk: 1,
                limit: 0,
            }),
        },
{
    let limit: u32 = if device_limit < 1 {
        1
    } else if device_limit < MAX_CHUNK_WORKGROUPS {
        device_limit
    } else {
        MAX_CHUNK_WORKGROUPS
    };
    if limit > device_limit {
        return Err(GpuPlanError::ChunkLimit { chunk: limit, limit: device_limit });
    }
    let size: u32 = limit * WORKGROUP_SIZE;
    let mut chunks: Vec<BakeChunk> = Vec::new();
    let mut base_sample: u32 = 0;
    proof {
        assert(0 * size == 0);
    }
    while base_sample < samples
        invariant
            base_sample <= samples,
            128 <= size <= MAX_CHUNK_WORKGROUPS * WORKGROUP_SIZE,
            forall|i: int|
                0 <= i < chunks@.len() ==> is_chunk(
                    #[trigger] chunks@[i],
                    i,
                    samples as int,
                    size as int,
                ),
            base_sample < samples ==> base_sample == chunks@.len() * size,
            chunks@.len() * size >= base_sample,
            chunks@.len() > 0 ==> (chunks@.len() - 1) * size < samples,
        decreases samples - base_sample,
    {
        let remaining: u32 = samples - base_sample;
        let sample_count: u32 = if remaining < size {
            remaining
        } else {
            size
        };
        let workgroups: u32 = workgroup_count(sample_count);
        proof {
            assert((chunks@.len() + 1) * size == chunks@.len() * size + size)
                by (nonlinear_arith);
        }
        chunks.push(BakeChunk { base_sample, sample_count, workgroups });
        base_sample = base_sample + sample_count;
    }
    Ok(chunks)
}

/// The chunks of a bake cover it without gap or overlap: every sample is in exactly one of them.
pub proof fn chunks_cover_each_sample_once(
    chunks: Seq<BakeChunk>,
    samples: int,
    size: int,
    sample: int,
)
    requires
        are_chunks(chunks, samples, size),
        size > 0,
        0 <= sample < samples,
    ensures
        0 <= sample / size < chunks.len(),
        forall|i: int|
            0 <= i < chunks.len() ==> ((#[trigger] chunks[i]).base_sample <= sample
                < chunks[i].base_sample + chunks[i].sample_count <==> i == sample / size),
{
    vstd::arithmetic::div_mod::lemma_fundamental_div_mod(sample, size);
    vstd::arithmetic::div_mod::lemma_mod_bound(sample, size);
    let q = sample / size;
    assert(0 <= q < chunks.len()) by (nonlinear_arith)
        requires
            0 <= sample < samples,
            chunks.len() * size >= samples,
            sample == size * q + sample % size,
            0 <= sample % size < size,
            size > 0,
    ;
    assert forall|i: int| 0 <= i < chunks.len() implies ((#[trigger] chunks[i]).base_sample
        <= sample < chunks[i].base_sample + chunks[i].sample_count <==> i == q) by {
        assert(is_chunk(chunks[i], i, samples, size));
        assert(i * size <= sample < i * size + size <==> i == q) by (nonlinear_arith)
            requires
                sample == size * q + sample % size,
                0 <= sample % size < size,
                size > 0,
        ;
    }
}

/// The place of a sample in a volume: key, then depth, row and column.
pub fn volume_sample(index: usize, res: u32) -> (r: (usize, usize, usize, usize))
    requires
        res > 0,
    ensures
        index == ((r.0 * res + r.1) * res + r.2) * res + r.3,
        r.1 < res,
        r.2 < res,
        r.3 < res,
{
    let side: usize = res as usize;
    let column: usize = index % side;
    let rows: usize = index / side;
    let row: usize = rows % side;
    let slices: usize = rows / side;
    let depth: usize = slices % side;
    let key: usize = slices / side;
    proof {
        let s = side as int;
        vstd::arithmetic::div_mod::lemma_fundamental_div_mod(index as int, s);
        vstd::arithmetic::div_mod::lemma_fundamental_div_mod(rows as int, s);
        vstd::arithmetic::div_mod::lemma_fundamental_div_mod(slices as int, s);
        assert(key * s + depth == slices) by (nonlinear_arith)
            requires
                slices == s * key + depth,
        ;
        assert((key * s + depth) * s + row == rows) by (nonlinear_arith)
            requires
                rows == s * slices + row,
                key * s + depth == slices,
        ;
        assert(((key * s + depth) * s + row) * s + column == index) by (nonlinear_arith)
            requires
                index == s * rows + column,
                (key * s + depth) * s + row == rows,
        ;
    }
    (key, depth, row, column)
}

/// The colour words of every splat: the fourth and the eighth word of its texels.
pub fn extract_base_rgba(texture: &[u32], splat_count: usize) -> (r: Vec<[u32; 4]>)
    requires
        8 * splat_count <= texture@.len(),
    ensures
        r@.len() == splat_count,
        forall|i: int|
            0 <= i < splat_count ==> (#[trigger] r@[i])@ == seq![
                texture@[8 * i + 3],
                texture@[8 * i + 7],
                0u32,
                0u32,
            ],
{
    let total: usize = texture.len();
    let mut out: Vec<[u32; 4]> = Vec::new();
    for i in 0..splat_count
        invariant
            total == texture@.len(),
            8 * splat_count <= texture@.len(),
            out@.len() == i,
            forall|k: int|
                0 <= k < i ==> (#[trigger] out@[k])@ == seq![
                    texture@[8 * k + 3],
                    texture@[8 * k + 7],
                    0u32,
                    0u32,
                ],
    {
        let row: [u32; 4] = [texture[8 * i + 3], texture[8 * i + 7], 0, 0];
        assert(row@ =~= seq![texture@[8 * i + 3], texture@[8 * i + 7], 0u32, 0u32]);
        out.push(row);
    }
    out
}

/// Triples with a zero behind each.
pub fn to_vec4_from_vec3(values: &[[u32; 3]]) -> (r: Vec<[u32; 4]>)
    ensures
        r@.len() == values@.len(),
        forall|i: int|
            0 <= i < values@.len() ==> (#[trigger] r@[i])@ == seq![
                values@[i]@[0],
                values@[i]@[1],
                values@[i]@[2],
                crate::float_bits::ZERO,
            ],
{
    let mut out: Vec<[u32; 4]> = Vec::new();
    for i in 0..values.len()
        invariant
            out@.len() == i,
            forall|k: int|
                0 <= k < i ==> (#[trigger] out@[k])@ == seq![
                    values@[k]@[0],
                    values@[k]@[1],
                    values@[k]@[2],
                    crate::float_bits::ZERO,
                ],
    {
        let v: [u32; 3] = values[i];
        let row: [u32; 4] = [v[0], v[1], v[2], crate::float_bits::ZERO];
        assert(row@ =~= seq![
            values@[i as int]@[0],
            values@[i as int]@[1],
            values@[i as int]@[2],
            crate::float_bits::ZERO,
        ]);
        out.push(row);
    }
    out
}

/// Plane descriptions as words.
pub fn pack_plane_descs(descs: &Vec<PackedPlaneDesc>) -> (r: Vec<[u32; 4]>)
    ensures
        r@.len() == descs@.len(),
        forall|i: int|
            0 <= i < descs@.len() ==> (#[trigger] r@[i])@ == seq![
                descs@[i].width,
                descs@[i].height,
                descs@[i].channels,
                descs@[i].data_offset,
            ],
{
    let mut out: Vec<[u32; 4]> = Vec::new();
    for i in 0..descs.len()
        invariant
            out@.len() == i,
            forall|k: int|
                0 <= k < i ==> (#[trigger] out@[k])@ == seq![
                    descs@[k].width,
                    descs@[k].height,
                    descs@[k].channels,
                    descs@[k].data_offset,
                ],
    {
        let d: PackedPlaneDesc = descs[i];
        let row: [u32; 4] = [d.width, d.height, d.channels, d.data_offset];
        assert(row@ =~= seq![d.width, d.height, d.channels, d.data_offset]);
        out.push(row);
    }
    out
}

/// Layer descriptions as words.
pub fn pack_layer_descs(descs: &Vec<PackedMlpLayerDesc>) -> (r: Vec<[u32; 5]>)
    ensures
        r@.len() == descs@.len(),
        forall|i: int|
            0 <= i < descs@.len() ==> (#[trigger] r@[i])@ == seq![
                descs@[i].in_features,
                descs@[i].out_features,
                descs@[i].has_relu_before,
                descs@[i].weight_offset,
                descs@[i].bias_offset,
            ],
{
    let mut out: Vec<[u32; 5]> = Vec::new();
    for i in 0..descs.len()
        invariant
            out@.len() == i,
            forall|k: int|
                0 <= k < i ==> (#[trigger] out@[k])@ == seq![
                    descs@[k].in_features,
                    descs@[k].out_features,
                    descs@[k].has_relu_before,
                    descs@[k].weight_offset,
                    descs@[k].bias_offset,
                ],
    {
        let d: PackedMlpLayerDesc = descs[i];
        let row: [u32; 5] = [
            d.in_features,
            d.out_features,
            d.has_relu_before,
            d.weight_offset,
            d.bias_offset,
        ];
        assert(row@ =~= seq![
            d.in_features,
            d.out_features,
            d.has_relu_before,
            d.weight_offset,
            d.bias_offset,
        ]);
        out.push(row);
    }
    out
}

} // verus!
