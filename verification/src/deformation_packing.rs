//! A deformation network as the flat buffers that the GPU reads.

use crate::basis_bank_edit::saturating_product;
use crate::deformation::{
    DeformationMetadata, DeformationNetwork, GridPlane, LayerModel, Mlp, MlpLayer, NetworkModel,
    PlaneModel, PLANE_COUNT,
};
use crate::deformation_errors::{DeformationError, FormatFault, MlpName, PackLabel, ShapeFault};
use vstd::prelude::*;

verus! {

/// Where a plane lies in the plane buffer.
#[derive(Debug, Clone, Copy, PartialEq, Eq, Structural)]
pub struct PackedPlaneDesc {
    pub width: u32,
    pub height: u32,
    pub channels: u32,
    pub data_offset: u32,
}

/// Where a layer lies in the weight and bias buffers.
#[derive(Debug, Clone, Copy, PartialEq, Eq, Structural)]
pub struct PackedMlpLayerDesc {
    pub in_features: u32,
    pub out_features: u32,
    pub has_relu_before: u32,
    pub weight_offset: u32,
    pub bias_offset: u32,
}

#[derive(Debug)]
pub struct PackedDeformationNetwork {
    pub metadata: DeformationMetadata,
    pub plane_descs: Vec<PackedPlaneDesc>,
    pub plane_data: Vec<u32>,
    pub feature_layers: Vec<PackedMlpLayerDesc>,
    pub feature_weights: Vec<u32>,
    pub feature_bias: Vec<u32>,
    pub pos_layers: Vec<PackedMlpLayerDesc>,
    pub pos_weights: Vec<u32>,
    pub pos_bias: Vec<u32>,
    pub rot_layers: Vec<PackedMlpLayerDesc>,
    pub rot_weights: Vec<u32>,
    pub rot_bias: Vec<u32>,
}

pub open spec fn too_large(value: int, label: PackLabel) -> DeformationError {
    DeformationError::InvalidFormat(FormatFault::TooLargeForGpu { label, value: value as usize })
}

/// A size as a 32-bit number.
pub fn usize_to_u32(value: usize, label: PackLabel) -> (r: Result<u32, DeformationError>)
    ensures
        match r {
            Ok(v) => v == value,
            Err(error) => value > u32::MAX && error == too_large(value as int, label),
        },
{
    if value as u64 > u32::MAX as u64 {
        Err(DeformationError::InvalidFormat(FormatFault::TooLargeForGpu { label, value }))
    } else {
        Ok(value as u32)
    }
}

/// The weights of the first `n` layers.
pub open spec fn weights_before(layers: Seq<LayerModel>, n: nat) -> Seq<u32>
    decreases n,
{
    if n == 0 {
        Seq::empty()
    } else {
        weights_before(layers, (n - 1) as nat) + layers[n - 1].weights
    }
}

/// The biases of the first `n` layers.
pub open spec fn bias_before(layers: Seq<LayerModel>, n: nat) -> Seq<u32>
    decreases n,
{
    if n == 0 {
        Seq::empty()
    } else {
        bias_before(layers, (n - 1) as nat) + layers[n - 1].bias
    }
}

/// A layer has as many weights and biases as its dimensions say.
pub open spec fn layer_shaped(layer: LayerModel) -> bool {
    layer.weights.len() == layer.in_features * layer.out_features && layer.bias.len()
        == layer.out_features
}

/// Why a layer cannot be packed.
pub open spec fn layer_fault(
    layers: Seq<LayerModel>,
    mlp: MlpName,
    i: int,
) -> Option<DeformationError> {
    let layer = layers[i];
    if !layer_shaped(layer) {
        Some(
            DeformationError::ShapeMismatch(
                ShapeFault::LayerShape {
                    mlp,
                    layer: i as usize,
                    in_features: layer.in_features,
                    out_features: layer.out_features,
                    weights: layer.weights.len() as usize,
                    bias: layer.bias.len() as usize,
                },
            ),
        )
    } else if layer.in_features > u32::MAX {
        Some(too_large(layer.in_features as int, PackLabel::InFeatures))
    } else if layer.out_features > u32::MAX {
        Some(too_large(layer.out_features as int, PackLabel::OutFeatures))
    } else if weights_before(layers, i as nat).len() > u32::MAX {
        Some(too_large(weights_before(layers, i as nat).len() as int, PackLabel::WeightOffset))
    } else if bias_before(layers, i as nat).len() > u32::MAX {
        Some(too_large(bias_before(layers, i as nat).len() as int, PackLabel::BiasOffset))
    } else {
        None
    }
}

/// The first fault among the layers from `from` on.
pub open spec fn first_layer_fault(layers: Seq<LayerModel>, mlp: MlpName, from: nat) -> Option<
    DeformationError,
>
    decreases layers.len() - from,
{
    if from >= layers.len() {
        None
    } else if layer_fault(layers, mlp, from as int) is Some {
        layer_fault(layers, mlp, from as int)
    } else {
        first_layer_fault(layers, mlp, from + 1)
    }
}

pub open spec fn layer_desc(layers: Seq<LayerModel>, i: int) -> PackedMlpLayerDesc {
    PackedMlpLayerDesc {
        in_features: layers[i].in_features as u32,
        out_features: layers[i].out_features as u32,
        has_relu_before: if layers[i].has_relu_before {
            1
        } else {
            0
        },
        weight_offset: weights_before(layers, i as nat).len() as u32,
        bias_offset: bias_before(layers, i as nat).len() as u32,
    }
}

pub open spec fn layer_descs(layers: Seq<LayerModel>) -> Seq<PackedMlpLayerDesc> {
    Seq::new(layers.len(), |i: int| layer_desc(layers, i))
}

fn is_product(value: usize, a: usize, b: usize) -> (r: bool)
    ensures
        r == (value == a * b),
{
    match a.checked_mul(b) {
        Some(p) => value == p,
        None => false,
    }
}

fn append(out: &mut Vec<u32>, more: &Vec<u32>)
    ensures
        final(out)@ == old(out)@ + more@,
{
    let ghost start = out@;
    for i in 0..more.len()
        invariant
            out@ == start + more@.take(i as int),
    {
        out.push(more[i]);
        assert(out@ =~= start + more@.take(i + 1));
    }
    assert(more@.take(more@.len() as int) =~= more@);
}

/// Describes a layer that starts at the given offsets.
fn pack_layer(
    layer: &MlpLayer,
    mlp: MlpName,
    index: usize,
    weight_offset: usize,
    bias_offset: usize,
) -> (r: Result<PackedMlpLayerDesc, DeformationError>)
    ensures
        ({
            let model = layer.model();
            let fault = if !layer_shaped(model) {
                Some(
                    DeformationError::ShapeMismatch(
                        ShapeFault::LayerShape {
                            mlp,
                            layer: index,
                            in_features: model.in_features,
                            out_features: model.out_features,
                            weights: model.weights.len() as usize,
                            bias: model.bias.len() as usize,
                        },
                    ),
                )
            } else if model.in_features > u32::MAX {
                Some(too_large(model.in_features as int, PackLabel::InFeatures))
            } else if model.out_features > u32::MAX {
                Some(too_large(model.out_features as int, PackLabel::OutFeatures))
            } else if weight_offset > u32::MAX {
                Some(too_large(weight_offset as int, PackLabel::WeightOffset))
            } else if bias_offset > u32::MAX {
                Some(too_large(bias_offset as int, PackLabel::BiasOffset))
            } else {
                None
            };
            match r {
                Ok(desc) => {
                    &&& fault is None
                    &&& desc.in_features == model.in_features
                    &&& desc.out_features == model.out_features
                    &&& desc.has_relu_before == if model.has_relu_before {
                        1u32
                    } else {
                        0u32
                    }
                    &&& desc.weight_offset == weight_offset
                    &&& desc.bias_offset == bias_offset
                },
                Err(error) => fault == Some(error),
            }
        }),
{
    if !is_product(layer.weights.len(), layer.in_features, layer.out_features)
        || layer.bias.len() != layer.out_features {
        return Err(
            DeformationError::ShapeMismatch(
                ShapeFault::LayerShape {
                    mlp,
                    layer: index,
                    in_features: layer.in_features,
                    out_features: layer.out_features,
                    weights: layer.weights.len(),
                    bias: layer.bias.len(),
                },
            ),
        );
    }
    let in_features: u32 = match usize_to_u32(layer.in_features, PackLabel::InFeatures) {
        Ok(v) => v,
        Err(error) => {
            return Err(error);
        },
    };
    let out_features: u32 = match usize_to_u32(layer.out_features, PackLabel::OutFeatures) {
        Ok(v) => v,
        Err(error) => {
            return Err(error);
        },
    };
    let weight_at: u32 = match usize_to_u32(weight_offset, PackLabel::WeightOffset) {
        Ok(v) => v,
        Err(error) => {
            return Err(error);
        },
    };
    let bias_at: u32 = match usize_to_u32(bias_offset, PackLabel::BiasOffset) {
        Ok(v) => v,
        Err(error) => {
            return Err(error);
        },
    };
    Ok(
        PackedMlpLayerDesc {
            in_features,
            out_features,
            has_relu_before: if layer.has_relu_before {
                1
            } else {
                0
            },
            weight_offset: weight_at,
            bias_offset: bias_at,
        },
    )
}

/// Packs a perceptron: its layers, then all weights and all biases.
pub fn pack_mlp_layers(mlp: &Mlp, name: MlpName) -> (r: Result<
    (Vec<PackedMlpLayerDesc>, Vec<u32>, Vec<u32>),
    DeformationError,
>)
    ensures
        ({
            let layers = crate::deformation::layer_models(mlp.layers@);
            match r {
                Ok(packed) => {
                    &&& first_layer_fault(layers, name, 0) is None
                    &&& packed.0@ == layer_descs(layers)
                    &&& packed.1@ == weights_before(layers, layers.len())
                    &&& packed.2@ == bias_before(layers, layers.len())
                },
                Err(error) => first_layer_fault(layers, name, 0) == Some(error),
            }
        }),
{
    let ghost layers = crate::deformation::layer_models(mlp.layers@);
    let mut descs: Vec<PackedMlpLayerDesc> = Vec::new();
    let mut weights: Vec<u32> = Vec::new();
    let mut bias: Vec<u32> = Vec::new();
    for i in 0..mlp.layers.len()
        invariant
            layers == crate::deformation::layer_models(mlp.layers@),
            first_layer_fault(layers, name, 0) == first_layer_fault(layers, name, i as nat),
            descs@ == layer_descs(layers).take(i as int),
            weights@ == weights_before(layers, i as nat),
            bias@ == bias_before(layers, i as nat),
    {
        let layer: &MlpLayer = &mlp.layers[i];
        assert(layers[i as int] == layer.model());
        match pack_layer(layer, name, i, weights.len(), bias.len()) {
            Ok(desc) => {
                assert(desc == layer_desc(layers, i as int));
                descs.push(desc);
                assert(descs@ =~= layer_descs(layers).take(i + 1));
            },
            Err(error) => {
                return Err(error);
            },
        }
        append(&mut weights, &layer.weights);
        append(&mut bias, &layer.bias);
    }
    assert(layer_descs(layers).take(layers.len() as int) =~= layer_descs(layers));
    Ok((descs, weights, bias))
}

/// The values of the planes before a plane of a level.
pub open spec fn data_before(levels: Seq<Seq<PlaneModel>>, level: nat, plane: nat) -> Seq<u32>
    decreases level, plane,
{
    if plane > 0 {
        data_before(levels, level, (plane - 1) as nat) + levels[level as int][plane - 1].data
    } else if level > 0 {
        data_before(levels, (level - 1) as nat, levels[level - 1].len())
    } else {
        Seq::empty()
    }
}

/// A plane has as many values as its dimensions say.
pub open spec fn plane_shaped(plane: PlaneModel) -> bool {
    plane.data.len() == plane.channels * plane.height * plane.width
}

pub open spec fn plane_fault(
    levels: Seq<Seq<PlaneModel>>,
    meta: DeformationMetadata,
    level: int,
    plane: int,
) -> Option<DeformationError> {
    let model = levels[level][plane];
    let offset = data_before(levels, level as nat, plane as nat).len() as int;
    if model.channels != meta.feature_dim {
        Some(
            DeformationError::ShapeMismatch(
                ShapeFault::PlaneChannels {
                    level: level as usize,
                    plane: plane as usize,
                    found: model.channels,
                    expected: meta.feature_dim,
                },
            ),
        )
    } else if !plane_shaped(model) {
        Some(
            DeformationError::ShapeMismatch(
                ShapeFault::PlaneData {
                    level: level as usize,
                    plane: plane as usize,
                    found: model.data.len() as usize,
                    expected: crate::basis_bank_edit::saturated(
                        crate::basis_bank_edit::saturated(model.channels * model.height)
                            * model.width,
                    ) as usize,
                },
            ),
        )
    } else if model.width > u32::MAX {
        Some(too_large(model.width as int, PackLabel::PlaneWidth))
    } else if model.height > u32::MAX {
        Some(too_large(model.height as int, PackLabel::PlaneHeight))
    } else if model.channels > u32::MAX {
        Some(too_large(model.channels as int, PackLabel::PlaneChannels))
    } else if offset > u32::MAX {
        Some(too_large(offset, PackLabel::PlaneDataOffset))
    } else {
        None
    }
}

/// The first fault among the planes from a plane of a level on.
pub open spec fn first_plane_fault(
    levels: Seq<Seq<PlaneModel>>,
    meta: DeformationMetadata,
    level: nat,
    plane: nat,
) -> Option<DeformationError>
    decreases levels.len() - level, levels[level as int].len() - plane,
{
    if level >= levels.len() {
        None
    } else if plane == 0 && levels[level as int].len() != meta.n_planes_per_level {
        Some(
            DeformationError::ShapeMismatch(
                ShapeFault::LevelPlanes {
                    level: level as usize,
                    found: levels[level as int].len() as usize,
                    expected: meta.n_planes_per_level,
                },
            ),
        )
    } else if plane >= levels[level as int].len() {
        first_plane_fault(levels, meta, level + 1, 0)
    } else if plane_fault(levels, meta, level as int, plane as int) is Some {
        plane_fault(levels, meta, level as int, plane as int)
    } else {
        first_plane_fault(levels, meta, level, plane + 1)
    }
}

pub open spec fn plane_desc(
    levels: Seq<Seq<PlaneModel>>,
    level: int,
    plane: int,
) -> PackedPlaneDesc {
    PackedPlaneDesc {
        width: levels[level][plane].width as u32,
        height: levels[level][plane].height as u32,
        channels: levels[level][plane].channels as u32,
        data_offset: data_before(levels, level as nat, plane as nat).len() as u32,
    }
}

/// The descriptions of the planes before a plane of a level.
pub open spec fn descs_before(levels: Seq<Seq<PlaneModel>>, level: nat, plane: nat) -> Seq<
    PackedPlaneDesc,
>
    decreases level, plane,
{
    if plane > 0 {
        descs_before(levels, level, (plane - 1) as nat).push(
            plane_desc(levels, level as int, plane - 1),
        )
    } else if level > 0 {
        descs_before(levels, (level - 1) as nat, levels[level - 1].len())
    } else {
        Seq::empty()
    }
}

/// Describes a plane that starts at an offset.
fn pack_plane(
    plane: &GridPlane,
    meta: &DeformationMetadata,
    level_index: usize,
    plane_index: usize,
    offset: usize,
    Ghost(levels): Ghost<Seq<Seq<PlaneModel>>>,
) -> (r: Result<PackedPlaneDesc, DeformationError>)
    requires
        plane.model() == levels[level_index as int][plane_index as int],
        offset == data_before(levels, level_index as nat, plane_index as nat).len(),
    ensures
        match r {
            Ok(desc) => {
                &&& plane_fault(levels, *meta, level_index as int, plane_index as int) is None
                &&& desc == plane_desc(levels, level_index as int, plane_index as int)
            },
            Err(error) => plane_fault(levels, *meta, level_index as int, plane_index as int)
                == Some(error),
        },
{
    if plane.channels != meta.feature_dim {
        return Err(
            DeformationError::ShapeMismatch(
                ShapeFault::PlaneChannels {
                    level: level_index,
                    plane: plane_index,
                    found: plane.channels,
                    expected: meta.feature_dim,
                },
            ),
        );
    }
    let shaped: bool = match plane.channels.checked_mul(plane.height) {
        Some(rows) => is_product(plane.data.len(), rows, plane.width),
        None => {
            proof {
                let len: usize = plane.data.len();
                if plane.width > 0 {
                    assert(plane.channels * plane.height * plane.width >= plane.channels
                        * plane.height) by (nonlinear_arith)
                        requires
                            plane.width > 0,
                            plane.channels * plane.height >= 0,
                    ;
                } else {
                    assert(plane.channels * plane.height * plane.width == 0) by (nonlinear_arith)
                        requires
                            plane.width == 0,
                    ;
                }
            }
            plane.width == 0 && plane.data.len() == 0
        },
    };
    if !shaped {
        return Err(
            DeformationError::ShapeMismatch(
                ShapeFault::PlaneData {
                    level: level_index,
                    plane: plane_index,
                    found: plane.data.len(),
                    expected: saturating_product(
                        saturating_product(plane.channels, plane.height),
                        plane.width,
                    ),
                },
            ),
        );
    }
    let width: u32 = match usize_to_u32(plane.width, PackLabel::PlaneWidth) {
        Ok(v) => v,
        Err(error) => {
            return Err(error);
        },
    };
    let height: u32 = match usize_to_u32(plane.height, PackLabel::PlaneHeight) {
        Ok(v) => v,
        Err(error) => {
            return Err(error);
        },
    };
    let channels: u32 = match usize_to_u32(plane.channels, PackLabel::PlaneChannels) {
        Ok(v) => v,
        Err(error) => {
            return Err(error);
        },
    };
    match usize_to_u32(offset, PackLabel::PlaneDataOffset) {
        Ok(data_offset) => Ok(PackedPlaneDesc { width, height, channels, data_offset }),
        Err(error) => Err(error),
    }
}

/// Packs the grid: the planes of all levels, then their values.
fn pack_planes(levels: &Vec<Vec<GridPlane>>, meta: &DeformationMetadata) -> (r: Result<
    (Vec<PackedPlaneDesc>, Vec<u32>),
    DeformationError,
>)
    ensures
        ({
            let models = crate::deformation::level_models(levels@);
            match r {
                Ok(packed) => {
                    &&& first_plane_fault(models, *meta, 0, 0) is None
                    &&& packed.0@ == descs_before(models, models.len(), 0)
                    &&& packed.1@ == data_before(models, models.len(), 0)
                },
                Err(error) => first_plane_fault(models, *meta, 0, 0) == Some(error),
            }
        }),
{
    let ghost models = crate::deformation::level_models(levels@);
    let mut descs: Vec<PackedPlaneDesc> = Vec::new();
    let mut data: Vec<u32> = Vec::new();
    for l in 0..levels.len()
        invariant
            models == crate::deformation::level_models(levels@),
            first_plane_fault(models, *meta, 0, 0) == first_plane_fault(models, *meta, l as nat, 0),
            descs@ == descs_before(models, l as nat, 0),
            data@ == data_before(models, l as nat, 0),
    {
        let planes: &Vec<GridPlane> = &levels[l];
        assert(models[l as int] == crate::deformation::plane_models(planes@));
        if planes.len() != meta.n_planes_per_level {
            return Err(
                DeformationError::ShapeMismatch(
                    ShapeFault::LevelPlanes {
                        level: l,
                        found: planes.len(),
                        expected: meta.n_planes_per_level,
                    },
                ),
            );
        }
        for p in 0..planes.len()
            invariant
                l < levels@.len(),
                *planes == levels@[l as int],
                models == crate::deformation::level_models(levels@),
                models[l as int] == crate::deformation::plane_models(planes@),
                planes@.len() == meta.n_planes_per_level,
                first_plane_fault(models, *meta, 0, 0) == first_plane_fault(
                    models,
                    *meta,
                    l as nat,
                    p as nat,
                ),
                descs@ == descs_before(models, l as nat, p as nat),
                data@ == data_before(models, l as nat, p as nat),
        {
            let plane: &GridPlane = &planes[p];
            match pack_plane(plane, meta, l, p, data.len(), Ghost(models)) {
                Ok(desc) => {
                    descs.push(desc);
                },
                Err(error) => {
                    return Err(error);
                },
            }
            append(&mut data, &plane.data);
        }
        assert(descs@ == descs_before(models, (l + 1) as nat, 0));
        assert(data@ == data_before(models, (l + 1) as nat, 0));
        assert(first_plane_fault(models, *meta, 0, 0) == first_plane_fault(
            models,
            *meta,
            (l + 1) as nat,
            0,
        ));
    }
    Ok((descs, data))
}

/// Why a network cannot be packed: grid first, then the perceptrons.
pub open spec fn pack_error(network: NetworkModel) -> Option<DeformationError> {
    if first_plane_fault(network.grid_levels, network.metadata, 0, 0) is Some {
        first_plane_fault(network.grid_levels, network.metadata, 0, 0)
    } else if first_layer_fault(network.feature_out, MlpName::FeatureOut, 0) is Some {
        first_layer_fault(network.feature_out, MlpName::FeatureOut, 0)
    } else if first_layer_fault(network.pos_deform, MlpName::PosDeform, 0) is Some {
        first_layer_fault(network.pos_deform, MlpName::PosDeform, 0)
    } else {
        first_layer_fault(network.rotations_deform, MlpName::RotationsDeform, 0)
    }
}

/// The buffers hold the network.
pub open spec fn packs(packed: PackedDeformationNetwork, network: NetworkModel) -> bool {
    &&& packed.metadata == network.metadata
    &&& packed.plane_descs@ == descs_before(network.grid_levels, network.grid_levels.len(), 0)
    &&& packed.plane_data@ == data_before(network.grid_levels, network.grid_levels.len(), 0)
    &&& packed.feature_layers@ == layer_descs(network.feature_out)
    &&& packed.feature_weights@ == weights_before(network.feature_out, network.feature_out.len())
    &&& packed.feature_bias@ == bias_before(network.feature_out, network.feature_out.len())
    &&& packed.pos_layers@ == layer_descs(network.pos_deform)
    &&& packed.pos_weights@ == weights_before(network.pos_deform, network.pos_deform.len())
    &&& packed.pos_bias@ == bias_before(network.pos_deform, network.pos_deform.len())
    &&& packed.rot_layers@ == layer_descs(network.rotations_deform)
    &&& packed.rot_weights@ == weights_before(
        network.rotations_deform,
        network.rotations_deform.len(),
    )
    &&& packed.rot_bias@ == bias_before(network.rotations_deform, network.rotations_deform.len())
}

impl DeformationNetwork {
    /// Packs the network for the GPU.
    pub fn pack_for_gpu(&self) -> (r: Result<PackedDeformationNetwork, DeformationError>)
        ensures
            match r {
                Ok(packed) => pack_error(self.model()) is None && packs(packed, self.model()),
                Err(error) => pack_error(self.model()) == Some(error),
            },
    {
        let (plane_descs, plane_data) = match pack_planes(&self.grid_levels, &self.metadata) {
            Ok(packed) => packed,
            Err(error) => {
                return Err(error);
            },
        };
        let (feature_layers, feature_weights, feature_bias) = match pack_mlp_layers(
            &self.feature_out,
            MlpName::FeatureOut,
        ) {
            Ok(packed) => packed,
            Err(error) => {
                return Err(error);
            },
        };
        let (pos_layers, pos_weights, pos_bias) = match pack_mlp_layers(
            &self.pos_deform,
            MlpName::PosDeform,
        ) {
            Ok(packed) => packed,
            Err(error) => {
                return Err(error);
            },
        };
        let (rot_layers, rot_weights, rot_bias) = match pack_mlp_layers(
            &self.rotations_deform,
            MlpName::RotationsDeform,
        ) {
            Ok(packed) => packed,
            Err(error) => {
                return Err(error);
            },
        };
        Ok(
            PackedDeformationNetwork {
                metadata: self.metadata,
                plane_descs,
                plane_data,
                feature_layers,
                feature_weights,
                feature_bias,
                pos_layers,
                pos_weights,
                pos_bias,
                rot_layers,
                rot_weights,
                rot_bias,
            },
        )
    }
}

/// The weights and biases of a layer stand in the buffers where its description says.
pub proof fn packed_layers_are_found(layers: Seq<LayerModel>, mlp: MlpName, i: int)
    requires
        first_layer_fault(layers, mlp, 0) is None,
        0 <= i < layers.len(),
    ensures
        ({
            let desc = layer_descs(layers)[i];
            let weights = weights_before(layers, layers.len());
            let bias = bias_before(layers, layers.len());
            let count = desc.in_features * desc.out_features;
            &&& desc.weight_offset + count <= weights.len()
            &&& weights.subrange(desc.weight_offset as int, desc.weight_offset + count)
                == layers[i].weights
            &&& desc.bias_offset + desc.out_features <= bias.len()
            &&& bias.subrange(desc.bias_offset as int, desc.bias_offset + desc.out_features)
                == layers[i].bias
        }),
{
    no_fault_at(layers, mlp, 0, i);
    buffers_grow(layers, (i + 1) as nat, layers.len());
    let weights = weights_before(layers, layers.len());
    let bias = bias_before(layers, layers.len());
    let start = weights_before(layers, i as nat).len() as int;
    let bias_start = bias_before(layers, i as nat).len() as int;
    let ended = weights_before(layers, (i + 1) as nat);
    let bias_ended = bias_before(layers, (i + 1) as nat);
    assert(weights.subrange(start, start + layers[i].weights.len()) =~= layers[i].weights) by {
        assert forall|k: int| 0 <= k < layers[i].weights.len() implies weights[start + k]
            == layers[i].weights[k] by {
            assert(weights[start + k] == ended[start + k]);
        }
    }
    assert(bias.subrange(bias_start, bias_start + layers[i].bias.len()) =~= layers[i].bias) by {
        assert forall|k: int| 0 <= k < layers[i].bias.len() implies bias[bias_start + k]
            == layers[i].bias[k] by {
            assert(bias[bias_start + k] == bias_ended[bias_start + k]);
        }
    }
}

proof fn no_fault_at(layers: Seq<LayerModel>, mlp: MlpName, from: nat, i: int)
    requires
        first_layer_fault(layers, mlp, from) is None,
        from <= i < layers.len(),
    ensures
        layer_fault(layers, mlp, i) is None,
    decreases i - from,
{
    if from < i {
        no_fault_at(layers, mlp, from + 1, i);
    }
}

proof fn buffers_grow(layers: Seq<LayerModel>, n: nat, total: nat)
    requires
        n <= total,
    ensures
        weights_before(layers, n).len() <= weights_before(layers, total).len(),
        bias_before(layers, n).len() <= bias_before(layers, total).len(),
        forall|k: int|
            0 <= k < weights_before(layers, n).len() ==> #[trigger] weights_before(
                layers,
                total,
            )[k] == weights_before(layers, n)[k],
        forall|k: int|
            0 <= k < bias_before(layers, n).len() ==> #[trigger] bias_before(layers, total)[k]
                == bias_before(layers, n)[k],
    decreases total - n,
{
    if n < total {
        buffers_grow(layers, n, (total - 1) as nat);
    }
}

/// A network that was read is consistent: as many levels as its header says, six planes in each,
/// planes with as many channels as there are features, and every plane and layer with as many
/// values as its dimensions say.
pub proof fn parsed_networks_are_consistent(bytes: Seq<u8>, spans: [u32; 3])
    requires
        crate::deformation::parsed_network(bytes, spans) is Ok,
    ensures
        ({
            let network = crate::deformation::parsed_network(bytes, spans)->Ok_0;
            &&& network.grid_levels.len() == network.metadata.n_grid_levels
            &&& network.metadata.n_planes_per_level == PLANE_COUNT
            &&& forall|l: int|
                0 <= l < network.grid_levels.len() ==> (
                #[trigger] network.grid_levels[l]).len() == PLANE_COUNT
            &&& forall|l: int, p: int|
                0 <= l < network.grid_levels.len() && 0 <= p < network.grid_levels[l].len()
                    ==> plane_shaped(#[trigger] network.grid_levels[l][p])
                    && network.grid_levels[l][p].channels == network.metadata.feature_dim
            &&& forall|i: int|
                0 <= i < network.feature_out.len() ==> layer_shaped(
                    #[trigger] network.feature_out[i],
                )
            &&& forall|i: int|
                0 <= i < network.pos_deform.len() ==> layer_shaped(#[trigger] network.pos_deform[i])
            &&& forall|i: int|
                0 <= i < network.rotations_deform.len() ==> layer_shaped(
                    #[trigger] network.rotations_deform[i],
                )
        }),
{
    let meta = crate::deformation::header_metadata(bytes);
    levels_are_shaped(bytes, 72, meta.feature_dim, meta.n_grid_levels as nat);
    let (_, feature_start) = crate::deformation::levels_before(
        bytes,
        72,
        meta.feature_dim,
        meta.n_grid_levels as nat,
    )->Ok_0;
    mlp_is_shaped(bytes, feature_start, MlpName::FeatureOut);
    let (_, pos_start) = crate::deformation::mlp_at(
        bytes,
        feature_start,
        MlpName::FeatureOut,
    )->Ok_0;
    mlp_is_shaped(bytes, pos_start, MlpName::PosDeform);
    let (_, rotation_start) = crate::deformation::mlp_at(
        bytes,
        pos_start,
        MlpName::PosDeform,
    )->Ok_0;
    mlp_is_shaped(bytes, rotation_start, MlpName::RotationsDeform);
}

proof fn mlp_is_shaped(bytes: Seq<u8>, at: int, mlp: MlpName)
    ensures
        crate::deformation::mlp_at(bytes, at, mlp) matches Ok((layers, _)) ==> forall|i: int|
            0 <= i < layers.len() ==> layer_shaped(#[trigger] layers[i]),
{
    layers_are_shaped(bytes, at + 4, mlp, crate::bytes::le_u32(bytes, at) as nat);
}

proof fn layers_are_shaped(bytes: Seq<u8>, at: int, mlp: MlpName, n: nat)
    ensures
        crate::deformation::layers_before(bytes, at, mlp, n) matches Ok((layers, _)) ==> forall|
            i: int,
        |
            0 <= i < layers.len() ==> layer_shaped(#[trigger] layers[i]),
    decreases n,
{
    if n > 0 {
        layers_are_shaped(bytes, at, mlp, (n - 1) as nat);
    }
}

proof fn planes_are_shaped(bytes: Seq<u8>, at: int, channels: usize, level: int, n: nat)
    ensures
        crate::deformation::planes_before(bytes, at, channels, level, n) matches Ok((planes, _))
            ==> planes.len() == n && forall|i: int|
            0 <= i < planes.len() ==> plane_shaped(#[trigger] planes[i]) && planes[i].channels
                == channels,
    decreases n,
{
    if n > 0 {
        planes_are_shaped(bytes, at, channels, level, (n - 1) as nat);
    }
}

proof fn levels_are_shaped(bytes: Seq<u8>, at: int, channels: usize, n: nat)
    ensures
        crate::deformation::levels_before(bytes, at, channels, n) matches Ok((levels, _)) ==> {
            &&& levels.len() == n
            &&& forall|l: int| 0 <= l < n ==> (#[trigger] levels[l]).len() == PLANE_COUNT
            &&& forall|l: int, p: int|
                0 <= l < n && 0 <= p < levels[l].len() ==> plane_shaped(#[trigger] levels[l][p])
                    && levels[l][p].channels == channels
        },
    decreases n,
{
    if n > 0 {
        levels_are_shaped(bytes, at, channels, (n - 1) as nat);
        if let Ok((levels, next)) = crate::deformation::levels_before(
            bytes,
            at,
            channels,
            (n - 1) as nat,
        ) {
            planes_are_shaped(bytes, next, channels, n - 1, PLANE_COUNT as nat);
        }
    }
}

/// Planes lie behind each other from the start of the buffer to its end.
pub open spec fn planes_tile(descs: Seq<PackedPlaneDesc>, total: int) -> bool {
    &&& descs.len() == 0 ==> total == 0
    &&& descs.len() > 0 ==> descs[0].data_offset == 0 && plane_end(descs.last()) == total
    &&& forall|i: int|
        0 < i < descs.len() ==> (#[trigger] descs[i]).data_offset == plane_end(descs[i - 1])
}

/// Where the values of a plane end.
pub open spec fn plane_end(desc: PackedPlaneDesc) -> int {
    desc.data_offset + desc.width * desc.height * desc.channels
}

/// Layers lie behind each other from the start of the weights and biases to their ends.
pub open spec fn layers_tile(descs: Seq<PackedMlpLayerDesc>, weights: int, bias: int) -> bool {
    &&& descs.len() == 0 ==> weights == 0 && bias == 0
    &&& descs.len() > 0 ==> {
        &&& descs[0].weight_offset == 0
        &&& descs[0].bias_offset == 0
        &&& weights_end(descs.last()) == weights
        &&& bias_end(descs.last()) == bias
    }
    &&& forall|i: int|
        0 < i < descs.len() ==> (#[trigger] descs[i]).weight_offset == weights_end(descs[i - 1])
            && descs[i].bias_offset == bias_end(descs[i - 1])
}

/// Where the weights of a layer end.
pub open spec fn weights_end(desc: PackedMlpLayerDesc) -> int {
    desc.weight_offset + desc.in_features * desc.out_features
}

/// Where the biases of a layer end.
pub open spec fn bias_end(desc: PackedMlpLayerDesc) -> int {
    desc.bias_offset + desc.out_features
}

/// Sizes and offsets of a grid are 32-bit numbers.
pub open spec fn grid_fits(levels: Seq<Seq<PlaneModel>>) -> bool {
    forall|l: int, p: int|
        0 <= l < levels.len() && 0 <= p < levels[l].len() ==> {
            &&& (#[trigger] levels[l][p]).width <= u32::MAX
            &&& levels[l][p].height <= u32::MAX
            &&& levels[l][p].channels <= u32::MAX
            &&& data_before(levels, l as nat, p as nat).len() <= u32::MAX
        }
}

/// Sizes and offsets of a perceptron are 32-bit numbers.
pub open spec fn layers_fit(layers: Seq<LayerModel>) -> bool {
    forall|i: int|
        0 <= i < layers.len() ==> {
            &&& (#[trigger] layers[i]).in_features <= u32::MAX
            &&& layers[i].out_features <= u32::MAX
            &&& weights_before(layers, i as nat).len() <= u32::MAX
            &&& bias_before(layers, i as nat).len() <= u32::MAX
        }
}

/// A network that was read can be packed if all its sizes and offsets are 32-bit numbers.
pub proof fn parsed_networks_can_be_packed(bytes: Seq<u8>, spans: [u32; 3])
    requires
        crate::deformation::parsed_network(bytes, spans) is Ok,
        grid_fits((crate::deformation::parsed_network(bytes, spans)->Ok_0).grid_levels),
        layers_fit((crate::deformation::parsed_network(bytes, spans)->Ok_0).feature_out),
        layers_fit((crate::deformation::parsed_network(bytes, spans)->Ok_0).pos_deform),
        layers_fit((crate::deformation::parsed_network(bytes, spans)->Ok_0).rotations_deform),
    ensures
        pack_error(crate::deformation::parsed_network(bytes, spans)->Ok_0) is None,
{
    parsed_networks_are_consistent(bytes, spans);
    let network = crate::deformation::parsed_network(bytes, spans)->Ok_0;
    fitting_planes_have_no_fault(network.grid_levels, network.metadata, 0, 0);
    fitting_layers_have_no_fault(network.feature_out, MlpName::FeatureOut, 0);
    fitting_layers_have_no_fault(network.pos_deform, MlpName::PosDeform, 0);
    fitting_layers_have_no_fault(network.rotations_deform, MlpName::RotationsDeform, 0);
}

proof fn fitting_planes_have_no_fault(
    levels: Seq<Seq<PlaneModel>>,
    meta: DeformationMetadata,
    level: nat,
    plane: nat,
)
    requires
        grid_fits(levels),
        forall|l: int|
            0 <= l < levels.len() ==> (#[trigger] levels[l]).len() == meta.n_planes_per_level,
        forall|l: int, p: int|
            0 <= l < levels.len() && 0 <= p < levels[l].len() ==> plane_shaped(
                #[trigger] levels[l][p],
            ) && levels[l][p].channels == meta.feature_dim,
    ensures
        first_plane_fault(levels, meta, level, plane) is None,
    decreases levels.len() - level, levels[level as int].len() - plane,
{
    if level < levels.len() {
        assert(levels[level as int].len() == meta.n_planes_per_level);
        if plane >= levels[level as int].len() {
            fitting_planes_have_no_fault(levels, meta, level + 1, 0);
        } else {
            let model = levels[level as int][plane as int];
            assert(plane_shaped(model));
            fitting_planes_have_no_fault(levels, meta, level, plane + 1);
        }
    }
}

proof fn fitting_layers_have_no_fault(layers: Seq<LayerModel>, mlp: MlpName, from: nat)
    requires
        layers_fit(layers),
        forall|i: int| 0 <= i < layers.len() ==> layer_shaped(#[trigger] layers[i]),
    ensures
        first_layer_fault(layers, mlp, from) is None,
    decreases layers.len() - from,
{
    if from < layers.len() {
        assert(layer_shaped(layers[from as int]));
        fitting_layers_have_no_fault(layers, mlp, from + 1);
    }
}

/// In a packed network, planes and layers fill their buffers without gaps or overlaps, and there is
/// one plane description for each plane of each level.
pub proof fn packed_buffers_are_tiled(network: NetworkModel, packed: PackedDeformationNetwork)
    requires
        pack_error(network) is None,
        packs(packed, network),
    ensures
        packed.plane_descs@.len() == network.grid_levels.len()
            * network.metadata.n_planes_per_level,
        planes_tile(packed.plane_descs@, packed.plane_data@.len() as int),
        layers_tile(
            packed.feature_layers@,
            packed.feature_weights@.len() as int,
            packed.feature_bias@.len() as int,
        ),
        layers_tile(
            packed.pos_layers@,
            packed.pos_weights@.len() as int,
            packed.pos_bias@.len() as int,
        ),
        layers_tile(
            packed.rot_layers@,
            packed.rot_weights@.len() as int,
            packed.rot_bias@.len() as int,
        ),
{
    planes_are_tiled(network.grid_levels, network.metadata, network.grid_levels.len(), 0);
    layers_are_tiled(network.feature_out, MlpName::FeatureOut);
    layers_are_tiled(network.pos_deform, MlpName::PosDeform);
    layers_are_tiled(network.rotations_deform, MlpName::RotationsDeform);
}

proof fn no_plane_fault_at(
    levels: Seq<Seq<PlaneModel>>,
    meta: DeformationMetadata,
    level: nat,
    plane: nat,
    l: int,
    p: int,
)
    requires
        first_plane_fault(levels, meta, level, plane) is None,
        level <= l < levels.len(),
        level == l ==> plane <= p,
        level < l ==> plane <= levels[level as int].len(),
        0 <= p <= levels[l].len(),
    ensures
        p < levels[l].len() ==> plane_fault(levels, meta, l, p) is None,
        level < l || plane == 0 ==> levels[l].len() == meta.n_planes_per_level,
    decreases levels.len() - level, levels[level as int].len() - plane,
{
    if level < l {
        if plane >= levels[level as int].len() {
            no_plane_fault_at(levels, meta, level + 1, 0, l, p);
        } else {
            no_plane_fault_at(levels, meta, level, plane + 1, l, p);
        }
    } else if plane < p {
        no_plane_fault_at(levels, meta, level, plane + 1, l, p);
    }
}

proof fn planes_are_tiled(
    levels: Seq<Seq<PlaneModel>>,
    meta: DeformationMetadata,
    level: nat,
    plane: nat,
)
    requires
        first_plane_fault(levels, meta, 0, 0) is None,
        level <= levels.len(),
        level < levels.len() ==> plane <= levels[level as int].len(),
        level == levels.len() ==> plane == 0,
    ensures
        planes_tile(
            descs_before(levels, level, plane),
            data_before(levels, level, plane).len() as int,
        ),
        descs_before(levels, level, plane).len() == level * meta.n_planes_per_level + plane,
    decreases level, plane,
{
    let descs = descs_before(levels, level, plane);
    if plane > 0 {
        planes_are_tiled(levels, meta, level, (plane - 1) as nat);
        no_plane_fault_at(levels, meta, 0, 0, level as int, plane - 1);
        let before = descs_before(levels, level, (plane - 1) as nat);
        let model = levels[level as int][plane - 1];
        let desc = plane_desc(levels, level as int, plane - 1);
        assert(model.channels * model.height * model.width == model.width * model.height
            * model.channels) by (nonlinear_arith);
        assert(plane_end(desc) == data_before(levels, level, plane).len());
        assert(descs.drop_last() =~= before);
        assert forall|i: int| 0 < i < descs.len() implies (#[trigger] descs[i]).data_offset
            == plane_end(descs[i - 1]) by {
            assert(descs[i - 1] == before[i - 1]);
            if i < before.len() {
                assert(descs[i] == before[i]);
            }
        }
        if before.len() > 0 {
            assert(descs[0] == before[0]);
        }
    } else if level > 0 {
        no_plane_fault_at(levels, meta, 0, 0, level - 1, 0);
        planes_are_tiled(levels, meta, (level - 1) as nat, levels[level - 1].len());
        assert(level * meta.n_planes_per_level == (level - 1) * meta.n_planes_per_level
            + meta.n_planes_per_level) by (nonlinear_arith)
            requires
                level > 0,
        ;
    } else {
        assert(0 * meta.n_planes_per_level == 0);
    }
}

proof fn layers_are_tiled(layers: Seq<LayerModel>, mlp: MlpName)
    requires
        first_layer_fault(layers, mlp, 0) is None,
    ensures
        layers_tile(
            layer_descs(layers),
            weights_before(layers, layers.len()).len() as int,
            bias_before(layers, layers.len()).len() as int,
        ),
{
    let descs = layer_descs(layers);
    if layers.len() > 0 {
        no_fault_at(layers, mlp, 0, 0);
        no_fault_at(layers, mlp, 0, layers.len() - 1);
    }
    assert forall|i: int| 0 < i < descs.len() implies (#[trigger] descs[i]).weight_offset
        == weights_end(descs[i - 1]) && descs[i].bias_offset == bias_end(descs[i - 1]) by {
        no_fault_at(layers, mlp, 0, i);
        no_fault_at(layers, mlp, 0, i - 1);
    }
}

} // verus!
