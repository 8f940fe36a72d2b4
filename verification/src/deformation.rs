//! The deformation network: its file format and the buffers that the GPU evaluates it from.
//!
//! Weights, grid values and bounds are bit patterns of single-precision numbers.

use crate::basis_bank_edit::saturating_product;
use crate::bytes::{le_u32_at, le_u32_vec};
use crate::deformation_errors::{FormatFault, MlpName, ShapeFault};
use vstd::prelude::*;

pub use crate::deformation_errors::DeformationError;
pub use crate::deformation_packing::{
    PackedDeformationNetwork, PackedMlpLayerDesc, PackedPlaneDesc,
};

verus! {

/// Planes of a grid level: one for each pair of the four coordinates.
pub const PLANE_COUNT: usize = 6;

/// Bytes of the header.
pub const HEADER_SIZE: usize = 72;

/// Bit pattern of `1.0e-8`: an axis of the bounds that is shorter is degenerate.
pub const MIN_AXIS_SPAN: u32 = 0x322b_cc77;

/// The data ends before a value.
pub open spec fn eof(offset: int, needed: int, len: int) -> DeformationError {
    DeformationError::UnexpectedEof {
        offset: offset as usize,
        needed: if needed > usize::MAX {
            usize::MAX
        } else {
            needed as usize
        },
        len: len as usize,
    }
}

/// Reads a byte buffer from front to back.
pub struct ByteReader<'a> {
    pub data: &'a [u8],
    pub offset: usize,
}

impl<'a> ByteReader<'a> {
    pub open spec fn well_formed(self) -> bool {
        self.offset <= self.data@.len()
    }

    pub fn new(data: &'a [u8]) -> (r: ByteReader<'a>)
        ensures
            r.well_formed(),
            r.data == data,
            r.offset == 0,
    {
        ByteReader { data, offset: 0 }
    }

    /// The next `n` bytes.
    pub fn read_exact(&mut self, n: usize) -> (r: Result<&'a [u8], DeformationError>)
        requires
            old(self).well_formed(),
        ensures
            final(self).well_formed(),
            final(self).data == old(self).data,
            match r {
                Ok(bytes) => {
                    &&& old(self).offset + n <= old(self).data@.len()
                    &&& bytes@ == old(self).data@.subrange(
                        old(self).offset as int,
                        old(self).offset + n,
                    )
                    &&& final(self).offset == old(self).offset + n
                },
                Err(error) => {
                    &&& old(self).offset + n > old(self).data@.len()
                    &&& error == eof(old(self).offset as int, n as int, old(self).data@.len() as int)
                    &&& final(self).offset == old(self).offset
                },
            },
    {
        if n > self.data.len() - self.offset {
            return Err(
                DeformationError::UnexpectedEof {
                    offset: self.offset,
                    needed: n,
                    len: self.data.len(),
                },
            );
        }
        let start: usize = self.offset;
        self.offset = self.offset + n;
        Ok(vstd::slice::slice_subrange(self.data, start, start + n))
    }

    /// The next number.
    pub fn read_u32(&mut self) -> (r: Result<u32, DeformationError>)
        requires
            old(self).well_formed(),
        ensures
            final(self).well_formed(),
            final(self).data == old(self).data,
            match r {
                Ok(v) => {
                    &&& old(self).offset + 4 <= old(self).data@.len()
                    &&& v == crate::bytes::le_u32(old(self).data@, old(self).offset as int)
                    &&& final(self).offset == old(self).offset + 4
                },
                Err(error) => {
                    &&& old(self).offset + 4 > old(self).data@.len()
                    &&& error == eof(old(self).offset as int, 4, old(self).data@.len() as int)
                    &&& final(self).offset == old(self).offset
                },
            },
    {
        let start: usize = self.offset;
        let bytes: &'a [u8] = match self.read_exact(4) {
            Ok(bytes) => bytes,
            Err(error) => {
                return Err(error);
            },
        };
        Ok(le_u32_at(bytes, 0))
    }

    /// The next `n` numbers.
    pub fn read_f32_vec(&mut self, n: usize) -> (r: Result<Vec<u32>, DeformationError>)
        requires
            old(self).well_formed(),
        ensures
            final(self).well_formed(),
            final(self).data == old(self).data,
            match r {
                Ok(v) => {
                    &&& old(self).offset + 4 * n <= old(self).data@.len()
                    &&& v@ == crate::bytes::le_u32_run(
                        old(self).data@,
                        old(self).offset as int,
                        n as nat,
                    )
                    &&& final(self).offset == old(self).offset + 4 * n
                },
                Err(error) => {
                    &&& old(self).offset + 4 * n > old(self).data@.len()
                    &&& error == eof(
                        old(self).offset as int,
                        4 * n,
                        old(self).data@.len() as int,
                    )
                    &&& final(self).offset == old(self).offset
                },
            },
    {
        let start: usize = self.offset;
        match n.checked_mul(4) {
            Some(needed) => match self.read_exact(needed) {
                Ok(_) => Ok(le_u32_vec(self.data, start, n)),
                Err(error) => Err(error),
            },
            None => Err(
                DeformationError::UnexpectedEof {
                    offset: self.offset,
                    needed: usize::MAX,
                    len: self.data.len(),
                },
            ),
        }
    }

    /// Bytes that are left.
    pub fn remaining(&self) -> (r: usize)
        requires
            self.well_formed(),
        ensures
            r == self.data@.len() - self.offset,
    {
        self.data.len() - self.offset
    }
}

/// A plane of a grid, `(channel * height + row) * width + column`.
#[derive(Debug)]
pub struct GridPlane {
    pub channels: usize,
    pub height: usize,
    pub width: usize,
    pub data: Vec<u32>,
}

/// A layer of a perceptron: `weights[out * in_features + in]` and `bias[out]`.
#[derive(Debug)]
pub struct MlpLayer {
    pub in_features: usize,
    pub out_features: usize,
    pub has_relu_before: bool,
    pub weights: Vec<u32>,
    pub bias: Vec<u32>,
}

#[derive(Debug)]
pub struct Mlp {
    pub layers: Vec<MlpLayer>,
}

/// The dimensions of a network; bounds, scale and offset are bit patterns.
#[derive(Debug, Clone, Copy)]
pub struct DeformationMetadata {
    pub n_grid_levels: usize,
    pub n_planes_per_level: usize,
    pub feature_dim: usize,
    pub net_width: usize,
    pub n_time_frames: usize,
    pub aabb_max: [u32; 3],
    pub aabb_min: [u32; 3],
    pub scale_factor: u32,
    pub source_offset: [u32; 3],
}

#[derive(Debug)]
pub struct DeformationNetwork {
    pub metadata: DeformationMetadata,
    pub grid_levels: Vec<Vec<GridPlane>>,
    pub feature_out: Mlp,
    pub pos_deform: Mlp,
    pub rotations_deform: Mlp,
}

/// The contents of a plane.
pub struct PlaneModel {
    pub channels: usize,
    pub height: usize,
    pub width: usize,
    pub data: Seq<u32>,
}

/// The contents of a layer.
pub struct LayerModel {
    pub in_features: usize,
    pub out_features: usize,
    pub has_relu_before: bool,
    pub weights: Seq<u32>,
    pub bias: Seq<u32>,
}

/// The contents of a network.
pub struct NetworkModel {
    pub metadata: DeformationMetadata,
    pub grid_levels: Seq<Seq<PlaneModel>>,
    pub feature_out: Seq<LayerModel>,
    pub pos_deform: Seq<LayerModel>,
    pub rotations_deform: Seq<LayerModel>,
}

impl GridPlane {
    pub open spec fn model(self) -> PlaneModel {
        PlaneModel {
            channels: self.channels,
            height: self.height,
            width: self.width,
            data: self.data@,
        }
    }
}

impl MlpLayer {
    pub open spec fn model(self) -> LayerModel {
        LayerModel {
            in_features: self.in_features,
            out_features: self.out_features,
            has_relu_before: self.has_relu_before,
            weights: self.weights@,
            bias: self.bias@,
        }
    }
}

pub open spec fn plane_models(planes: Seq<GridPlane>) -> Seq<PlaneModel> {
    Seq::new(planes.len(), |i: int| planes[i].model())
}

pub open spec fn level_models(levels: Seq<Vec<GridPlane>>) -> Seq<Seq<PlaneModel>> {
    Seq::new(levels.len(), |i: int| plane_models(levels[i]@))
}

pub open spec fn layer_models(layers: Seq<MlpLayer>) -> Seq<LayerModel> {
    Seq::new(layers.len(), |i: int| layers[i].model())
}

impl DeformationNetwork {
    pub open spec fn model(self) -> NetworkModel {
        NetworkModel {
            metadata: self.metadata,
            grid_levels: level_models(self.grid_levels@),
            feature_out: layer_models(self.feature_out.layers@),
            pos_deform: layer_models(self.pos_deform.layers@),
            rotations_deform: layer_models(self.rotations_deform.layers@),
        }
    }

    pub fn metadata(&self) -> (r: &DeformationMetadata)
        ensures
            *r == self.metadata,
    {
        &self.metadata
    }
}

/// The layer at an offset, and the offset behind it.
pub open spec fn layer_at(bytes: Seq<u8>, at: int, mlp: MlpName, layer: int) -> Result<
    (LayerModel, int),
    DeformationError,
> {
    let len = bytes.len() as int;
    let inputs = crate::bytes::le_u32(bytes, at);
    let outputs = crate::bytes::le_u32(bytes, at + 4);
    let relu = crate::bytes::le_u32(bytes, at + 8);
    let weights_end = at + 12 + 4 * (inputs * outputs);
    if at + 4 > len {
        Err(eof(at, 4, len))
    } else if at + 8 > len {
        Err(eof(at + 4, 4, len))
    } else if at + 12 > len {
        Err(eof(at + 8, 4, len))
    } else if relu > 1 {
        Err(
            DeformationError::InvalidFormat(
                FormatFault::ReluFlag { mlp, layer: layer as usize, value: relu },
            ),
        )
    } else if inputs == 0 || outputs == 0 {
        Err(
            DeformationError::InvalidFormat(
                FormatFault::LayerShape {
                    mlp,
                    layer: layer as usize,
                    in_features: inputs as usize,
                    out_features: outputs as usize,
                },
            ),
        )
    } else if weights_end > len {
        Err(eof(at + 12, 4 * (inputs * outputs), len))
    } else if weights_end + 4 * outputs > len {
        Err(eof(weights_end, 4 * outputs, len))
    } else {
        Ok(
            (
                LayerModel {
                    in_features: inputs as usize,
                    out_features: outputs as usize,
                    has_relu_before: relu == 1,
                    weights: crate::bytes::le_u32_run(
                        bytes,
                        at + 12,
                        (inputs * outputs) as nat,
                    ),
                    bias: crate::bytes::le_u32_run(bytes, weights_end, outputs as nat),
                },
                weights_end + 4 * outputs,
            ),
        )
    }
}

/// The first `n` layers from an offset on, and the offset behind them.
pub open spec fn layers_before(bytes: Seq<u8>, at: int, mlp: MlpName, n: nat) -> Result<
    (Seq<LayerModel>, int),
    DeformationError,
>
    decreases n,
{
    if n == 0 {
        Ok((Seq::empty(), at))
    } else {
        match layers_before(bytes, at, mlp, (n - 1) as nat) {
            Err(error) => Err(error),
            Ok((layers, next)) => match layer_at(bytes, next, mlp, n - 1) {
                Err(error) => Err(error),
                Ok((layer, end)) => Ok((layers.push(layer), end)),
            },
        }
    }
}

/// The perceptron at an offset, and the offset behind it.
pub open spec fn mlp_at(bytes: Seq<u8>, at: int, mlp: MlpName) -> Result<
    (Seq<LayerModel>, int),
    DeformationError,
> {
    if at + 4 > bytes.len() {
        Err(eof(at, 4, bytes.len() as int))
    } else if crate::bytes::le_u32(bytes, at) == 0 {
        Err(DeformationError::InvalidFormat(FormatFault::NoLayers { mlp }))
    } else {
        layers_before(bytes, at + 4, mlp, crate::bytes::le_u32(bytes, at) as nat)
    }
}

proof fn layer_failure_spreads(bytes: Seq<u8>, at: int, mlp: MlpName, n: nat, total: nat)
    requires
        n <= total,
        layers_before(bytes, at, mlp, n) is Err,
    ensures
        layers_before(bytes, at, mlp, total) == layers_before(bytes, at, mlp, n),
    decreases total - n,
{
    if n < total {
        layer_failure_spreads(bytes, at, mlp, n, (total - 1) as nat);
    }
}

fn read_layer(reader: &mut ByteReader<'_>, mlp: MlpName, layer: usize) -> (r: Result<
    MlpLayer,
    DeformationError,
>)
    requires
        old(reader).well_formed(),
    ensures
        final(reader).well_formed(),
        final(reader).data == old(reader).data,
        ({
            let expected = layer_at(
                old(reader).data@,
                old(reader).offset as int,
                mlp,
                layer as int,
            );
            match r {
                Ok(l) => expected == Ok::<(LayerModel, int), DeformationError>(
                    (l.model(), final(reader).offset as int),
                ),
                Err(error) => expected == Err::<(LayerModel, int), DeformationError>(error),
            }
        }),
{
    let total: usize = reader.data.len();
    let in_features: usize = match reader.read_u32() {
        Ok(v) => v as usize,
        Err(error) => {
            return Err(error);
        },
    };
    let out_features: usize = match reader.read_u32() {
        Ok(v) => v as usize,
        Err(error) => {
            return Err(error);
        },
    };
    let relu: u32 = match reader.read_u32() {
        Ok(v) => v,
        Err(error) => {
            return Err(error);
        },
    };
    if relu > 1 {
        return Err(
            DeformationError::InvalidFormat(FormatFault::ReluFlag { mlp, layer, value: relu }),
        );
    }
    if in_features == 0 || out_features == 0 {
        return Err(
            DeformationError::InvalidFormat(
                FormatFault::LayerShape { mlp, layer, in_features, out_features },
            ),
        );
    }
    let weights: Vec<u32> = match reader.read_f32_vec(saturating_product(in_features, out_features)) {
        Ok(v) => v,
        Err(error) => {
            return Err(error);
        },
    };
    let bias: Vec<u32> = match reader.read_f32_vec(out_features) {
        Ok(v) => v,
        Err(error) => {
            return Err(error);
        },
    };
    Ok(MlpLayer { in_features, out_features, has_relu_before: relu == 1, weights, bias })
}

impl Mlp {
    /// Reads a perceptron.
    pub fn from_reader(reader: &mut ByteReader<'_>, mlp: MlpName) -> (r: Result<
        Mlp,
        DeformationError,
    >)
        requires
            old(reader).well_formed(),
        ensures
            final(reader).well_formed(),
            final(reader).data == old(reader).data,
            ({
                let expected = mlp_at(old(reader).data@, old(reader).offset as int, mlp);
                match r {
                    Ok(m) => {
                        &&& expected == Ok::<(Seq<LayerModel>, int), DeformationError>(
                            (layer_models(m.layers@), final(reader).offset as int),
                        )
                        &&& m.layers@.len() > 0
                    },
                    Err(error) => expected == Err::<(Seq<LayerModel>, int), DeformationError>(
                        error,
                    ),
                }
            }),
    {
        let ghost at = reader.offset as int;
        let ghost bytes = reader.data@;
        let n_layers: usize = match reader.read_u32() {
            Ok(v) => v as usize,
            Err(error) => {
                return Err(error);
            },
        };
        if n_layers == 0 {
            return Err(DeformationError::InvalidFormat(FormatFault::NoLayers { mlp }));
        }
        let mut layers: Vec<MlpLayer> = Vec::new();
        assert(layer_models(layers@) =~= Seq::empty());
        for i in 0..n_layers
            invariant
                reader.well_formed(),
                reader.data == old(reader).data,
                bytes == old(reader).data@,
                at == old(reader).offset,
                n_layers == crate::bytes::le_u32(bytes, at),
                mlp_at(bytes, at, mlp) == layers_before(bytes, at + 4, mlp, n_layers as nat),
                layers@.len() == i,
                layers_before(bytes, at + 4, mlp, i as nat) == Ok::<
                    (Seq<LayerModel>, int),
                    DeformationError,
                >((layer_models(layers@), reader.offset as int)),
        {
            let ghost before = layers@;
            match read_layer(reader, mlp, i) {
                Ok(layer) => {
                    layers.push(layer);
                    assert(layer_models(layers@) =~= layer_models(before).push(layer.model()));
                },
                Err(error) => {
                    proof {
                        layer_failure_spreads(
                            bytes,
                            at + 4,
                            mlp,
                            (i + 1) as nat,
                            n_layers as nat,
                        );
                    }
                    return Err(error);
                },
            }
        }
        Ok(Mlp { layers })
    }

    /// Features that the first layer takes.
    pub fn input_dim(&self) -> (r: usize)
        ensures
            r == input_features(layer_models(self.layers@)),
    {
        if self.layers.len() == 0 {
            0
        } else {
            self.layers[0].in_features
        }
    }

    /// Features that the last layer gives.
    pub fn output_dim(&self) -> (r: usize)
        ensures
            r == output_features(layer_models(self.layers@)),
    {
        if self.layers.len() == 0 {
            0
        } else {
            self.layers[self.layers.len() - 1].out_features
        }
    }
}

pub open spec fn input_features(layers: Seq<LayerModel>) -> usize {
    if layers.len() == 0 {
        0
    } else {
        layers[0].in_features
    }
}

pub open spec fn output_features(layers: Seq<LayerModel>) -> usize {
    if layers.len() == 0 {
        0
    } else {
        layers.last().out_features
    }
}

/// The plane at an offset, and the offset behind it.
pub open spec fn plane_at(
    bytes: Seq<u8>,
    at: int,
    channels: usize,
    level: int,
    plane: int,
) -> Result<(PlaneModel, int), DeformationError> {
    let len = bytes.len() as int;
    let height = crate::bytes::le_u32(bytes, at);
    let width = crate::bytes::le_u32(bytes, at + 4);
    let values = channels * height * width;
    if at + 4 > len {
        Err(eof(at, 4, len))
    } else if at + 8 > len {
        Err(eof(at + 4, 4, len))
    } else if height == 0 || width == 0 {
        Err(
            DeformationError::InvalidFormat(
                FormatFault::PlaneShape {
                    level: level as usize,
                    plane: plane as usize,
                    height: height as usize,
                    width: width as usize,
                },
            ),
        )
    } else if at + 8 + 4 * values > len {
        Err(eof(at + 8, 4 * values, len))
    } else {
        Ok(
            (
                PlaneModel {
                    channels,
                    height: height as usize,
                    width: width as usize,
                    data: crate::bytes::le_u32_run(bytes, at + 8, values as nat),
                },
                at + 8 + 4 * values,
            ),
        )
    }
}

/// The first `n` planes of a level, and the offset behind them.
pub open spec fn planes_before(
    bytes: Seq<u8>,
    at: int,
    channels: usize,
    level: int,
    n: nat,
) -> Result<(Seq<PlaneModel>, int), DeformationError>
    decreases n,
{
    if n == 0 {
        Ok((Seq::empty(), at))
    } else {
        match planes_before(bytes, at, channels, level, (n - 1) as nat) {
            Err(error) => Err(error),
            Ok((planes, next)) => match plane_at(bytes, next, channels, level, n - 1) {
                Err(error) => Err(error),
                Ok((plane, end)) => Ok((planes.push(plane), end)),
            },
        }
    }
}

/// The first `n` levels, and the offset behind them.
pub open spec fn levels_before(bytes: Seq<u8>, at: int, channels: usize, n: nat) -> Result<
    (Seq<Seq<PlaneModel>>, int),
    DeformationError,
>
    decreases n,
{
    if n == 0 {
        Ok((Seq::empty(), at))
    } else {
        match levels_before(bytes, at, channels, (n - 1) as nat) {
            Err(error) => Err(error),
            Ok((levels, next)) => match planes_before(
                bytes,
                next,
                channels,
                n - 1,
                PLANE_COUNT as nat,
            ) {
                Err(error) => Err(error),
                Ok((planes, end)) => Ok((levels.push(planes), end)),
            },
        }
    }
}

proof fn plane_failure_spreads(
    bytes: Seq<u8>,
    at: int,
    channels: usize,
    level: int,
    n: nat,
    total: nat,
)
    requires
        n <= total,
        planes_before(bytes, at, channels, level, n) is Err,
    ensures
        planes_before(bytes, at, channels, level, total) == planes_before(
            bytes,
            at,
            channels,
            level,
            n,
        ),
    decreases total - n,
{
    if n < total {
        plane_failure_spreads(bytes, at, channels, level, n, (total - 1) as nat);
    }
}

proof fn level_failure_spreads(bytes: Seq<u8>, at: int, channels: usize, n: nat, total: nat)
    requires
        n <= total,
        levels_before(bytes, at, channels, n) is Err,
    ensures
        levels_before(bytes, at, channels, total) == levels_before(bytes, at, channels, n),
    decreases total - n,
{
    if n < total {
        level_failure_spreads(bytes, at, channels, n, (total - 1) as nat);
    }
}

/// Planes take room for their channels.
proof fn planes_take_room(bytes: Seq<u8>, at: int, channels: usize, level: int, n: nat)
    requires
        at <= bytes.len(),
    ensures
        planes_before(bytes, at, channels, level, n) matches Ok((_, end)) ==> {
            &&& end <= bytes.len()
            &&& end >= at
            &&& n > 0 ==> end >= at + channels
        },
    decreases n,
{
    if n > 0 {
        planes_take_room(bytes, at, channels, level, (n - 1) as nat);
        if let Ok((_, next)) = planes_before(bytes, at, channels, level, (n - 1) as nat) {
            let height = crate::bytes::le_u32(bytes, next);
            let width = crate::bytes::le_u32(bytes, next + 4);
            if height > 0 && width > 0 {
                assert(channels * height * width >= channels) by (nonlinear_arith)
                    requires
                        height > 0,
                        width > 0,
                        channels >= 0,
                ;
            }
        }
    }
}

/// Levels take room for their channels.
proof fn levels_take_room(bytes: Seq<u8>, at: int, channels: usize, n: nat)
    requires
        at <= bytes.len(),
    ensures
        levels_before(bytes, at, channels, n) matches Ok((_, end)) ==> {
            &&& end <= bytes.len()
            &&& end >= at + n * channels
        },
    decreases n,
{
    if n > 0 {
        levels_take_room(bytes, at, channels, (n - 1) as nat);
        if let Ok((_, next)) = levels_before(bytes, at, channels, (n - 1) as nat) {
            planes_take_room(bytes, next, channels, n - 1, PLANE_COUNT as nat);
        }
        assert(n * channels == (n - 1) * channels + channels) by (nonlinear_arith)
            requires
                n > 0,
        ;
    }
}

fn read_plane(
    reader: &mut ByteReader<'_>,
    channels: usize,
    level: usize,
    plane: usize,
) -> (r: Result<GridPlane, DeformationError>)
    requires
        old(reader).well_formed(),
    ensures
        final(reader).well_formed(),
        final(reader).data == old(reader).data,
        ({
            let expected = plane_at(
                old(reader).data@,
                old(reader).offset as int,
                channels,
                level as int,
                plane as int,
            );
            match r {
                Ok(p) => expected == Ok::<(PlaneModel, int), DeformationError>(
                    (p.model(), final(reader).offset as int),
                ),
                Err(error) => expected == Err::<(PlaneModel, int), DeformationError>(error),
            }
        }),
{
    let total: usize = reader.data.len();
    let height: usize = match reader.read_u32() {
        Ok(v) => v as usize,
        Err(error) => {
            return Err(error);
        },
    };
    let width: usize = match reader.read_u32() {
        Ok(v) => v as usize,
        Err(error) => {
            return Err(error);
        },
    };
    if height == 0 || width == 0 {
        return Err(
            DeformationError::InvalidFormat(
                FormatFault::PlaneShape { level, plane, height, width },
            ),
        );
    }
    let rows: usize = saturating_product(channels, height);
    proof {
        if channels * height > usize::MAX {
            assert(channels * height * width >= channels * height) by (nonlinear_arith)
                requires
                    width >= 1,
                    channels * height >= 0,
            ;
            assert(rows * width >= rows) by (nonlinear_arith)
                requires
                    width >= 1,
            ;
        }
    }
    match reader.read_f32_vec(saturating_product(rows, width)) {
        Ok(data) => Ok(GridPlane { channels, height, width, data }),
        Err(error) => Err(error),
    }
}

fn read_planes(reader: &mut ByteReader<'_>, channels: usize, level: usize) -> (r: Result<
    Vec<GridPlane>,
    DeformationError,
>)
    requires
        old(reader).well_formed(),
    ensures
        final(reader).well_formed(),
        final(reader).data == old(reader).data,
        ({
            let expected = planes_before(
                old(reader).data@,
                old(reader).offset as int,
                channels,
                level as int,
                PLANE_COUNT as nat,
            );
            match r {
                Ok(planes) => expected == Ok::<(Seq<PlaneModel>, int), DeformationError>(
                    (plane_models(planes@), final(reader).offset as int),
                ),
                Err(error) => expected == Err::<(Seq<PlaneModel>, int), DeformationError>(error),
            }
        }),
{
    let ghost at = reader.offset as int;
    let ghost bytes = reader.data@;
    let mut planes: Vec<GridPlane> = Vec::new();
    assert(plane_models(planes@) =~= Seq::empty());
    for i in 0..PLANE_COUNT
        invariant
            reader.well_formed(),
            reader.data == old(reader).data,
            bytes == old(reader).data@,
            at == old(reader).offset,
            planes_before(bytes, at, channels, level as int, i as nat) == Ok::<
                (Seq<PlaneModel>, int),
                DeformationError,
            >((plane_models(planes@), reader.offset as int)),
    {
        let ghost before = planes@;
        match read_plane(reader, channels, level, i) {
            Ok(plane) => {
                planes.push(plane);
                assert(plane_models(planes@) =~= plane_models(before).push(plane.model()));
            },
            Err(error) => {
                proof {
                    plane_failure_spreads(
                        bytes,
                        at,
                        channels,
                        level as int,
                        (i + 1) as nat,
                        PLANE_COUNT as nat,
                    );
                }
                return Err(error);
            },
        }
    }
    Ok(planes)
}

fn read_levels(reader: &mut ByteReader<'_>, channels: usize, n_levels: usize) -> (r: Result<
    Vec<Vec<GridPlane>>,
    DeformationError,
>)
    requires
        old(reader).well_formed(),
    ensures
        final(reader).well_formed(),
        final(reader).data == old(reader).data,
        ({
            let expected = levels_before(
                old(reader).data@,
                old(reader).offset as int,
                channels,
                n_levels as nat,
            );
            match r {
                Ok(levels) => expected == Ok::<(Seq<Seq<PlaneModel>>, int), DeformationError>(
                    (level_models(levels@), final(reader).offset as int),
                ),
                Err(error) => expected == Err::<(Seq<Seq<PlaneModel>>, int), DeformationError>(
                    error,
                ),
            }
        }),
{
    let ghost at = reader.offset as int;
    let ghost bytes = reader.data@;
    let mut levels: Vec<Vec<GridPlane>> = Vec::new();
    assert(level_models(levels@) =~= Seq::empty());
    for i in 0..n_levels
        invariant
            reader.well_formed(),
            reader.data == old(reader).data,
            bytes == old(reader).data@,
            at == old(reader).offset,
            levels_before(bytes, at, channels, i as nat) == Ok::<
                (Seq<Seq<PlaneModel>>, int),
                DeformationError,
            >((level_models(levels@), reader.offset as int)),
    {
        let ghost before = levels@;
        match read_planes(reader, channels, i) {
            Ok(planes) => {
                levels.push(planes);
                assert(level_models(levels@) =~= level_models(before).push(
                    plane_models(planes@),
                ));
            },
            Err(error) => {
                proof {
                    level_failure_spreads(bytes, at, channels, (i + 1) as nat, n_levels as nat);
                }
                return Err(error);
            },
        }
    }
    Ok(levels)
}

/// Three numbers at an offset.
pub open spec fn triple_at(bytes: Seq<u8>, at: int) -> [u32; 3] {
    [
        crate::bytes::le_u32(bytes, at),
        crate::bytes::le_u32(bytes, at + 4),
        crate::bytes::le_u32(bytes, at + 8),
    ]
}

/// The metadata that a header holds.
pub open spec fn header_metadata(bytes: Seq<u8>) -> DeformationMetadata {
    DeformationMetadata {
        n_grid_levels: crate::bytes::le_u32(bytes, 8) as usize,
        n_planes_per_level: crate::bytes::le_u32(bytes, 12) as usize,
        feature_dim: crate::bytes::le_u32(bytes, 16) as usize,
        net_width: crate::bytes::le_u32(bytes, 20) as usize,
        n_time_frames: crate::bytes::le_u32(bytes, 24) as usize,
        aabb_max: triple_at(bytes, 28),
        aabb_min: triple_at(bytes, 40),
        scale_factor: crate::bytes::le_u32(bytes, 52),
        source_offset: triple_at(bytes, 56),
    }
}

/// Why a header cannot be read: the tag `DFWT`, version 1, then fields up to the end of the header.
pub open spec fn header_error(bytes: Seq<u8>) -> Option<DeformationError> {
    let len = bytes.len() as int;
    if len < 4 {
        Some(eof(0, 4, len))
    } else if !crate::bytes::starts_with4(bytes, 0x44, 0x46, 0x57, 0x54) {
        Some(DeformationError::BadMagic([bytes[0], bytes[1], bytes[2], bytes[3]]))
    } else if len < 8 {
        Some(eof(4, 4, len))
    } else if crate::bytes::le_u32(bytes, 4) != 1 {
        Some(DeformationError::UnsupportedVersion(crate::bytes::le_u32(bytes, 4)))
    } else if len < 12 {
        Some(eof(8, 4, len))
    } else if len < 16 {
        Some(eof(12, 4, len))
    } else if len < 20 {
        Some(eof(16, 4, len))
    } else if len < 24 {
        Some(eof(20, 4, len))
    } else if len < 28 {
        Some(eof(24, 4, len))
    } else if len < 40 {
        Some(eof(28, 12, len))
    } else if len < 52 {
        Some(eof(40, 12, len))
    } else if len < 56 {
        Some(eof(52, 4, len))
    } else if len < 68 {
        Some(eof(56, 12, len))
    } else if len < 72 {
        Some(eof(68, 4, len))
    } else {
        None
    }
}

/// An axis of the bounds is too short. `span` is its extent as a number, of either sign.
pub open spec fn degenerate(span: u32) -> bool {
    crate::float_bits::less(crate::float_bits::abs_bits(span), MIN_AXIS_SPAN)
}

/// What a header must not say.
pub open spec fn metadata_error(meta: DeformationMetadata, spans: [u32; 3]) -> Option<FormatFault> {
    if meta.n_grid_levels == 0 {
        Some(FormatFault::NoGridLevels)
    } else if meta.n_planes_per_level != PLANE_COUNT {
        Some(FormatFault::PlanesPerLevel { found: meta.n_planes_per_level })
    } else if meta.feature_dim == 0 || meta.net_width == 0 || meta.n_time_frames == 0 {
        Some(
            FormatFault::Dimensions {
                feature_dim: meta.feature_dim,
                net_width: meta.net_width,
                n_time_frames: meta.n_time_frames,
            },
        )
    } else if degenerate(spans[0]) {
        Some(
            FormatFault::DegenerateAxis {
                axis: 0,
                min: meta.aabb_min[0],
                max: meta.aabb_max[0],
            },
        )
    } else if degenerate(spans[1]) {
        Some(
            FormatFault::DegenerateAxis {
                axis: 1,
                min: meta.aabb_min[1],
                max: meta.aabb_max[1],
            },
        )
    } else if degenerate(spans[2]) {
        Some(
            FormatFault::DegenerateAxis {
                axis: 2,
                min: meta.aabb_min[2],
                max: meta.aabb_max[2],
            },
        )
    } else {
        None
    }
}

/// Perceptrons that do not fit the grid or each other.
pub open spec fn dims_error(
    meta: DeformationMetadata,
    feature_out: Seq<LayerModel>,
    pos_deform: Seq<LayerModel>,
    rotations_deform: Seq<LayerModel>,
) -> Option<ShapeFault> {
    if input_features(feature_out) != meta.n_grid_levels * meta.feature_dim {
        Some(
            ShapeFault::FeatureInput {
                found: input_features(feature_out),
                expected: (meta.n_grid_levels * meta.feature_dim) as usize,
            },
        )
    } else if output_features(feature_out) != meta.net_width {
        Some(
            ShapeFault::FeatureOutput {
                found: output_features(feature_out),
                expected: meta.net_width,
            },
        )
    } else if input_features(pos_deform) != meta.net_width || output_features(pos_deform) != 3 {
        Some(
            ShapeFault::PosDims {
                input: input_features(pos_deform),
                output: output_features(pos_deform),
                expected: meta.net_width,
            },
        )
    } else if input_features(rotations_deform) != meta.net_width || output_features(
        rotations_deform,
    ) != 4 {
        Some(
            ShapeFault::RotationDims {
                input: input_features(rotations_deform),
                output: output_features(rotations_deform),
                expected: meta.net_width,
            },
        )
    } else {
        None
    }
}

/// The network that a file holds, or what is wrong with it: header, grid, the three perceptrons,
/// nothing behind them, and dimensions that fit. `spans[i]` is `aabb_min[i] - aabb_max[i]`.
pub open spec fn parsed_network(bytes: Seq<u8>, spans: [u32; 3]) -> Result<
    NetworkModel,
    DeformationError,
> {
    let metadata = header_metadata(bytes);
    if header_error(bytes) is Some {
        Err(header_error(bytes)->0)
    } else if metadata_error(metadata, spans) is Some {
        Err(DeformationError::InvalidFormat(metadata_error(metadata, spans)->0))
    } else {
        match levels_before(bytes, 72, metadata.feature_dim, metadata.n_grid_levels as nat) {
            Err(error) => Err(error),
            Ok((grid_levels, feature_start)) => match mlp_at(
                bytes,
                feature_start,
                MlpName::FeatureOut,
            ) {
                Err(error) => Err(error),
                Ok((feature_out, pos_start)) => match mlp_at(bytes, pos_start, MlpName::PosDeform) {
                    Err(error) => Err(error),
                    Ok((pos_deform, rotation_start)) => match mlp_at(
                        bytes,
                        rotation_start,
                        MlpName::RotationsDeform,
                    ) {
                        Err(error) => Err(error),
                        Ok((rotations_deform, end)) => if end < bytes.len() {
                            Err(
                                DeformationError::InvalidFormat(
                                    FormatFault::TrailingBytes {
                                        count: (bytes.len() - end) as usize,
                                    },
                                ),
                            )
                        } else if dims_error(
                            metadata,
                            feature_out,
                            pos_deform,
                            rotations_deform,
                        ) is Some {
                            Err(
                                DeformationError::ShapeMismatch(
                                    dims_error(
                                        metadata,
                                        feature_out,
                                        pos_deform,
                                        rotations_deform,
                                    )->0,
                                ),
                            )
                        } else {
                            Ok(
                                NetworkModel {
                                    metadata,
                                    grid_levels,
                                    feature_out,
                                    pos_deform,
                                    rotations_deform,
                                },
                            )
                        },
                    },
                },
            },
        }
    }
}

fn is_degenerate(span: u32) -> (r: bool)
    ensures
        r == degenerate(span),
{
    crate::float_bits::is_less(crate::float_bits::abs(span), MIN_AXIS_SPAN)
}

fn triple(v: &Vec<u32>) -> (r: [u32; 3])
    requires
        v@.len() == 3,
    ensures
        r == [v@[0], v@[1], v@[2]],
{
    [v[0], v[1], v[2]]
}

/// The bounds that a header holds, greatest corner first; nothing where the header is cut off.
pub fn read_bounds(bytes: &[u8]) -> (r: Option<([u32; 3], [u32; 3])>)
    ensures
        r == if bytes@.len() < HEADER_SIZE {
            None::<([u32; 3], [u32; 3])>
        } else {
            Some((triple_at(bytes@, 28), triple_at(bytes@, 40)))
        },
{
    if bytes.len() < HEADER_SIZE {
        return None;
    }
    Some(
        (
            [le_u32_at(bytes, 28), le_u32_at(bytes, 32), le_u32_at(bytes, 36)],
            [le_u32_at(bytes, 40), le_u32_at(bytes, 44), le_u32_at(bytes, 48)],
        ),
    )
}

fn read_header(reader: &mut ByteReader<'_>) -> (r: Result<DeformationMetadata, DeformationError>)
    requires
        old(reader).offset == 0,
    ensures
        final(reader).data == old(reader).data,
        match r {
            Ok(meta) => {
                &&& header_error(old(reader).data@) is None
                &&& meta == header_metadata(old(reader).data@)
                &&& final(reader).offset == 72
                &&& final(reader).well_formed()
            },
            Err(error) => header_error(old(reader).data@) == Some(error),
        },
{
    let magic: &[u8] = match reader.read_exact(4) {
        Ok(magic) => magic,
        Err(error) => {
            return Err(error);
        },
    };
    if !(magic[0] == 0x44 && magic[1] == 0x46 && magic[2] == 0x57 && magic[3] == 0x54) {
        return Err(DeformationError::BadMagic([magic[0], magic[1], magic[2], magic[3]]));
    }
    let version: u32 = match reader.read_u32() {
        Ok(v) => v,
        Err(error) => {
            return Err(error);
        },
    };
    if version != 1 {
        return Err(DeformationError::UnsupportedVersion(version));
    }
    let n_grid_levels: usize = match reader.read_u32() {
        Ok(v) => v as usize,
        Err(error) => {
            return Err(error);
        },
    };
    let n_planes_per_level: usize = match reader.read_u32() {
        Ok(v) => v as usize,
        Err(error) => {
            return Err(error);
        },
    };
    let feature_dim: usize = match reader.read_u32() {
        Ok(v) => v as usize,
        Err(error) => {
            return Err(error);
        },
    };
    let net_width: usize = match reader.read_u32() {
        Ok(v) => v as usize,
        Err(error) => {
            return Err(error);
        },
    };
    let n_time_frames: usize = match reader.read_u32() {
        Ok(v) => v as usize,
        Err(error) => {
            return Err(error);
        },
    };
    let aabb_max: Vec<u32> = match reader.read_f32_vec(3) {
        Ok(v) => v,
        Err(error) => {
            return Err(error);
        },
    };
    let aabb_min: Vec<u32> = match reader.read_f32_vec(3) {
        Ok(v) => v,
        Err(error) => {
            return Err(error);
        },
    };
    let scale_factor: u32 = match reader.read_u32() {
        Ok(v) => v,
        Err(error) => {
            return Err(error);
        },
    };
    let source_offset: Vec<u32> = match reader.read_f32_vec(3) {
        Ok(v) => v,
        Err(error) => {
            return Err(error);
        },
    };
    match reader.read_u32() {
        Ok(_) => {},
        Err(error) => {
            return Err(error);
        },
    }
    Ok(
        DeformationMetadata {
            n_grid_levels,
            n_planes_per_level,
            feature_dim,
            net_width,
            n_time_frames,
            aabb_max: triple(&aabb_max),
            aabb_min: triple(&aabb_min),
            scale_factor,
            source_offset: triple(&source_offset),
        },
    )
}

fn check_metadata(meta: &DeformationMetadata, spans: [u32; 3]) -> (r: Option<FormatFault>)
    ensures
        r == metadata_error(*meta, spans),
{
    if meta.n_grid_levels == 0 {
        Some(FormatFault::NoGridLevels)
    } else if meta.n_planes_per_level != PLANE_COUNT {
        Some(FormatFault::PlanesPerLevel { found: meta.n_planes_per_level })
    } else if meta.feature_dim == 0 || meta.net_width == 0 || meta.n_time_frames == 0 {
        Some(
            FormatFault::Dimensions {
                feature_dim: meta.feature_dim,
                net_width: meta.net_width,
                n_time_frames: meta.n_time_frames,
            },
        )
    } else if is_degenerate(spans[0]) {
        Some(
            FormatFault::DegenerateAxis {
                axis: 0,
                min: meta.aabb_min[0],
                max: meta.aabb_max[0],
            },
        )
    } else if is_degenerate(spans[1]) {
        Some(
            FormatFault::DegenerateAxis {
                axis: 1,
                min: meta.aabb_min[1],
                max: meta.aabb_max[1],
            },
        )
    } else if is_degenerate(spans[2]) {
        Some(
            FormatFault::DegenerateAxis {
                axis: 2,
                min: meta.aabb_min[2],
                max: meta.aabb_max[2],
            },
        )
    } else {
        None
    }
}

fn check_dims(
    meta: &DeformationMetadata,
    feature_out: &Mlp,
    pos_deform: &Mlp,
    rotations_deform: &Mlp,
) -> (r: Option<ShapeFault>)
    requires
        meta.n_grid_levels * meta.feature_dim <= usize::MAX,
    ensures
        r == dims_error(
            *meta,
            layer_models(feature_out.layers@),
            layer_models(pos_deform.layers@),
            layer_models(rotations_deform.layers@),
        ),
{
    let grid_features: usize = meta.n_grid_levels * meta.feature_dim;
    if feature_out.input_dim() != grid_features {
        return Some(
            ShapeFault::FeatureInput { found: feature_out.input_dim(), expected: grid_features },
        );
    }
    if feature_out.output_dim() != meta.net_width {
        return Some(
            ShapeFault::FeatureOutput {
                found: feature_out.output_dim(),
                expected: meta.net_width,
            },
        );
    }
    if pos_deform.input_dim() != meta.net_width || pos_deform.output_dim() != 3 {
        return Some(
            ShapeFault::PosDims {
                input: pos_deform.input_dim(),
                output: pos_deform.output_dim(),
                expected: meta.net_width,
            },
        );
    }
    if rotations_deform.input_dim() != meta.net_width || rotations_deform.output_dim() != 4 {
        return Some(
            ShapeFault::RotationDims {
                input: rotations_deform.input_dim(),
                output: rotations_deform.output_dim(),
                expected: meta.net_width,
            },
        );
    }
    None
}

impl DeformationNetwork {
    /// Reads a network. `spans[i]` is `aabb_min[i] - aabb_max[i]`, of the bounds in the header.
    pub fn from_bytes(bytes: &[u8], spans: [u32; 3]) -> (r: Result<
        DeformationNetwork,
        DeformationError,
    >)
        ensures
            match r {
                Ok(network) => parsed_network(bytes@, spans) == Ok::<
                    NetworkModel,
                    DeformationError,
                >(network.model()),
                Err(error) => parsed_network(bytes@, spans) == Err::<
                    NetworkModel,
                    DeformationError,
                >(error),
            },
    {
        let total: usize = bytes.len();
        let mut reader: ByteReader<'_> = ByteReader::new(bytes);
        let metadata: DeformationMetadata = match read_header(&mut reader) {
            Ok(metadata) => metadata,
            Err(error) => {
                return Err(error);
            },
        };
        if let Some(fault) = check_metadata(&metadata, spans) {
            return Err(DeformationError::InvalidFormat(fault));
        }
        proof {
            levels_take_room(
                bytes@,
                72,
                metadata.feature_dim,
                metadata.n_grid_levels as nat,
            );
        }
        let grid_levels: Vec<Vec<GridPlane>> = match read_levels(
            &mut reader,
            metadata.feature_dim,
            metadata.n_grid_levels,
        ) {
            Ok(levels) => levels,
            Err(error) => {
                return Err(error);
            },
        };
        let feature_out: Mlp = match Mlp::from_reader(&mut reader, MlpName::FeatureOut) {
            Ok(mlp) => mlp,
            Err(error) => {
                return Err(error);
            },
        };
        let pos_deform: Mlp = match Mlp::from_reader(&mut reader, MlpName::PosDeform) {
            Ok(mlp) => mlp,
            Err(error) => {
                return Err(error);
            },
        };
        let rotations_deform: Mlp = match Mlp::from_reader(&mut reader, MlpName::RotationsDeform) {
            Ok(mlp) => mlp,
            Err(error) => {
                return Err(error);
            },
        };
        if reader.remaining() != 0 {
            return Err(
                DeformationError::InvalidFormat(
                    FormatFault::TrailingBytes { count: reader.remaining() },
                ),
            );
        }
        if let Some(fault) = check_dims(&metadata, &feature_out, &pos_deform, &rotations_deform) {
            return Err(DeformationError::ShapeMismatch(fault));
        }
        Ok(
            DeformationNetwork { metadata, grid_levels, feature_out, pos_deform, rotations_deform },
        )
    }
}

} // verus!
