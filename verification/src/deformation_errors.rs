//! Why a deformation network is refused.

use crate::text::decimal;
use vstd::prelude::*;

verus! {

/// The perceptrons of a network.
#[derive(Debug, Clone, Copy, PartialEq, Eq, Structural)]
pub enum MlpName {
    FeatureOut,
    PosDeform,
    RotationsDeform,
}

/// Values that are packed as 32-bit numbers.
#[derive(Debug, Clone, Copy, PartialEq, Eq, Structural)]
pub enum PackLabel {
    InFeatures,
    OutFeatures,
    WeightOffset,
    BiasOffset,
    PlaneWidth,
    PlaneHeight,
    PlaneChannels,
    PlaneDataOffset,
}

/// Why a network cannot be read or packed.
#[derive(Debug, Clone, Copy, PartialEq, Eq)]
pub enum DeformationError {
    BadMagic([u8; 4]),
    UnsupportedVersion(u32),
    UnexpectedEof { offset: usize, needed: usize, len: usize },
    InvalidFormat(FormatFault),
    ShapeMismatch(ShapeFault),
}

/// A value that the format does not allow.
#[derive(Debug, Clone, Copy, PartialEq, Eq, Structural)]
pub enum FormatFault {
    NoGridLevels,
    PlanesPerLevel { found: usize },
    Dimensions { feature_dim: usize, net_width: usize, n_time_frames: usize },
    /// The bounds have no extent along an axis.
    DegenerateAxis { axis: usize, min: u32, max: u32 },
    PlaneShape { level: usize, plane: usize, height: usize, width: usize },
    NoLayers { mlp: MlpName },
    ReluFlag { mlp: MlpName, layer: usize, value: u32 },
    LayerShape { mlp: MlpName, layer: usize, in_features: usize, out_features: usize },
    TrailingBytes { count: usize },
    TooLargeForGpu { label: PackLabel, value: usize },
}

/// Parts that do not fit together.
#[derive(Debug, Clone, Copy, PartialEq, Eq, Structural)]
pub enum ShapeFault {
    LayerInput { found: usize, expected: usize },
    FeatureInput { found: usize, expected: usize },
    FeatureOutput { found: usize, expected: usize },
    PosDims { input: usize, output: usize, expected: usize },
    RotationDims { input: usize, output: usize, expected: usize },
    LayerShape {
        mlp: MlpName,
        layer: usize,
        in_features: usize,
        out_features: usize,
        weights: usize,
        bias: usize,
    },
    LevelPlanes { level: usize, found: usize, expected: usize },
    PlaneChannels { level: usize, plane: usize, found: usize, expected: usize },
    PlaneData { level: usize, plane: usize, found: usize, expected: usize },
    BatchLengths { orig_means: usize, tile_means: usize, orig_quats: usize },
}

impl MlpName {
    pub open spec fn text(self) -> Seq<char> {
        match self {
            MlpName::FeatureOut => "feature_out"@,
            MlpName::PosDeform => "pos_deform"@,
            MlpName::RotationsDeform => "rotations_deform"@,
        }
    }

    /// The name in files and messages.
    pub fn message(&self) -> (r: String)
        ensures
            r@ == self.text(),
    {
        match self {
            MlpName::FeatureOut => "feature_out".to_owned(),
            MlpName::PosDeform => "pos_deform".to_owned(),
            MlpName::RotationsDeform => "rotations_deform".to_owned(),
        }
    }
}

impl PackLabel {
    pub open spec fn text(self) -> Seq<char> {
        match self {
            PackLabel::InFeatures => "in_features"@,
            PackLabel::OutFeatures => "out_features"@,
            PackLabel::WeightOffset => "weight_offset"@,
            PackLabel::BiasOffset => "bias_offset"@,
            PackLabel::PlaneWidth => "plane_width"@,
            PackLabel::PlaneHeight => "plane_height"@,
            PackLabel::PlaneChannels => "plane_channels"@,
            PackLabel::PlaneDataOffset => "plane_data_offset"@,
        }
    }

    /// The name in messages.
    pub fn message(&self) -> (r: String)
        ensures
            r@ == self.text(),
    {
        match self {
            PackLabel::InFeatures => "in_features".to_owned(),
            PackLabel::OutFeatures => "out_features".to_owned(),
            PackLabel::WeightOffset => "weight_offset".to_owned(),
            PackLabel::BiasOffset => "bias_offset".to_owned(),
            PackLabel::PlaneWidth => "plane_width".to_owned(),
            PackLabel::PlaneHeight => "plane_height".to_owned(),
            PackLabel::PlaneChannels => "plane_channels".to_owned(),
            PackLabel::PlaneDataOffset => "plane_data_offset".to_owned(),
        }
    }
}

impl FormatFault {
    pub open spec fn text(self, lower: Seq<char>, upper: Seq<char>) -> Seq<char> {
        match self {
            FormatFault::NoGridLevels => "n_grid_levels cannot be zero"@,
            FormatFault::PlanesPerLevel { found } => {
                "expected 6 planes per level, got "@ + crate::text::decimal_text(found as nat)
            },
            FormatFault::Dimensions { feature_dim, net_width, n_time_frames } => {
                "invalid dimensions feature_dim="@ + crate::text::decimal_text(feature_dim as nat)
                    + " net_width="@ + crate::text::decimal_text(net_width as nat)
                    + " n_time_frames="@ + crate::text::decimal_text(n_time_frames as nat)
            },
            FormatFault::DegenerateAxis { axis, min: _, max: _ } => {
                "degenerate aabb axis "@ + crate::text::decimal_text(axis as nat) + ": min="@
                    + lower + " max="@ + upper
            },
            FormatFault::PlaneShape { level, plane, height, width } => {
                "grid plane["@ + crate::text::decimal_text(level as nat) + "/"@
                    + crate::text::decimal_text(plane as nat) + "] has invalid shape "@
                    + crate::text::decimal_text(height as nat) + "x"@
                    + crate::text::decimal_text(width as nat)
            },
            FormatFault::NoLayers { mlp } => "MLP '"@ + mlp.text() + "' has zero layers"@,
            FormatFault::ReluFlag { mlp, layer, value } => {
                "MLP '"@ + mlp.text() + "' layer "@ + crate::text::decimal_text(layer as nat)
                    + " has invalid has_relu_before value "@
                    + crate::text::decimal_text(value as nat)
            },
            FormatFault::LayerShape { mlp, layer, in_features, out_features } => {
                "MLP '"@ + mlp.text() + "' layer "@ + crate::text::decimal_text(layer as nat)
                    + " has zero dimension in="@ + crate::text::decimal_text(in_features as nat)
                    + " out="@ + crate::text::decimal_text(out_features as nat)
            },
            FormatFault::TrailingBytes { count } => {
                "trailing bytes after parse: "@ + crate::text::decimal_text(count as nat)
            },
            FormatFault::TooLargeForGpu { label, value } => {
                label.text() + "="@ + crate::text::decimal_text(value as nat)
                    + " does not fit into u32 for GPU packing"@
            },
        }
    }

    /// The fault in words; `lower` and `upper` are the numbers that the bounds of a degenerate axis
    /// are written as.
    pub fn message(&self, lower: &str, upper: &str) -> (r: String)
        ensures
            r@ == self.text(lower@, upper@),
    {
        match self {
            FormatFault::NoGridLevels => "n_grid_levels cannot be zero".to_owned(),
            FormatFault::PlanesPerLevel { found } => {
                let mut s: String = "expected 6 planes per level, got ".to_owned();
                s.append(decimal(*found as u64).as_str());
                s
            },
            FormatFault::Dimensions { feature_dim, net_width, n_time_frames } => {
                let mut s: String = "invalid dimensions feature_dim=".to_owned();
                s.append(decimal(*feature_dim as u64).as_str());
                s.append(" net_width=");
                s.append(decimal(*net_width as u64).as_str());
                s.append(" n_time_frames=");
                s.append(decimal(*n_time_frames as u64).as_str());
                s
            },
            FormatFault::DegenerateAxis { axis, min: _, max: _ } => {
                let mut s: String = "degenerate aabb axis ".to_owned();
                s.append(decimal(*axis as u64).as_str());
                s.append(": min=");
                s.append(lower);
                s.append(" max=");
                s.append(upper);
                s
            },
            FormatFault::PlaneShape { level, plane, height, width } => {
                let mut s: String = "grid plane[".to_owned();
                s.append(decimal(*level as u64).as_str());
                s.append("/");
                s.append(decimal(*plane as u64).as_str());
                s.append("] has invalid shape ");
                s.append(decimal(*height as u64).as_str());
                s.append("x");
                s.append(decimal(*width as u64).as_str());
                s
            },
            FormatFault::NoLayers { mlp } => {
                let mut s: String = "MLP '".to_owned();
                s.append(mlp.message().as_str());
                s.append("' has zero layers");
                s
            },
            FormatFault::ReluFlag { mlp, layer, value } => {
                let mut s: String = "MLP '".to_owned();
                s.append(mlp.message().as_str());
                s.append("' layer ");
                s.append(decimal(*layer as u64).as_str());
                s.append(" has invalid has_relu_before value ");
                s.append(decimal(*value as u64).as_str());
                s
            },
            FormatFault::LayerShape { mlp, layer, in_features, out_features } => {
                let mut s: String = "MLP '".to_owned();
                s.append(mlp.message().as_str());
                s.append("' layer ");
                s.append(decimal(*layer as u64).as_str());
                s.append(" has zero dimension in=");
                s.append(decimal(*in_features as u64).as_str());
                s.append(" out=");
                s.append(decimal(*out_features as u64).as_str());
                s
            },
            FormatFault::TrailingBytes { count } => {
                let mut s: String = "trailing bytes after parse: ".to_owned();
                s.append(decimal(*count as u64).as_str());
                s
            },
            FormatFault::TooLargeForGpu { label, value } => {
                let mut s: String = label.message();
                s.append("=");
                s.append(decimal(*value as u64).as_str());
                s.append(" does not fit into u32 for GPU packing");
                s
            },
        }
    }
}

impl ShapeFault {
    pub open spec fn text(self) -> Seq<char> {
        match self {
            ShapeFault::LayerInput { found, expected } => {
                "MLP layer input len "@ + crate::text::decimal_text(found as nat) + " != expected "@
                    + crate::text::decimal_text(expected as nat)
            },
            ShapeFault::FeatureInput { found, expected } => {
                "feature_out input dim "@ + crate::text::decimal_text(found as nat)
                    + " != grid feature dim "@ + crate::text::decimal_text(expected as nat)
            },
            ShapeFault::FeatureOutput { found, expected } => {
                "feature_out output dim "@ + crate::text::decimal_text(found as nat)
                    + " != net_width "@ + crate::text::decimal_text(expected as nat)
            },
            ShapeFault::PosDims { input, output, expected } => {
                "pos_deform dims in="@ + crate::text::decimal_text(input as nat) + " out="@
                    + crate::text::decimal_text(output as nat) + ", expected in="@
                    + crate::text::decimal_text(expected as nat) + " out=3"@
            },
            ShapeFault::RotationDims { input, output, expected } => {
                "rotations_deform dims in="@ + crate::text::decimal_text(input as nat) + " out="@
                    + crate::text::decimal_text(output as nat) + ", expected in="@
                    + crate::text::decimal_text(expected as nat) + " out=4"@
            },
            ShapeFault::LayerShape { mlp, layer, in_features, out_features, weights, bias } => {
                "MLP '"@ + mlp.text() + "' layer "@ + crate::text::decimal_text(layer as nat)
                    + " has invalid shape: in="@ + crate::text::decimal_text(in_features as nat)
                    + " out="@ + crate::text::decimal_text(out_features as nat) + " weights="@
                    + crate::text::decimal_text(weights as nat) + " bias="@
                    + crate::text::decimal_text(bias as nat)
            },
            ShapeFault::LevelPlanes { level, found, expected } => {
                "grid level "@ + crate::text::decimal_text(level as nat) + " has "@
                    + crate::text::decimal_text(found as nat) + " planes, expected "@
                    + crate::text::decimal_text(expected as nat)
            },
            ShapeFault::PlaneChannels { level, plane, found, expected } => {
                "grid plane["@ + crate::text::decimal_text(level as nat) + "]["@
                    + crate::text::decimal_text(plane as nat) + "] channels "@
                    + crate::text::decimal_text(found as nat) + " != feature_dim "@
                    + crate::text::decimal_text(expected as nat)
            },
            ShapeFault::PlaneData { level, plane, found, expected } => {
                "grid plane["@ + crate::text::decimal_text(level as nat) + "]["@
                    + crate::text::decimal_text(plane as nat) + "] data len "@
                    + crate::text::decimal_text(found as nat) + " != expected "@
                    + crate::text::decimal_text(expected as nat)
            },
            ShapeFault::BatchLengths { orig_means, tile_means, orig_quats } => {
                "batch input lengths mismatch: orig_means="@
                    + crate::text::decimal_text(orig_means as nat) + " tile_means="@
                    + crate::text::decimal_text(tile_means as nat) + " orig_quats="@
                    + crate::text::decimal_text(orig_quats as nat)
            },
        }
    }

    /// The error in words.
    pub fn message(&self) -> (r: String)
        ensures
            r@ == self.text(),
    {
        match self {
            ShapeFault::LayerInput { found, expected } => {
                let mut s: String = "MLP layer input len ".to_owned();
                s.append(decimal(*found as u64).as_str());
                s.append(" != expected ");
                s.append(decimal(*expected as u64).as_str());
                s
            },
            ShapeFault::FeatureInput { found, expected } => {
                let mut s: String = "feature_out input dim ".to_owned();
                s.append(decimal(*found as u64).as_str());
                s.append(" != grid feature dim ");
                s.append(decimal(*expected as u64).as_str());
                s
            },
            ShapeFault::FeatureOutput { found, expected } => {
                let mut s: String = "feature_out output dim ".to_owned();
                s.append(decimal(*found as u64).as_str());
                s.append(" != net_width ");
                s.append(decimal(*expected as u64).as_str());
                s
            },
            ShapeFault::PosDims { input, output, expected } => {
                let mut s: String = "pos_deform dims in=".to_owned();
                s.append(decimal(*input as u64).as_str());
                s.append(" out=");
                s.append(decimal(*output as u64).as_str());
                s.append(", expected in=");
                s.append(decimal(*expected as u64).as_str());
                s.append(" out=3");
                s
            },
            ShapeFault::RotationDims { input, output, expected } => {
                let mut s: String = "rotations_deform dims in=".to_owned();
                s.append(decimal(*input as u64).as_str());
                s.append(" out=");
                s.append(decimal(*output as u64).as_str());
                s.append(", expected in=");
                s.append(decimal(*expected as u64).as_str());
                s.append(" out=4");
                s
            },
            ShapeFault::LayerShape { mlp, layer, in_features, out_features, weights, bias } => {
                let mut s: String = "MLP '".to_owned();
                s.append(mlp.message().as_str());
                s.append("' layer ");
                s.append(decimal(*layer as u64).as_str());
                s.append(" has invalid shape: in=");
                s.append(decimal(*in_features as u64).as_str());
                s.append(" out=");
                s.append(decimal(*out_features as u64).as_str());
                s.append(" weights=");
                s.append(decimal(*weights as u64).as_str());
                s.append(" bias=");
                s.append(decimal(*bias as u64).as_str());
                s
            },
            ShapeFault::LevelPlanes { level, found, expected } => {
                let mut s: String = "grid level ".to_owned();
                s.append(decimal(*level as u64).as_str());
                s.append(" has ");
                s.append(decimal(*found as u64).as_str());
                s.append(" planes, expected ");
                s.append(decimal(*expected as u64).as_str());
                s
            },
            ShapeFault::PlaneChannels { level, plane, found, expected } => {
                let mut s: String = "grid plane[".to_owned();
                s.append(decimal(*level as u64).as_str());
                s.append("][");
                s.append(decimal(*plane as u64).as_str());
                s.append("] channels ");
                s.append(decimal(*found as u64).as_str());
                s.append(" != feature_dim ");
                s.append(decimal(*expected as u64).as_str());
                s
            },
            ShapeFault::PlaneData { level, plane, found, expected } => {
                let mut s: String = "grid plane[".to_owned();
                s.append(decimal(*level as u64).as_str());
                s.append("][");
                s.append(decimal(*plane as u64).as_str());
                s.append("] data len ");
                s.append(decimal(*found as u64).as_str());
                s.append(" != expected ");
                s.append(decimal(*expected as u64).as_str());
                s
            },
            ShapeFault::BatchLengths { orig_means, tile_means, orig_quats } => {
                let mut s: String = "batch input lengths mismatch: orig_means=".to_owned();
                s.append(decimal(*orig_means as u64).as_str());
                s.append(" tile_means=");
                s.append(decimal(*tile_means as u64).as_str());
                s.append(" orig_quats=");
                s.append(decimal(*orig_quats as u64).as_str());
                s
            },
        }
    }
}

impl DeformationError {
    pub open spec fn text(self, lower: Seq<char>, upper: Seq<char>) -> Seq<char> {
        match self {
            DeformationError::BadMagic(magic) => {
                "bad DFWT magic: ["@ + crate::text::decimal_text(magic[0] as nat) + ", "@
                    + crate::text::decimal_text(magic[1] as nat) + ", "@
                    + crate::text::decimal_text(magic[2] as nat) + ", "@
                    + crate::text::decimal_text(magic[3] as nat) + "] (expected b\"DFWT\")"@
            },
            DeformationError::UnsupportedVersion(version) => {
                "unsupported DFWT version: "@ + crate::text::decimal_text(version as nat)
            },
            DeformationError::UnexpectedEof { offset, needed, len } => {
                "unexpected EOF at offset "@ + crate::text::decimal_text(offset as nat)
                    + ", needed "@ + crate::text::decimal_text(needed as nat)
                    + " bytes, buffer len "@ + crate::text::decimal_text(len as nat)
            },
            DeformationError::InvalidFormat(fault) => {
                "invalid DFWT format: "@ + fault.text(lower, upper)
            },
            DeformationError::ShapeMismatch(fault) => "shape mismatch: "@ + fault.text(),
        }
    }

    /// The error in words; `lower` and `upper` are the numbers that the bounds of a degenerate axis
    /// are written as.
    pub fn message(&self, lower: &str, upper: &str) -> (r: String)
        ensures
            r@ == self.text(lower@, upper@),
    {
        match self {
            DeformationError::BadMagic(magic) => {
                let mut s: String = "bad DFWT magic: [".to_owned();
                s.append(decimal(magic[0] as u64).as_str());
                s.append(", ");
                s.append(decimal(magic[1] as u64).as_str());
                s.append(", ");
                s.append(decimal(magic[2] as u64).as_str());
                s.append(", ");
                s.append(decimal(magic[3] as u64).as_str());
                s.append("] (expected b\"DFWT\")");
                s
            },
            DeformationError::UnsupportedVersion(version) => {
                let mut s: String = "unsupported DFWT version: ".to_owned();
                s.append(decimal(*version as u64).as_str());
                s
            },
            DeformationError::UnexpectedEof { offset, needed, len } => {
                let mut s: String = "unexpected EOF at offset ".to_owned();
                s.append(decimal(*offset as u64).as_str());
                s.append(", needed ");
                s.append(decimal(*needed as u64).as_str());
                s.append(" bytes, buffer len ");
                s.append(decimal(*len as u64).as_str());
                s
            },
            DeformationError::InvalidFormat(fault) => {
                let mut s: String = "invalid DFWT format: ".to_owned();
                s.append(fault.message(lower, upper).as_str());
                s
            },
            DeformationError::ShapeMismatch(fault) => {
                let mut s: String = "shape mismatch: ".to_owned();
                s.append(fault.message().as_str());
                s
            },
        }
    }
}

} // verus!
