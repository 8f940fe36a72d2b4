//! Shared basis banks: metadata rules, the binary knot and coefficient payloads, and the assembly
//! of the per-splat coefficients of a whole scene.

use crate::bytes::{le_u32_at, le_u32_vec};
use crate::text::same_text;
use vstd::prelude::*;
use vstd::string::*;

verus! {

pub const BASIS_BANK_META_FILENAME: &'static str = "motion_basis_meta.bin";

pub const BASIS_BANK_FORMAT: &'static str = "loop_closed_catmull_rom_basis_bank_delta_xyz";

pub const BASIS_SCOPE_SHARED_LOD0: &'static str = "shared_lod0";

/// The format version that carries its own duration.
pub const BASIS_BANK_VERSION: u32 = 2;

/// The format version whose duration comes from a deformation header.
pub const BASIS_BANK_LEGACY_VERSION: u32 = 1;

/// Bytes of the deformation header that a version 1 bank needs.
pub const DEFORMATION_HEADER_SIZE: usize = 28;

pub const DEFORMATION_TEMPORAL_RESOLUTION_OFFSET: usize = 24;

/// Accepted metadata of a basis bank.
#[derive(Debug, Clone)]
pub struct BasisBankMotionMeta {
    pub format_version: u32,
    pub include_lods: Vec<usize>,
    pub source_knot_count: usize,
    pub exported_knot_count: usize,
    pub loop_closure_knots: usize,
    pub basis_count: usize,
    pub top_k: usize,
    /// Bit pattern of the playback duration in seconds.
    pub duration_seconds: u32,
}

/// Metadata as it is written in the archive, not yet checked.
#[derive(Debug, Clone)]
pub struct BasisBankMotionWireMeta {
    pub format: String,
    pub format_version: u32,
    pub delta_field: String,
    pub basis_scope: String,
    pub basis_source_lod: Option<usize>,
    pub include_lods: Vec<usize>,
    pub source_knot_count: usize,
    pub exported_knot_count: usize,
    pub loop_closure_knots: usize,
    pub loop_closure_method: String,
    pub motion_teacher: String,
    pub source_time_sampling: String,
    pub motion_basis_closure_mode: String,
    pub basis_count: usize,
    pub top_k: usize,
    /// Bit pattern of the duration, where the metadata carries one.
    pub duration_seconds: Option<u32>,
}

/// Why metadata is refused.
#[derive(Debug, Clone)]
pub enum BasisMetaError {
    Format { format: String },
    Version { version: u32 },
    DeltaField { field: String },
    Scope { scope: String },
    SourceLod { lod: Option<usize> },
    LodZeroMissing,
    Teacher { teacher: String },
    TimeSampling { sampling: String },
    ClosureMethod { method: String },
    ClosureMode { mode: String },
    NoSourceKnots,
    KnotCountOverflow,
    KnotCount { source: usize, closure: usize, exported: usize, expected: usize },
    LegacyDurationMissing,
    DurationMissing,
    Duration { bits: u32 },
    TooFewKnots { exported: usize },
    BasisCount { basis_count: usize, top_k: usize },
}

pub open spec fn known_version(version: u32) -> bool {
    version == BASIS_BANK_LEGACY_VERSION || version == BASIS_BANK_VERSION
}

/// The duration that applies: that of the deformation header in version 1, else the bank's own.
pub open spec fn effective_duration(
    wire: BasisBankMotionWireMeta,
    legacy_duration: Option<u32>,
) -> Option<u32> {
    if wire.format_version == BASIS_BANK_LEGACY_VERSION {
        legacy_duration
    } else {
        wire.duration_seconds
    }
}

/// A finite duration above zero.
pub open spec fn playable_duration(bits: u32) -> bool {
    crate::float_bits::finite(bits) && !crate::float_bits::less_or_same(
        bits,
        crate::float_bits::ZERO,
    )
}

/// The first rule that metadata breaks.
pub open spec fn meta_error(wire: BasisBankMotionWireMeta, legacy_duration: Option<u32>) -> Option<
    BasisMetaError,
> {
    if wire.format@ != BASIS_BANK_FORMAT@ {
        Some(BasisMetaError::Format { format: wire.format })
    } else if !known_version(wire.format_version) {
        Some(BasisMetaError::Version { version: wire.format_version })
    } else if wire.delta_field@ != "delta_xyz"@ {
        Some(BasisMetaError::DeltaField { field: wire.delta_field })
    } else if wire.basis_scope@ != BASIS_SCOPE_SHARED_LOD0@ {
        Some(BasisMetaError::Scope { scope: wire.basis_scope })
    } else if wire.basis_source_lod != Some(0usize) {
        Some(BasisMetaError::SourceLod { lod: wire.basis_source_lod })
    } else if !wire.include_lods@.contains(0) {
        Some(BasisMetaError::LodZeroMissing)
    } else if wire.motion_teacher@ != "direct_network"@ {
        Some(BasisMetaError::Teacher { teacher: wire.motion_teacher })
    } else if wire.source_time_sampling@ != "inclusive"@ {
        Some(BasisMetaError::TimeSampling { sampling: wire.source_time_sampling })
    } else if wire.loop_closure_method@ != "cubic_hermite"@ {
        Some(BasisMetaError::ClosureMethod { method: wire.loop_closure_method })
    } else if wire.motion_basis_closure_mode@ != "target_then_basis"@
        && wire.motion_basis_closure_mode@ != "basis_then_closure"@ {
        Some(BasisMetaError::ClosureMode { mode: wire.motion_basis_closure_mode })
    } else if wire.source_knot_count == 0 {
        Some(BasisMetaError::NoSourceKnots)
    } else if wire.source_knot_count + wire.loop_closure_knots > usize::MAX {
        Some(BasisMetaError::KnotCountOverflow)
    } else if wire.source_knot_count + wire.loop_closure_knots != wire.exported_knot_count {
        Some(
            BasisMetaError::KnotCount {
                source: wire.source_knot_count,
                closure: wire.loop_closure_knots,
                exported: wire.exported_knot_count,
                expected: (wire.source_knot_count + wire.loop_closure_knots) as usize,
            },
        )
    } else if effective_duration(wire, legacy_duration) is None {
        if wire.format_version == BASIS_BANK_LEGACY_VERSION {
            Some(BasisMetaError::LegacyDurationMissing)
        } else {
            Some(BasisMetaError::DurationMissing)
        }
    } else if !playable_duration(effective_duration(wire, legacy_duration)->0) {
        Some(BasisMetaError::Duration { bits: effective_duration(wire, legacy_duration)->0 })
    } else if wire.exported_knot_count < 4 {
        Some(BasisMetaError::TooFewKnots { exported: wire.exported_knot_count })
    } else if wire.basis_count == 0 || wire.top_k == 0 || wire.top_k > wire.basis_count {
        Some(BasisMetaError::BasisCount { basis_count: wire.basis_count, top_k: wire.top_k })
    } else {
        None
    }
}

/// The metadata that a playback uses, once it is accepted.
pub open spec fn accepted_meta(
    wire: BasisBankMotionWireMeta,
    legacy_duration: Option<u32>,
) -> BasisBankMotionMeta {
    BasisBankMotionMeta {
        format_version: wire.format_version,
        include_lods: wire.include_lods,
        source_knot_count: wire.source_knot_count,
        exported_knot_count: wire.exported_knot_count,
        loop_closure_knots: wire.loop_closure_knots,
        basis_count: wire.basis_count,
        top_k: wire.top_k,
        duration_seconds: effective_duration(wire, legacy_duration)->0,
    }
}

/// What every accepted metadata satisfies.
pub open spec fn meta_well_formed(meta: BasisBankMotionMeta) -> bool {
    &&& known_version(meta.format_version)
    &&& meta.include_lods@.contains(0)
    &&& meta.source_knot_count > 0
    &&& meta.source_knot_count + meta.loop_closure_knots == meta.exported_knot_count
    &&& meta.exported_knot_count >= 4
    &&& 0 < meta.top_k <= meta.basis_count
    &&& playable_duration(meta.duration_seconds)
}

fn contains_zero(values: &Vec<usize>) -> (r: bool)
    ensures
        r == values@.contains(0),
{
    for i in 0..values.len()
        invariant
            forall|k: int| 0 <= k < i ==> values@[k] != 0,
    {
        if values[i] == 0 {
            assert(values@[i as int] == 0);
            return true;
        }
    }
    false
}

/// Checks metadata that carries its own duration.
pub fn parse_basis_bank_meta(wire: BasisBankMotionWireMeta) -> (r: Result<
    BasisBankMotionMeta,
    BasisMetaError,
>)
    ensures
        match r {
            Ok(meta) => meta_error(wire, None) is None && meta == accepted_meta(wire, None),
            Err(error) => meta_error(wire, None) == Some(error),
        },
{
    parse_basis_bank_meta_with_legacy_duration(wire, None)
}

/// Checks metadata; version 1 takes its duration from `legacy_duration`.
pub fn parse_basis_bank_meta_with_legacy_duration(
    wire: BasisBankMotionWireMeta,
    legacy_duration: Option<u32>,
) -> (r: Result<BasisBankMotionMeta, BasisMetaError>)
    ensures
        match r {
            Ok(meta) => {
                &&& meta_error(wire, legacy_duration) is None
                &&& meta == accepted_meta(wire, legacy_duration)
                &&& meta_well_formed(meta)
            },
            Err(error) => meta_error(wire, legacy_duration) == Some(error),
        },
{
    if !same_text(wire.format.as_str(), BASIS_BANK_FORMAT) {
        return Err(BasisMetaError::Format { format: wire.format });
    }
    if wire.format_version != BASIS_BANK_LEGACY_VERSION && wire.format_version
        != BASIS_BANK_VERSION {
        return Err(BasisMetaError::Version { version: wire.format_version });
    }
    if !same_text(wire.delta_field.as_str(), "delta_xyz") {
        return Err(BasisMetaError::DeltaField { field: wire.delta_field });
    }
    if !same_text(wire.basis_scope.as_str(), BASIS_SCOPE_SHARED_LOD0) {
        return Err(BasisMetaError::Scope { scope: wire.basis_scope });
    }
    match wire.basis_source_lod {
        Some(lod) => {
            if lod != 0 {
                return Err(BasisMetaError::SourceLod { lod: wire.basis_source_lod });
            }
        },
        None => {
            return Err(BasisMetaError::SourceLod { lod: wire.basis_source_lod });
        },
    }
    if !contains_zero(&wire.include_lods) {
        return Err(BasisMetaError::LodZeroMissing);
    }
    if !same_text(wire.motion_teacher.as_str(), "direct_network") {
        return Err(BasisMetaError::Teacher { teacher: wire.motion_teacher });
    }
    if !same_text(wire.source_time_sampling.as_str(), "inclusive") {
        return Err(BasisMetaError::TimeSampling { sampling: wire.source_time_sampling });
    }
    if !same_text(wire.loop_closure_method.as_str(), "cubic_hermite") {
        return Err(BasisMetaError::ClosureMethod { method: wire.loop_closure_method });
    }
    if !same_text(wire.motion_basis_closure_mode.as_str(), "target_then_basis") && !same_text(
        wire.motion_basis_closure_mode.as_str(),
        "basis_then_closure",
    ) {
        return Err(BasisMetaError::ClosureMode { mode: wire.motion_basis_closure_mode });
    }
    if wire.source_knot_count == 0 {
        return Err(BasisMetaError::NoSourceKnots);
    }
    match wire.source_knot_count.checked_add(wire.loop_closure_knots) {
        None => {
            return Err(BasisMetaError::KnotCountOverflow);
        },
        Some(expected) => {
            if expected != wire.exported_knot_count {
                return Err(
                    BasisMetaError::KnotCount {
                        source: wire.source_knot_count,
                        closure: wire.loop_closure_knots,
                        exported: wire.exported_knot_count,
                        expected,
                    },
                );
            }
        },
    }
    let chosen: Option<u32> = if wire.format_version == BASIS_BANK_LEGACY_VERSION {
        legacy_duration
    } else {
        wire.duration_seconds
    };
    let duration_seconds: u32 = match chosen {
        Some(bits) => bits,
        None => {
            if wire.format_version == BASIS_BANK_LEGACY_VERSION {
                return Err(BasisMetaError::LegacyDurationMissing);
            }
            return Err(BasisMetaError::DurationMissing);
        },
    };
    if !crate::float_bits::is_finite(duration_seconds) || crate::float_bits::is_less_or_same(
        duration_seconds,
        crate::float_bits::ZERO,
    ) {
        return Err(BasisMetaError::Duration { bits: duration_seconds });
    }
    if wire.exported_knot_count < 4 {
        return Err(BasisMetaError::TooFewKnots { exported: wire.exported_knot_count });
    }
    if wire.basis_count == 0 || wire.top_k == 0 || wire.top_k > wire.basis_count {
        return Err(
            BasisMetaError::BasisCount { basis_count: wire.basis_count, top_k: wire.top_k },
        );
    }
    Ok(
        BasisBankMotionMeta {
            format_version: wire.format_version,
            include_lods: wire.include_lods,
            source_knot_count: wire.source_knot_count,
            exported_knot_count: wire.exported_knot_count,
            loop_closure_knots: wire.loop_closure_knots,
            basis_count: wire.basis_count,
            top_k: wire.top_k,
            duration_seconds,
        },
    )
}

/// One basis bank payload.
#[derive(Debug, Clone)]
pub struct BasisBankLodMotion {
    pub format_version: u32,
    pub lod_index: usize,
    pub basis_count: usize,
    pub knot_count: usize,
    /// Basis-major storage: `(basis * knot_count + knot) * 3 + axis`, as bit patterns.
    pub basis_knots: Vec<u32>,
}

/// Why a binary payload is refused.
#[derive(Debug, Clone, Copy, PartialEq, Eq, Structural)]
pub enum BasisPayloadError {
    TooSmall,
    Magic,
    Version { version: u32 },
    CountOverflow,
    LengthOverflow,
    Length { found: usize, expected: usize },
    NonFinite,
}

/// Values in a knot payload: three per knot of every basis.
pub open spec fn lod_value_count(bytes: Seq<u8>) -> int {
    crate::bytes::le_u32(bytes, 12) * crate::bytes::le_u32(bytes, 16) * 3
}

/// The first rule that a knot payload breaks.
pub open spec fn lod_payload_error(bytes: Seq<u8>) -> Option<BasisPayloadError> {
    let count = lod_value_count(bytes);
    if bytes.len() < 20 {
        Some(BasisPayloadError::TooSmall)
    } else if !crate::bytes::starts_with4(bytes, 0x4d, 0x42, 0x53, 0x42) {
        Some(BasisPayloadError::Magic)
    } else if !known_version(crate::bytes::le_u32(bytes, 4)) {
        Some(BasisPayloadError::Version { version: crate::bytes::le_u32(bytes, 4) })
    } else if count > usize::MAX {
        Some(BasisPayloadError::CountOverflow)
    } else if 20 + count * 4 > usize::MAX {
        Some(BasisPayloadError::LengthOverflow)
    } else if bytes.len() != 20 + count * 4 {
        Some(
            BasisPayloadError::Length {
                found: bytes.len() as usize,
                expected: (20 + count * 4) as usize,
            },
        )
    } else if !crate::float_bits::all_finite(
        crate::bytes::le_u32_run(bytes, 20, count as nat),
    ) {
        Some(BasisPayloadError::NonFinite)
    } else {
        None
    }
}

/// A knot bank holds three finite values for every knot of every basis.
pub open spec fn lod_motion_well_formed(motion: BasisBankLodMotion) -> bool {
    &&& known_version(motion.format_version)
    &&& motion.basis_knots@.len() == motion.basis_count * motion.knot_count * 3
    &&& crate::float_bits::all_finite(motion.basis_knots@)
}

/// Reads a basis bank: the tag `MBSB`, version, LoD, basis count and knot count, then the knots.
pub fn parse_basis_lod_motion(bytes: &[u8]) -> (r: Result<BasisBankLodMotion, BasisPayloadError>)
    ensures
        match r {
            Ok(motion) => {
                &&& lod_payload_error(bytes@) is None
                &&& motion.format_version == crate::bytes::le_u32(bytes@, 4)
                &&& motion.lod_index == crate::bytes::le_u32(bytes@, 8)
                &&& motion.basis_count == crate::bytes::le_u32(bytes@, 12)
                &&& motion.knot_count == crate::bytes::le_u32(bytes@, 16)
                &&& motion.basis_knots@ == crate::bytes::le_u32_run(
                    bytes@,
                    20,
                    lod_value_count(bytes@) as nat,
                )
                &&& lod_motion_well_formed(motion)
            },
            Err(error) => lod_payload_error(bytes@) == Some(error),
        },
{
    if bytes.len() < 20 {
        return Err(BasisPayloadError::TooSmall);
    }
    if !(bytes[0] == 0x4d && bytes[1] == 0x42 && bytes[2] == 0x53 && bytes[3] == 0x42) {
        return Err(BasisPayloadError::Magic);
    }
    let version: u32 = le_u32_at(bytes, 4);
    if version != BASIS_BANK_LEGACY_VERSION && version != BASIS_BANK_VERSION {
        return Err(BasisPayloadError::Version { version });
    }
    let lod_index: usize = le_u32_at(bytes, 8) as usize;
    let basis_count: usize = le_u32_at(bytes, 12) as usize;
    let knot_count: usize = le_u32_at(bytes, 16) as usize;
    let ghost product = basis_count * knot_count;
    assert(product >= 0) by (nonlinear_arith)
        requires
            product == basis_count * knot_count,
            basis_count >= 0,
            knot_count >= 0,
    ;
    let value_count: usize = match basis_count.checked_mul(knot_count) {
        Some(knots) => match knots.checked_mul(3) {
            Some(count) => count,
            None => {
                return Err(BasisPayloadError::CountOverflow);
            },
        },
        None => {
            return Err(BasisPayloadError::CountOverflow);
        },
    };
    let expected: usize = match value_count.checked_mul(4) {
        Some(payload) => match payload.checked_add(20) {
            Some(total) => total,
            None => {
                return Err(BasisPayloadError::LengthOverflow);
            },
        },
        None => {
            return Err(BasisPayloadError::LengthOverflow);
        },
    };
    if bytes.len() != expected {
        return Err(BasisPayloadError::Length { found: bytes.len(), expected });
    }
    let basis_knots: Vec<u32> = le_u32_vec(bytes, 20, value_count);
    if !crate::float_bits::is_all_finite(basis_knots.as_slice()) {
        return Err(BasisPayloadError::NonFinite);
    }
    Ok(BasisBankLodMotion { format_version: version, lod_index, basis_count, knot_count, basis_knots })
}

/// The sparse coefficients of one tile.
#[derive(Debug, Clone)]
pub struct BasisBankTileCoefficients {
    pub format_version: u32,
    pub tile_index: usize,
    pub lod_index: usize,
    pub splat_count: usize,
    pub top_k: usize,
    /// Splat-major storage: `splat * top_k + slot`.
    pub basis_ids: Vec<u32>,
    /// Splat-major storage: `splat * top_k + slot`, as bit patterns.
    pub weights: Vec<u32>,
}

/// Coefficients in a tile payload: `top_k` for every splat.
pub open spec fn coefficient_count(bytes: Seq<u8>) -> int {
    crate::bytes::le_u32(bytes, 16) * crate::bytes::le_u32(bytes, 20)
}

/// The first rule that a coefficient payload breaks.
pub open spec fn coefficient_payload_error(bytes: Seq<u8>) -> Option<BasisPayloadError> {
    let count = coefficient_count(bytes);
    if bytes.len() < 24 {
        Some(BasisPayloadError::TooSmall)
    } else if !crate::bytes::starts_with4(bytes, 0x4d, 0x42, 0x43, 0x46) {
        Some(BasisPayloadError::Magic)
    } else if !known_version(crate::bytes::le_u32(bytes, 4)) {
        Some(BasisPayloadError::Version { version: crate::bytes::le_u32(bytes, 4) })
    } else if count > usize::MAX {
        Some(BasisPayloadError::CountOverflow)
    } else if 24 + count * 8 > usize::MAX {
        Some(BasisPayloadError::LengthOverflow)
    } else if bytes.len() != 24 + count * 8 {
        Some(
            BasisPayloadError::Length {
                found: bytes.len() as usize,
                expected: (24 + count * 8) as usize,
            },
        )
    } else if !crate::float_bits::all_finite(
        crate::bytes::le_u32_run(bytes, 24 + count * 4, count as nat),
    ) {
        Some(BasisPayloadError::NonFinite)
    } else {
        None
    }
}

/// Both arrays hold `top_k` entries for every splat, and the weights are finite.
pub open spec fn coefficients_well_formed(coeffs: BasisBankTileCoefficients) -> bool {
    &&& known_version(coeffs.format_version)
    &&& coeffs.basis_ids@.len() == coeffs.splat_count * coeffs.top_k
    &&& coeffs.weights@.len() == coeffs.splat_count * coeffs.top_k
    &&& crate::float_bits::all_finite(coeffs.weights@)
}

/// Reads the coefficients of a tile: the tag `MBCF`, version, tile, LoD, splat count and
/// coefficients per splat, then all basis numbers and all weights.
pub fn parse_basis_tile_coefficients(bytes: &[u8]) -> (r: Result<
    BasisBankTileCoefficients,
    BasisPayloadError,
>)
    ensures
        match r {
            Ok(coeffs) => {
                &&& coefficient_payload_error(bytes@) is None
                &&& coeffs.format_version == crate::bytes::le_u32(bytes@, 4)
                &&& coeffs.tile_index == crate::bytes::le_u32(bytes@, 8)
                &&& coeffs.lod_index == crate::bytes::le_u32(bytes@, 12)
                &&& coeffs.splat_count == crate::bytes::le_u32(bytes@, 16)
                &&& coeffs.top_k == crate::bytes::le_u32(bytes@, 20)
                &&& coeffs.basis_ids@ == crate::bytes::le_u32_run(
                    bytes@,
                    24,
                    coefficient_count(bytes@) as nat,
                )
                &&& coeffs.weights@ == crate::bytes::le_u32_run(
                    bytes@,
                    24 + coefficient_count(bytes@) * 4,
                    coefficient_count(bytes@) as nat,
                )
                &&& coefficients_well_formed(coeffs)
            },
            Err(error) => coefficient_payload_error(bytes@) == Some(error),
        },
{
    if bytes.len() < 24 {
        return Err(BasisPayloadError::TooSmall);
    }
    if !(bytes[0] == 0x4d && bytes[1] == 0x42 && bytes[2] == 0x43 && bytes[3] == 0x46) {
        return Err(BasisPayloadError::Magic);
    }
    let version: u32 = le_u32_at(bytes, 4);
    if version != BASIS_BANK_LEGACY_VERSION && version != BASIS_BANK_VERSION {
        return Err(BasisPayloadError::Version { version });
    }
    let tile_index: usize = le_u32_at(bytes, 8) as usize;
    let lod_index: usize = le_u32_at(bytes, 12) as usize;
    let splat_count: usize = le_u32_at(bytes, 16) as usize;
    let top_k: usize = le_u32_at(bytes, 20) as usize;
    let ghost product = splat_count * top_k;
    assert(product >= 0) by (nonlinear_arith)
        requires
            product == splat_count * top_k,
            splat_count >= 0,
            top_k >= 0,
    ;
    let count: usize = match splat_count.checked_mul(top_k) {
        Some(count) => count,
        None => {
            return Err(BasisPayloadError::CountOverflow);
        },
    };
    let section: usize = match count.checked_mul(4) {
        Some(section) => section,
        None => {
            return Err(BasisPayloadError::LengthOverflow);
        },
    };
    let weights_start: usize = match section.checked_add(24) {
        Some(start) => start,
        None => {
            return Err(BasisPayloadError::LengthOverflow);
        },
    };
    let expected: usize = match weights_start.checked_add(section) {
        Some(total) => total,
        None => {
            return Err(BasisPayloadError::LengthOverflow);
        },
    };
    if bytes.len() != expected {
        return Err(BasisPayloadError::Length { found: bytes.len(), expected });
    }
    let basis_ids: Vec<u32> = le_u32_vec(bytes, 24, count);
    let weights: Vec<u32> = le_u32_vec(bytes, weights_start, count);
    if !crate::float_bits::is_all_finite(weights.as_slice()) {
        return Err(BasisPayloadError::NonFinite);
    }
    Ok(
        BasisBankTileCoefficients {
            format_version: version,
            tile_index,
            lod_index,
            splat_count,
            top_k,
            basis_ids,
            weights,
        },
    )
}

/// Why a deformation header gives no duration.
#[derive(Debug, Clone, Copy, PartialEq, Eq, Structural)]
pub enum LegacyHeaderError {
    TooSmall { found: usize },
    Magic,
    Version { version: u32 },
    NoTemporalResolution,
}

pub open spec fn legacy_header_error(bytes: Seq<u8>) -> Option<LegacyHeaderError> {
    if bytes.len() < DEFORMATION_HEADER_SIZE {
        Some(LegacyHeaderError::TooSmall { found: bytes.len() as usize })
    } else if !crate::bytes::starts_with4(bytes, 0x44, 0x46, 0x57, 0x54) {
        Some(LegacyHeaderError::Magic)
    } else if crate::bytes::le_u32(bytes, 4) != 1 {
        Some(LegacyHeaderError::Version { version: crate::bytes::le_u32(bytes, 4) })
    } else if crate::bytes::le_u32(bytes, 24) == 0 {
        Some(LegacyHeaderError::NoTemporalResolution)
    } else {
        None
    }
}

/// Reads the temporal resolution of a deformation network from the start of its file (the tag
/// `DFWT`, version 1). The playback lasts two frames of a thirtieth of a second for each of these
/// samples.
pub fn parse_legacy_temporal_resolution(bytes: &[u8]) -> (r: Result<u32, LegacyHeaderError>)
    ensures
        match r {
            Ok(resolution) => {
                &&& legacy_header_error(bytes@) is None
                &&& resolution == crate::bytes::le_u32(bytes@, 24)
                &&& resolution > 0
            },
            Err(error) => legacy_header_error(bytes@) == Some(error),
        },
{
    if bytes.len() < DEFORMATION_HEADER_SIZE {
        return Err(LegacyHeaderError::TooSmall { found: bytes.len() });
    }
    if !(bytes[0] == 0x44 && bytes[1] == 0x46 && bytes[2] == 0x57 && bytes[3] == 0x54) {
        return Err(LegacyHeaderError::Magic);
    }
    let version: u32 = le_u32_at(bytes, 4);
    if version != 1 {
        return Err(LegacyHeaderError::Version { version });
    }
    let resolution: u32 = le_u32_at(bytes, DEFORMATION_TEMPORAL_RESOLUTION_OFFSET);
    if resolution == 0 {
        return Err(LegacyHeaderError::NoTemporalResolution);
    }
    Ok(resolution)
}

/// The rows of `data` (of `width` entries each) that `rows` names, one after the other, for the
/// first `n` of them.
pub open spec fn gathered(data: Seq<u32>, rows: Seq<u32>, width: int, n: nat) -> Seq<u32>
    decreases n,
{
    if n == 0 {
        Seq::empty()
    } else {
        gathered(data, rows, width, (n - 1) as nat) + data.subrange(
            rows[n - 1] * width,
            rows[n - 1] * width + width,
        )
    }
}

/// Why coefficients cannot be appended.
#[derive(Debug, Clone, Copy, PartialEq, Eq, Structural)]
pub enum AppendError {
    /// The row list does not name one row per splat.
    RowCount { rows: usize, splats: usize },
    /// A row outside the tile.
    Row { row: usize, splats: usize },
    /// A basis outside the bank.
    BasisId { id: u32, basis_count: usize },
}

/// The first slot from `slot` on whose basis is outside the bank.
pub open spec fn first_foreign_slot(
    ids: Seq<u32>,
    start: int,
    slot: int,
    top_k: int,
    basis_count: int,
) -> Option<int>
    decreases top_k - slot,
{
    if slot >= top_k {
        None
    } else if ids[start + slot] >= basis_count {
        Some(slot)
    } else {
        first_foreign_slot(ids, start, slot + 1, top_k, basis_count)
    }
}

/// Where appending stops, from splat `from` on: the number of entries appended until then and the
/// reason.
pub open spec fn stop_of(
    ids: Seq<u32>,
    splats: usize,
    top_k: usize,
    rows: Seq<u32>,
    basis_count: usize,
    from: nat,
) -> Option<(int, AppendError)>
    decreases splats - from,
{
    if from >= splats {
        None
    } else if rows[from as int] >= splats {
        Some((from * top_k, AppendError::Row { row: rows[from as int] as usize, splats }))
    } else {
        let start = rows[from as int] * top_k;
        match first_foreign_slot(ids, start, 0, top_k as int, basis_count as int) {
            Some(slot) => Some(
                (from * top_k + slot, AppendError::BasisId { id: ids[start + slot], basis_count }),
            ),
            None => stop_of(ids, splats, top_k, rows, basis_count, from + 1),
        }
    }
}

/// Where appending the coefficients of a tile stops.
pub open spec fn append_stop(
    coeffs: BasisBankTileCoefficients,
    rows: Seq<u32>,
    basis_count: usize,
    from: nat,
) -> Option<(int, AppendError)> {
    stop_of(coeffs.basis_ids@, coeffs.splat_count, coeffs.top_k, rows, basis_count, from)
}

/// Reordering keeps the width of the rows: `n` rows hold `n` times as many entries as one.
pub proof fn gathered_len(data: Seq<u32>, rows: Seq<u32>, width: int, n: nat, total: int)
    requires
        width >= 0,
        n <= rows.len(),
        data.len() == total * width,
        forall|i: int| 0 <= i < n ==> #[trigger] rows[i] < total,
    ensures
        gathered(data, rows, width, n).len() == n * width,
    decreases n,
{
    if n > 0 {
        gathered_len(data, rows, width, (n - 1) as nat, total);
        row_in_bounds(rows[n - 1] as int, width, total);
        assert((n - 1) * width + width == n * width) by (nonlinear_arith);
    } else {
        assert(0 * width == 0);
    }
}

proof fn row_in_bounds(row: int, width: int, total: int)
    requires
        0 <= row < total,
        0 <= width,
    ensures
        0 <= row * width,
        row * width + width <= total * width,
{
    assert(0 <= row * width && row * width + width <= total * width) by (nonlinear_arith)
        requires
            0 <= row < total,
            0 <= width,
    ;
}

/// Reordering follows the row list: entry `slot` of output row `splat` is entry `slot` of the
/// source row that the list names.
pub proof fn gathered_follows_rows(
    data: Seq<u32>,
    rows: Seq<u32>,
    width: int,
    n: nat,
    total: int,
    splat: int,
    slot: int,
)
    requires
        n <= rows.len(),
        data.len() == total * width,
        forall|i: int| 0 <= i < n ==> #[trigger] rows[i] < total,
        0 <= splat < n,
        0 <= slot < width,
    ensures
        splat * width + slot < gathered(data, rows, width, n).len(),
        gathered(data, rows, width, n)[splat * width + slot] == data[rows[splat] * width + slot],
    decreases n,
{
    gathered_len(data, rows, width, n, total);
    gathered_len(data, rows, width, (n - 1) as nat, total);
    row_in_bounds(splat, width, n as int);
    if splat == n - 1 {
        row_in_bounds(rows[splat] as int, width, total);
    } else {
        row_in_bounds(splat, width, n - 1);
        gathered_follows_rows(data, rows, width, (n - 1) as nat, total, splat, slot);
    }
}

/// The first `count` entries of the rows of `data` that `rows` names.
pub open spec fn gathered_values(
    data: Seq<u32>,
    rows: Seq<u32>,
    width: int,
    count: nat,
) -> Seq<u32> {
    Seq::new(count, |i: int| data[rows[i / width] * width + i % width])
}

proof fn gathered_in_part(
    data: Seq<u32>,
    rows: Seq<u32>,
    width: int,
    n: nat,
    total: int,
    slot: int,
)
    requires
        n < rows.len(),
        data.len() == total * width,
        forall|i: int| 0 <= i < n ==> #[trigger] rows[i] < total,
        0 <= slot <= width,
        slot > 0 ==> rows[n as int] < total,
    ensures
        n * width + slot >= 0,
        gathered_values(data, rows, width, (n * width + slot) as nat) == gathered(
            data,
            rows,
            width,
            n,
        ) + Seq::new(slot as nat, |k: int| data[rows[n as int] * width + k]),
{
    let whole = gathered(data, rows, width, n);
    let values = gathered_values(data, rows, width, (n * width + slot) as nat);
    let rest = Seq::new(slot as nat, |k: int| data[rows[n as int] * width + k]);
    gathered_len(data, rows, width, n, total);
    assert(n * width >= 0) by (nonlinear_arith)
        requires
            width >= 0,
    ;
    assert forall|i: int| 0 <= i < n * width + slot implies values[i] == (whole + rest)[i] by {
        assert(width > 0) by (nonlinear_arith)
            requires
                0 <= i < n * width + slot,
                0 <= slot <= width,
        ;
        if i < n * width {
            vstd::arithmetic::div_mod::lemma_fundamental_div_mod(i, width);
            vstd::arithmetic::div_mod::lemma_div_pos_is_pos(i, width);
            vstd::arithmetic::mul::lemma_mul_is_commutative(n as int, width);
            vstd::arithmetic::div_mod::lemma_multiply_divide_lt(i, width, n as int);
            vstd::arithmetic::mul::lemma_mul_is_commutative(width, i / width);
            gathered_follows_rows(data, rows, width, n, total, i / width, i % width);
        } else if i < n * width + width {
            vstd::arithmetic::div_mod::lemma_fundamental_div_mod_converse(
                i,
                width,
                n as int,
                i - n * width,
            );
        }
    }
    assert(values =~= whole + rest);
}

/// Appends the coefficients of a tile in the order of its splats: output row `i` is the source row
/// that `source_row_indices[i]` names.
pub fn append_tile_coefficients_splat_major(
    ids_out: &mut Vec<u32>,
    weights_out: &mut Vec<u32>,
    coeffs: &BasisBankTileCoefficients,
    source_row_indices: &[u32],
    basis_count: usize,
) -> (r: Result<(), AppendError>)
    requires
        coeffs.basis_ids@.len() == coeffs.splat_count * coeffs.top_k,
        coeffs.weights@.len() == coeffs.splat_count * coeffs.top_k,
    ensures
        match r {
            Ok(_) => {
                &&& source_row_indices@.len() == coeffs.splat_count
                &&& append_stop(*coeffs, source_row_indices@, basis_count, 0) is None
                &&& final(ids_out)@ == old(ids_out)@ + gathered(
                    coeffs.basis_ids@,
                    source_row_indices@,
                    coeffs.top_k as int,
                    coeffs.splat_count as nat,
                )
                &&& final(weights_out)@ == old(weights_out)@ + gathered(
                    coeffs.weights@,
                    source_row_indices@,
                    coeffs.top_k as int,
                    coeffs.splat_count as nat,
                )
            },
            Err(error) => {
                if source_row_indices@.len() != coeffs.splat_count {
                    &&& error == AppendError::RowCount {
                        rows: source_row_indices@.len() as usize,
                        splats: coeffs.splat_count,
                    }
                    &&& final(ids_out)@ == old(ids_out)@
                    &&& final(weights_out)@ == old(weights_out)@
                } else {
                    let stop = append_stop(*coeffs, source_row_indices@, basis_count, 0);
                    &&& stop is Some
                    &&& (stop->0).1 == error
                    &&& final(ids_out)@ == old(ids_out)@ + gathered_values(
                        coeffs.basis_ids@,
                        source_row_indices@,
                        coeffs.top_k as int,
                        (stop->0).0 as nat,
                    )
                    &&& final(weights_out)@ == old(weights_out)@ + gathered_values(
                        coeffs.weights@,
                        source_row_indices@,
                        coeffs.top_k as int,
                        (stop->0).0 as nat,
                    )
                }
            },
        },
{
    if source_row_indices.len() != coeffs.splat_count {
        return Err(
            AppendError::RowCount { rows: source_row_indices.len(), splats: coeffs.splat_count },
        );
    }
    let ghost ids0 = ids_out@;
    let ghost weights0 = weights_out@;
    let ghost rows = source_row_indices@;
    let splats: usize = coeffs.splat_count;
    let top_k: usize = coeffs.top_k;
    let total: usize = coeffs.basis_ids.len();
    let mut splat: usize = 0;
    while splat < splats
        invariant
            splat <= splats,
            splats == coeffs.splat_count,
            top_k == coeffs.top_k,
            rows == source_row_indices@,
            rows.len() == splats,
            coeffs.basis_ids@.len() == splats * top_k,
            coeffs.basis_ids@.len() == total,
            coeffs.weights@.len() == splats * top_k,
            forall|i: int| 0 <= i < splat ==> #[trigger] rows[i] < splats,
            append_stop(*coeffs, rows, basis_count, 0) == append_stop(
                *coeffs,
                rows,
                basis_count,
                splat as nat,
            ),
            ids_out@ == ids0 + gathered(coeffs.basis_ids@, rows, top_k as int, splat as nat),
            weights_out@ == weights0 + gathered(coeffs.weights@, rows, top_k as int, splat as nat),
            ids0 == old(ids_out)@,
            weights0 == old(weights_out)@,
        decreases splats - splat,
    {
        proof {
            gathered_len(coeffs.basis_ids@, rows, top_k as int, splat as nat, splats as int);
            gathered_len(coeffs.weights@, rows, top_k as int, splat as nat, splats as int);
        }
        let row: usize = source_row_indices[splat] as usize;
        if row >= splats {
            proof {
                let (n, k) = (splat as nat, top_k as int);
                gathered_in_part(coeffs.basis_ids@, rows, k, n, splats as int, 0);
                gathered_in_part(coeffs.weights@, rows, k, n, splats as int, 0);
            }
            return Err(AppendError::Row { row, splats });
        }
        proof {
            row_in_bounds(row as int, top_k as int, splats as int);
        }
        let src: usize = row * top_k;
        let ghost ids1 = ids_out@;
        let ghost weights1 = weights_out@;
        let mut slot: usize = 0;
        while slot < top_k
            invariant
                slot <= top_k,
                src + top_k <= coeffs.basis_ids@.len(),
                coeffs.basis_ids@.len() == splats * top_k,
                coeffs.basis_ids@.len() == total,
                coeffs.weights@.len() == splats * top_k,
                splats == coeffs.splat_count,
                top_k == coeffs.top_k,
                splat < splats,
                rows == source_row_indices@,
                rows.len() == splats,
                rows[splat as int] == row,
                row < splats,
                src == row * top_k,
                first_foreign_slot(
                    coeffs.basis_ids@,
                    src as int,
                    0,
                    top_k as int,
                    basis_count as int,
                ) == first_foreign_slot(
                    coeffs.basis_ids@,
                    src as int,
                    slot as int,
                    top_k as int,
                    basis_count as int,
                ),
                append_stop(*coeffs, rows, basis_count, 0) == append_stop(
                    *coeffs,
                    rows,
                    basis_count,
                    splat as nat,
                ),
                forall|i: int| 0 <= i < splat ==> #[trigger] rows[i] < splats,
                ids1 == ids0 + gathered(coeffs.basis_ids@, rows, top_k as int, splat as nat),
                weights1 == weights0 + gathered(
                    coeffs.weights@,
                    rows,
                    top_k as int,
                    splat as nat,
                ),
                ids0 == old(ids_out)@,
                weights0 == old(weights_out)@,
                ids_out@ == ids1 + coeffs.basis_ids@.subrange(src as int, src + slot),
                weights_out@ == weights1 + coeffs.weights@.subrange(src as int, src + slot),
            decreases top_k - slot,
        {
            let basis_id: u32 = coeffs.basis_ids[src + slot];
            if basis_id as usize >= basis_count {
                proof {
                    let (n, k) = (splat as nat, top_k as int);
                    gathered_in_part(coeffs.basis_ids@, rows, k, n, splats as int, slot as int);
                    gathered_in_part(coeffs.weights@, rows, k, n, splats as int, slot as int);
                    assert(ids_out@ =~= ids0 + gathered_values(
                        coeffs.basis_ids@,
                        rows,
                        k,
                        (n * k + slot) as nat,
                    ));
                    assert(weights_out@ =~= weights0 + gathered_values(
                        coeffs.weights@,
                        rows,
                        k,
                        (n * k + slot) as nat,
                    ));
                }
                return Err(AppendError::BasisId { id: basis_id, basis_count });
            }
            ids_out.push(basis_id);
            weights_out.push(coeffs.weights[src + slot]);
            assert(coeffs.basis_ids@.subrange(src as int, src + slot).push(basis_id)
                =~= coeffs.basis_ids@.subrange(src as int, src + slot + 1));
            assert(coeffs.weights@.subrange(src as int, src + slot).push(
                coeffs.weights@[src + slot],
            ) =~= coeffs.weights@.subrange(src as int, src + slot + 1));
            slot = slot + 1;
        }
        splat = splat + 1;
        assert(ids_out@ =~= ids0 + gathered(coeffs.basis_ids@, rows, top_k as int, splat as nat));
        assert(weights_out@ =~= weights0 + gathered(
            coeffs.weights@,
            rows,
            top_k as int,
            splat as nat,
        ));
    }
    Ok(())
}

/// The basis bank of a LoD in an archive.
#[derive(Debug, Clone)]
pub struct BasisBankLodZipEntry {
    pub index: usize,
    pub filename: String,
    pub lod_id: usize,
}

/// The coefficients of a tile in an archive.
#[derive(Debug, Clone)]
pub struct BasisBankCoeffZipEntry {
    pub index: usize,
    pub filename: String,
    pub tile_id: usize,
    pub lod_id: usize,
}

/// Names of basis bank files.
pub const LOD_PATTERN: &'static str = r"^lod(\d+)_motion_basis\.bin$";

/// Names of coefficient files.
pub const COEFFS_PATTERN: &'static str = r"^tile(\d+)_lod(\d+)_motion_basis_coeffs\.bin$";

/// Two numbers that a match holds.
pub open spec fn two_numbers(groups: Option<Seq<Option<Seq<char>>>>) -> Option<(usize, usize)> {
    match (
        crate::name_match::group_number(groups, 1),
        crate::name_match::group_number(groups, 2),
    ) {
        (Some(a), Some(b)) => Some((a, b)),
        _ => None,
    }
}

/// The LoD of a basis bank file, if the name is one.
pub fn detect_basis_lod_file(filename: &str) -> (r: Option<usize>)
    ensures
        r == crate::name_match::group_number(
            crate::name_match::regex_captures(LOD_PATTERN@, filename@),
            1,
        ),
{
    let groups: Option<Vec<Option<String>>> = crate::name_match::capture(LOD_PATTERN, filename);
    crate::name_match::number_in_group(&groups, 1)
}

/// The first two numbers that a match holds.
pub fn numbers_in_groups(groups: &Option<Vec<Option<String>>>) -> (r: Option<(usize, usize)>)
    ensures
        r == two_numbers(crate::name_match::groups_view(*groups)),
{
    match (
        crate::name_match::number_in_group(groups, 1),
        crate::name_match::number_in_group(groups, 2),
    ) {
        (Some(a), Some(b)) => Some((a, b)),
        _ => None,
    }
}

/// The tile and LoD of a coefficient file, if the name is one.
pub fn detect_basis_coeffs_file(filename: &str) -> (r: Option<(usize, usize)>)
    ensures
        r == two_numbers(crate::name_match::regex_captures(COEFFS_PATTERN@, filename@)),
{
    let groups: Option<Vec<Option<String>>> = crate::name_match::capture(COEFFS_PATTERN, filename);
    numbers_in_groups(&groups)
}

/// Why the motion of a scene cannot be loaded.
#[derive(Debug, Clone)]
pub enum MotionError {
    /// Not exactly one basis bank.
    BasisFiles,
    BasisFile { filename: String },
    Read { filename: String, error: crate::zip_file::EntryError },
    BasisPayload { filename: String, error: BasisPayloadError },
    PayloadVersion { filename: String, found: u32, expected: u32 },
    BasisLod { filename: String, found: usize },
    BasisCount { filename: String, found: usize, expected: usize },
    KnotCount { filename: String, found: usize, expected: usize },
    DuplicateCoefficients { tile: usize, lod: usize },
    MissingCoefficients { tile: usize, lod: usize },
    CoefficientPayload { filename: String, error: BasisPayloadError },
    CoefficientTile {
        filename: String,
        found_tile: usize,
        found_lod: usize,
        tile: usize,
        lod: usize,
    },
    CoefficientShape {
        filename: String,
        found_splats: usize,
        found_top_k: usize,
        splats: usize,
        top_k: usize,
    },
    Coefficients { filename: String, error: AppendError },
}

/// Two coefficient entries address the same tile.
pub open spec fn same_tile(a: BasisBankCoeffZipEntry, b: BasisBankCoeffZipEntry) -> bool {
    a.lod_id == b.lod_id && a.tile_id == b.tile_id
}

/// An earlier entry addresses the same tile as entry `i`.
pub open spec fn repeats_tile(entries: Seq<BasisBankCoeffZipEntry>, i: int) -> bool {
    exists|j: int| 0 <= j < i && same_tile(#[trigger] entries[j], entries[i])
}

/// The first entry from `from` on that repeats a tile.
pub open spec fn first_repeat(entries: Seq<BasisBankCoeffZipEntry>, from: nat) -> Option<int>
    decreases entries.len() - from,
{
    if from >= entries.len() {
        None
    } else if repeats_tile(entries, from as int) {
        Some(from as int)
    } else {
        first_repeat(entries, from + 1)
    }
}

fn tile_seen_before(entries: &[BasisBankCoeffZipEntry], i: usize) -> (r: bool)
    requires
        i < entries@.len(),
    ensures
        r == repeats_tile(entries@, i as int),
{
    for j in 0..i
        invariant
            i < entries@.len(),
            forall|k: int| 0 <= k < j ==> !same_tile(#[trigger] entries@[k], entries@[i as int]),
    {
        if entries[j].lod_id == entries[i].lod_id && entries[j].tile_id == entries[i].tile_id {
            assert(same_tile(entries@[j as int], entries@[i as int]));
            return true;
        }
    }
    false
}

/// Finds the first entry that repeats a tile.
pub fn find_repeat(entries: &[BasisBankCoeffZipEntry]) -> (r: Option<usize>)
    ensures
        match r {
            Some(i) => i < entries@.len() && first_repeat(entries@, 0) == Some(i as int),
            None => first_repeat(entries@, 0) is None,
        },
{
    for i in 0..entries.len()
        invariant
            first_repeat(entries@, 0) == first_repeat(entries@, i as nat),
    {
        if tile_seen_before(entries, i) {
            return Some(i);
        }
    }
    None
}

/// The first entry from `from` on for a tile.
pub open spec fn entry_for(
    entries: Seq<BasisBankCoeffZipEntry>,
    lod: int,
    tile: int,
    from: nat,
) -> Option<int>
    decreases entries.len() - from,
{
    if from >= entries.len() {
        None
    } else if entries[from as int].lod_id == lod && entries[from as int].tile_id == tile {
        Some(from as int)
    } else {
        entry_for(entries, lod, tile, from + 1)
    }
}

fn find_entry(entries: &[BasisBankCoeffZipEntry], lod: usize, tile: usize) -> (r: Option<usize>)
    ensures
        match r {
            Some(i) => i < entries@.len() && entry_for(entries@, lod as int, tile as int, 0)
                == Some(i as int),
            None => entry_for(entries@, lod as int, tile as int, 0) is None,
        },
{
    for i in 0..entries.len()
        invariant
            entry_for(entries@, lod as int, tile as int, 0) == entry_for(
                entries@,
                lod as int,
                tile as int,
                i as nat,
            ),
    {
        if entries[i].lod_id == lod && entries[i].tile_id == tile {
            return Some(i);
        }
    }
    None
}

/// What the coefficient payload of a tile adds: basis numbers and weights in the order of the
/// splats.
pub open spec fn payload_coefficients(
    bytes: Seq<u8>,
    meta: BasisBankMotionMeta,
    filename: String,
    lod: usize,
    tile: usize,
    scene: crate::scene::Scene,
) -> Result<(Seq<u32>, Seq<u32>), MotionError> {
    let version = crate::bytes::le_u32(bytes, 4);
    let found_tile = crate::bytes::le_u32(bytes, 8) as usize;
    let found_lod = crate::bytes::le_u32(bytes, 12) as usize;
    let splats = crate::bytes::le_u32(bytes, 16) as usize;
    let top_k = crate::bytes::le_u32(bytes, 20) as usize;
    let count = coefficient_count(bytes);
    let ids = crate::bytes::le_u32_run(bytes, 24, count as nat);
    let weights = crate::bytes::le_u32_run(bytes, 24 + count * 4, count as nat);
    let rows = scene.source_row_indices@;
    if coefficient_payload_error(bytes) is Some {
        Err(
            MotionError::CoefficientPayload {
                filename,
                error: coefficient_payload_error(bytes)->0,
            },
        )
    } else if version != meta.format_version {
        Err(
            MotionError::PayloadVersion { filename, found: version, expected: meta.format_version },
        )
    } else if found_tile != tile || found_lod != lod {
        Err(MotionError::CoefficientTile { filename, found_tile, found_lod, tile, lod })
    } else if splats != scene.splat_count || top_k != meta.top_k {
        Err(
            MotionError::CoefficientShape {
                filename,
                found_splats: splats,
                found_top_k: top_k,
                splats: scene.splat_count,
                top_k: meta.top_k,
            },
        )
    } else if rows.len() != splats {
        Err(
            MotionError::Coefficients {
                filename,
                error: AppendError::RowCount { rows: rows.len() as usize, splats },
            },
        )
    } else {
        match stop_of(ids, splats, top_k, rows, meta.basis_count, 0) {
            Some((_, error)) => Err(MotionError::Coefficients { filename, error }),
            None => Ok(
                (
                    gathered(ids, rows, top_k as int, splats as nat),
                    gathered(weights, rows, top_k as int, splats as nat),
                ),
            ),
        }
    }
}

fn read_tile_coefficients(
    bytes: &[u8],
    meta: &BasisBankMotionMeta,
    filename: &String,
    lod: usize,
    tile: usize,
    scene: &crate::scene::Scene,
    ids_out: &mut Vec<u32>,
    weights_out: &mut Vec<u32>,
) -> (r: Result<(), MotionError>)
    ensures
        match r {
            Ok(_) => {
                let added = payload_coefficients(bytes@, *meta, *filename, lod, tile, *scene);
                &&& added is Ok
                &&& final(ids_out)@ == old(ids_out)@ + (added->Ok_0).0
                &&& final(weights_out)@ == old(weights_out)@ + (added->Ok_0).1
            },
            Err(error) => payload_coefficients(bytes@, *meta, *filename, lod, tile, *scene) == Err::<
                (Seq<u32>, Seq<u32>),
                MotionError,
            >(error),
        },
{
    let coeffs: BasisBankTileCoefficients = match parse_basis_tile_coefficients(bytes) {
        Ok(coeffs) => coeffs,
        Err(error) => {
            return Err(MotionError::CoefficientPayload { filename: filename.clone(), error });
        },
    };
    if coeffs.format_version != meta.format_version {
        return Err(
            MotionError::PayloadVersion {
                filename: filename.clone(),
                found: coeffs.format_version,
                expected: meta.format_version,
            },
        );
    }
    if coeffs.tile_index != tile || coeffs.lod_index != lod {
        return Err(
            MotionError::CoefficientTile {
                filename: filename.clone(),
                found_tile: coeffs.tile_index,
                found_lod: coeffs.lod_index,
                tile,
                lod,
            },
        );
    }
    if coeffs.splat_count != scene.splat_count || coeffs.top_k != meta.top_k {
        return Err(
            MotionError::CoefficientShape {
                filename: filename.clone(),
                found_splats: coeffs.splat_count,
                found_top_k: coeffs.top_k,
                splats: scene.splat_count,
                top_k: meta.top_k,
            },
        );
    }
    match append_tile_coefficients_splat_major(
        ids_out,
        weights_out,
        &coeffs,
        scene.source_row_indices.as_slice(),
        meta.basis_count,
    ) {
        Ok(_) => Ok(()),
        Err(error) => Err(MotionError::Coefficients { filename: filename.clone(), error }),
    }
}

/// What one tile adds: its coefficients as the archive holds them.
pub open spec fn tile_coefficients(
    archive: Seq<u8>,
    meta: BasisBankMotionMeta,
    entries: Seq<BasisBankCoeffZipEntry>,
    lod: usize,
    tile: usize,
    scene: crate::scene::Scene,
) -> Result<(Seq<u32>, Seq<u32>), MotionError> {
    match entry_for(entries, lod as int, tile as int, 0) {
        None => Err(MotionError::MissingCoefficients { tile, lod }),
        Some(i) => {
            let entry = entries[i];
            match crate::zip_file::whole_entry(archive, entry.index) {
                Err(error) => Err(MotionError::Read { filename: entry.filename, error }),
                Ok(bytes) => payload_coefficients(bytes, meta, entry.filename, lod, tile, scene),
            }
        },
    }
}

/// The coefficients of all tiles before tile `tile` of LoD `lod`, LoD by LoD.
pub open spec fn coefficients_before(
    archive: Seq<u8>,
    meta: BasisBankMotionMeta,
    entries: Seq<BasisBankCoeffZipEntry>,
    scenes: Seq<Vec<crate::scene::Scene>>,
    lod: nat,
    tile: nat,
) -> Result<(Seq<u32>, Seq<u32>), MotionError>
    decreases lod, tile,
{
    if tile > 0 {
        match coefficients_before(archive, meta, entries, scenes, lod, (tile - 1) as nat) {
            Err(error) => Err(error),
            Ok((ids, weights)) => match tile_coefficients(
                archive,
                meta,
                entries,
                lod as usize,
                (tile - 1) as usize,
                scenes[lod as int]@[tile - 1],
            ) {
                Err(error) => Err(error),
                Ok((more_ids, more_weights)) => Ok((ids + more_ids, weights + more_weights)),
            },
        }
    } else if lod > 0 {
        coefficients_before(
            archive,
            meta,
            entries,
            scenes,
            (lod - 1) as nat,
            scenes[lod - 1]@.len(),
        )
    } else {
        Ok((Seq::empty(), Seq::empty()))
    }
}

/// Splats of all tiles before tile `tile` of LoD `lod`.
pub open spec fn splats_before(scenes: Seq<Vec<crate::scene::Scene>>, lod: nat, tile: nat) -> int
    decreases lod, tile,
{
    if tile > 0 {
        splats_before(scenes, lod, (tile - 1) as nat) + scenes[lod as int]@[tile - 1].splat_count
    } else if lod > 0 {
        splats_before(scenes, (lod - 1) as nat, scenes[lod - 1]@.len())
    } else {
        0
    }
}

/// All splats of a scene grid.
pub open spec fn grid_splats(scenes: Seq<Vec<crate::scene::Scene>>) -> int {
    splats_before(scenes, scenes.len(), 0)
}

/// A failure within a LoD is the failure of the LoD.
proof fn failure_spreads_over_tiles(
    archive: Seq<u8>,
    meta: BasisBankMotionMeta,
    entries: Seq<BasisBankCoeffZipEntry>,
    scenes: Seq<Vec<crate::scene::Scene>>,
    lod: nat,
    tile: nat,
    to: nat,
)
    requires
        tile <= to,
        coefficients_before(archive, meta, entries, scenes, lod, tile) is Err,
    ensures
        coefficients_before(archive, meta, entries, scenes, lod, to) == coefficients_before(
            archive,
            meta,
            entries,
            scenes,
            lod,
            tile,
        ),
    decreases to,
{
    if tile < to {
        failure_spreads_over_tiles(archive, meta, entries, scenes, lod, tile, (to - 1) as nat);
    }
}

/// A failure in a LoD is the failure of the whole grid.
proof fn failure_spreads_over_lods(
    archive: Seq<u8>,
    meta: BasisBankMotionMeta,
    entries: Seq<BasisBankCoeffZipEntry>,
    scenes: Seq<Vec<crate::scene::Scene>>,
    lod: nat,
    tile: nat,
)
    requires
        lod < scenes.len(),
        tile <= scenes[lod as int]@.len(),
        coefficients_before(archive, meta, entries, scenes, lod, tile) is Err,
    ensures
        coefficients_before(archive, meta, entries, scenes, scenes.len(), 0) == coefficients_before(
            archive,
            meta,
            entries,
            scenes,
            lod,
            tile,
        ),
    decreases scenes.len() - lod,
{
    failure_spreads_over_tiles(
        archive,
        meta,
        entries,
        scenes,
        lod,
        tile,
        scenes[lod as int]@.len(),
    );
    if lod + 1 < scenes.len() {
        failure_spreads_over_lods(archive, meta, entries, scenes, lod + 1, 0);
    }
}

pub(crate) proof fn splats_before_grows(
    scenes: Seq<Vec<crate::scene::Scene>>,
    lod: nat,
    tile: nat,
)
    requires
        lod < scenes.len() && tile <= scenes[lod as int]@.len() || lod == scenes.len() && tile == 0,
    ensures
        0 <= splats_before(scenes, lod, tile) <= grid_splats(scenes),
    decreases scenes.len() - lod, (if lod < scenes.len() { scenes[lod as int]@.len() - tile } else { 0 }),
{
    splats_before_is_positive(scenes, lod, tile);
    if lod < scenes.len() {
        if tile < scenes[lod as int]@.len() {
            splats_before_grows(scenes, lod, tile + 1);
        } else {
            splats_before_grows(scenes, lod + 1, 0);
        }
    }
}

proof fn splats_before_is_positive(scenes: Seq<Vec<crate::scene::Scene>>, lod: nat, tile: nat)
    ensures
        0 <= splats_before(scenes, lod, tile),
    decreases lod, tile,
{
    if tile > 0 {
        splats_before_is_positive(scenes, lod, (tile - 1) as nat);
    } else if lod > 0 {
        splats_before_is_positive(scenes, (lod - 1) as nat, scenes[lod - 1]@.len());
    }
}

/// The motion of a whole scene.
#[derive(Debug)]
pub struct BasisBankMotionSet {
    pub meta: BasisBankMotionMeta,
    pub motion_graph: Option<crate::basis_motion_graph::BasisMotionGraph>,
    pub total_splats: usize,
    pub basis_count: usize,
    /// Basis-major storage: `(basis * knot_count + knot) * 3 + axis`.
    pub basis_knots: Vec<u32>,
    /// Splat-major storage: `splat * top_k + slot`.
    pub basis_ids: Vec<u32>,
    /// Splat-major storage: `splat * top_k + slot`.
    pub global_weights: Vec<u32>,
}

/// The knots of the bank, as the archive holds them.
pub open spec fn bank_knots(
    archive: Seq<u8>,
    meta: BasisBankMotionMeta,
    lod_entries: Seq<BasisBankLodZipEntry>,
) -> Result<Seq<u32>, MotionError> {
    if lod_entries.len() != 1 {
        Err(MotionError::BasisFiles)
    } else {
        let entry = lod_entries[0];
        let filename = entry.filename;
        if entry.lod_id != 0 || filename@ != "lod0_motion_basis.bin"@ {
            Err(MotionError::BasisFile { filename })
        } else {
            match crate::zip_file::whole_entry(archive, entry.index) {
                Err(error) => Err(MotionError::Read { filename, error }),
                Ok(bytes) => payload_knots(bytes, meta, filename),
            }
        }
    }
}

/// The knots of a bank payload that belongs to the metadata.
pub open spec fn payload_knots(
    bytes: Seq<u8>,
    meta: BasisBankMotionMeta,
    filename: String,
) -> Result<Seq<u32>, MotionError> {
    let version = crate::bytes::le_u32(bytes, 4);
    let lod = crate::bytes::le_u32(bytes, 8) as usize;
    let basis_count = crate::bytes::le_u32(bytes, 12) as usize;
    let knot_count = crate::bytes::le_u32(bytes, 16) as usize;
    if lod_payload_error(bytes) is Some {
        Err(MotionError::BasisPayload { filename, error: lod_payload_error(bytes)->0 })
    } else if version != meta.format_version {
        Err(
            MotionError::PayloadVersion { filename, found: version, expected: meta.format_version },
        )
    } else if lod != 0 {
        Err(MotionError::BasisLod { filename, found: lod })
    } else if basis_count != meta.basis_count {
        Err(MotionError::BasisCount { filename, found: basis_count, expected: meta.basis_count })
    } else if knot_count != meta.exported_knot_count {
        Err(
            MotionError::KnotCount { filename, found: knot_count, expected: meta.exported_knot_count },
        )
    } else {
        Ok(crate::bytes::le_u32_run(bytes, 20, lod_value_count(bytes) as nat))
    }
}

fn check_bank_payload(bytes: &[u8], meta: &BasisBankMotionMeta, filename: &String) -> (r: Result<
    Vec<u32>,
    MotionError,
>)
    ensures
        match r {
            Ok(knots) => {
                &&& payload_knots(bytes@, *meta, *filename) == Ok::<Seq<u32>, MotionError>(knots@)
                &&& knots@.len() == meta.basis_count * meta.exported_knot_count * 3
                &&& crate::float_bits::all_finite(knots@)
            },
            Err(error) => payload_knots(bytes@, *meta, *filename) == Err::<Seq<u32>, MotionError>(
                error,
            ),
        },
{
    let basis: BasisBankLodMotion = match parse_basis_lod_motion(bytes) {
        Ok(basis) => basis,
        Err(error) => {
            return Err(MotionError::BasisPayload { filename: filename.clone(), error });
        },
    };
    if basis.format_version != meta.format_version {
        return Err(
            MotionError::PayloadVersion {
                filename: filename.clone(),
                found: basis.format_version,
                expected: meta.format_version,
            },
        );
    }
    if basis.lod_index != 0 {
        return Err(MotionError::BasisLod { filename: filename.clone(), found: basis.lod_index });
    }
    if basis.basis_count != meta.basis_count {
        return Err(
            MotionError::BasisCount {
                filename: filename.clone(),
                found: basis.basis_count,
                expected: meta.basis_count,
            },
        );
    }
    if basis.knot_count != meta.exported_knot_count {
        return Err(
            MotionError::KnotCount {
                filename: filename.clone(),
                found: basis.knot_count,
                expected: meta.exported_knot_count,
            },
        );
    }
    Ok(basis.basis_knots)
}

fn read_bank(
    archive: &[u8],
    meta: &BasisBankMotionMeta,
    lod_entries: &[BasisBankLodZipEntry],
) -> (r: Result<Vec<u32>, MotionError>)
    ensures
        match r {
            Ok(knots) => {
                &&& bank_knots(archive@, *meta, lod_entries@) == Ok::<Seq<u32>, MotionError>(knots@)
                &&& knots@.len() == meta.basis_count * meta.exported_knot_count * 3
                &&& crate::float_bits::all_finite(knots@)
            },
            Err(error) => bank_knots(archive@, *meta, lod_entries@) == Err::<
                Seq<u32>,
                MotionError,
            >(error),
        },
{
    if lod_entries.len() != 1 {
        return Err(MotionError::BasisFiles);
    }
    let entry: &BasisBankLodZipEntry = &lod_entries[0];
    if entry.lod_id != 0 || !same_text(entry.filename.as_str(), "lod0_motion_basis.bin") {
        return Err(MotionError::BasisFile { filename: entry.filename.clone() });
    }
    match crate::zip_file::read_zip_entry(archive, entry.index) {
        Ok(bytes) => check_bank_payload(bytes.as_slice(), meta, &entry.filename),
        Err(error) => Err(MotionError::Read { filename: entry.filename.clone(), error }),
    }
}

/// Why a scene grid gets no motion.
pub open spec fn motion_error(
    archive: Seq<u8>,
    meta: BasisBankMotionMeta,
    lod_entries: Seq<BasisBankLodZipEntry>,
    coeff_entries: Seq<BasisBankCoeffZipEntry>,
    scenes: Seq<Vec<crate::scene::Scene>>,
) -> Option<MotionError> {
    match bank_knots(archive, meta, lod_entries) {
        Err(error) => Some(error),
        Ok(_) => match first_repeat(coeff_entries, 0) {
            Some(i) => Some(
                MotionError::DuplicateCoefficients {
                    tile: coeff_entries[i].tile_id,
                    lod: coeff_entries[i].lod_id,
                },
            ),
            None => match coefficients_before(
                archive,
                meta,
                coeff_entries,
                scenes,
                scenes.len(),
                0,
            ) {
                Err(error) => Some(error),
                Ok(_) => None,
            },
        },
    }
}

/// A graph is used if it belongs to the bank.
pub open spec fn usable_graph(
    graph: Option<crate::basis_motion_graph::BasisMotionGraph>,
    meta: BasisBankMotionMeta,
) -> Option<crate::basis_motion_graph::BasisMotionGraph> {
    match graph {
        Some(g) => if crate::basis_motion_graph::bank_error(g, meta) is None {
            Some(g)
        } else {
            None
        },
        None => None,
    }
}

/// Loads the motion of a scene grid from its archive: the shared bank, then the coefficients of
/// every tile of every LoD in the order of its splats. `graph` is the decoded motion graph, where
/// the archive has a readable one; it is dropped unless it belongs to the bank.
pub fn load_basis_bank_motion_from_zip(
    archive: &[u8],
    meta: BasisBankMotionMeta,
    graph: Option<crate::basis_motion_graph::BasisMotionGraph>,
    lod_entries: &[BasisBankLodZipEntry],
    coeff_entries: &[BasisBankCoeffZipEntry],
    scenes: &Vec<Vec<crate::scene::Scene>>,
) -> (r: Result<BasisBankMotionSet, MotionError>)
    requires
        grid_splats(scenes@) <= usize::MAX,
    ensures
        match r {
            Ok(motion) => {
                let all = coefficients_before(
                    archive@,
                    meta,
                    coeff_entries@,
                    scenes@,
                    scenes@.len(),
                    0,
                );
                &&& motion_error(archive@, meta, lod_entries@, coeff_entries@, scenes@) is None
                &&& motion.meta == meta
                &&& motion.motion_graph == usable_graph(graph, meta)
                &&& motion.total_splats == grid_splats(scenes@)
                &&& motion.basis_count == meta.basis_count
                &&& bank_knots(archive@, meta, lod_entries@) == Ok::<Seq<u32>, MotionError>(
                    motion.basis_knots@,
                )
                &&& all == Ok::<(Seq<u32>, Seq<u32>), MotionError>(
                    (motion.basis_ids@, motion.global_weights@),
                )
                &&& motion.basis_knots@.len() == meta.basis_count * meta.exported_knot_count * 3
                &&& crate::float_bits::all_finite(motion.basis_knots@)
                &&& coefficients_aligned(
                    motion.basis_ids@,
                    motion.global_weights@,
                    motion.total_splats as int,
                    meta,
                )
            },
            Err(error) => motion_error(archive@, meta, lod_entries@, coeff_entries@, scenes@)
                == Some(error),
        },
{
    let basis_knots: Vec<u32> = match read_bank(archive, &meta, lod_entries) {
        Ok(knots) => knots,
        Err(error) => {
            return Err(error);
        },
    };
    if let Some(i) = find_repeat(coeff_entries) {
        return Err(
            MotionError::DuplicateCoefficients {
                tile: coeff_entries[i].tile_id,
                lod: coeff_entries[i].lod_id,
            },
        );
    }
    let mut total_splats: usize = 0;
    let mut basis_ids: Vec<u32> = Vec::new();
    let mut weights: Vec<u32> = Vec::new();
    let mut lod: usize = 0;
    while lod < scenes.len()
        invariant
            lod <= scenes@.len(),
            grid_splats(scenes@) <= usize::MAX,
            bank_knots(archive@, meta, lod_entries@) is Ok,
            first_repeat(coeff_entries@, 0) is None,
            total_splats == splats_before(scenes@, lod as nat, 0),
            coefficients_before(archive@, meta, coeff_entries@, scenes@, lod as nat, 0) == Ok::<
                (Seq<u32>, Seq<u32>),
                MotionError,
            >((basis_ids@, weights@)),
        decreases scenes@.len() - lod,
    {
        let tiles: &Vec<crate::scene::Scene> = &scenes[lod];
        let mut tile: usize = 0;
        while tile < tiles.len()
            invariant
                lod < scenes@.len(),
                *tiles == scenes@[lod as int],
                tile <= tiles@.len(),
                grid_splats(scenes@) <= usize::MAX,
                bank_knots(archive@, meta, lod_entries@) is Ok,
                first_repeat(coeff_entries@, 0) is None,
                total_splats == splats_before(scenes@, lod as nat, tile as nat),
                coefficients_before(
                    archive@,
                    meta,
                    coeff_entries@,
                    scenes@,
                    lod as nat,
                    tile as nat,
                ) == Ok::<(Seq<u32>, Seq<u32>), MotionError>((basis_ids@, weights@)),
            decreases tiles@.len() - tile,
        {
            let scene: &crate::scene::Scene = &tiles[tile];
            proof {
                splats_before_grows(scenes@, lod as nat, (tile + 1) as nat);
            }
            total_splats = total_splats + scene.splat_count;
            let entry: &BasisBankCoeffZipEntry = match find_entry(coeff_entries, lod, tile) {
                Some(i) => &coeff_entries[i],
                None => {
                    proof {
                        failure_spreads_over_lods(
                            archive@,
                            meta,
                            coeff_entries@,
                            scenes@,
                            lod as nat,
                            (tile + 1) as nat,
                        );
                    }
                    return Err(MotionError::MissingCoefficients { tile, lod });
                },
            };
            let bytes: Vec<u8> = match crate::zip_file::read_zip_entry(archive, entry.index) {
                Ok(bytes) => bytes,
                Err(error) => {
                    proof {
                        failure_spreads_over_lods(
                            archive@,
                            meta,
                            coeff_entries@,
                            scenes@,
                            lod as nat,
                            (tile + 1) as nat,
                        );
                    }
                    return Err(MotionError::Read { filename: entry.filename.clone(), error });
                },
            };
            match read_tile_coefficients(
                bytes.as_slice(),
                &meta,
                &entry.filename,
                lod,
                tile,
                scene,
                &mut basis_ids,
                &mut weights,
            ) {
                Ok(_) => {},
                Err(error) => {
                    proof {
                        failure_spreads_over_lods(
                            archive@,
                            meta,
                            coeff_entries@,
                            scenes@,
                            lod as nat,
                            (tile + 1) as nat,
                        );
                    }
                    return Err(error);
                },
            }
            tile = tile + 1;
        }
        lod = lod + 1;
    }
    let motion_graph: Option<crate::basis_motion_graph::BasisMotionGraph> = match graph {
        Some(candidate) => match candidate.validate_against_basis_bank(&meta) {
            Ok(_) => Some(candidate),
            Err(_) => None,
        },
        None => None,
    };
    let basis_count: usize = meta.basis_count;
    proof {
        scene_coefficients_are_aligned(
            archive@,
            meta,
            coeff_entries@,
            scenes@,
            scenes@.len(),
            0,
        );
    }
    Ok(
        BasisBankMotionSet {
            meta,
            motion_graph,
            total_splats,
            basis_count,
            basis_knots,
            basis_ids,
            global_weights: weights,
        },
    )
}

proof fn no_foreign_slot(
    ids: Seq<u32>,
    start: int,
    from: int,
    slot: int,
    top_k: int,
    basis_count: int,
)
    requires
        first_foreign_slot(ids, start, from, top_k, basis_count) is None,
        from <= slot < top_k,
    ensures
        ids[start + slot] < basis_count,
    decreases top_k - from,
{
    if from < slot {
        no_foreign_slot(ids, start, from + 1, slot, top_k, basis_count);
    }
}

proof fn no_stop_at(
    ids: Seq<u32>,
    splats: usize,
    top_k: usize,
    rows: Seq<u32>,
    basis_count: usize,
    from: nat,
    splat: nat,
)
    requires
        stop_of(ids, splats, top_k, rows, basis_count, from) is None,
        from <= splat < splats,
    ensures
        rows[splat as int] < splats,
        first_foreign_slot(
            ids,
            rows[splat as int] * top_k,
            0,
            top_k as int,
            basis_count as int,
        ) is None,
    decreases splat - from,
{
    if from < splat {
        no_stop_at(ids, splats, top_k, rows, basis_count, from + 1, splat);
    }
}

/// What can be appended lies in the bank.
proof fn gathered_ids_in_bank(
    ids: Seq<u32>,
    splats: usize,
    top_k: usize,
    rows: Seq<u32>,
    basis_count: usize,
    n: nat,
)
    requires
        stop_of(ids, splats, top_k, rows, basis_count, 0) is None,
        rows.len() == splats,
        ids.len() == splats * top_k,
        n <= splats,
    ensures
        forall|k: int|
            0 <= k < gathered(ids, rows, top_k as int, n).len() ==> (#[trigger] gathered(
                ids,
                rows,
                top_k as int,
                n,
            )[k]) < basis_count,
    decreases n,
{
    if n > 0 {
        let m = (n - 1) as nat;
        gathered_ids_in_bank(ids, splats, top_k, rows, basis_count, m);
        no_stop_at(ids, splats, top_k, rows, basis_count, 0, m);
        let start = rows[m as int] * top_k;
        row_in_bounds(rows[m as int] as int, top_k as int, splats as int);
        let row = ids.subrange(start, start + top_k);
        assert forall|k: int| 0 <= k < row.len() implies (#[trigger] row[k]) < basis_count by {
            no_foreign_slot(ids, start, 0, k, top_k as int, basis_count as int);
        }
        let whole = gathered(ids, rows, top_k as int, n);
        let front = gathered(ids, rows, top_k as int, m);
        assert(whole == front + row);
        assert forall|k: int| 0 <= k < whole.len() implies (#[trigger] whole[k]) < basis_count by {
            if k < front.len() {
                assert(whole[k] == front[k]);
            } else {
                assert(whole[k] == row[k - front.len()]);
            }
        }
    }
}

proof fn gathered_values_finite(
    data: Seq<u32>,
    rows: Seq<u32>,
    width: int,
    n: nat,
    total: int,
)
    requires
        width >= 0,
        n <= rows.len(),
        data.len() == total * width,
        forall|i: int| 0 <= i < n ==> #[trigger] rows[i] < total,
        crate::float_bits::all_finite(data),
    ensures
        crate::float_bits::all_finite(gathered(data, rows, width, n)),
    decreases n,
{
    if n > 0 {
        gathered_values_finite(data, rows, width, (n - 1) as nat, total);
        row_in_bounds(rows[n - 1] as int, width, total);
    }
}

/// The coefficients that a payload adds: `top_k` finite weights for every splat, with bases of the
/// bank.
pub open spec fn coefficients_aligned(
    ids: Seq<u32>,
    weights: Seq<u32>,
    splats: int,
    meta: BasisBankMotionMeta,
) -> bool {
    &&& ids.len() == splats * meta.top_k
    &&& weights.len() == splats * meta.top_k
    &&& forall|k: int| 0 <= k < ids.len() ==> (#[trigger] ids[k]) < meta.basis_count
    &&& crate::float_bits::all_finite(weights)
}

/// An accepted payload adds aligned coefficients.
pub proof fn payload_coefficients_are_aligned(
    bytes: Seq<u8>,
    meta: BasisBankMotionMeta,
    filename: String,
    lod: usize,
    tile: usize,
    scene: crate::scene::Scene,
)
    ensures
        match payload_coefficients(bytes, meta, filename, lod, tile, scene) {
            Ok((ids, weights)) => coefficients_aligned(
                ids,
                weights,
                scene.splat_count as int,
                meta,
            ),
            Err(_) => true,
        },
{
    if payload_coefficients(bytes, meta, filename, lod, tile, scene) is Ok {
        let splats = crate::bytes::le_u32(bytes, 16) as usize;
        let top_k = crate::bytes::le_u32(bytes, 20) as usize;
        let count = coefficient_count(bytes);
        let ids = crate::bytes::le_u32_run(bytes, 24, count as nat);
        let weights = crate::bytes::le_u32_run(bytes, 24 + count * 4, count as nat);
        let rows = scene.source_row_indices@;
        assert(count >= 0) by (nonlinear_arith)
            requires
                count == splats * top_k,
                splats >= 0,
                top_k >= 0,
        ;
        assert(ids.len() == splats * top_k);
        assert forall|i: int| 0 <= i < splats implies #[trigger] rows[i] < splats by {
            no_stop_at(ids, splats, top_k, rows, meta.basis_count, 0, i as nat);
        }
        gathered_len(ids, rows, top_k as int, splats as nat, splats as int);
        gathered_len(weights, rows, top_k as int, splats as nat, splats as int);
        gathered_ids_in_bank(ids, splats, top_k, rows, meta.basis_count, splats as nat);
        gathered_values_finite(weights, rows, top_k as int, splats as nat, splats as int);
    }
}

/// The coefficients of a scene stay aligned with its splats, tile after tile: every splat has
/// `top_k` finite weights and all of its bases are in the shared bank.
pub proof fn scene_coefficients_are_aligned(
    archive: Seq<u8>,
    meta: BasisBankMotionMeta,
    entries: Seq<BasisBankCoeffZipEntry>,
    scenes: Seq<Vec<crate::scene::Scene>>,
    lod: nat,
    tile: nat,
)
    ensures
        match coefficients_before(archive, meta, entries, scenes, lod, tile) {
            Ok((ids, weights)) => coefficients_aligned(
                ids,
                weights,
                splats_before(scenes, lod, tile),
                meta,
            ),
            Err(_) => true,
        },
    decreases lod, tile,
{
    if tile > 0 {
        scene_coefficients_are_aligned(archive, meta, entries, scenes, lod, (tile - 1) as nat);
        let scene = scenes[lod as int]@[tile - 1];
        match entry_for(entries, lod as usize as int, (tile - 1) as usize as int, 0) {
            Some(i) => {
                let entry = entries[i];
                match crate::zip_file::whole_entry(archive, entry.index) {
                    Ok(bytes) => {
                        payload_coefficients_are_aligned(
                            bytes,
                            meta,
                            entry.filename,
                            lod as usize,
                            (tile - 1) as usize,
                            scene,
                        );
                    },
                    Err(_) => {},
                }
            },
            None => {},
        }
        let before = splats_before(scenes, lod, (tile - 1) as nat);
        assert((before + scene.splat_count) * meta.top_k == before * meta.top_k
            + scene.splat_count * meta.top_k) by (nonlinear_arith);
    } else if lod > 0 {
        scene_coefficients_are_aligned(
            archive,
            meta,
            entries,
            scenes,
            (lod - 1) as nat,
            scenes[lod - 1]@.len(),
        );
    } else {
        assert(0 * meta.top_k == 0);
    }
}

/// The coefficients `part` are the first of the coefficients `whole`.
spec fn come_first(
    part: Result<(Seq<u32>, Seq<u32>), MotionError>,
    whole: Result<(Seq<u32>, Seq<u32>), MotionError>,
) -> bool {
    &&& part is Ok
    &&& (part->Ok_0).0.is_prefix_of((whole->Ok_0).0)
    &&& (part->Ok_0).1.is_prefix_of((whole->Ok_0).1)
}

proof fn coefficients_stay_over_tiles(
    archive: Seq<u8>,
    meta: BasisBankMotionMeta,
    entries: Seq<BasisBankCoeffZipEntry>,
    scenes: Seq<Vec<crate::scene::Scene>>,
    lod: nat,
    tile: nat,
    to: nat,
)
    requires
        tile <= to,
        coefficients_before(archive, meta, entries, scenes, lod, to) is Ok,
    ensures
        come_first(
            coefficients_before(archive, meta, entries, scenes, lod, tile),
            coefficients_before(archive, meta, entries, scenes, lod, to),
        ),
    decreases to,
{
    if tile < to {
        coefficients_stay_over_tiles(archive, meta, entries, scenes, lod, tile, (to - 1) as nat);
    }
}

proof fn coefficients_stay_over_lods(
    archive: Seq<u8>,
    meta: BasisBankMotionMeta,
    entries: Seq<BasisBankCoeffZipEntry>,
    scenes: Seq<Vec<crate::scene::Scene>>,
    lod: nat,
    tile: nat,
)
    requires
        lod < scenes.len(),
        tile <= scenes[lod as int]@.len(),
        coefficients_before(archive, meta, entries, scenes, scenes.len(), 0) is Ok,
    ensures
        come_first(
            coefficients_before(archive, meta, entries, scenes, lod, tile),
            coefficients_before(archive, meta, entries, scenes, scenes.len(), 0),
        ),
    decreases scenes.len() - lod,
{
    if lod + 1 < scenes.len() {
        coefficients_stay_over_lods(archive, meta, entries, scenes, lod + 1, 0);
    }
    assert(coefficients_before(archive, meta, entries, scenes, lod + 1, 0) == coefficients_before(
        archive,
        meta,
        entries,
        scenes,
        lod,
        scenes[lod as int]@.len(),
    ));
    coefficients_stay_over_tiles(
        archive,
        meta,
        entries,
        scenes,
        lod,
        tile,
        scenes[lod as int]@.len(),
    );
}

/// The basis numbers of a coefficient payload.
pub open spec fn payload_ids(bytes: Seq<u8>) -> Seq<u32> {
    crate::bytes::le_u32_run(bytes, 24, coefficient_count(bytes) as nat)
}

/// The weights of a coefficient payload.
pub open spec fn payload_weights(bytes: Seq<u8>) -> Seq<u32> {
    crate::bytes::le_u32_run(
        bytes,
        24 + coefficient_count(bytes) * 4,
        coefficient_count(bytes) as nat,
    )
}

/// Every splat of a scene grid keeps the coefficients of its source row: with `g` the number of the
/// splat among those of all tiles, LoD by LoD and tile by tile, entry `slot` of splat `g` is entry
/// `slot` of the row of its tile's payload that the splat came from. Basis numbers are kept as they
/// are: all tiles and LoDs share one bank. The payload is the file of that tile, and its basis
/// numbers and weights are those that `parse_basis_tile_coefficients` reads.
pub proof fn splats_keep_their_coefficients(
    archive: Seq<u8>,
    meta: BasisBankMotionMeta,
    entries: Seq<BasisBankCoeffZipEntry>,
    scenes: Seq<Vec<crate::scene::Scene>>,
    lod: usize,
    tile: usize,
    splat: int,
    slot: int,
) -> (bytes: Seq<u8>)
    requires
        coefficients_before(archive, meta, entries, scenes, scenes.len(), 0) is Ok,
        lod < scenes.len(),
        tile < scenes[lod as int]@.len(),
        0 <= splat < scenes[lod as int]@[tile as int].splat_count,
        0 <= slot < meta.top_k,
    ensures
        entry_for(entries, lod as int, tile as int, 0) matches Some(i)
            && crate::zip_file::whole_entry(archive, entries[i].index) == Ok::<
            Seq<u8>,
            crate::zip_file::EntryError,
        >(bytes),
        coefficient_payload_error(bytes) is None,
        ({
            let all = coefficients_before(archive, meta, entries, scenes, scenes.len(), 0)->Ok_0;
            let scene = scenes[lod as int]@[tile as int];
            let k = meta.top_k as int;
            let row = scene.source_row_indices@[splat];
            let g = splats_before(scenes, lod as nat, tile as nat) + splat;
            &&& row < scene.splat_count
            &&& 0 <= g * k + slot < all.0.len()
            &&& 0 <= g * k + slot < all.1.len()
            &&& 0 <= row * k + slot < payload_ids(bytes).len()
            &&& 0 <= row * k + slot < payload_weights(bytes).len()
            &&& all.0[g * k + slot] == payload_ids(bytes)[row * k + slot]
            &&& all.1[g * k + slot] == payload_weights(bytes)[row * k + slot]
        }),
{
    let all = coefficients_before(archive, meta, entries, scenes, scenes.len(), 0)->Ok_0;
    let scene = scenes[lod as int]@[tile as int];
    let k = meta.top_k as int;
    let n = scene.splat_count as int;
    let rows = scene.source_row_indices@;
    coefficients_stay_over_lods(archive, meta, entries, scenes, lod as nat, (tile + 1) as nat);
    coefficients_stay_over_tiles(
        archive,
        meta,
        entries,
        scenes,
        lod as nat,
        tile as nat,
        (tile + 1) as nat,
    );
    scene_coefficients_are_aligned(archive, meta, entries, scenes, lod as nat, tile as nat);
    let before = coefficients_before(archive, meta, entries, scenes, lod as nat, tile as nat)->Ok_0;
    let added = tile_coefficients(archive, meta, entries, lod, tile, scene)->Ok_0;
    let upto = coefficients_before(
        archive,
        meta,
        entries,
        scenes,
        lod as nat,
        (tile + 1) as nat,
    )->Ok_0;
    assert(upto == (before.0 + added.0, before.1 + added.1));
    let at = entry_for(entries, lod as int, tile as int, 0)->0;
    let bytes = crate::zip_file::whole_entry(archive, entries[at].index)->Ok_0;
    let ids = payload_ids(bytes);
    let weights = payload_weights(bytes);
    let count = coefficient_count(bytes);
    assert(count >= 0) by (nonlinear_arith)
        requires
            count == n * k,
            n >= 0,
            k >= 0,
    ;
    assert forall|i: int| 0 <= i < n implies #[trigger] rows[i] < n by {
        no_stop_at(ids, scene.splat_count, meta.top_k, rows, meta.basis_count, 0, i as nat);
    }
    gathered_follows_rows(ids, rows, k, n as nat, n, splat, slot);
    gathered_follows_rows(weights, rows, k, n as nat, n, splat, slot);
    let start = splats_before(scenes, lod as nat, tile as nat);
    let row = rows[splat] as int;
    assert((start + splat) * k + slot == start * k + (splat * k + slot)) by (nonlinear_arith);
    assert(splat * k + slot >= 0 && row * k + slot >= 0) by (nonlinear_arith)
        requires
            splat >= 0,
            row >= 0,
            k >= 0,
            slot >= 0,
    ;
    row_in_bounds(row, k, n);
    let place = (start + splat) * k + slot;
    assert(before.0.len() == start * k);
    assert(upto.0[place] == added.0[splat * k + slot]);
    assert(upto.1[place] == added.1[splat * k + slot]);
    bytes
}

} // verus!
