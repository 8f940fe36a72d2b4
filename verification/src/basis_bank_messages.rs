//! What goes wrong with a basis bank, in words.

use crate::basis_bank_motion::{
    AppendError, BasisMetaError, BasisPayloadError, LegacyHeaderError, MotionError,
};
use crate::text::{decimal, option_decimal};
use crate::zip_file::EntryError;
use vstd::prelude::*;
use vstd::string::*;

verus! {

impl BasisMetaError {
    pub open spec fn text(self, duration: Seq<char>) -> Seq<char> {
        match self {
            BasisMetaError::Format { format } => {
                "unsupported basis-bank format '"@ + format@ + "'"@
            },
            BasisMetaError::Version { version } => {
                "unsupported basis-bank version "@ + crate::text::decimal_text(version as nat)
                    + "; expected 1 or 2"@
            },
            BasisMetaError::DeltaField { field } => {
                "unsupported basis-bank delta field '"@ + field@ + "'"@
            },
            BasisMetaError::Scope { scope } => {
                "unsupported basis-bank scope '"@ + scope@ + "'; expected shared_lod0"@
            },
            BasisMetaError::SourceLod { lod } => {
                "shared_lod0 basis-bank scope requires basis_source_lod=0, got "@
                    + crate::text::option_text(lod)
            },
            BasisMetaError::LodZeroMissing => {
                "shared_lod0 basis-bank scope requires LoD 0 in include_lods"@
            },
            BasisMetaError::Teacher { teacher } => {
                "unsupported motion_teacher '"@ + teacher@ + "'; expected 'direct_network'"@
            },
            BasisMetaError::TimeSampling { sampling } => {
                "unsupported source_time_sampling '"@ + sampling@ + "'; expected 'inclusive'"@
            },
            BasisMetaError::ClosureMethod { method } => {
                "unsupported loop_closure_method '"@ + method@ + "'; expected 'cubic_hermite'"@
            },
            BasisMetaError::ClosureMode { mode } => {
                "unsupported motion_basis_closure_mode '"@ + mode@
                    + "'; expected 'target_then_basis' or 'basis_then_closure'"@
            },
            BasisMetaError::NoSourceKnots => "basis-bank source_knot_count must be nonzero"@,
            BasisMetaError::KnotCountOverflow => {
                "basis-bank source_knot_count + loop_closure_knots overflow"@
            },
            BasisMetaError::KnotCount { source, closure, exported, expected } => {
                "basis-bank source_knot_count "@ + crate::text::decimal_text(source as nat)
                    + " + loop_closure_knots "@ + crate::text::decimal_text(closure as nat)
                    + " must equal exported_knot_count "@
                    + crate::text::decimal_text(exported as nat) + ", expected "@
                    + crate::text::decimal_text(expected as nat)
            },
            BasisMetaError::LegacyDurationMissing => {
                "basis-bank version 1 requires deformation_weights.bin to infer playback duration"@
            },
            BasisMetaError::DurationMissing => {
                "basis-bank metadata is missing duration_seconds; rebuild with the current gswt_constructor"@
            },
            BasisMetaError::Duration { bits: _ } => {
                "basis-bank duration_seconds must be finite and positive, got "@ + duration
            },
            BasisMetaError::TooFewKnots { exported } => {
                "basis-bank exported knot count must be at least 4, got "@
                    + crate::text::decimal_text(exported as nat)
            },
            BasisMetaError::BasisCount { basis_count, top_k } => {
                "invalid basis-bank basis_count/top_k: basis_count="@
                    + crate::text::decimal_text(basis_count as nat) + ", top_k="@
                    + crate::text::decimal_text(top_k as nat)
            },
        }
    }

    /// The error in words; `duration` is the number that a refused duration is written as.
    pub fn message(&self, duration: &str) -> (r: String)
        ensures
            r@ == self.text(duration@),
    {
        match self {
            BasisMetaError::Format { format } => {
                let mut s: String = "unsupported basis-bank format '".to_owned();
                s.append(format.as_str());
                s.append("'");
                s
            },
            BasisMetaError::Version { version } => {
                let mut s: String = "unsupported basis-bank version ".to_owned();
                s.append(decimal(*version as u64).as_str());
                s.append("; expected 1 or 2");
                s
            },
            BasisMetaError::DeltaField { field } => {
                let mut s: String = "unsupported basis-bank delta field '".to_owned();
                s.append(field.as_str());
                s.append("'");
                s
            },
            BasisMetaError::Scope { scope } => {
                let mut s: String = "unsupported basis-bank scope '".to_owned();
                s.append(scope.as_str());
                s.append("'; expected shared_lod0");
                s
            },
            BasisMetaError::SourceLod { lod } => {
                let mut s: String =
                    "shared_lod0 basis-bank scope requires basis_source_lod=0, got ".to_owned();
                s.append(option_decimal(*lod).as_str());
                s
            },
            BasisMetaError::LodZeroMissing => {
                "shared_lod0 basis-bank scope requires LoD 0 in include_lods".to_owned()
            },
            BasisMetaError::Teacher { teacher } => {
                let mut s: String = "unsupported motion_teacher '".to_owned();
                s.append(teacher.as_str());
                s.append("'; expected 'direct_network'");
                s
            },
            BasisMetaError::TimeSampling { sampling } => {
                let mut s: String = "unsupported source_time_sampling '".to_owned();
                s.append(sampling.as_str());
                s.append("'; expected 'inclusive'");
                s
            },
            BasisMetaError::ClosureMethod { method } => {
                let mut s: String = "unsupported loop_closure_method '".to_owned();
                s.append(method.as_str());
                s.append("'; expected 'cubic_hermite'");
                s
            },
            BasisMetaError::ClosureMode { mode } => {
                let mut s: String = "unsupported motion_basis_closure_mode '".to_owned();
                s.append(mode.as_str());
                s.append("'; expected 'target_then_basis' or 'basis_then_closure'");
                s
            },
            BasisMetaError::NoSourceKnots => {
                "basis-bank source_knot_count must be nonzero".to_owned()
            },
            BasisMetaError::KnotCountOverflow => {
                "basis-bank source_knot_count + loop_closure_knots overflow".to_owned()
            },
            BasisMetaError::KnotCount { source, closure, exported, expected } => {
                let mut s: String = "basis-bank source_knot_count ".to_owned();
                s.append(decimal(*source as u64).as_str());
                s.append(" + loop_closure_knots ");
                s.append(decimal(*closure as u64).as_str());
                s.append(" must equal exported_knot_count ");
                s.append(decimal(*exported as u64).as_str());
                s.append(", expected ");
                s.append(decimal(*expected as u64).as_str());
                s
            },
            BasisMetaError::LegacyDurationMissing => {
                "basis-bank version 1 requires deformation_weights.bin to infer playback duration".to_owned()
            },
            BasisMetaError::DurationMissing => {
                "basis-bank metadata is missing duration_seconds; rebuild with the current gswt_constructor".to_owned()
            },
            BasisMetaError::Duration { bits: _ } => {
                let mut s: String =
                    "basis-bank duration_seconds must be finite and positive, got ".to_owned();
                s.append(duration);
                s
            },
            BasisMetaError::TooFewKnots { exported } => {
                let mut s: String =
                    "basis-bank exported knot count must be at least 4, got ".to_owned();
                s.append(decimal(*exported as u64).as_str());
                s
            },
            BasisMetaError::BasisCount { basis_count, top_k } => {
                let mut s: String = "invalid basis-bank basis_count/top_k: basis_count=".to_owned();
                s.append(decimal(*basis_count as u64).as_str());
                s.append(", top_k=");
                s.append(decimal(*top_k as u64).as_str());
                s
            },
        }
    }
}

/// The two binary files of a basis bank.
#[derive(Clone, Copy, Debug, PartialEq, Eq, Structural)]
pub enum BasisPayload {
    Lod,
    Coefficients,
}

impl BasisPayload {
    pub open spec fn text(self) -> Seq<char> {
        match self {
            BasisPayload::Lod => "basis LOD"@,
            BasisPayload::Coefficients => "basis coefficient"@,
        }
    }

    /// The name of the file in messages.
    pub fn name(self) -> (r: &'static str)
        ensures
            r@ == self.text(),
    {
        match self {
            BasisPayload::Lod => "basis LOD",
            BasisPayload::Coefficients => "basis coefficient",
        }
    }
}

impl BasisPayloadError {
    pub open spec fn text(self, payload: BasisPayload) -> Seq<char> {
        match self {
            BasisPayloadError::TooSmall => payload.text() + " payload is too small"@,
            BasisPayloadError::Magic => "bad "@ + payload.text() + " magic"@,
            BasisPayloadError::Version { version } => {
                "unsupported "@ + payload.text() + " version "@ + crate::text::decimal_text(
                    version as nat,
                )
            },
            BasisPayloadError::CountOverflow => {
                payload.text() + match payload {
                    BasisPayload::Lod => " value count overflow"@,
                    BasisPayload::Coefficients => " count overflow"@,
                }
            },
            BasisPayloadError::LengthOverflow => payload.text() + " byte length overflow"@,
            BasisPayloadError::Length { found, expected } => {
                payload.text() + " byte length mismatch: got "@ + crate::text::decimal_text(
                    found as nat,
                ) + ", expected "@ + crate::text::decimal_text(expected as nat)
            },
            BasisPayloadError::NonFinite => {
                payload.text() + " payload contains non-finite "@ + match payload {
                    BasisPayload::Lod => "knot values"@,
                    BasisPayload::Coefficients => "weights"@,
                }
            },
        }
    }

    /// The error in words, as it stands for one of the two files.
    pub fn message(&self, payload: BasisPayload) -> (r: String)
        ensures
            r@ == self.text(payload),
    {
        match self {
            BasisPayloadError::TooSmall => {
                let mut s: String = payload.name().to_owned();
                s.append(" payload is too small");
                s
            },
            BasisPayloadError::Magic => {
                let mut s: String = "bad ".to_owned();
                s.append(payload.name());
                s.append(" magic");
                s
            },
            BasisPayloadError::Version { version } => {
                let mut s: String = "unsupported ".to_owned();
                s.append(payload.name());
                s.append(" version ");
                s.append(decimal(*version as u64).as_str());
                s
            },
            BasisPayloadError::CountOverflow => {
                let mut s: String = payload.name().to_owned();
                s.append(
                    match payload {
                        BasisPayload::Lod => " value count overflow",
                        BasisPayload::Coefficients => " count overflow",
                    },
                );
                s
            },
            BasisPayloadError::LengthOverflow => {
                let mut s: String = payload.name().to_owned();
                s.append(" byte length overflow");
                s
            },
            BasisPayloadError::Length { found, expected } => {
                let mut s: String = payload.name().to_owned();
                s.append(" byte length mismatch: got ");
                s.append(decimal(*found as u64).as_str());
                s.append(", expected ");
                s.append(decimal(*expected as u64).as_str());
                s
            },
            BasisPayloadError::NonFinite => {
                let mut s: String = payload.name().to_owned();
                s.append(" payload contains non-finite ");
                s.append(
                    match payload {
                        BasisPayload::Lod => "knot values",
                        BasisPayload::Coefficients => "weights",
                    },
                );
                s
            },
        }
    }
}

impl LegacyHeaderError {
    pub open spec fn text(self) -> Seq<char> {
        match self {
            LegacyHeaderError::TooSmall { found } => {
                "deformation_weights.bin header is too small: got "@
                    + crate::text::decimal_text(found as nat) + " bytes, expected at least 28"@
            },
            LegacyHeaderError::Magic => "deformation_weights.bin has invalid DFWT magic"@,
            LegacyHeaderError::Version { version } => {
                "deformation_weights.bin has unsupported header version "@
                    + crate::text::decimal_text(version as nat) + "; expected 1"@
            },
            LegacyHeaderError::NoTemporalResolution => {
                "deformation_weights.bin temporal resolution must be positive"@
            },
        }
    }

    /// The error in words.
    pub fn message(&self) -> (r: String)
        ensures
            r@ == self.text(),
    {
        match self {
            LegacyHeaderError::TooSmall { found } => {
                let mut s: String = "deformation_weights.bin header is too small: got ".to_owned();
                s.append(decimal(*found as u64).as_str());
                s.append(" bytes, expected at least 28");
                s
            },
            LegacyHeaderError::Magic => "deformation_weights.bin has invalid DFWT magic".to_owned(),
            LegacyHeaderError::Version { version } => {
                let mut s: String =
                    "deformation_weights.bin has unsupported header version ".to_owned();
                s.append(decimal(*version as u64).as_str());
                s.append("; expected 1");
                s
            },
            LegacyHeaderError::NoTemporalResolution => {
                "deformation_weights.bin temporal resolution must be positive".to_owned()
            },
        }
    }
}

impl AppendError {
    pub open spec fn text(self) -> Seq<char> {
        match self {
            AppendError::RowCount { rows, splats } => {
                "source-row permutation length "@ + crate::text::decimal_text(rows as nat)
                    + " != coefficient splat count "@ + crate::text::decimal_text(splats as nat)
            },
            AppendError::Row { row, splats } => {
                "source-row permutation contains out-of-range row "@
                    + crate::text::decimal_text(row as nat) + " for "@
                    + crate::text::decimal_text(splats as nat) + " splats"@
            },
            AppendError::BasisId { id, basis_count } => {
                "basis coefficient ID "@ + crate::text::decimal_text(id as nat)
                    + " is out of range for "@ + crate::text::decimal_text(basis_count as nat)
                    + " shared bases"@
            },
        }
    }

    /// The error in words.
    pub fn message(&self) -> (r: String)
        ensures
            r@ == self.text(),
    {
        match self {
            AppendError::RowCount { rows, splats } => {
                let mut s: String = "source-row permutation length ".to_owned();
                s.append(decimal(*rows as u64).as_str());
                s.append(" != coefficient splat count ");
                s.append(decimal(*splats as u64).as_str());
                s
            },
            AppendError::Row { row, splats } => {
                let mut s: String = "source-row permutation contains out-of-range row ".to_owned();
                s.append(decimal(*row as u64).as_str());
                s.append(" for ");
                s.append(decimal(*splats as u64).as_str());
                s.append(" splats");
                s
            },
            AppendError::BasisId { id, basis_count } => {
                let mut s: String = "basis coefficient ID ".to_owned();
                s.append(decimal(*id as u64).as_str());
                s.append(" is out of range for ");
                s.append(decimal(*basis_count as u64).as_str());
                s.append(" shared bases");
                s
            },
        }
    }
}

/// What fails with a file of an archive, and why.
pub open spec fn entry_text(label: Seq<char>, error: EntryError, archive: Seq<u8>) -> Seq<char> {
    error.text(
        "failed to open "@ + label + ": "@,
        "failed to read "@ + label + ": "@,
        label + " is too small: "@,
        archive,
    )
}

/// Says what fails with a file of an archive.
pub fn entry_message(label: &str, error: &EntryError, archive: &[u8]) -> (r: String)
    ensures
        r@ == entry_text(label@, *error, archive@),
{
    let mut opening: String = "failed to open ".to_owned();
    opening.append(label);
    opening.append(": ");
    let mut reading: String = "failed to read ".to_owned();
    reading.append(label);
    reading.append(": ");
    let mut measuring: String = label.to_owned();
    measuring.append(" is too small: ");
    error.message(opening.as_str(), reading.as_str(), measuring.as_str(), archive)
}

impl MotionError {
    pub open spec fn text(self, archive: Seq<u8>) -> Seq<char> {
        match self {
            MotionError::BasisFiles => {
                "dynamic archive requires exactly one lod0_motion_basis.bin"@
            },
            MotionError::BasisFile { filename } => {
                "unexpected basis payload '"@ + filename@
                    + "'; expected exactly lod0_motion_basis.bin"@
            },
            MotionError::Read { filename, error } => {
                entry_text(filename@, error, archive)
            },
            MotionError::BasisPayload { filename, error } => {
                "failed to parse "@ + filename@ + ": "@ + error.text(BasisPayload::Lod)
            },
            MotionError::PayloadVersion { filename, found, expected } => {
                filename@ + " header version "@ + crate::text::decimal_text(found as nat)
                    + " does not match metadata version "@
                    + crate::text::decimal_text(expected as nat)
            },
            MotionError::BasisLod { filename, found } => {
                filename@ + " header lod_index="@ + crate::text::decimal_text(found as nat)
                    + " does not match expected 0"@
            },
            MotionError::BasisCount { filename, found, expected } => {
                filename@ + " header basis_count="@ + crate::text::decimal_text(found as nat)
                    + " does not match metadata basis_count="@
                    + crate::text::decimal_text(expected as nat)
            },
            MotionError::KnotCount { filename, found, expected } => {
                filename@ + " header knot_count="@ + crate::text::decimal_text(found as nat)
                    + " does not match metadata exported_knot_count="@
                    + crate::text::decimal_text(expected as nat)
            },
            MotionError::DuplicateCoefficients { tile, lod } => {
                "duplicate basis coefficient payload for tile"@
                    + crate::text::decimal_text(tile as nat) + "_lod"@
                    + crate::text::decimal_text(lod as nat)
            },
            MotionError::MissingCoefficients { tile, lod } => {
                "missing tile"@ + crate::text::decimal_text(tile as nat) + "_lod"@
                    + crate::text::decimal_text(lod as nat)
                    + "_motion_basis_coeffs.bin; rebuild with the current constructor"@
            },
            MotionError::CoefficientPayload { filename, error } => {
                "failed to parse "@ + filename@ + ": "@ + error.text(BasisPayload::Coefficients)
            },
            MotionError::CoefficientTile { filename, found_tile, found_lod, tile, lod } => {
                filename@ + " header identifies tile"@
                    + crate::text::decimal_text(found_tile as nat) + "_lod"@
                    + crate::text::decimal_text(found_lod as nat) + "; expected tile"@
                    + crate::text::decimal_text(tile as nat) + "_lod"@
                    + crate::text::decimal_text(lod as nat)
            },
            MotionError::CoefficientShape { filename, found_splats, found_top_k, splats, top_k } => {
                filename@ + " header splat_count/top_k="@
                    + crate::text::decimal_text(found_splats as nat) + "/"@
                    + crate::text::decimal_text(found_top_k as nat) + "; expected "@
                    + crate::text::decimal_text(splats as nat) + "/"@
                    + crate::text::decimal_text(top_k as nat)
            },
            MotionError::Coefficients { filename, error } => {
                "invalid coefficients in "@ + filename@ + ": "@ + error.text()
            },
        }
    }

    /// The error in words; the archive is the one that the error came from.
    pub fn message(&self, archive: &[u8]) -> (r: String)
        ensures
            r@ == self.text(archive@),
    {
        match self {
            MotionError::BasisFiles => {
                "dynamic archive requires exactly one lod0_motion_basis.bin".to_owned()
            },
            MotionError::BasisFile { filename } => {
                let mut s: String = "unexpected basis payload '".to_owned();
                s.append(filename.as_str());
                s.append("'; expected exactly lod0_motion_basis.bin");
                s
            },
            MotionError::Read { filename, error } => {
                entry_message(filename.as_str(), error, archive)
            },
            MotionError::BasisPayload { filename, error } => {
                let mut s: String = "failed to parse ".to_owned();
                s.append(filename.as_str());
                s.append(": ");
                s.append(error.message(BasisPayload::Lod).as_str());
                s
            },
            MotionError::PayloadVersion { filename, found, expected } => {
                let mut s: String = filename.clone();
                s.append(" header version ");
                s.append(decimal(*found as u64).as_str());
                s.append(" does not match metadata version ");
                s.append(decimal(*expected as u64).as_str());
                s
            },
            MotionError::BasisLod { filename, found } => {
                let mut s: String = filename.clone();
                s.append(" header lod_index=");
                s.append(decimal(*found as u64).as_str());
                s.append(" does not match expected 0");
                s
            },
            MotionError::BasisCount { filename, found, expected } => {
                let mut s: String = filename.clone();
                s.append(" header basis_count=");
                s.append(decimal(*found as u64).as_str());
                s.append(" does not match metadata basis_count=");
                s.append(decimal(*expected as u64).as_str());
                s
            },
            MotionError::KnotCount { filename, found, expected } => {
                let mut s: String = filename.clone();
                s.append(" header knot_count=");
                s.append(decimal(*found as u64).as_str());
                s.append(" does not match metadata exported_knot_count=");
                s.append(decimal(*expected as u64).as_str());
                s
            },
            MotionError::DuplicateCoefficients { tile, lod } => {
                let mut s: String = "duplicate basis coefficient payload for tile".to_owned();
                s.append(decimal(*tile as u64).as_str());
                s.append("_lod");
                s.append(decimal(*lod as u64).as_str());
                s
            },
            MotionError::MissingCoefficients { tile, lod } => {
                let mut s: String = "missing tile".to_owned();
                s.append(decimal(*tile as u64).as_str());
                s.append("_lod");
                s.append(decimal(*lod as u64).as_str());
                s.append("_motion_basis_coeffs.bin; rebuild with the current constructor");
                s
            },
            MotionError::CoefficientPayload { filename, error } => {
                let mut s: String = "failed to parse ".to_owned();
                s.append(filename.as_str());
                s.append(": ");
                s.append(error.message(BasisPayload::Coefficients).as_str());
                s
            },
            MotionError::CoefficientTile { filename, found_tile, found_lod, tile, lod } => {
                let mut s: String = filename.clone();
                s.append(" header identifies tile");
                s.append(decimal(*found_tile as u64).as_str());
                s.append("_lod");
                s.append(decimal(*found_lod as u64).as_str());
                s.append("; expected tile");
                s.append(decimal(*tile as u64).as_str());
                s.append("_lod");
                s.append(decimal(*lod as u64).as_str());
                s
            },
            MotionError::CoefficientShape { filename, found_splats, found_top_k, splats, top_k } => {
                let mut s: String = filename.clone();
                s.append(" header splat_count/top_k=");
                s.append(decimal(*found_splats as u64).as_str());
                s.append("/");
                s.append(decimal(*found_top_k as u64).as_str());
                s.append("; expected ");
                s.append(decimal(*splats as u64).as_str());
                s.append("/");
                s.append(decimal(*top_k as u64).as_str());
                s
            },
            MotionError::Coefficients { filename, error } => {
                let mut s: String = "invalid coefficients in ".to_owned();
                s.append(filename.as_str());
                s.append(": ");
                s.append(error.message().as_str());
                s
            },
        }
    }
}

} // verus!
