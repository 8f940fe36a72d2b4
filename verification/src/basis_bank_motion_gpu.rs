//! Sizes, checks and buffer contents for basis-bank motion on the GPU.

use crate::basis_bank_motion::BasisBankMotionSet;
use crate::text::decimal;
use vstd::prelude::*;

verus! {

/// Why motion cannot be uploaded.
#[derive(Debug, Clone, Copy, PartialEq, Eq, Structural)]
pub enum BasisRuntimeError {
    TooManySplats,
    BasisCount { count: usize },
    KnotCount { count: usize },
    TopK { count: usize },
    BasisOverflow,
    BasisValues { found: usize, expected: usize },
    CoefficientOverflow,
    Coefficients { ids: usize, weights: usize, expected: usize },
}

impl BasisRuntimeError {
    pub open spec fn text(self) -> Seq<char> {
        match self {
            BasisRuntimeError::TooManySplats => "basis-bank splat count exceeds u32"@,
            BasisRuntimeError::BasisCount { count } => {
                "invalid basis-bank global basis count "@ + crate::text::decimal_text(count as nat)
            },
            BasisRuntimeError::KnotCount { count } => {
                "invalid basis-bank knot count "@ + crate::text::decimal_text(count as nat)
            },
            BasisRuntimeError::TopK { count } => {
                "invalid basis-bank top_k "@ + crate::text::decimal_text(count as nat)
            },
            BasisRuntimeError::BasisOverflow => "basis-bank basis value count overflow"@,
            BasisRuntimeError::BasisValues { found, expected } => {
                "basis-bank basis value mismatch: got "@ + crate::text::decimal_text(found as nat)
                    + ", expected "@ + crate::text::decimal_text(expected as nat)
            },
            BasisRuntimeError::CoefficientOverflow => "basis-bank coefficient count overflow"@,
            BasisRuntimeError::Coefficients { ids, weights, expected } => {
                "basis-bank coefficient length mismatch: ids="@
                    + crate::text::decimal_text(ids as nat) + ", weights="@
                    + crate::text::decimal_text(weights as nat) + ", expected "@
                    + crate::text::decimal_text(expected as nat)
            },
        }
    }

    /// The error in words.
    pub fn message(&self) -> (r: String)
        ensures
            r@ == self.text(),
    {
        match self {
            BasisRuntimeError::TooManySplats => "basis-bank splat count exceeds u32".to_owned(),
            BasisRuntimeError::BasisCount { count } => {
                let mut s: String = "invalid basis-bank global basis count ".to_owned();
                s.append(decimal(*count as u64).as_str());
                s
            },
            BasisRuntimeError::KnotCount { count } => {
                let mut s: String = "invalid basis-bank knot count ".to_owned();
                s.append(decimal(*count as u64).as_str());
                s
            },
            BasisRuntimeError::TopK { count } => {
                let mut s: String = "invalid basis-bank top_k ".to_owned();
                s.append(decimal(*count as u64).as_str());
                s
            },
            BasisRuntimeError::BasisOverflow => "basis-bank basis value count overflow".to_owned(),
            BasisRuntimeError::BasisValues { found, expected } => {
                let mut s: String = "basis-bank basis value mismatch: got ".to_owned();
                s.append(decimal(*found as u64).as_str());
                s.append(", expected ");
                s.append(decimal(*expected as u64).as_str());
                s
            },
            BasisRuntimeError::CoefficientOverflow => {
                "basis-bank coefficient count overflow".to_owned()
            },
            BasisRuntimeError::Coefficients { ids, weights, expected } => {
                let mut s: String = "basis-bank coefficient length mismatch: ids=".to_owned();
                s.append(decimal(*ids as u64).as_str());
                s.append(", weights=");
                s.append(decimal(*weights as u64).as_str());
                s.append(", expected ");
                s.append(decimal(*expected as u64).as_str());
                s
            },
        }
    }
}

/// The sizes that the shader gets.
#[derive(Debug, Clone, Copy, PartialEq, Eq, Structural)]
pub struct BasisRuntimeSizes {
    pub splat_count: u32,
    pub knot_count: u32,
    pub top_k: u32,
    pub global_basis_count: u32,
}

/// Motion that can be uploaded: sizes that are positive and fit 32 bits, and buffers of the lengths
/// that the sizes call for.
pub open spec fn runtime_sizes(motion: BasisBankMotionSet) -> Result<
    BasisRuntimeSizes,
    BasisRuntimeError,
> {
    let splats = motion.total_splats;
    let bases = motion.basis_count;
    let knots = motion.meta.exported_knot_count;
    let top_k = motion.meta.top_k;
    if splats > u32::MAX {
        Err(BasisRuntimeError::TooManySplats)
    } else if bases == 0 || bases > u32::MAX {
        Err(BasisRuntimeError::BasisCount { count: bases })
    } else if knots == 0 || knots > u32::MAX {
        Err(BasisRuntimeError::KnotCount { count: knots })
    } else if top_k == 0 || top_k > u32::MAX {
        Err(BasisRuntimeError::TopK { count: top_k })
    } else if bases * knots * 3 > usize::MAX {
        Err(BasisRuntimeError::BasisOverflow)
    } else if motion.basis_knots@.len() != bases * knots * 3 {
        Err(
            BasisRuntimeError::BasisValues {
                found: motion.basis_knots@.len() as usize,
                expected: (bases * knots * 3) as usize,
            },
        )
    } else if splats * top_k > usize::MAX {
        Err(BasisRuntimeError::CoefficientOverflow)
    } else if motion.basis_ids@.len() != splats * top_k || motion.global_weights@.len() != splats
        * top_k {
        Err(
            BasisRuntimeError::Coefficients {
                ids: motion.basis_ids@.len() as usize,
                weights: motion.global_weights@.len() as usize,
                expected: (splats * top_k) as usize,
            },
        )
    } else {
        Ok(
            BasisRuntimeSizes {
                splat_count: splats as u32,
                knot_count: knots as u32,
                top_k: top_k as u32,
                global_basis_count: bases as u32,
            },
        )
    }
}

/// Checks that motion can be uploaded.
pub fn check_runtime(motion: &BasisBankMotionSet) -> (r: Result<
    BasisRuntimeSizes,
    BasisRuntimeError,
>)
    ensures
        r == runtime_sizes(*motion),
{
    let splats: usize = motion.total_splats;
    let bases: usize = motion.basis_count;
    let knots: usize = motion.meta.exported_knot_count;
    let top_k: usize = motion.meta.top_k;
    if splats as u64 > u32::MAX as u64 {
        return Err(BasisRuntimeError::TooManySplats);
    }
    if bases == 0 || bases as u64 > u32::MAX as u64 {
        return Err(BasisRuntimeError::BasisCount { count: bases });
    }
    if knots == 0 || knots as u64 > u32::MAX as u64 {
        return Err(BasisRuntimeError::KnotCount { count: knots });
    }
    if top_k == 0 || top_k as u64 > u32::MAX as u64 {
        return Err(BasisRuntimeError::TopK { count: top_k });
    }
    let rows: usize = match bases.checked_mul(knots) {
        Some(rows) => rows,
        None => {
            return Err(BasisRuntimeError::BasisOverflow);
        },
    };
    let values: usize = match rows.checked_mul(3) {
        Some(values) => values,
        None => {
            return Err(BasisRuntimeError::BasisOverflow);
        },
    };
    if motion.basis_knots.len() != values {
        return Err(
            BasisRuntimeError::BasisValues {
                found: motion.basis_knots.len(),
                expected: values,
            },
        );
    }
    let coefficients: usize = match splats.checked_mul(top_k) {
        Some(coefficients) => coefficients,
        None => {
            return Err(BasisRuntimeError::CoefficientOverflow);
        },
    };
    if motion.basis_ids.len() != coefficients || motion.global_weights.len() != coefficients {
        return Err(
            BasisRuntimeError::Coefficients {
                ids: motion.basis_ids.len(),
                weights: motion.global_weights.len(),
                expected: coefficients,
            },
        );
    }
    Ok(
        BasisRuntimeSizes {
            splat_count: splats as u32,
            knot_count: knots as u32,
            top_k: top_k as u32,
            global_basis_count: bases as u32,
        },
    )
}

/// Motion that was loaded can be uploaded, unless a size does not fit 32 bits.
pub proof fn loaded_motion_can_be_uploaded(motion: BasisBankMotionSet)
    requires
        crate::basis_bank_motion::meta_well_formed(motion.meta),
        motion.basis_count == motion.meta.basis_count,
        motion.basis_knots@.len() == motion.meta.basis_count * motion.meta.exported_knot_count * 3,
        motion.basis_knots@.len() <= usize::MAX,
        motion.basis_ids@.len() <= usize::MAX,
        crate::basis_bank_motion::coefficients_aligned(
            motion.basis_ids@,
            motion.global_weights@,
            motion.total_splats as int,
            motion.meta,
        ),
        motion.total_splats <= u32::MAX,
        motion.basis_count <= u32::MAX,
        motion.meta.exported_knot_count <= u32::MAX,
        motion.meta.top_k <= u32::MAX,
    ensures
        runtime_sizes(motion) is Ok,
{
}

/// Knots as rows of four, the last number zero; an incomplete knot at the end is dropped.
pub fn pack_basis_knots(knots: &[u32]) -> (r: Vec<[u32; 4]>)
    ensures
        r@.len() == knots@.len() / 3,
        forall|i: int|
            0 <= i < r@.len() ==> (#[trigger] r@[i])@ == seq![
                knots@[3 * i],
                knots@[3 * i + 1],
                knots@[3 * i + 2],
                crate::float_bits::ZERO,
            ],
{
    let total: usize = knots.len();
    let rows: usize = total / 3;
    let mut packed: Vec<[u32; 4]> = Vec::new();
    for i in 0..rows
        invariant
            total == knots@.len(),
            rows == total / 3,
            packed@.len() == i,
            forall|k: int|
                0 <= k < i ==> (#[trigger] packed@[k])@ == seq![
                    knots@[3 * k],
                    knots@[3 * k + 1],
                    knots@[3 * k + 2],
                    crate::float_bits::ZERO,
                ],
    {
        let row: [u32; 4] = [
            knots[3 * i],
            knots[3 * i + 1],
            knots[3 * i + 2],
            crate::float_bits::ZERO,
        ];
        assert(row@ =~= seq![
            knots@[3 * i],
            knots@[3 * i + 1],
            knots@[3 * i + 2],
            crate::float_bits::ZERO,
        ]);
        packed.push(row);
    }
    packed
}

/// The words of the motion uniform.
pub fn motion_uniform(time01: u32, texture_width: u32, sizes: BasisRuntimeSizes) -> (r: [u32; 8])
    ensures
        r@ == seq![
            time01,
            sizes.splat_count,
            texture_width,
            sizes.knot_count,
            sizes.top_k,
            0u32,
            0u32,
            0u32,
        ],
{
    let r: [u32; 8] = [
        time01,
        sizes.splat_count,
        texture_width,
        sizes.knot_count,
        sizes.top_k,
        0,
        0,
        0,
    ];
    assert(r@ =~= seq![
        time01,
        sizes.splat_count,
        texture_width,
        sizes.knot_count,
        sizes.top_k,
        0u32,
        0u32,
        0u32,
    ]);
    r
}

} // verus!
