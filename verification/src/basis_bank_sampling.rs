//! What playback of a basis bank reads: its duration, the knots around a point of a curve and how
//! many splats each basis moves.

use crate::basis_bank_motion::{
    parse_legacy_temporal_resolution, LegacyHeaderError, BASIS_BANK_LEGACY_VERSION,
    DEFORMATION_HEADER_SIZE,
};
use crate::zip_file::EntryError;
use vstd::prelude::*;

verus! {

/// The pattern of the number closest to `resolution * 2 / 30` seconds, the quotient taken of the
/// resolution as a number. A significand of 24 bits is divided by 15 after a shift that keeps 24
/// bits of the quotient.
pub open spec fn legacy_duration_bits(resolution: u32) -> nat {
    let bits = crate::float_bits::integer_bits(resolution as nat);
    let exponent = bits / 0x80_0000;
    let significand = bits % 0x80_0000 + 0x80_0000;
    if 16 * significand < 15 * 0x100_0000 {
        ((exponent - 5) * 0x80_0000 + crate::float_bits::nearest_quotient(
            16 * significand,
            15,
        )) as nat
    } else {
        ((exponent - 4) * 0x80_0000 + crate::float_bits::nearest_quotient(
            8 * significand,
            15,
        )) as nat
    }
}

proof fn legacy_duration_range(resolution: u32)
    requires
        resolution > 0,
    ensures
        127 * 0x80_0000 <= crate::float_bits::integer_bits(resolution as nat) < 160 * 0x80_0000,
        122 * 0x80_0000 <= legacy_duration_bits(resolution) < 160 * 0x80_0000,
{
    vstd::arithmetic::power2::lemma2_to64();
    crate::float_bits::integer_bits_range(resolution as nat, 31);
}

/// Every temporal resolution gives a duration that can be played: finite and positive.
pub proof fn legacy_durations_are_playable(resolution: u32)
    requires
        resolution > 0,
    ensures
        legacy_duration_bits(resolution) <= u32::MAX,
        crate::basis_bank_motion::playable_duration(legacy_duration_bits(resolution) as u32),
{
    legacy_duration_range(resolution);
}

/// Playback lasts two frames of a thirtieth of a second for each sample of the temporal grid.
pub fn legacy_duration(resolution: u32) -> (r: u32)
    requires
        resolution > 0,
    ensures
        r == legacy_duration_bits(resolution),
{
    let bits: u32 = crate::float_bits::from_integer(resolution as u64);
    proof {
        legacy_duration_range(resolution);
    }
    let exponent: u32 = bits / 0x80_0000;
    let significand: u32 = bits % 0x80_0000 + 0x80_0000;
    if 16 * significand < 15 * 0x100_0000 {
        (exponent - 5) * 0x80_0000 + nearest_fifteenth(16 * significand)
    } else {
        (exponent - 4) * 0x80_0000 + nearest_fifteenth(8 * significand)
    }
}

fn nearest_fifteenth(n: u32) -> (r: u32)
    ensures
        r == crate::float_bits::nearest_quotient(n as nat, 15),
{
    if 2 * (n % 15) < 15 {
        n / 15
    } else {
        n / 15 + 1
    }
}

/// Reads the duration of playback from the start of a deformation network.
pub fn parse_legacy_deformation_duration_seconds(
    bytes: &[u8],
) -> (r: Result<u32, LegacyHeaderError>)
    ensures
        r == parsed_duration(bytes@),
{
    match parse_legacy_temporal_resolution(bytes) {
        Ok(resolution) => Ok(legacy_duration(resolution)),
        Err(error) => Err(error),
    }
}

pub open spec fn parsed_duration(bytes: Seq<u8>) -> Result<u32, LegacyHeaderError> {
    match crate::basis_bank_motion::legacy_header_error(bytes) {
        Some(error) => Err(error),
        None => Ok(legacy_duration_bits(crate::bytes::le_u32(bytes, 24)) as u32),
    }
}

/// Why an old basis bank has no duration.
#[derive(Debug, Clone, Copy, PartialEq, Eq, Structural)]
pub enum LegacyDurationError {
    NoNetwork,
    Read { error: EntryError },
    Header { error: LegacyHeaderError },
}

impl LegacyDurationError {
    pub open spec fn text(self, archive: Seq<u8>) -> Seq<char> {
        match self {
            LegacyDurationError::NoNetwork =>
                "basis-bank version 1 requires deformation_weights.bin to infer playback duration"@,
            LegacyDurationError::Read { error } => error.text(
                "failed to open deformation_weights.bin: "@,
                "failed to read deformation_weights.bin header: "@,
                "deformation_weights.bin is too small: "@,
                archive,
            ),
            LegacyDurationError::Header { error } => error.text(),
        }
    }

    /// The error in words; the archive is the one that the error came from.
    pub fn message(&self, archive: &[u8]) -> (r: String)
        ensures
            r@ == self.text(archive@),
    {
        match self {
            LegacyDurationError::NoNetwork =>
                "basis-bank version 1 requires deformation_weights.bin to infer playback duration".to_owned(),
            LegacyDurationError::Read { error } => error.message(
                "failed to open deformation_weights.bin: ",
                "failed to read deformation_weights.bin header: ",
                "deformation_weights.bin is too small: ",
                archive,
            ),
            LegacyDurationError::Header { error } => error.message(),
        }
    }
}

/// The duration that a bank of the given version takes from the deformation network: only one of
/// the first version takes any.
pub open spec fn duration_from_network(
    archive: Seq<u8>,
    version: u32,
    network_index: Option<usize>,
) -> Result<Option<u32>, LegacyDurationError> {
    if version != BASIS_BANK_LEGACY_VERSION {
        Ok(None)
    } else {
        match network_index {
            None => Err(LegacyDurationError::NoNetwork),
            Some(index) => match crate::zip_file::entry_prefix(
                archive,
                index,
                DEFORMATION_HEADER_SIZE as u64,
            ) {
                Err(error) => Err(LegacyDurationError::Read { error }),
                Ok(bytes) => match parsed_duration(bytes) {
                    Err(error) => Err(LegacyDurationError::Header { error }),
                    Ok(bits) => Ok(Some(bits)),
                },
            },
        }
    }
}

/// The duration that a bank of the given version takes from the deformation network of its archive.
pub fn read_legacy_duration(
    archive: &[u8],
    version: u32,
    network_index: Option<usize>,
) -> (r: Result<Option<u32>, LegacyDurationError>)
    ensures
        r == duration_from_network(archive@, version, network_index),
{
    if version != BASIS_BANK_LEGACY_VERSION {
        return Ok(None);
    }
    let index: usize = match network_index {
        Some(index) => index,
        None => {
            return Err(LegacyDurationError::NoNetwork);
        },
    };
    match crate::zip_file::read_zip_entry_prefix(archive, index, DEFORMATION_HEADER_SIZE as u64) {
        Err(error) => Err(LegacyDurationError::Read { error }),
        Ok(bytes) => match parse_legacy_deformation_duration_seconds(bytes.as_slice()) {
            Err(error) => Err(LegacyDurationError::Header { error }),
            Ok(bits) => Ok(Some(bits)),
        },
    }
}

/// A knot of a basis.
pub open spec fn knot_of(knots: Seq<u32>, knot_count: int, basis_id: int, knot: int) -> Seq<u32> {
    let base = (basis_id * knot_count + knot) * 3;
    seq![knots[base], knots[base + 1], knots[base + 2]]
}

/// A bank holds the basis.
pub open spec fn bank_holds(
    knots: Seq<u32>,
    basis_count: usize,
    knot_count: usize,
    basis_id: usize,
) -> bool {
    &&& basis_id < basis_count
    &&& knot_count > 0
    &&& knots.len() == basis_count * knot_count * 3
}

fn basis_knot(
    knots: &[u32],
    basis_count: usize,
    knot_count: usize,
    basis_id: usize,
    knot: usize,
) -> (r: [u32; 3])
    requires
        bank_holds(knots@, basis_count, knot_count, basis_id),
        knot < knot_count,
    ensures
        r@ == knot_of(knots@, knot_count as int, basis_id as int, knot as int),
{
    let total: usize = knots.len();
    proof {
        assert(basis_id * knot_count + knot_count <= basis_count * knot_count) by (nonlinear_arith)
            requires
                basis_id < basis_count,
        ;
    }
    let base: usize = (basis_id * knot_count + knot) * 3;
    let r: [u32; 3] = [knots[base], knots[base + 1], knots[base + 2]];
    assert(r@ =~= knot_of(knots@, knot_count as int, basis_id as int, knot as int));
    r
}

/// The four knots that shape a segment of a closed curve: the one before it, its two ends and the
/// one after it.
pub fn basis_segment_points(
    knots: &[u32],
    basis_count: usize,
    knot_count: usize,
    basis_id: usize,
    segment: usize,
) -> (r: Option<[[u32; 3]; 4]>)
    ensures
        r is Some <==> bank_holds(knots@, basis_count, knot_count, basis_id),
        r matches Some(p) ==> {
            let n = knot_count as int;
            let at = segment as int % n;
            &&& p@[0]@ == knot_of(knots@, n, basis_id as int, (at + n - 1) % n)
            &&& p@[1]@ == knot_of(knots@, n, basis_id as int, at)
            &&& p@[2]@ == knot_of(knots@, n, basis_id as int, (at + 1) % n)
            &&& p@[3]@ == knot_of(knots@, n, basis_id as int, (at + 2) % n)
        },
{
    if basis_count == 0 || knot_count == 0 || basis_id >= basis_count {
        return None;
    }
    let total: usize = knots.len();
    match basis_count.checked_mul(knot_count) {
        None => {
            return None;
        },
        Some(count) => match count.checked_mul(3) {
            None => {
                return None;
            },
            Some(values) => {
                if total != values {
                    return None;
                }
            },
        },
    }
    proof {
        assert(knot_count <= basis_count * knot_count) by (nonlinear_arith)
            requires
                basis_count >= 1,
        ;
    }
    let at: usize = segment % knot_count;
    let before: usize = (at + (knot_count - 1)) % knot_count;
    let next: usize = (at + 1) % knot_count;
    let after: usize = (at + 2) % knot_count;
    Some(
        [
            basis_knot(knots, basis_count, knot_count, basis_id, before),
            basis_knot(knots, basis_count, knot_count, basis_id, at),
            basis_knot(knots, basis_count, knot_count, basis_id, next),
            basis_knot(knots, basis_count, knot_count, basis_id, after),
        ],
    )
}

/// A basis moves a splat, `top_k` slots from `start` on: one of its weights is not zero, and none
/// is NaN.
pub open spec fn moves_splat(
    ids: Seq<u32>,
    weights: Seq<u32>,
    start: int,
    top_k: int,
    basis_id: int,
) -> bool {
    &&& exists|k: int|
        0 <= k < top_k && #[trigger] ids[start + k] == basis_id && crate::float_bits::magnitude(
            weights[start + k],
        ) > 0
    &&& forall|k: int|
        0 <= k < top_k && #[trigger] ids[start + k] == basis_id ==> !crate::float_bits::nan(
            weights[start + k],
        )
}

/// Splats among the first `n` that a basis moves.
pub open spec fn moved_count(
    ids: Seq<u32>,
    weights: Seq<u32>,
    top_k: int,
    basis_id: int,
    n: nat,
) -> int
    decreases n,
{
    if n == 0 {
        0
    } else {
        moved_count(ids, weights, top_k, basis_id, (n - 1) as nat) + if moves_splat(
            ids,
            weights,
            (n - 1) * top_k,
            top_k,
            basis_id,
        ) {
            1int
        } else {
            0int
        }
    }
}

fn is_moving(ids: &[u32], weights: &[u32], start: usize, top_k: usize, basis_id: usize) -> (r: bool)
    requires
        start + top_k <= ids@.len(),
        ids@.len() == weights@.len(),
    ensures
        r == moves_splat(ids@, weights@, start as int, top_k as int, basis_id as int),
{
    let total: usize = ids.len();
    let mut found: bool = false;
    for k in 0..top_k
        invariant
            total == ids@.len(),
            start + top_k <= ids@.len(),
            ids@.len() == weights@.len(),
            found == (exists|j: int|
                0 <= j < k && #[trigger] ids@[start + j] == basis_id
                    && crate::float_bits::magnitude(weights@[start + j]) > 0),
            forall|j: int|
                0 <= j < k && #[trigger] ids@[start + j] == basis_id ==> !crate::float_bits::nan(
                    weights@[start + j],
                ),
    {
        if ids[start + k] as usize == basis_id {
            let weight: u32 = weights[start + k];
            assert(ids@[start + k as int] == basis_id);
            if crate::float_bits::is_nan(weight) {
                return false;
            }
            if crate::float_bits::abs(weight) > 0 {
                found = true;
            }
        }
    }
    found
}

/// How many splats each basis moves; none where ids and weights do not match or nothing is listed
/// for a splat.
pub fn affected_splat_counts(
    ids: &[u32],
    weights: &[u32],
    basis_count: usize,
    top_k: usize,
) -> (r: Vec<usize>)
    ensures
        r@.len() == basis_count,
        forall|b: int|
            0 <= b < basis_count ==> #[trigger] r@[b] == if top_k == 0 || ids@.len()
                != weights@.len() {
                0
            } else {
                moved_count(ids@, weights@, top_k as int, b, (ids@.len() / top_k as nat) as nat)
            },
{
    let mut counts: Vec<usize> = Vec::new();
    let usable: bool = top_k > 0 && ids.len() == weights.len();
    let splats: usize = if usable {
        ids.len() / top_k
    } else {
        0
    };
    let total: usize = ids.len();
    for b in 0..basis_count
        invariant
            total == ids@.len(),
            usable == (top_k > 0 && ids@.len() == weights@.len()),
            splats == if usable {
                total as int / top_k as int
            } else {
                0
            },
            counts@.len() == b,
            forall|c: int|
                0 <= c < b ==> #[trigger] counts@[c] == if usable {
                    moved_count(ids@, weights@, top_k as int, c, splats as nat)
                } else {
                    0
                },
    {
        let mut count: usize = 0;
        for n in 0..splats
            invariant
                total == ids@.len(),
                splats > 0 ==> usable,
                usable == (top_k > 0 && ids@.len() == weights@.len()),
                usable ==> splats == total as int / top_k as int,
                count == moved_count(ids@, weights@, top_k as int, b as int, n as nat),
                count <= n,
        {
            proof {
                vstd::arithmetic::div_mod::lemma_fundamental_div_mod(total as int, top_k as int);
                assert(n * top_k + top_k <= total) by (nonlinear_arith)
                    requires
                        n < splats,
                        total == top_k * splats + total as int % top_k as int,
                        total as int % top_k as int >= 0,
                ;
            }
            if is_moving(ids, weights, n * top_k, top_k, b) {
                count = count + 1;
            }
        }
        counts.push(count);
    }
    counts
}

/// A bank of the current version takes nothing from the deformation network: what its metadata
/// amounts to is the same whatever the archive holds of a network.
pub proof fn current_banks_ignore_the_network(
    wire: crate::basis_bank_motion::BasisBankMotionWireMeta,
    archive: Seq<u8>,
    network_index: Option<usize>,
    duration: Option<u32>,
)
    requires
        wire.format_version == crate::basis_bank_motion::BASIS_BANK_VERSION,
    ensures
        duration_from_network(archive, wire.format_version, network_index) == Ok::<
            Option<u32>,
            LegacyDurationError,
        >(None),
        crate::basis_bank_motion::meta_error(wire, duration)
            == crate::basis_bank_motion::meta_error(wire, None),
        crate::basis_bank_motion::accepted_meta(wire, duration)
            == crate::basis_bank_motion::accepted_meta(wire, None),
{
}

} // verus!
