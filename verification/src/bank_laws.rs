//! Laws of basis-bank files: what is accepted, why something is not, and where its numbers stand.

use crate::basis_bank_motion::{
    AppendError, BasisBankCoeffZipEntry, BasisBankLodZipEntry, BasisBankMotionMeta,
    BasisBankMotionSet, BasisBankMotionWireMeta, BasisMetaError, BasisPayloadError, LegacyHeaderError, MotionError,
};
use crate::basis_bank_motion_gpu::BasisRuntimeError;
use vstd::prelude::*;

verus! {

/// The duration that playback uses: version 1 of the metadata has it from the network, version 2
/// carries it.
pub open spec fn given_duration(
    wire: BasisBankMotionWireMeta,
    legacy_duration: Option<u32>,
) -> Option<u32> {
    if wire.format_version == 1 {
        legacy_duration
    } else {
        wire.duration_seconds
    }
}

/// A finite number above zero, by its bit pattern.
pub open spec fn positive_number(bits: u32) -> bool {
    0 < bits < 0x7f80_0000
}

/// Metadata of a basis bank is accepted exactly where all of this holds of it.
pub proof fn metadata_is_accepted_where_all_holds(
    wire: BasisBankMotionWireMeta,
    legacy_duration: Option<u32>,
)
    ensures
        crate::basis_bank_motion::meta_error(wire, legacy_duration) is None <==> {
            &&& wire.format@ == "loop_closed_catmull_rom_basis_bank_delta_xyz"@
            &&& wire.format_version == 1 || wire.format_version == 2
            &&& wire.delta_field@ == "delta_xyz"@
            &&& wire.basis_scope@ == "shared_lod0"@
            &&& wire.basis_source_lod == Some(0usize)
            &&& exists|i: int| 0 <= i < wire.include_lods@.len() && #[trigger] wire.include_lods@[i] == 0
            &&& wire.motion_teacher@ == "direct_network"@
            &&& wire.source_time_sampling@ == "inclusive"@
            &&& wire.loop_closure_method@ == "cubic_hermite"@
            &&& wire.motion_basis_closure_mode@ == "target_then_basis"@
                || wire.motion_basis_closure_mode@ == "basis_then_closure"@
            &&& wire.source_knot_count >= 1
            &&& wire.exported_knot_count == wire.source_knot_count + wire.loop_closure_knots
            &&& wire.exported_knot_count >= 4
            &&& given_duration(wire, legacy_duration) matches Some(bits) && positive_number(bits)
            &&& wire.basis_count >= 1
            &&& 1 <= wire.top_k <= wire.basis_count
        },
{
}

/// What is refused in metadata is named: the error says which part it is, with what was found there.
pub proof fn refused_metadata_is_named(
    wire: BasisBankMotionWireMeta,
    legacy_duration: Option<u32>,
    error: BasisMetaError,
)
    requires
        crate::basis_bank_motion::meta_error(wire, legacy_duration) == Some(error),
    ensures
        match error {
            BasisMetaError::Format { format } => format == wire.format && format@
                != "loop_closed_catmull_rom_basis_bank_delta_xyz"@,
            BasisMetaError::Version { version } => version == wire.format_version && version != 1
                && version != 2,
            BasisMetaError::DeltaField { field } => field == wire.delta_field && field@
                != "delta_xyz"@,
            BasisMetaError::Scope { scope } => scope == wire.basis_scope && scope@
                != "shared_lod0"@,
            BasisMetaError::SourceLod { lod } => lod == wire.basis_source_lod && lod
                != Some(0usize),
            BasisMetaError::LodZeroMissing => !wire.include_lods@.contains(0),
            BasisMetaError::Teacher { teacher } => teacher == wire.motion_teacher && teacher@
                != "direct_network"@,
            BasisMetaError::TimeSampling { sampling } => sampling == wire.source_time_sampling
                && sampling@ != "inclusive"@,
            BasisMetaError::ClosureMethod { method } => method == wire.loop_closure_method
                && method@ != "cubic_hermite"@,
            BasisMetaError::ClosureMode { mode } => mode == wire.motion_basis_closure_mode && mode@
                != "target_then_basis"@ && mode@ != "basis_then_closure"@,
            BasisMetaError::NoSourceKnots => wire.source_knot_count == 0,
            BasisMetaError::KnotCountOverflow => wire.source_knot_count + wire.loop_closure_knots
                > usize::MAX,
            BasisMetaError::KnotCount { source, closure, exported, expected } => {
                &&& source == wire.source_knot_count
                &&& closure == wire.loop_closure_knots
                &&& exported == wire.exported_knot_count
                &&& expected == source + closure
                &&& expected != exported
            },
            BasisMetaError::LegacyDurationMissing => wire.format_version == 1
                && legacy_duration is None,
            BasisMetaError::DurationMissing => wire.format_version == 2
                && wire.duration_seconds is None,
            BasisMetaError::Duration { bits } => given_duration(wire, legacy_duration) == Some(bits)
                && !positive_number(bits),
            BasisMetaError::TooFewKnots { exported } => exported == wire.exported_knot_count
                && exported < 4,
            BasisMetaError::BasisCount { basis_count, top_k } => {
                &&& basis_count == wire.basis_count
                &&& top_k == wire.top_k
                &&& basis_count == 0 || top_k == 0 || top_k > basis_count
            },
        },
{
}

/// Accepted metadata keeps its numbers.
pub proof fn accepted_metadata_keeps_its_numbers(
    wire: BasisBankMotionWireMeta,
    legacy_duration: Option<u32>,
)
    requires
        crate::basis_bank_motion::meta_error(wire, legacy_duration) is None,
    ensures
        ({
            let meta = crate::basis_bank_motion::accepted_meta(wire, legacy_duration);
            &&& meta.format_version == wire.format_version
            &&& meta.include_lods@ == wire.include_lods@
            &&& meta.source_knot_count == wire.source_knot_count
            &&& meta.exported_knot_count == wire.exported_knot_count
            &&& meta.loop_closure_knots == wire.loop_closure_knots
            &&& meta.basis_count == wire.basis_count
            &&& meta.top_k == wire.top_k
            &&& wire.format_version == 1 ==> Some(meta.duration_seconds) == legacy_duration
            &&& wire.format_version == 2 ==> Some(meta.duration_seconds) == wire.duration_seconds
        }),
{
}

/// The number that stands at a place of a file, the lowest byte first.
pub open spec fn word(bytes: Seq<u8>, at: int) -> int {
    bytes[at] + 0x100 * bytes[at + 1] + 0x1_0000 * bytes[at + 2] + 0x100_0000 * bytes[at + 3]
}

/// The file of a bank starts with `MBSB`, its version (1 or 2), its LoD, its bases and its knots, and
/// goes on with three finite numbers for each knot of each basis.
pub proof fn bank_files_hold_their_knots(bytes: Seq<u8>)
    requires
        bytes.len() <= usize::MAX,
    ensures
        crate::basis_bank_motion::lod_payload_error(bytes) is None <==> {
            &&& bytes.len() >= 20
            &&& bytes[0] == 'M' as u8 && bytes[1] == 'B' as u8 && bytes[2] == 'S' as u8 && bytes[3]
                == 'B' as u8
            &&& word(bytes, 4) == 1 || word(bytes, 4) == 2
            &&& bytes.len() == 20 + 12 * (word(bytes, 12) * word(bytes, 16))
            &&& forall|i: int|
                0 <= i < 3 * (word(bytes, 12) * word(bytes, 16)) ==> crate::float_bits::finite(
                    #[trigger] crate::bytes::le_u32(bytes, 20 + 4 * i),
                )
        },
{
    let count = crate::basis_bank_motion::lod_value_count(bytes);
    let cells = word(bytes, 12) * word(bytes, 16);
    assert(crate::bytes::le_u32(bytes, 12) == word(bytes, 12));
    assert(crate::bytes::le_u32(bytes, 16) == word(bytes, 16));
    assert(crate::bytes::le_u32(bytes, 4) == word(bytes, 4));
    assert(count == cells * 3);
    assert(cells >= 0) by (nonlinear_arith)
        requires
            cells == word(bytes, 12) * word(bytes, 16),
            word(bytes, 12) >= 0,
            word(bytes, 16) >= 0,
    ;
    let run = crate::bytes::le_u32_run(bytes, 20, count as nat);
    assert forall|i: int| 0 <= i < count implies run[i] == #[trigger] crate::bytes::le_u32(
        bytes,
        20 + 4 * i,
    ) by {}
    if crate::float_bits::all_finite(run) {
        assert forall|i: int| 0 <= i < 3 * cells implies crate::float_bits::finite(
            #[trigger] crate::bytes::le_u32(bytes, 20 + 4 * i),
        ) by {
            assert(crate::float_bits::finite(run[i]));
        }
    } else {
        let i = choose|i: int| 0 <= i < run.len() && !crate::float_bits::finite(#[trigger] run[i]);
        assert(!crate::float_bits::finite(crate::bytes::le_u32(bytes, 20 + 4 * i)));
    }
}

/// A coefficient file starts with `MBCF`, its version (1 or 2), its tile, LoD, splats and bases per
/// splat, and goes on with that many basis numbers and then as many finite weights.
pub proof fn coefficient_files_hold_their_weights(bytes: Seq<u8>)
    requires
        bytes.len() <= usize::MAX,
    ensures
        crate::basis_bank_motion::coefficient_payload_error(bytes) is None <==> {
            let count = word(bytes, 16) * word(bytes, 20);
            &&& bytes.len() >= 24
            &&& bytes[0] == 'M' as u8 && bytes[1] == 'B' as u8 && bytes[2] == 'C' as u8 && bytes[3]
                == 'F' as u8
            &&& word(bytes, 4) == 1 || word(bytes, 4) == 2
            &&& bytes.len() == 24 + 8 * count
            &&& forall|i: int|
                0 <= i < count ==> crate::float_bits::finite(
                    #[trigger] crate::bytes::le_u32(bytes, 24 + count * 4 + 4 * i),
                )
        },
{
    let count = crate::basis_bank_motion::coefficient_count(bytes);
    assert(crate::bytes::le_u32(bytes, 16) == word(bytes, 16));
    assert(crate::bytes::le_u32(bytes, 20) == word(bytes, 20));
    assert(crate::bytes::le_u32(bytes, 4) == word(bytes, 4));
    assert(count == word(bytes, 16) * word(bytes, 20));
    assert(count >= 0) by (nonlinear_arith)
        requires
            count == word(bytes, 16) * word(bytes, 20),
            word(bytes, 16) >= 0,
            word(bytes, 20) >= 0,
    ;
    let run = crate::bytes::le_u32_run(bytes, 24 + count * 4, count as nat);
    assert forall|i: int| 0 <= i < count implies run[i] == #[trigger] crate::bytes::le_u32(
        bytes,
        24 + count * 4 + 4 * i,
    ) by {}
    if crate::float_bits::all_finite(run) {
        assert forall|i: int| 0 <= i < count implies crate::float_bits::finite(
            #[trigger] crate::bytes::le_u32(bytes, 24 + count * 4 + 4 * i),
        ) by {
            assert(crate::float_bits::finite(run[i]));
        }
    } else {
        let i = choose|i: int| 0 <= i < run.len() && !crate::float_bits::finite(#[trigger] run[i]);
        assert(!crate::float_bits::finite(crate::bytes::le_u32(bytes, 24 + count * 4 + 4 * i)));
    }
}

/// What is wrong with the file of a bank is told apart: too short for its head, another kind of file,
/// a version that is not known (and which), or a length that its counts do not ask for (and both).
pub proof fn refused_bank_files_are_named(bytes: Seq<u8>, error: BasisPayloadError)
    requires
        bytes.len() <= usize::MAX,
        crate::basis_bank_motion::lod_payload_error(bytes) == Some(error),
    ensures
        match error {
            BasisPayloadError::TooSmall => bytes.len() < 20,
            BasisPayloadError::Magic => bytes.len() >= 20 && !(bytes[0] == 'M' as u8 && bytes[1]
                == 'B' as u8 && bytes[2] == 'S' as u8 && bytes[3] == 'B' as u8),
            BasisPayloadError::Version { version } => version == word(bytes, 4) && version != 1
                && version != 2,
            BasisPayloadError::CountOverflow => word(bytes, 12) * word(bytes, 16) * 3 > usize::MAX,
            BasisPayloadError::LengthOverflow => 20 + 12 * (word(bytes, 12) * word(bytes, 16))
                > usize::MAX,
            BasisPayloadError::Length { found, expected } => found == bytes.len() && expected == 20
                + 12 * (word(bytes, 12) * word(bytes, 16)) && found != expected,
            BasisPayloadError::NonFinite => bytes.len() == 20 + 12 * (word(bytes, 12) * word(
                bytes,
                16,
            )),
        },
{
    assert(crate::bytes::le_u32(bytes, 4) == word(bytes, 4));
    assert(crate::bytes::le_u32(bytes, 12) == word(bytes, 12));
    assert(crate::bytes::le_u32(bytes, 16) == word(bytes, 16));
    let cells = word(bytes, 12) * word(bytes, 16);
    assert(cells >= 0) by (nonlinear_arith)
        requires
            cells == word(bytes, 12) * word(bytes, 16),
            word(bytes, 12) >= 0,
            word(bytes, 16) >= 0,
    ;
}

/// What is wrong with a coefficient file is told apart in the same way.
pub proof fn refused_coefficient_files_are_named(bytes: Seq<u8>, error: BasisPayloadError)
    requires
        bytes.len() <= usize::MAX,
        crate::basis_bank_motion::coefficient_payload_error(bytes) == Some(error),
    ensures
        match error {
            BasisPayloadError::TooSmall => bytes.len() < 24,
            BasisPayloadError::Magic => bytes.len() >= 24 && !(bytes[0] == 'M' as u8 && bytes[1]
                == 'B' as u8 && bytes[2] == 'C' as u8 && bytes[3] == 'F' as u8),
            BasisPayloadError::Version { version } => version == word(bytes, 4) && version != 1
                && version != 2,
            BasisPayloadError::CountOverflow => word(bytes, 16) * word(bytes, 20) > usize::MAX,
            BasisPayloadError::LengthOverflow => 24 + 8 * (word(bytes, 16) * word(bytes, 20))
                > usize::MAX,
            BasisPayloadError::Length { found, expected } => found == bytes.len() && expected == 24
                + 8 * (word(bytes, 16) * word(bytes, 20)) && found != expected,
            BasisPayloadError::NonFinite => bytes.len() == 24 + 8 * (word(bytes, 16) * word(
                bytes,
                20,
            )),
        },
{
    assert(crate::bytes::le_u32(bytes, 4) == word(bytes, 4));
    assert(crate::bytes::le_u32(bytes, 16) == word(bytes, 16));
    assert(crate::bytes::le_u32(bytes, 20) == word(bytes, 20));
    let count = word(bytes, 16) * word(bytes, 20);
    assert(count >= 0) by (nonlinear_arith)
        requires
            count == word(bytes, 16) * word(bytes, 20),
            word(bytes, 16) >= 0,
            word(bytes, 20) >= 0,
    ;
}

/// The head of a deformation network starts with `DFWT`, the version 1, and has its temporal
/// resolution at byte 24, which is not zero.
pub proof fn network_heads_hold_their_resolution(bytes: Seq<u8>)
    requires
        bytes.len() <= usize::MAX,
    ensures
        crate::basis_bank_motion::legacy_header_error(bytes) is None <==> {
            &&& bytes.len() >= 28
            &&& bytes[0] == 'D' as u8 && bytes[1] == 'F' as u8 && bytes[2] == 'W' as u8 && bytes[3]
                == 'T' as u8
            &&& word(bytes, 4) == 1
            &&& word(bytes, 24) > 0
        },
        crate::basis_bank_motion::legacy_header_error(bytes) matches Some(error) ==> match error {
            LegacyHeaderError::TooSmall { found } => found == bytes.len() && found < 28,
            LegacyHeaderError::Magic => !(bytes[0] == 'D' as u8 && bytes[1] == 'F' as u8 && bytes[2]
                == 'W' as u8 && bytes[3] == 'T' as u8),
            LegacyHeaderError::Version { version } => version == word(bytes, 4) && version != 1,
            LegacyHeaderError::NoTemporalResolution => word(bytes, 24) == 0,
        },
{
    assert(crate::bytes::le_u32(bytes, 4) == word(bytes, 4));
    assert(crate::bytes::le_u32(bytes, 24) == word(bytes, 24));
}

/// The file of a bank is used where it can be read and says what the metadata says: the same version,
/// LoD 0, and as many bases and knots. Then its numbers are used as they stand in it.
pub proof fn banks_agree_with_their_metadata(
    bytes: Seq<u8>,
    meta: BasisBankMotionMeta,
    filename: String,
)
    ensures
        ({
            let r = crate::basis_bank_motion::payload_knots(bytes, meta, filename);
            let readable = crate::basis_bank_motion::lod_payload_error(bytes) is None;
            &&& r is Ok <==> {
                &&& readable
                &&& word(bytes, 4) == meta.format_version
                &&& word(bytes, 8) == 0
                &&& word(bytes, 12) == meta.basis_count
                &&& word(bytes, 16) == meta.exported_knot_count
            }
            &&& r matches Ok(knots) ==> {
                &&& knots.len() == 3 * (meta.basis_count * meta.exported_knot_count)
                &&& forall|i: int|
                    0 <= i < knots.len() ==> #[trigger] knots[i] == word(bytes, 20 + 4 * i)
            }
            &&& r matches Err(error) ==> match error {
                MotionError::BasisPayload { filename: name, error: inner } => name == filename
                    && crate::basis_bank_motion::lod_payload_error(bytes) == Some(inner),
                MotionError::PayloadVersion { filename: name, found, expected } => name == filename
                    && readable && found == word(bytes, 4) && expected == meta.format_version
                    && found != expected,
                MotionError::BasisLod { filename: name, found } => name == filename && found
                    == word(bytes, 8) && found != 0,
                MotionError::BasisCount { filename: name, found, expected } => name == filename
                    && found == word(bytes, 12) && expected == meta.basis_count && found
                    != expected,
                MotionError::KnotCount { filename: name, found, expected } => name == filename
                    && found == word(bytes, 16) && expected == meta.exported_knot_count && found
                    != expected,
                _ => false,
            }
        }),
{
    assert(crate::bytes::le_u32(bytes, 4) == word(bytes, 4));
    assert(crate::bytes::le_u32(bytes, 8) == word(bytes, 8));
    assert(crate::bytes::le_u32(bytes, 12) == word(bytes, 12));
    assert(crate::bytes::le_u32(bytes, 16) == word(bytes, 16));
    assert(word(bytes, 12) * word(bytes, 16) >= 0) by (nonlinear_arith)
        requires
            word(bytes, 12) >= 0,
            word(bytes, 16) >= 0,
    ;
    assert(meta.basis_count * meta.exported_knot_count * 3 == 3 * (meta.basis_count
        * meta.exported_knot_count));
}

/// A row of a coefficient file can be used: it is one of the file, and names bases of the bank.
pub open spec fn usable_row(
    ids: Seq<u32>,
    splats: int,
    top_k: int,
    row: int,
    basis_count: int,
) -> bool {
    &&& row < splats
    &&& forall|slot: int|
        0 <= slot < top_k ==> (#[trigger] ids[row * top_k + slot]) < basis_count
}

proof fn foreign_slots_are_found(ids: Seq<u32>, start: int, slot: int, top_k: int, basis_count: int)
    requires
        0 <= slot <= top_k,
    ensures
        match crate::basis_bank_motion::first_foreign_slot(ids, start, slot, top_k, basis_count) {
            Some(at) => slot <= at < top_k && ids[start + at] >= basis_count && forall|k: int|
                slot <= k < at ==> (#[trigger] ids[start + k]) < basis_count,
            None => forall|k: int| slot <= k < top_k ==> (#[trigger] ids[start + k]) < basis_count,
        },
    decreases top_k - slot,
{
    if slot < top_k && ids[start + slot] < basis_count {
        foreign_slots_are_found(ids, start, slot + 1, top_k, basis_count);
    }
}

/// Coefficients are taken over up to the first splat whose row cannot be used, and the error says
/// which row or which basis it was; without such a splat nothing is refused.
pub proof fn coefficients_stop_at_the_first_fault(
    ids: Seq<u32>,
    splats: usize,
    top_k: usize,
    rows: Seq<u32>,
    basis_count: usize,
    from: nat,
)
    requires
        from <= splats,
    ensures
        match crate::basis_bank_motion::stop_of(ids, splats, top_k, rows, basis_count, from) {
            None => forall|s: int|
                from <= s < splats ==> usable_row(
                    ids,
                    splats as int,
                    top_k as int,
                    (#[trigger] rows[s]) as int,
                    basis_count as int,
                ),
            Some((at, error)) => exists|s: int|
                {
                    &&& from <= s < splats
                    &&& !usable_row(
                        ids,
                        splats as int,
                        top_k as int,
                        (#[trigger] rows[s]) as int,
                        basis_count as int,
                    )
                    &&& stops_there(ids, splats, top_k, rows, basis_count, s, at, error)
                    &&& forall|t: int|
                        from <= t < s ==> usable_row(
                            ids,
                            splats as int,
                            top_k as int,
                            (#[trigger] rows[t]) as int,
                            basis_count as int,
                        )
                },
        },
    decreases splats - from,
{
    if from < splats {
        let s = from as int;
        let row = rows[s] as int;
        if row < splats {
            let start = row * top_k;
            foreign_slots_are_found(ids, start, 0, top_k as int, basis_count as int);
            match crate::basis_bank_motion::first_foreign_slot(
                ids,
                start,
                0,
                top_k as int,
                basis_count as int,
            ) {
                Some(slot) => {
                    assert(ids[row * top_k + slot] >= basis_count);
                    assert(!usable_row(ids, splats as int, top_k as int, row, basis_count as int));
                    assert(stops_there(
                        ids,
                        splats,
                        top_k,
                        rows,
                        basis_count,
                        s,
                        from * top_k + slot,
                        AppendError::BasisId { id: ids[start + slot], basis_count },
                    ));
                },
                None => {
                    assert(usable_row(ids, splats as int, top_k as int, row, basis_count as int));
                    coefficients_stop_at_the_first_fault(
                        ids,
                        splats,
                        top_k,
                        rows,
                        basis_count,
                        from + 1,
                    );
                },
            }
        } else {
            assert(!usable_row(ids, splats as int, top_k as int, row, basis_count as int));
            assert(stops_there(
                ids,
                splats,
                top_k,
                rows,
                basis_count,
                s,
                from * top_k,
                AppendError::Row { row: rows[s] as usize, splats },
            ));
        }
    }
}

/// Taking over stops at splat `s`, `at` values from the start, for the reason that the error names.
pub open spec fn stops_there(
    ids: Seq<u32>,
    splats: usize,
    top_k: usize,
    rows: Seq<u32>,
    basis_count: usize,
    s: int,
    at: int,
    error: AppendError,
) -> bool {
    match error {
        AppendError::RowCount { rows: _, splats: _ } => false,
        AppendError::Row { row, splats: count } => {
            &&& at == s * top_k
            &&& row == rows[s]
            &&& count == splats
            &&& row >= splats
        },
        AppendError::BasisId { id, basis_count: count } => {
            &&& s * top_k <= at < s * top_k + top_k
            &&& id == ids[rows[s] * top_k + (at - s * top_k)]
            &&& count == basis_count
            &&& id >= basis_count
        },
    }
}

/// The coefficients of a tile are used where its file can be read and says what the metadata and the
/// scene say: the same version, tile, LoD, splats and bases per splat, one row for every splat, and
/// every row one of the file with bases of the bank.
pub proof fn coefficients_agree_with_their_tile(
    bytes: Seq<u8>,
    meta: BasisBankMotionMeta,
    filename: String,
    lod: usize,
    tile: usize,
    scene: crate::scene::Scene,
)
    ensures
        crate::basis_bank_motion::payload_coefficients(bytes, meta, filename, lod, tile, scene)
            is Ok <==> {
            let rows = scene.source_row_indices@;
            &&& crate::basis_bank_motion::coefficient_payload_error(bytes) is None
            &&& word(bytes, 4) == meta.format_version
            &&& word(bytes, 8) == tile
            &&& word(bytes, 12) == lod
            &&& word(bytes, 16) == scene.splat_count
            &&& word(bytes, 20) == meta.top_k
            &&& rows.len() == scene.splat_count
            &&& forall|s: int|
                0 <= s < scene.splat_count ==> usable_row(
                    crate::basis_bank_motion::payload_ids(bytes),
                    scene.splat_count as int,
                    meta.top_k as int,
                    (#[trigger] rows[s]) as int,
                    meta.basis_count as int,
                )
        },
{
    assert(crate::bytes::le_u32(bytes, 4) == word(bytes, 4));
    assert(crate::bytes::le_u32(bytes, 8) == word(bytes, 8));
    assert(crate::bytes::le_u32(bytes, 12) == word(bytes, 12));
    assert(crate::bytes::le_u32(bytes, 16) == word(bytes, 16));
    assert(crate::bytes::le_u32(bytes, 20) == word(bytes, 20));
    coefficients_stop_at_the_first_fault(
        crate::basis_bank_motion::payload_ids(bytes),
        scene.splat_count,
        meta.top_k,
        scene.source_row_indices@,
        meta.basis_count,
        0,
    );
}

/// Of two coefficient files for the same tile the later is found: the first file with another one
/// before it. Without one, every tile has at most one file.
pub proof fn repeated_tiles_are_found(entries: Seq<BasisBankCoeffZipEntry>, from: nat)
    requires
        from <= entries.len(),
    ensures
        match crate::basis_bank_motion::first_repeat(entries, from) {
            Some(i) => {
                &&& from <= i < entries.len()
                &&& exists|j: int|
                    0 <= j < i && (#[trigger] entries[j]).lod_id == entries[i].lod_id
                        && entries[j].tile_id == entries[i].tile_id
            },
            None => forall|j: int, i: int|
                0 <= j < i < entries.len() && from <= i ==> (#[trigger] entries[j]).lod_id != (
                #[trigger] entries[i]).lod_id || entries[j].tile_id != entries[i].tile_id,
        },
    decreases entries.len() - from,
{
    if from < entries.len() {
        if crate::basis_bank_motion::repeats_tile(entries, from as int) {
            let j = choose|j: int|
                0 <= j < from && crate::basis_bank_motion::same_tile(
                    #[trigger] entries[j],
                    entries[from as int],
                );
            assert(entries[j].lod_id == entries[from as int].lod_id);
        } else {
            repeated_tiles_are_found(entries, from + 1);
            assert forall|j: int| 0 <= j < from implies (#[trigger] entries[j]).lod_id
                != entries[from as int].lod_id || entries[j].tile_id
                != entries[from as int].tile_id by {
                assert(!crate::basis_bank_motion::same_tile(entries[j], entries[from as int]));
            }
        }
    }
}

/// The file of a tile is the first that names its LoD and its number.
pub proof fn tiles_find_their_file(
    entries: Seq<BasisBankCoeffZipEntry>,
    lod: int,
    tile: int,
    from: nat,
)
    requires
        from <= entries.len(),
    ensures
        match crate::basis_bank_motion::entry_for(entries, lod, tile, from) {
            Some(i) => {
                &&& from <= i < entries.len()
                &&& entries[i].lod_id == lod
                &&& entries[i].tile_id == tile
                &&& forall|j: int|
                    from <= j < i ==> (#[trigger] entries[j]).lod_id != lod || entries[j].tile_id
                        != tile
            },
            None => forall|j: int|
                from <= j < entries.len() ==> (#[trigger] entries[j]).lod_id != lod
                    || entries[j].tile_id != tile,
        },
    decreases entries.len() - from,
{
    if from < entries.len() && !(entries[from as int].lod_id == lod && entries[from as int].tile_id
        == tile) {
        tiles_find_their_file(entries, lod, tile, from + 1);
    }
}

/// A bank fits the device where its counts are not zero and fit 32 bits, and its knots and
/// coefficients are as many as the counts ask for. The sizes handed on are those counts.
pub proof fn runtimes_hold_the_counts(motion: BasisBankMotionSet)
    ensures
        ({
            let splats = motion.total_splats as int;
            let bases = motion.basis_count as int;
            let knots = motion.meta.exported_knot_count as int;
            let top_k = motion.meta.top_k as int;
            let r = crate::basis_bank_motion_gpu::runtime_sizes(motion);
            &&& r is Ok <==> {
                &&& splats <= u32::MAX
                &&& 1 <= bases <= u32::MAX
                &&& 1 <= knots <= u32::MAX
                &&& 1 <= top_k <= u32::MAX
                &&& bases * knots * 3 <= usize::MAX
                &&& splats * top_k <= usize::MAX
                &&& motion.basis_knots@.len() == bases * knots * 3
                &&& motion.basis_ids@.len() == splats * top_k
                &&& motion.global_weights@.len() == splats * top_k
            }
            &&& r matches Ok(sizes) ==> {
                &&& sizes.splat_count == splats
                &&& sizes.knot_count == knots
                &&& sizes.top_k == top_k
                &&& sizes.global_basis_count == bases
            }
            &&& r matches Err(error) ==> match error {
                BasisRuntimeError::TooManySplats => splats > u32::MAX,
                BasisRuntimeError::BasisCount { count } => count == bases && !(1 <= bases
                    <= u32::MAX),
                BasisRuntimeError::KnotCount { count } => count == knots && !(1 <= knots
                    <= u32::MAX),
                BasisRuntimeError::TopK { count } => count == top_k && !(1 <= top_k <= u32::MAX),
                BasisRuntimeError::BasisOverflow => bases * knots * 3 > usize::MAX,
                BasisRuntimeError::BasisValues { found, expected } => expected == bases * knots * 3
                    && found == motion.basis_knots@.len() as usize && motion.basis_knots@.len()
                    != expected,
                BasisRuntimeError::CoefficientOverflow => splats * top_k > usize::MAX,
                BasisRuntimeError::Coefficients { ids, weights, expected } => expected == splats
                    * top_k && ids == motion.basis_ids@.len() as usize && weights
                    == motion.global_weights@.len() as usize && (motion.basis_ids@.len() != expected
                    || motion.global_weights@.len() != expected),
            }
        }),
{
    let bases = motion.basis_count as int;
    let knots = motion.meta.exported_knot_count as int;
    let splats = motion.total_splats as int;
    let top_k = motion.meta.top_k as int;
    assert(bases * knots >= 0 && splats * top_k >= 0) by (nonlinear_arith)
        requires
            bases >= 0,
            knots >= 0,
            splats >= 0,
            top_k >= 0,
    ;
}

/// The duration of a bank comes from a network only for version 1; there it needs a network with a
/// head that can be read, and other versions need none.
pub proof fn durations_come_from_the_network(
    archive: Seq<u8>,
    version: u32,
    network_index: Option<usize>,
)
    ensures
        ({
            let r = crate::basis_bank_sampling::duration_from_network(
                archive,
                version,
                network_index,
            );
            &&& version != 1 ==> r is Ok && r->Ok_0 is None
            &&& version == 1 && network_index is None ==> r is Err
            &&& version == 1 && r is Ok ==> r->Ok_0 is Some
            &&& r matches Ok(Some(bits)) ==> version == 1 && network_index is Some && {
                let head = crate::zip_file::entry_prefix(archive, network_index->0, 28);
                &&& head is Ok
                &&& crate::basis_bank_motion::legacy_header_error(head->Ok_0) is None
                &&& bits == crate::basis_bank_sampling::legacy_duration_bits(
                    word(head->Ok_0, 24) as u32,
                ) as u32
            }
        }),
{
    if let Some(index) = network_index {
        let head = crate::zip_file::entry_prefix(archive, index, 28);
        if head is Ok {
            assert(crate::bytes::le_u32(head->Ok_0, 24) == word(head->Ok_0, 24) as u32);
        }
    }
}

/// The points of a segment move on by one knot with the segment, and round the loop.
pub proof fn segments_share_their_points(
    knots: Seq<u32>,
    n: int,
    basis_id: int,
    segment: int,
    offset: int,
)
    requires
        n > 0,
        0 <= segment,
        -1 <= offset <= 1,
    ensures
        ({
            let at = segment % n;
            let next = (segment + 1) % n;
            &&& crate::basis_bank_sampling::knot_of(knots, n, basis_id, (at + n + offset + 1) % n)
                == crate::basis_bank_sampling::knot_of(knots, n, basis_id, (next + n + offset) % n)
            &&& crate::basis_bank_sampling::knot_of(knots, n, basis_id, at).len() == 3
            &&& forall|axis: int|
                0 <= axis < 3 ==> #[trigger] crate::basis_bank_sampling::knot_of(
                    knots,
                    n,
                    basis_id,
                    at,
                )[axis] == knots[3 * (basis_id * n + at) + axis]
        }),
{
    let at = segment % n;
    let next = (segment + 1) % n;
    if at + 1 < n {
        assert(next == at + 1) by (nonlinear_arith)
            requires
                n > 0,
                at == segment % n,
                next == (segment + 1) % n,
                at + 1 < n,
        ;
    } else {
        assert(next == 0) by (nonlinear_arith)
            requires
                n > 0,
                at == segment % n,
                next == (segment + 1) % n,
                at + 1 == n,
        ;
        vstd::arithmetic::div_mod::lemma_mod_add_multiples_vanish(n + offset, n);
        assert((at + n + offset + 1) % n == (n + offset) % n);
    }
}

/// A splat is moved by a basis where one of its slots names the basis with a weight other than zero,
/// and none of those that name it holds no number.
pub proof fn moved_splats_have_a_weight(
    ids: Seq<u32>,
    weights: Seq<u32>,
    start: int,
    top_k: int,
    basis_id: int,
)
    ensures
        ({
            let r = crate::basis_bank_sampling::moves_splat(ids, weights, start, top_k, basis_id);
            &&& r ==> exists|k: int|
                0 <= k < top_k && #[trigger] ids[start + k] == basis_id && weights[start + k] != 0
                    && weights[start + k] != 0x8000_0000
            &&& forall|k: int|
                r && 0 <= k < top_k && #[trigger] ids[start + k] == basis_id ==> weights[start + k]
                    % 0x8000_0000 <= 0x7f80_0000
            &&& forall|k: int|
                0 <= k < top_k && #[trigger] ids[start + k] == basis_id && 0 < weights[start + k]
                    % 0x8000_0000 && (forall|j: int|
                    0 <= j < top_k && #[trigger] ids[start + j] == basis_id ==> weights[start + j]
                        % 0x8000_0000 <= 0x7f80_0000) ==> r
        }),
{
    let r = crate::basis_bank_sampling::moves_splat(ids, weights, start, top_k, basis_id);
    if r {
        let k = choose|k: int|
            0 <= k < top_k && #[trigger] ids[start + k] == basis_id && crate::float_bits::magnitude(
                weights[start + k],
            ) > 0;
        assert(ids[start + k] == basis_id && weights[start + k] != 0 && weights[start + k]
            != 0x8000_0000);
    }
}

/// The splats that a basis moves are counted one by one, each splat in its own slots.
pub proof fn moved_splats_are_counted(
    ids: Seq<u32>,
    weights: Seq<u32>,
    top_k: int,
    basis_id: int,
    n: nat,
)
    ensures
        crate::basis_bank_sampling::moved_count(ids, weights, top_k, basis_id, n) == Seq::new(
            n,
            |i: int| i,
        ).filter(
            |i: int|
                crate::basis_bank_sampling::moves_splat(ids, weights, top_k * i, top_k, basis_id),
        ).len(),
    decreases n,
{
    reveal(Seq::filter);
    let moved = |i: int|
        crate::basis_bank_sampling::moves_splat(ids, weights, top_k * i, top_k, basis_id);
    let all = Seq::new(n, |i: int| i);
    if n > 0 {
        moved_splats_are_counted(ids, weights, top_k, basis_id, (n - 1) as nat);
        assert(all.drop_last() =~= Seq::new((n - 1) as nat, |i: int| i));
        assert(all.last() == n - 1);
        assert((n - 1) * top_k == top_k * (n - 1)) by (nonlinear_arith);
    } else {
        assert(all =~= Seq::empty());
    }
}

/// A graph is used with a bank exactly where it fits, and then as it is.
pub proof fn fitting_graphs_are_used(
    graph: crate::basis_motion_graph::BasisMotionGraph,
    meta: BasisBankMotionMeta,
)
    ensures
        crate::basis_bank_motion::usable_graph(None, meta) is None,
        crate::basis_bank_motion::usable_graph(Some(graph), meta) is Some
            <==> crate::basis_motion_graph::bank_error(graph, meta) is None,
        crate::basis_bank_motion::usable_graph(Some(graph), meta) is Some
            ==> crate::basis_bank_motion::usable_graph(Some(graph), meta) == Some(graph),
{
}

/// Motion is loaded exactly where the bank can be read, no tile has two files of coefficients, and the
/// coefficients of all tiles can be read.
pub proof fn motion_is_loaded_where_all_holds(
    archive: Seq<u8>,
    meta: BasisBankMotionMeta,
    banks: Seq<BasisBankLodZipEntry>,
    entries: Seq<BasisBankCoeffZipEntry>,
    scenes: Seq<Vec<crate::scene::Scene>>,
)
    ensures
        ({
            let error = crate::basis_bank_motion::motion_error(
                archive,
                meta,
                banks,
                entries,
                scenes,
            );
            let knots = crate::basis_bank_motion::bank_knots(archive, meta, banks);
            let coefficients = crate::basis_bank_motion::coefficients_before(
                archive,
                meta,
                entries,
                scenes,
                scenes.len(),
                0,
            );
            let apart = forall|j: int, i: int|
                0 <= j < i < entries.len() ==> (#[trigger] entries[j]).lod_id != (
                #[trigger] entries[i]).lod_id || entries[j].tile_id != entries[i].tile_id;
            &&& error is None <==> knots is Ok && apart && coefficients is Ok
            &&& knots matches Err(e) ==> error == Some(e)
            &&& knots is Ok && !apart ==> (error matches Some(
                MotionError::DuplicateCoefficients { tile, lod },
            ) && exists|i: int|
                0 < i < entries.len() && (#[trigger] entries[i]).tile_id == tile
                    && entries[i].lod_id == lod)
            &&& knots is Ok && apart ==> (coefficients matches Err(e) ==> error == Some(e))
        }),
{
    repeated_tiles_are_found(entries, 0);
    if let Some(i) = crate::basis_bank_motion::first_repeat(entries, 0) {
        let j = choose|j: int|
            0 <= j < i && (#[trigger] entries[j]).lod_id == entries[i].lod_id && entries[j].tile_id
                == entries[i].tile_id;
        assert(entries[j].lod_id == entries[i].lod_id);
    }
}

proof fn quotients_are_near(n: nat)
    ensures
        -7 <= 15 * crate::float_bits::nearest_quotient(n, 15) - n <= 7,
{
}

/// Fifteen times the duration of an old bank is the resolution of its network in time, up to the
/// rounding of the duration: their significands agree within half a unit of the last place, where
/// sixteen or eight times the one stands for fifteen times the other.
pub proof fn fifteen_frames_last_a_second(resolution: u32)
    requires
        resolution > 0,
    ensures
        ({
            let frames = crate::float_bits::integer_bits(resolution as nat) as int;
            let seconds = crate::basis_bank_sampling::legacy_duration_bits(resolution) as int;
            let given = 0x80_0000 + frames % 0x80_0000;
            let taken = 0x80_0000 + seconds % 0x80_0000;
            ||| seconds / 0x80_0000 == frames / 0x80_0000 - 4 && -7 <= 15 * taken - 16 * given <= 7
            ||| seconds / 0x80_0000 == frames / 0x80_0000 - 3 && -7 <= 15 * taken - 8 * given <= 7
        }),
{
    vstd::arithmetic::power2::lemma2_to64();
    crate::float_bits::integer_bits_range(resolution as nat, 31);
    let frames = crate::float_bits::integer_bits(resolution as nat);
    let exponent = (frames / 0x80_0000) as int;
    let given = frames % 0x80_0000 + 0x80_0000;
    assert(exponent >= 127);
    if 16 * given < 15 * 0x100_0000 {
        quotients_are_near(16 * given);
        let q = crate::float_bits::nearest_quotient(16 * given, 15) as int;
        assert(0x80_0000 <= q <= 0x100_0000);
        let seconds = (exponent - 5) * 0x80_0000 + q;
        assert(q < 0x100_0000 ==> seconds / 0x80_0000 == exponent - 4 && seconds % 0x80_0000 == q
            - 0x80_0000);
        assert(q == 0x100_0000 ==> seconds / 0x80_0000 == exponent - 3 && seconds % 0x80_0000 == 0);
    } else {
        quotients_are_near(8 * given);
        let q = crate::float_bits::nearest_quotient(8 * given, 15) as int;
        assert(0x80_0000 <= q < 0x100_0000);
        let seconds = (exponent - 4) * 0x80_0000 + q;
        assert(seconds / 0x80_0000 == exponent - 3 && seconds % 0x80_0000 == q - 0x80_0000);
    }
}

} // verus!
