//! Laws of Catmull-Rom motion: what files are accepted, how modes are named, and what is uploaded.

use crate::catmull_rom_files::{CatmullRomFault, CatmullRomMotionMeta};
use crate::catmull_rom_loading::{CatmullRomMotionSet, CatmullRomMotionZipEntry, ReorderError};
use crate::catmull_rom_motion::{CatmullRomMotionTeacher, CatmullRomTimeSampling, MotionMode};
use crate::catmull_rom_motion_gpu::{
    CatmullRomGpuError, CatmullRomRuntimeSizes, MotionCompatibilityScope, PartialStats,
};
use crate::scene::Scene;
use vstd::prelude::*;
use vstd::string::*;

verus! {

/// Every file of the motion says what it is: its format, version 1, the field it holds, and whether
/// it is periodic. The fault names the first of these that is wrong.
pub proof fn motion_files_say_what_they_are(pkl: Seq<u8>)
    ensures
        ({
            let format = crate::pickle::string_field(pkl, "format".spec_bytes()) == Some(
                "periodic_catmull_rom_delta_xyz"@,
            );
            let version = crate::pickle::int_field(pkl, "format_version".spec_bytes()) == Some(
                1int,
            );
            let field = crate::pickle::string_field(pkl, "delta_field".spec_bytes()) == Some(
                "delta_xyz"@,
            );
            let periodic = crate::pickle::bool_field(pkl, "periodic".spec_bytes()) is Some;
            let fault = crate::catmull_rom_files::common_fault(pkl);
            &&& fault is None <==> format && version && field && periodic
            &&& fault == Some(CatmullRomFault::Format) <==> !format
            &&& fault == Some(CatmullRomFault::Version) <==> format && !version
            &&& fault == Some(CatmullRomFault::DeltaField) <==> format && version && !field
            &&& fault == Some(CatmullRomFault::Periodic) <==> format && version && field
                && !periodic
        }),
{
}

/// Samplings and teachers go by their names; a file that names none is periodic, and of the old kind.
pub proof fn samplings_and_teachers_have_names(name: Seq<char>)
    ensures
        crate::catmull_rom_files::sampling_named(None) == Some(CatmullRomTimeSampling::Periodic),
        crate::catmull_rom_files::teacher_named(None) == Some(CatmullRomMotionTeacher::Legacy),
        crate::catmull_rom_files::sampling_named(Some(name)) matches Some(s) ==> name == s.label(),
        crate::catmull_rom_files::teacher_named(Some(name)) matches Some(t) ==> name == t.label()
            && !(t is Legacy),
        crate::catmull_rom_files::sampling_named(Some(name)) is None ==> name
            != CatmullRomTimeSampling::Periodic.label() && name
            != CatmullRomTimeSampling::VolumeKeys.label(),
        crate::catmull_rom_files::teacher_named(Some(name)) is None ==> name
            != CatmullRomMotionTeacher::Volume.label() && name
            != CatmullRomMotionTeacher::DirectNetwork.label(),
{
}

/// Metadata is accepted where it says what it is, has its knots and LoDs, a time for every knot, and
/// a sampling and a teacher that are known.
pub proof fn metadata_is_accepted_where_all_holds(pkl: Seq<u8>, storages: Seq<Seq<u8>>)
    ensures
        ({
            let knots = crate::catmull_rom_files::size_field(pkl, "knot_count".spec_bytes());
            let times = crate::torch_archive::array_numbers(storages, 0);
            crate::catmull_rom_files::meta_fault(pkl, storages) is None <==> {
                &&& crate::catmull_rom_files::common_fault(pkl) is None
                &&& knots is Some
                &&& crate::catmull_rom_files::lods_field(pkl) is Some
                &&& times is Ok
                &&& times->Ok_0.len() == knots->0
                &&& crate::catmull_rom_files::sampling_named(
                    crate::pickle::string_field(pkl, "time_sampling".spec_bytes()),
                ) is Some
                &&& crate::catmull_rom_files::teacher_named(
                    crate::pickle::string_field(pkl, "motion_teacher".spec_bytes()),
                ) is Some
            }
        }),
{
}

/// The metadata that is read holds each number under its own name.
pub proof fn metadata_is_read_by_name(
    meta: CatmullRomMotionMeta,
    pkl: Seq<u8>,
    storages: Seq<Seq<u8>>,
)
    requires
        crate::catmull_rom_files::is_meta(meta, pkl, storages),
    ensures
        crate::catmull_rom_files::size_field(pkl, "knot_count".spec_bytes()) == Some(
            meta.knot_count,
        ),
        crate::catmull_rom_files::size_field(pkl, "volume_res".spec_bytes()) == meta.volume_res,
        crate::catmull_rom_files::size_field(pkl, "volume_key_count".spec_bytes())
            == meta.volume_key_count,
        crate::catmull_rom_files::size_field(pkl, "source_knot_count".spec_bytes())
            == meta.source_knot_count,
        crate::catmull_rom_files::size_field(pkl, "exported_knot_count".spec_bytes())
            == meta.exported_knot_count,
        crate::catmull_rom_files::size_field(pkl, "loop_closure_knots".spec_bytes())
            == meta.loop_closure_knots,
        crate::catmull_rom_files::size_field(pkl, "source_frame_count".spec_bytes())
            == meta.source_frame_count,
        crate::pickle::bool_field(pkl, "periodic".spec_bytes()) == Some(meta.periodic_flag),
        crate::pickle::number_field(pkl, "source_fps".spec_bytes()) == crate::pickle::number_view(
            meta.source_fps,
        ),
        crate::pickle::number_field(pkl, "duration_seconds".spec_bytes())
            == crate::pickle::number_view(meta.duration_seconds),
        crate::pickle::string_field(pkl, "loop_closure_method".spec_bytes())
            == crate::pickle::text_view(meta.loop_closure_method),
        meta.has_time_sampling_field <==> crate::pickle::string_field(
            pkl,
            "time_sampling".spec_bytes(),
        ) is Some,
        meta.sample_times@.len() == meta.knot_count,
{
}

/// A tile is accepted where it says what it is, has its numbers, a time for every knot, and whole
/// splats of knots, three numbers each; then it has as many splats as its numbers make.
pub proof fn tiles_are_accepted_where_all_holds(
    pkl: Seq<u8>,
    storages: Seq<Seq<u8>>,
    knot_count: usize,
)
    ensures
        ({
            let tile = crate::catmull_rom_files::size_field(pkl, "tile_index".spec_bytes());
            let lod = crate::catmull_rom_files::size_field(pkl, "lod_index".spec_bytes());
            let times = crate::torch_archive::array_numbers(storages, 1);
            let knots = crate::torch_archive::array_numbers(storages, 0);
            let r = crate::catmull_rom_files::tile_of(pkl, storages, knot_count);
            &&& r is Ok <==> {
                &&& crate::catmull_rom_files::common_fault(pkl) is None
                &&& tile is Some
                &&& lod is Some
                &&& times is Ok
                &&& times->Ok_0.len() == knot_count
                &&& knots is Ok
                &&& 1 <= knot_count
                &&& knot_count * 3 <= usize::MAX
                &&& knots->Ok_0.len() as int % (knot_count * 3) == 0
            }
            &&& r matches Ok((t, l, splats, values)) ==> {
                &&& tile == Some(t)
                &&& lod == Some(l)
                &&& knots->Ok_0 == values
                &&& splats * (knot_count * 3) == values.len()
            }
        }),
{
    let knots = crate::torch_archive::array_numbers(storages, 0);
    if knots is Ok && 1 <= knot_count {
        vstd::arithmetic::div_mod::lemma_fundamental_div_mod(
            knots->Ok_0.len() as int,
            knot_count * 3,
        );
        let q = knots->Ok_0.len() as int / (knot_count * 3);
        assert((knot_count * 3) * q == q * (knot_count * 3)) by (nonlinear_arith);
    }
}

proof fn bad_rows_are_found(rows: Seq<u32>, splats: int, from: nat)
    requires
        from <= rows.len(),
    ensures
        match crate::catmull_rom_loading::first_bad_row(rows, splats, from) {
            Some(i) => from <= i < rows.len() && rows[i] >= splats && forall|j: int|
                from <= j < i ==> (#[trigger] rows[j]) < splats,
            None => forall|j: int| from <= j < rows.len() ==> (#[trigger] rows[j]) < splats,
        },
    decreases rows.len() - from,
{
    if from < rows.len() && rows[from as int] < splats {
        bad_rows_are_found(rows, splats, from + 1);
    }
}

/// Rows can be used where there is one for every splat and each is one of the file. Otherwise all
/// rows before the first that is not are copied, and the fault names that one.
pub proof fn rows_are_used_where_all_exist(rows: Seq<u32>, splats: usize)
    requires
        rows.len() <= usize::MAX,
    ensures
        crate::catmull_rom_loading::reorder_fault(rows, splats) is None <==> rows.len() == splats
            && forall|i: int| 0 <= i < rows.len() ==> (#[trigger] rows[i]) < splats,
        crate::catmull_rom_loading::reorder_fault(rows, splats) matches Some(fault) ==> match fault {
            ReorderError::RowCount { rows: found, splats: expected } => found == rows.len()
                && expected == splats && found != expected
                && crate::catmull_rom_loading::rows_copied(rows, splats) == 0,
            ReorderError::Row { row, splats: expected } => {
                let i = crate::catmull_rom_loading::rows_copied(rows, splats);
                &&& expected == splats
                &&& 0 <= i < rows.len()
                &&& row == rows[i]
                &&& row >= splats
                &&& forall|j: int| 0 <= j < i ==> (#[trigger] rows[j]) < splats
            },
        },
        crate::catmull_rom_loading::reorder_fault(rows, splats) is None
            ==> crate::catmull_rom_loading::rows_copied(rows, splats) == splats,
{
    bad_rows_are_found(rows, splats as int, 0);
}

/// The file of a tile is the last that names its LoD and its number.
pub proof fn the_last_file_of_a_tile_counts(
    entries: Seq<CatmullRomMotionZipEntry>,
    n: nat,
    lod: int,
    tile: int,
)
    requires
        n <= entries.len(),
    ensures
        match crate::catmull_rom_loading::last_entry(entries, n, lod, tile) {
            Some(i) => {
                &&& 0 <= i < n
                &&& entries[i].lod_id == lod
                &&& entries[i].tile_id == tile
                &&& forall|j: int|
                    i < j < n ==> (#[trigger] entries[j]).lod_id != lod || entries[j].tile_id
                        != tile
            },
            None => forall|j: int|
                0 <= j < n ==> (#[trigger] entries[j]).lod_id != lod || entries[j].tile_id != tile,
        },
    decreases n,
{
    if n > 0 && !(entries[n - 1].lod_id == lod && entries[n - 1].tile_id == tile) {
        the_last_file_of_a_tile_counts(entries, (n - 1) as nat, lod, tile);
    }
}

/// The tiles of a LoD without motion stand still; a tile of another LoD needs a file, for that tile
/// and LoD, with as many splats as the scene and rows that can be used.
pub proof fn tiles_without_motion_stand_still(
    archive: Seq<u8>,
    knot_count: usize,
    included: Seq<usize>,
    entries: Seq<CatmullRomMotionZipEntry>,
    lod: usize,
    tile: usize,
    scene: Scene,
)
    ensures
        ({
            let r = crate::catmull_rom_loading::tile_knots(
                archive,
                knot_count,
                included,
                entries,
                lod,
                tile,
                scene,
            );
            let file = crate::catmull_rom_loading::last_entry(
                entries,
                entries.len(),
                lod as int,
                tile as int,
            );
            &&& !included.contains(lod) ==> {
                &&& r is Ok
                &&& r->Ok_0 is Some
                &&& (r->Ok_0->0).len() == scene.splat_count * knot_count * 3
                &&& forall|i: int|
                    0 <= i < (r->Ok_0->0).len() ==> #[trigger] (r->Ok_0->0)[i] == 0
            }
            &&& included.contains(lod) && file is None ==> r is Ok && r->Ok_0 is None
            &&& included.contains(lod) && r is Ok && r->Ok_0 is Some ==> {
                let bytes = crate::zip_file::whole_entry(archive, entries[file->0].index);
                &&& file is Some
                &&& bytes is Ok
                &&& crate::catmull_rom_files::tile_of_file(bytes->Ok_0, knot_count) is Ok
                &&& (crate::catmull_rom_files::tile_of_file(bytes->Ok_0, knot_count)->Ok_0).0
                    == tile
                &&& (crate::catmull_rom_files::tile_of_file(bytes->Ok_0, knot_count)->Ok_0).1
                    == lod
                &&& (crate::catmull_rom_files::tile_of_file(bytes->Ok_0, knot_count)->Ok_0).2
                    == scene.splat_count
                &&& crate::catmull_rom_loading::reorder_fault(
                    scene.source_row_indices@,
                    scene.splat_count,
                ) is None
            }
        }),
{
    assert(scene.splat_count * knot_count * 3 >= 0) by (nonlinear_arith)
        requires
            scene.splat_count >= 0,
            knot_count >= 0,
    ;
}

/// A mode is known by its own name, among others, and a name stands for one mode.
pub proof fn modes_are_known_by_their_names(mode: MotionMode)
    ensures
        crate::catmull_rom_motion::mode_named(mode.label()) == Some(mode),
{
    reveal_strlit("auto");
    reveal_strlit("basis_bank");
    reveal_strlit("catmull_rom");
    reveal_strlit("deformation_network");
    reveal_strlit("static");
    reveal_strlit("basis-bank");
    reveal_strlit("basis");
    reveal_strlit("catmull-rom");
    reveal_strlit("spline");
    reveal_strlit("deformation-network");
    reveal_strlit("network");
    reveal_strlit("volume");
    reveal_strlit("none");
    assert("auto"@[0] == 'a' && "basis_bank"@[0] == 'b' && "catmull_rom"@[0] == 'c'
        && "deformation_network"@[0] == 'd' && "static"@[0] == 's' && "static"@[1] == 't');
    assert("basis-bank"@[0] == 'b' && "basis"@[0] == 'b' && "catmull-rom"@[0] == 'c' && "spline"@[1]
        == 'p' && "volume"@[0] == 'v' && "none"@[0] == 'n' && "network"@[0] == 'n'
        && "deformation-network"@[0] == 'd');
}

/// The names of the modes.
pub proof fn modes_have_further_names()
    ensures
        forall|name: Seq<char>|
            #[trigger] crate::catmull_rom_motion::mode_named(name) == Some(MotionMode::BasisBank)
                ==> name == "basis_bank"@ || name == "basis-bank"@ || name == "basis"@,
        forall|name: Seq<char>|
            #[trigger] crate::catmull_rom_motion::mode_named(name) == Some(MotionMode::CatmullRom)
                ==> name == "catmull_rom"@ || name == "catmull-rom"@ || name == "spline"@,
        forall|name: Seq<char>|
            #[trigger] crate::catmull_rom_motion::mode_named(name) == Some(
                MotionMode::DeformationNetwork,
            ) ==> name == "deformation_network"@ || name == "deformation-network"@ || name
                == "network"@ || name == "volume"@,
        forall|name: Seq<char>|
            #[trigger] crate::catmull_rom_motion::mode_named(name) == Some(MotionMode::Static)
                ==> name == "static"@ || name == "none"@,
        forall|name: Seq<char>|
            #[trigger] crate::catmull_rom_motion::mode_named(name) is None ==> name != "auto"@
                && name != "basis_bank"@ && name != "basis-bank"@ && name != "basis"@ && name
                != "catmull_rom"@ && name != "catmull-rom"@ && name != "spline"@ && name
                != "deformation_network"@ && name != "deformation-network"@ && name != "network"@
                && name != "volume"@ && name != "static"@ && name != "none"@,
{
}

/// The names that a page may use for how a scene is deformed.
pub proof fn deformations_have_names()
    ensures
        forall|name: Seq<char>|
            #[trigger] crate::catmull_rom_motion::deform_mode_named(name) == Some(
                MotionMode::BasisBank,
            ) ==> name == "basis_bank"@ || name == "basis-bank"@ || name == "basis"@,
        forall|name: Seq<char>|
            #[trigger] crate::catmull_rom_motion::deform_mode_named(name) == Some(
                MotionMode::CatmullRom,
            ) ==> name == "catmull_rom"@ || name == "catmull-rom"@ || name == "spline"@,
        forall|name: Seq<char>|
            #[trigger] crate::catmull_rom_motion::deform_mode_named(name) == Some(
                MotionMode::DeformationNetwork,
            ) ==> name == "volume"@ || name == "hexplane_mlp"@ || name == "identity"@,
        forall|name: Seq<char>|
            #[trigger] crate::catmull_rom_motion::deform_mode_named(name) == Some(
                MotionMode::Static,
            ) ==> name == "static"@ || name == "none"@,
        forall|name: Seq<char>|
            #[trigger] crate::catmull_rom_motion::deform_mode_named(name) != Some(MotionMode::Auto),
        forall|name: Seq<char>|
            #[trigger] crate::catmull_rom_motion::deform_mode_named(name) is None ==> name
                != "basis_bank"@ && name != "catmull_rom"@ && name != "static"@ && name
                != "volume"@ && name != "hexplane_mlp"@ && name != "identity"@,
{
}

/// A part of a query chooses a mode where it gives `motion_mode` or `deform_mode` a known name; any
/// other part leaves the mode as it was.
pub proof fn parts_of_a_query_choose_a_mode(part: Seq<char>, mode: MotionMode)
    ensures
        ({
            let by_motion = "motion_mode="@.is_prefix_of(part);
            let by_deform = "deform_mode="@.is_prefix_of(part);
            let value = part.skip(12);
            let r = crate::catmull_rom_motion::mode_after(part, mode);
            &&& !by_motion && !by_deform ==> r == mode
            &&& by_motion ==> match crate::catmull_rom_motion::mode_named(
                crate::text::lowered(value),
            ) {
                Some(m) => r == m,
                None => r == mode,
            }
            &&& by_deform ==> match crate::catmull_rom_motion::deform_mode_named(value) {
                Some(m) => r == m,
                None => r == mode,
            }
        }),
{
    reveal_strlit("motion_mode=");
    reveal_strlit("deform_mode=");
    if "motion_mode="@.is_prefix_of(part) {
        assert(part.subrange(0, 12)[0] == part[0]);
        assert("motion_mode="@[0] == 'm' && "deform_mode="@[0] == 'd');
        assert(!"deform_mode="@.is_prefix_of(part)) by {
            if "deform_mode="@.is_prefix_of(part) {
                assert(part.subrange(0, 12) == "deform_mode="@);
            }
        }
    }
}

proof fn parts_end_at_an_ampersand(s: Seq<char>, from: int)
    requires
        0 <= from <= s.len(),
    ensures
        from <= crate::catmull_rom_motion::part_end(s, from) <= s.len(),
        crate::catmull_rom_motion::part_end(s, from) < s.len()
            ==> s[crate::catmull_rom_motion::part_end(s, from)] == '&',
        forall|i: int|
            from <= i < crate::catmull_rom_motion::part_end(s, from) ==> #[trigger] s[i] != '&',
    decreases s.len() - from,
{
    if from < s.len() && s[from] != '&' {
        parts_end_at_an_ampersand(s, from + 1);
    }
}

proof fn part_end_is_the_first(s: Seq<char>, from: int, at: int)
    requires
        0 <= from <= at <= s.len(),
        at < s.len() ==> s[at] == '&',
        forall|i: int| from <= i < at ==> #[trigger] s[i] != '&',
    ensures
        crate::catmull_rom_motion::part_end(s, from) == at,
    decreases at - from,
{
    if from < at {
        part_end_is_the_first(s, from + 1, at);
    }
}

/// The parts of a query count in turn: one more part at the end has the last word.
pub proof fn the_last_part_of_a_query_counts(
    s: Seq<char>,
    part: Seq<char>,
    from: int,
    mode: MotionMode,
)
    requires
        0 <= from <= s.len(),
        forall|i: int| 0 <= i < part.len() ==> #[trigger] part[i] != '&',
    ensures
        crate::catmull_rom_motion::query_mode(s + seq!['&'] + part, from, mode)
            == crate::catmull_rom_motion::mode_after(
            part,
            crate::catmull_rom_motion::query_mode(s, from, mode),
        ),
    decreases s.len() - from,
{
    let whole = s + seq!['&'] + part;
    parts_end_at_an_ampersand(s, from);
    let end = crate::catmull_rom_motion::part_end(s, from);
    assert forall|i: int| from <= i < end implies #[trigger] whole[i] != '&' by {
        assert(whole[i] == s[i]);
    }
    assert(whole[end] == '&') by {
        if end < s.len() {
            assert(whole[end] == s[end]);
        }
    }
    part_end_is_the_first(whole, from, end);
    assert(whole.subrange(from, end) =~= s.subrange(from, end));
    let next = crate::catmull_rom_motion::mode_after(s.subrange(from, end), mode);
    if end < s.len() {
        the_last_part_of_a_query_counts(s, part, end + 1, next);
    } else {
        assert forall|i: int| end + 1 <= i < whole.len() implies #[trigger] whole[i] != '&' by {
            assert(whole[i] == part[i - end - 1]);
        }
        part_end_is_the_first(whole, end + 1, whole.len() as int);
        assert(whole.subrange(end + 1, whole.len() as int) =~= part);
        assert(crate::catmull_rom_motion::query_mode(whole, end + 1, next)
            == crate::catmull_rom_motion::mode_after(part, next));
        assert(crate::catmull_rom_motion::query_mode(s, from, mode) == next);
    }
    assert(crate::catmull_rom_motion::query_mode(whole, from, mode)
        == crate::catmull_rom_motion::query_mode(whole, end + 1, next));
}

/// As many groups as it takes: enough for all, and one fewer is not.
pub proof fn groups_are_enough(n: int, d: int)
    requires
        0 <= n,
        0 < d,
    ensures
        crate::catmull_rom_motion_gpu::ceiling(n, d) * d >= n,
        n > 0 ==> (crate::catmull_rom_motion_gpu::ceiling(n, d) - 1) * d < n,
        n == 0 ==> crate::catmull_rom_motion_gpu::ceiling(n, d) == 0,
{
    vstd::arithmetic::div_mod::lemma_fundamental_div_mod(n, d);
    let q = n / d;
    assert(d * q == q * d) by (nonlinear_arith);
    assert((q + 1) * d == q * d + d) by (nonlinear_arith);
    assert((q - 1) * d == q * d - d) by (nonlinear_arith);
}

/// A comparison looks at the source knots, at least one and at most all.
pub proof fn comparisons_look_at_source_knots(meta: CatmullRomMotionMeta)
    requires
        meta.knot_count <= u32::MAX,
    ensures
        crate::catmull_rom_motion_gpu::comparison_knots(meta) >= 1,
        meta.knot_count >= 1 ==> crate::catmull_rom_motion_gpu::comparison_knots(meta)
            <= meta.knot_count,
        meta.source_knot_count is None && meta.knot_count >= 1
            ==> crate::catmull_rom_motion_gpu::comparison_knots(meta) == meta.knot_count,
        meta.source_knot_count matches Some(n) ==> 1 <= n <= meta.knot_count
            ==> crate::catmull_rom_motion_gpu::comparison_knots(meta) == n,
        meta.source_knot_count matches Some(n) ==> n > meta.knot_count >= 1
            ==> crate::catmull_rom_motion_gpu::comparison_knots(meta) == meta.knot_count,
{
}

/// Keys of a volume count only for motion that a volume taught: as many as source knots, or else as
/// the volume has.
pub proof fn keys_count_for_volumes(meta: CatmullRomMotionMeta)
    ensures
        !(meta.motion_teacher is Volume) ==> crate::catmull_rom_motion_gpu::source_keys(meta) == 0,
        meta.motion_teacher is Volume ==> (meta.source_knot_count matches Some(n) ==> n <= u32::MAX
            ==> crate::catmull_rom_motion_gpu::source_keys(meta) == n),
        meta.motion_teacher is Volume && meta.source_knot_count is None ==> (
        meta.volume_key_count matches Some(n) ==> n <= u32::MAX
            ==> crate::catmull_rom_motion_gpu::source_keys(meta) == n),
        meta.source_knot_count is None && meta.volume_key_count is None
            ==> crate::catmull_rom_motion_gpu::source_keys(meta) == 0,
{
}

/// Motion can be uploaded where its counts fit 32 bits, there is a knot, and its numbers are three
/// for every knot of every splat.
pub proof fn motion_is_uploaded_where_it_fits(motion: CatmullRomMotionSet)
    ensures
        ({
            let values = motion.total_splats * motion.meta.knot_count * 3;
            let error = crate::catmull_rom_motion_gpu::upload_error(motion);
            &&& error is None <==> {
                &&& motion.total_splats <= u32::MAX
                &&& 1 <= motion.meta.knot_count <= u32::MAX
                &&& values <= usize::MAX
                &&& motion.global_knots@.len() == values
            }
            &&& error matches Some(e) ==> match e {
                CatmullRomGpuError::TooManySplats => motion.total_splats > u32::MAX,
                CatmullRomGpuError::KnotCount { count } => count == motion.meta.knot_count && !(1
                    <= count <= u32::MAX),
                CatmullRomGpuError::ValueOverflow => values > usize::MAX,
                CatmullRomGpuError::ValueCount { found, expected } => found
                    == motion.global_knots@.len() as usize && expected == values
                    && motion.global_knots@.len() != expected,
                _ => false,
            }
        }),
{
    assert(motion.total_splats * motion.meta.knot_count >= 0) by (nonlinear_arith)
        requires
            motion.total_splats >= 0,
            motion.meta.knot_count >= 0,
    ;
}

/// A texture of knots is refused for what it exceeds, with the numbers at fault; otherwise it holds
/// all knots and keeps to the limit.
pub proof fn knot_textures_keep_to_the_limit(splats: usize, knots: usize, limit: u32)
    ensures
        match crate::catmull_rom_motion_gpu::planned_layout(splats, knots, limit) {
            Ok(layout) => {
                &&& layout.total_knots == splats * knots
                &&& layout.width as int % 16 == 0
                &&& layout.width <= limit
                &&& layout.height <= limit
                &&& limit >= 4096 ==> layout.width >= 4096
            },
            Err(error) => match error {
                CatmullRomGpuError::KnotOverflow => splats * knots > usize::MAX,
                CatmullRomGpuError::TooManyKnots => u32::MAX < splats * knots <= usize::MAX,
                CatmullRomGpuError::TextureLimit { limit: l } => l == limit && limit < 16,
                CatmullRomGpuError::TextureWidth { width: _, limit: l } => l == limit,
                CatmullRomGpuError::TextureHeight { height: _, limit: l } => l == limit,
                _ => false,
            },
        },
{
    assert(splats * knots >= 0) by (nonlinear_arith)
        requires
            splats >= 0,
            knots >= 0,
    ;
}

/// A preview shows the selected knot, at most the last, as a share of the loop: of all knots, or of
/// the way from the first key to the last.
pub proof fn previews_show_the_selected_knot(selected: u32, knots: u32, volume_keys: bool)
    ensures
        match crate::catmull_rom_motion_gpu::preview_fraction(selected, knots, volume_keys) {
            None => knots == 0,
            Some((knot, whole)) => {
                &&& knots > 0
                &&& selected < knots ==> knot == selected
                &&& selected >= knots ==> knot == knots - 1
                &&& !volume_keys ==> whole == knots
                &&& volume_keys && knots >= 2 ==> whole == knots - 1
                &&& volume_keys && knots == 1 ==> whole == 1
            },
        },
{
}

/// Knots are uploaded in pieces of whole rows, as many as fit 64 MiB at 16 bytes a texel, and at
/// least one.
pub proof fn pieces_of_knots_fit_the_upload(width: u32)
    requires
        width > 0,
    ensures
        ({
            let rows = crate::catmull_rom_motion_gpu::chunk_rows(width);
            &&& rows >= 1
            &&& rows > 1 ==> rows * (16 * width) <= 67_108_864
            &&& (rows + 1) * (16 * width) > 67_108_864
        }),
{
    let d = 16 * width;
    vstd::arithmetic::div_mod::lemma_fundamental_div_mod(67_108_864, d);
    let q = 67_108_864int / d;
    assert(0 <= 67_108_864int % d < d) by (nonlinear_arith)
        requires
            d > 0,
    ;
    assert(d * q == q * d) by (nonlinear_arith);
    assert((q + 1) * d == q * d + d) by (nonlinear_arith);
    if q < 1 {
        assert(q == 0) by (nonlinear_arith)
            requires
                q < 1,
                q == 67_108_864int / d,
                d > 0,
        ;
        assert((1 + 1) * d == 2 * d);
    }
    let rows = crate::catmull_rom_motion_gpu::chunk_rows(width);
    assert(rows == if q < 1 {
        1
    } else {
        q
    });
    assert((rows + 1) * d == rows * d + d) by (nonlinear_arith);
    if q < 1 {
        assert(d * q == 0);
        assert(rows * d == d);
    } else {
        assert(rows * d == q * d);
    }
}

/// A texel of knots holds the three numbers of its knot and a zero; behind the last knot there are
/// zeros alone.
pub proof fn texels_hold_their_knot(knots: Seq<u32>, total: int, flat: int)
    ensures
        ({
            let texel = crate::catmull_rom_motion_gpu::knot_texel(knots, total, flat);
            &&& texel.len() == 4
            &&& texel[3] == 0
            &&& flat < total ==> texel[0] == knots[3 * flat] && texel[1] == knots[3 * flat + 1]
                && texel[2] == knots[3 * flat + 2]
            &&& flat >= total ==> texel[0] == 0 && texel[1] == 0 && texel[2] == 0
        }),
{
}

/// The pieces of a texture follow each other from its first row to its last.
pub proof fn pieces_follow_each_other(uploads: Seq<(u32, u32)>, height: int, per_chunk: int, i: int)
    requires
        crate::catmull_rom_motion_gpu::are_uploads(uploads, height, per_chunk),
        per_chunk > 0,
        0 <= i < uploads.len(),
    ensures
        uploads[0].0 == 0,
        uploads[i].1 <= per_chunk,
        i + 1 < uploads.len() ==> uploads[i].0 + uploads[i].1 == uploads[i + 1].0,
        i + 1 == uploads.len() ==> uploads[i].0 + uploads[i].1 == height,
{
    assert(uploads[0].0 == 0 * per_chunk);
    assert(uploads[i].0 == i * per_chunk);
    assert((i + 1) * per_chunk == i * per_chunk + per_chunk) by (nonlinear_arith);
    let last = uploads.len() - 1;
    assert(i * per_chunk <= last * per_chunk) by (nonlinear_arith)
        requires
            i <= last,
            per_chunk > 0,
    ;
    if i + 1 < uploads.len() {
        assert(uploads[i + 1].0 == (i + 1) * per_chunk);
        assert((i + 1) * per_chunk <= last * per_chunk) by (nonlinear_arith)
            requires
                i + 1 <= last,
                per_chunk > 0,
        ;
    } else {
        assert(uploads.len() * per_chunk == i * per_chunk + per_chunk);
    }
}

/// What is compared: one knot or all source knots of every splat. It takes a volume of at least two
/// samples a side and one key, and something to compare.
pub proof fn comparisons_take_what_is_asked(
    sizes: CatmullRomRuntimeSizes,
    volume: Option<(u32, u32)>,
    scope: MotionCompatibilityScope,
    selected: u32,
)
    ensures
        ({
            let (knots, knot) = crate::catmull_rom_motion_gpu::compared_knots(sizes, selected);
            let r = crate::catmull_rom_motion_gpu::compared_items(sizes, volume, scope, selected);
            let items: int = if scope is AllKnots {
                sizes.splat_count * knots
            } else {
                sizes.splat_count as int
            };
            &&& knots <= sizes.knot_count
            &&& 1 <= sizes.volume_comparison_knot_count <= sizes.knot_count ==> knots
                == sizes.volume_comparison_knot_count
            &&& sizes.volume_comparison_knot_count == 0 && sizes.knot_count >= 1 ==> knots == 1
            &&& knots >= 1 ==> knot < knots
            &&& selected < knots ==> knot == selected
            &&& r is Ok <==> volume is Some && (volume->0).0 >= 2 && (volume->0).1 >= 1 && 1
                <= items <= u32::MAX
            &&& r is Ok ==> r->Ok_0 == items
            &&& r is Err && volume is None ==> r->Err_0 is NoVolume
            &&& r is Err && volume is Some && ((volume->0).0 < 2 || (volume->0).1 == 0)
                ==> r->Err_0 is VolumeSize
        }),
{
    let (knots, knot) = crate::catmull_rom_motion_gpu::compared_knots(sizes, selected);
    assert(sizes.splat_count * knots >= 0) by (nonlinear_arith)
        requires
            sizes.splat_count >= 0,
            knots >= 0,
    ;
}

/// The totals of a comparison: counts add up, and the worst error, with its item, is the first that
/// no other exceeds.
pub proof fn totals_add_up(partials: Seq<PartialStats>, n: nat)
    requires
        n < partials.len(),
        partials.len() <= u32::MAX,
    ensures
        ({
            let t = crate::catmull_rom_motion_gpu::totals_of(partials, n);
            let u = crate::catmull_rom_motion_gpu::totals_of(partials, n + 1);
            let p = partials[n as int];
            &&& u.count == t.count + p.count
            &&& u.nonzero_error_count == t.nonzero_error_count + p.nonzero_error_count
            &&& u.nonzero_first_count == t.nonzero_first_count + p.nonzero_first_count
            &&& u.nonzero_second_count == t.nonzero_second_count + p.nonzero_second_count
            &&& !crate::float_bits::less(u.max_error, p.max_error)
            &&& !crate::float_bits::less(u.max_error, t.max_error)
            &&& crate::float_bits::less(t.max_error, p.max_error) ==> u.max_error == p.max_error
                && u.worst_item == p.worst_item
            &&& !crate::float_bits::less(t.max_error, p.max_error) ==> u.max_error == t.max_error
                && u.worst_item == t.worst_item
            &&& !crate::float_bits::less(u.max_first_magnitude, p.max_first_magnitude)
            &&& !crate::float_bits::less(u.max_first_magnitude, t.max_first_magnitude)
            &&& u.max_first_magnitude == p.max_first_magnitude || u.max_first_magnitude
                == t.max_first_magnitude
            &&& !crate::float_bits::less(u.max_second_magnitude, p.max_second_magnitude)
            &&& !crate::float_bits::less(u.max_second_magnitude, t.max_second_magnitude)
            &&& u.max_second_magnitude == p.max_second_magnitude || u.max_second_magnitude
                == t.max_second_magnitude
        }),
{
    counts_fit(partials, n);
}

proof fn counts_fit(partials: Seq<PartialStats>, n: nat)
    requires
        n <= partials.len() <= u32::MAX,
    ensures
        ({
            let t = crate::catmull_rom_motion_gpu::totals_of(partials, n);
            &&& t.count <= n * u32::MAX
            &&& t.nonzero_error_count <= n * u32::MAX
            &&& t.nonzero_first_count <= n * u32::MAX
            &&& t.nonzero_second_count <= n * u32::MAX
            &&& n * u32::MAX + u32::MAX <= u64::MAX
        }),
    decreases n,
{
    assert(n * u32::MAX + u32::MAX <= u64::MAX) by (nonlinear_arith)
        requires
            n <= u32::MAX,
    ;
    if n > 0 {
        counts_fit(partials, (n - 1) as nat);
        assert(n * u32::MAX == (n - 1) * u32::MAX + u32::MAX) by (nonlinear_arith);
    }
}

/// The worst item of a comparison of all knots counts knots of all splats; of one knot it is a splat.
pub proof fn worst_items_name_their_knot(
    scope: MotionCompatibilityScope,
    item: u32,
    splats: u32,
    selected: u32,
)
    requires
        splats > 0,
    ensures
        ({
            let (knot, splat) = crate::catmull_rom_motion_gpu::worst_of(
                scope,
                item,
                splats,
                selected,
            );
            &&& scope is SelectedKnot ==> knot == selected && splat == item
            &&& scope is AllKnots ==> splat < splats && knot * splats + splat == item
        }),
{
    if scope is AllKnots {
        vstd::arithmetic::div_mod::lemma_fundamental_div_mod(item as int, splats as int);
        let q = item as int / splats as int;
        assert(splats * q == q * splats) by (nonlinear_arith);
    }
}

/// A tile takes the knots of its file, put in the order of its own splats: knot by knot of each splat
/// from the row that the splat came from.
pub proof fn tiles_take_the_knots_of_their_rows(
    bytes: Seq<u8>,
    index: usize,
    filename: Seq<char>,
    knot_count: usize,
    lod: usize,
    tile: usize,
    scene: Scene,
    splat: int,
    knot: int,
    axis: int,
)
    requires
        crate::catmull_rom_files::tile_of_file(bytes, knot_count) is Ok,
        0 <= splat < scene.splat_count,
        0 <= knot < knot_count,
        0 <= axis < 3,
    ensures
        ({
            let file = crate::catmull_rom_files::tile_of_file(bytes, knot_count)->Ok_0;
            let rows = scene.source_row_indices@;
            let r = crate::catmull_rom_loading::file_knots(
                bytes,
                index,
                filename,
                knot_count,
                lod,
                tile,
                scene,
            );
            &&& r is Ok
            &&& r->Ok_0 is Some <==> file.0 == tile && file.1 == lod && file.2 == scene.splat_count
                && crate::catmull_rom_loading::reorder_fault(rows, scene.splat_count) is None
            &&& r->Ok_0 is Some ==> {
                let knots = r->Ok_0->0;
                &&& knots.len() == scene.splat_count * knot_count * 3
                &&& knots[(splat * knot_count + knot) * 3 + axis] == file.3[(knot
                    * scene.splat_count + rows[splat]) * 3 + axis]
            }
        }),
{
    let file = crate::catmull_rom_files::tile_of_file(bytes, knot_count)->Ok_0;
    crate::catmull_rom_loading::reordered_knots_follow_rows(
        file.3,
        file.2 as int,
        knot_count as nat,
        scene.source_row_indices@,
        scene.splat_count as nat,
        splat,
        knot,
        axis,
    );
}

/// The knots of a scene are those of its tiles, one behind the other, LoD by LoD.
pub proof fn knots_follow_tile_by_tile(
    archive: Seq<u8>,
    knot_count: usize,
    included: Seq<usize>,
    entries: Seq<CatmullRomMotionZipEntry>,
    scenes: Seq<Vec<Scene>>,
    lod: nat,
    tile: nat,
)
    requires
        lod <= usize::MAX,
        tile < usize::MAX,
    ensures
        ({
            let front = crate::catmull_rom_loading::knots_before(
                archive,
                knot_count,
                included,
                entries,
                scenes,
                lod,
                tile,
            );
            let all = crate::catmull_rom_loading::knots_before(
                archive,
                knot_count,
                included,
                entries,
                scenes,
                lod,
                tile + 1,
            );
            let own = crate::catmull_rom_loading::tile_knots(
                archive,
                knot_count,
                included,
                entries,
                lod as usize,
                tile as usize,
                scenes[lod as int]@[tile as int],
            );
            let next = crate::catmull_rom_loading::knots_before(
                archive,
                knot_count,
                included,
                entries,
                scenes,
                lod + 1,
                0,
            );
            &&& (all is Ok && all->Ok_0 is Some) <==> {
                &&& front is Ok && front->Ok_0 is Some
                &&& own is Ok && own->Ok_0 is Some
            }
            &&& all is Ok && all->Ok_0 is Some ==> {
                let whole = all->Ok_0->0;
                let cut = (front->Ok_0->0).len() as int;
                &&& whole.len() == cut + (own->Ok_0->0).len()
                &&& whole.take(cut) == front->Ok_0->0
                &&& whole.skip(cut) == own->Ok_0->0
            }
            &&& tile + 1 == scenes[lod as int]@.len() ==> next == all
        }),
{
    let front = crate::catmull_rom_loading::knots_before(
        archive,
        knot_count,
        included,
        entries,
        scenes,
        lod,
        tile,
    );
    let own = crate::catmull_rom_loading::tile_knots(
        archive,
        knot_count,
        included,
        entries,
        lod as usize,
        tile as usize,
        scenes[lod as int]@[tile as int],
    );
    if front is Ok && front->Ok_0 is Some && own is Ok && own->Ok_0 is Some {
        let cut = (front->Ok_0->0).len() as int;
        let whole = front->Ok_0->0 + own->Ok_0->0;
        assert(whole.take(cut) =~= front->Ok_0->0);
        assert(whole.skip(cut) =~= own->Ok_0->0);
    }
}

/// A knot texture is no wider than it has to be: a multiple of 16 that reaches the preferred width,
/// or the limit where that is less, and holds all knots within the limit of rows; it is no higher
/// than the knots need.
pub proof fn knot_textures_are_no_larger_than_needed(total: int, limit: u32)
    requires
        0 <= total,
        0 < limit,
    ensures
        ({
            let width = crate::catmull_rom_motion_gpu::knot_texture_width(total, limit);
            let wanted: int = if limit < 4096 {
                limit as int
            } else {
                4096
            };
            &&& width % 16 == 0
            &&& width >= wanted
            &&& width * limit >= total
            &&& width - 16 < wanted || (width - 16) * limit < total
        }),
{
    let needed = crate::catmull_rom_motion_gpu::ceiling(total, limit as int);
    groups_are_enough(total, limit as int);
    let width = crate::catmull_rom_motion_gpu::knot_texture_width(total, limit);
    assert(needed >= 0) by {
        if needed < 0 {
            assert(needed * limit < 0) by (nonlinear_arith)
                requires
                    needed < 0,
                    limit > 0,
            ;
        }
    }
    assert(width >= needed && width % 16 == 0);
    assert(width * limit >= needed * limit) by (nonlinear_arith)
        requires
            width >= needed,
            limit > 0,
    ;
    if total > 0 && width - 16 < needed {
        assert((width - 16) * limit <= (needed - 1) * limit) by (nonlinear_arith)
            requires
                width - 16 <= needed - 1,
                limit > 0,
        ;
    }
}

/// The rows of a knot texture are as many as its knots need.
pub proof fn knot_textures_have_no_empty_rows(splats: usize, knots: usize, limit: u32)
    requires
        crate::catmull_rom_motion_gpu::planned_layout(splats, knots, limit) is Ok,
        splats * knots > 0,
    ensures
        ({
            let layout = crate::catmull_rom_motion_gpu::planned_layout(splats, knots, limit)->Ok_0;
            &&& layout.height * layout.width >= splats * knots
            &&& (layout.height - 1) * layout.width < splats * knots
        }),
{
    let total = splats * knots;
    knot_textures_are_no_larger_than_needed(total, limit);
    let width = crate::catmull_rom_motion_gpu::knot_texture_width(total, limit);
    groups_are_enough(total, width);
    let height = crate::catmull_rom_motion_gpu::ceiling(total, width);
    assert(height >= 0) by {
        if height < 0 {
            assert(height * width < 0) by (nonlinear_arith)
                requires
                    height < 0,
                    width > 0,
            ;
        }
    }
}

} // verus!
