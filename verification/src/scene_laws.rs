//! Laws of scenes: what merging, moving and loading leave where it was, and how edges are addressed.

use crate::motion::{
    CanonicalEdgeCoordinate, EdgeSide, MotionEdgeOrientation, MotionEditConfig, MotionSplineGroup,
    VectorSpline6,
};
use crate::scene::{Scene, SplatRow};
use vstd::prelude::*;

verus! {

proof fn rows_depend_on_their_bytes(a: Seq<u8>, i: int, b: Seq<u8>, j: int, row: SplatRow)
    requires
        0 <= i,
        32 * i + 32 <= a.len(),
        0 <= j,
        32 * j + 32 <= b.len(),
        a.subrange(32 * i, 32 * i + 32) == b.subrange(32 * j, 32 * j + 32),
    ensures
        crate::scene::holds_row(a, i, row) == crate::scene::holds_row(b, j, row),
{
    crate::scene::splat_is_its_bytes(a, i, row);
    crate::scene::splat_is_its_bytes(b, j, row);
}

/// Two scenes joined hold the splats of the first, and after them those of the second.
pub proof fn joined_scenes_keep_their_splats(
    first: Seq<u8>,
    second: Seq<u8>,
    n: int,
    i: int,
    row: SplatRow,
)
    requires
        first.len() == 32 * n,
        0 <= i,
    ensures
        i < n ==> crate::scene::holds_row(first + second, i, row) == crate::scene::holds_row(
            first,
            i,
            row,
        ),
        32 * i + 32 <= second.len() ==> crate::scene::holds_row(first + second, n + i, row)
            == crate::scene::holds_row(second, i, row),
{
    let both = first + second;
    if i < n {
        assert(both.subrange(32 * i, 32 * i + 32) =~= first.subrange(32 * i, 32 * i + 32));
        rows_depend_on_their_bytes(both, i, first, i, row);
    }
    if 32 * i + 32 <= second.len() {
        assert(both.subrange(32 * (n + i), 32 * (n + i) + 32) =~= second.subrange(
            32 * i,
            32 * i + 32,
        ));
        rows_depend_on_their_bytes(both, n + i, second, i, row);
    }
}

/// Many scenes joined hold the splats of each, behind those of the scenes before it.
#[verifier::rlimit(40)]
pub proof fn merged_scenes_keep_their_splats(
    scenes: Seq<Scene>,
    n: nat,
    s: int,
    i: int,
    row: SplatRow,
)
    requires
        0 <= s < n <= scenes.len(),
        forall|k: int| 0 <= k < n ==> (#[trigger] scenes[k]).rows_complete(),
        0 <= i < scenes[s].splat_count,
    ensures
        crate::scene::holds_row(
            crate::scene::joined_buffers(scenes, n),
            crate::scene::total_splats(scenes, s as nat) + i,
            row,
        ) == crate::scene::holds_row(scenes[s].buffer@, i, row),
    decreases n,
{
    let before = crate::scene::joined_buffers(scenes, (n - 1) as nat);
    let count = crate::scene::total_splats(scenes, (n - 1) as nat);
    crate::scene::merging_keeps_rows_aligned(scenes, (n - 1) as nat);
    assert(scenes[s].rows_complete());
    splats_add_up(scenes, s as nat);
    if s < n - 1 {
        merged_scenes_keep_their_splats(scenes, (n - 1) as nat, s, i, row);
        splats_stay_inside(scenes, (s + 1) as nat, (n - 1) as nat);
        joined_scenes_keep_their_splats(
            before,
            scenes[n - 1].buffer@,
            count,
            crate::scene::total_splats(scenes, s as nat) + i,
            row,
        );
    } else {
        joined_scenes_keep_their_splats(before, scenes[n - 1].buffer@, count, i, row);
    }
}

proof fn splats_add_up(scenes: Seq<Scene>, n: nat)
    ensures
        crate::scene::total_splats(scenes, n) >= 0,
    decreases n,
{
    if n > 0 {
        splats_add_up(scenes, (n - 1) as nat);
    }
}

proof fn splats_stay_inside(scenes: Seq<Scene>, m: nat, n: nat)
    requires
        m <= n,
    ensures
        crate::scene::total_splats(scenes, m) <= crate::scene::total_splats(scenes, n),
    decreases n,
{
    if m < n {
        splats_stay_inside(scenes, m, (n - 1) as nat);
    }
}

/// A splat that was moved is read at its new place, its shape and colour are what they were, and no
/// other splat has changed.
#[verifier::rlimit(40)]
pub proof fn moved_splats_are_read_back(
    buffer: Seq<u8>,
    splat: int,
    position: [u32; 3],
    i: int,
    row: SplatRow,
)
    requires
        0 <= splat,
        32 * splat + 32 <= buffer.len(),
        0 <= i,
        32 * i + 32 <= buffer.len(),
        crate::scene::holds_row(buffer, i, row),
    ensures
        ({
            let after = buffer.take(32 * splat) + crate::bytes::le_bytes(position[0])
                + crate::bytes::le_bytes(position[1]) + crate::bytes::le_bytes(position[2])
                + buffer.skip(32 * splat + 12);
            &&& after.len() == buffer.len()
            &&& i != splat ==> crate::scene::holds_row(after, i, row)
            &&& i == splat ==> crate::scene::holds_row(after, i, SplatRow { position, ..row })
        }),
{
    let head = buffer.take(32 * splat);
    let words = crate::bytes::le_bytes(position[0]) + crate::bytes::le_bytes(position[1])
        + crate::bytes::le_bytes(position[2]);
    let tail = buffer.skip(32 * splat + 12);
    let after = buffer.take(32 * splat) + crate::bytes::le_bytes(position[0])
        + crate::bytes::le_bytes(position[1]) + crate::bytes::le_bytes(position[2]) + buffer.skip(
        32 * splat + 12,
    );
    assert(crate::bytes::le_bytes(position[0]).len() == 4);
    assert(crate::bytes::le_bytes(position[1]).len() == 4);
    assert(crate::bytes::le_bytes(position[2]).len() == 4);
    assert(after =~= head + words + tail);
    if i != splat {
        assert(after.subrange(32 * i, 32 * i + 32) =~= buffer.subrange(32 * i, 32 * i + 32));
        rows_depend_on_their_bytes(after, i, buffer, i, row);
    } else {
        let old_part = buffer.subrange(32 * i, 32 * i + 32);
        let part = after.subrange(32 * i, 32 * i + 32);
        crate::scene::splat_is_its_bytes(buffer, i, row);
        crate::scene::splat_is_its_bytes(after, i, SplatRow { position, ..row });
        assert(part =~= words + old_part.skip(12));
        crate::bytes::le_bytes_round_trip(position[0]);
        crate::bytes::le_bytes_round_trip(position[1]);
        crate::bytes::le_bytes_round_trip(position[2]);
    }
}

/// The rows behind a scene are told one for one: by itself where it tells all, else in order.
pub proof fn every_splat_has_its_source_row(count: usize, rows: Seq<u32>, i: int)
    requires
        count <= u32::MAX,
        0 <= i < count,
    ensures
        crate::scene::effective_rows(count, rows).len() == count,
        rows.len() == count ==> crate::scene::effective_rows(count, rows)[i] == rows[i],
        rows.len() != count ==> crate::scene::effective_rows(count, rows)[i] == i,
{
}

/// Joined lists keep the values of both; they are there where both are, or the first scene is empty.
pub proof fn joined_lists_keep_both(
    first: Option<Seq<[u32; 3]>>,
    first_empty: bool,
    second: Option<Seq<[u32; 3]>>,
)
    ensures
        ({
            let r = crate::scene::joined_lists(first, first_empty, second);
            &&& r is Some <==> second is Some && (first is Some || first_empty)
            &&& r is Some && first is Some ==> {
                &&& (r->0).len() == (first->0).len() + (second->0).len()
                &&& (r->0).take((first->0).len() as int) == first->0
                &&& (r->0).skip((first->0).len() as int) == second->0
            }
            &&& r is Some && first is None ==> r == second
        }),
{
    if first is Some && second is Some {
        let all = first->0 + second->0;
        assert(all.take((first->0).len() as int) =~= first->0);
        assert(all.skip((first->0).len() as int) =~= second->0);
    }
}

/// The texture has the fewest rows of 2048 texels that hold two texels for each splat.
pub proof fn textures_are_just_high_enough(count: usize)
    ensures
        ({
            let height = crate::scene::texture_height(count);
            &&& 2048 * height >= 2 * count
            &&& height > 0 ==> 2048 * (height - 1) < 2 * count
            &&& crate::scene::texture_words(count) == 4 * 2048 * height
        }),
{
    let height = crate::scene::texture_height(count);
    assert(2048 * height * 4 == 4 * 2048 * height) by (nonlinear_arith);
}

/// Loaded splats keep their rotation and their origin: each list follows the same order.
pub proof fn loaded_lists_follow_the_order(
    rows: Seq<SplatRow>,
    means: Seq<[u32; 3]>,
    order: Seq<u32>,
    i: int,
)
    requires
        0 <= i < order.len(),
        order[i] < rows.len(),
    ensures
        crate::scene::ordered_quats(rows, order).len() == order.len(),
        crate::scene::ordered_means(means, order).len() == order.len(),
        crate::scene::ordered_quats(rows, order)[i] == rows[order[i] as int].quat,
        crate::scene::ordered_means(means, order)[i] == means[order[i] as int],
        crate::scene::sizes(rows)[order[i] as int] == rows[order[i] as int].size,
{
}

/// Scenes are equal to what they were copied from, field by field.
pub proof fn copies_hold_the_same(a: Scene, b: Scene)
    requires
        a.same_as(b),
    ensures
        a.splat_count == b.splat_count,
        a.buffer@ == b.buffer@,
        a.tex_data@ == b.tex_data@,
        a.tex_width == b.tex_width,
        a.tex_height == b.tex_height,
        a.source_row_indices@ == b.source_row_indices@,
        a.orig_means is Some <==> b.orig_means is Some,
        a.orig_quats is Some <==> b.orig_quats is Some,
        a.orig_means is Some ==> (a.orig_means->0)@ == (b.orig_means->0)@,
        a.orig_quats is Some ==> (a.orig_quats->0)@ == (b.orig_quats->0)@,
{
}

/// The four groups of splines belong each to one orientation and one colour.
pub proof fn groups_tell_edges_apart(
    orientation: MotionEdgeOrientation,
    color: u32,
    other_orientation: MotionEdgeOrientation,
    other_color: u32,
)
    ensures
        0 <= crate::motion::group_index(orientation, color) < 4,
        crate::motion::group_index(orientation, color) == crate::motion::group_index(
            other_orientation,
            other_color,
        ) <==> orientation == other_orientation && color % 2 == other_color % 2,
        crate::motion::group_index(MotionEdgeOrientation::Vertical, color) < 2,
{
}

/// Two tiles that meet at an edge see it with one orientation: west and east run vertically, north
/// and south do not.
pub proof fn facing_sides_run_alike()
    ensures
        EdgeSide::West.runs_vertically() && EdgeSide::East.runs_vertically(),
        !EdgeSide::North.runs_vertically() && !EdgeSide::South.runs_vertically(),
{
}

/// Negating a number twice gives it back, and changes nothing but its sign.
pub proof fn negation_only_turns_the_sign(bits: u32)
    ensures
        crate::motion::negated(crate::motion::negated(bits)) == bits,
        crate::float_bits::magnitude(crate::motion::negated(bits)) == crate::float_bits::magnitude(
            bits,
        ),
        crate::float_bits::negative(crate::motion::negated(bits))
            != crate::float_bits::negative(bits),
{
}

/// A spline that rises through heights starts at the origin and stands still to both sides.
pub proof fn rising_splines_only_rise(spline: VectorSpline6, heights: Seq<u32>, k: int)
    requires
        heights.len() == 5,
        spline.rises_through(heights),
        1 <= k < 6,
    ensures
        spline.knots[0][0] == 0 && spline.knots[0][1] == 0 && spline.knots[0][2] == 0,
        crate::motion::zero_value(spline.knots[k][0]),
        crate::motion::zero_value(spline.knots[k][1]),
        spline.knots[k][2] == heights[k - 1],
        crate::float_bits::negative(spline.knots[k][0]) == crate::float_bits::negative(
            heights[k - 1],
        ),
{
    assert(spline.knots[0]@[0] == 0 && spline.knots[0]@[1] == 0 && spline.knots[0]@[2] == 0);
    let at = k - 1;
    assert(spline.knots[at + 1]@ == seq![
        crate::motion::signed_zero(heights[at]),
        crate::motion::signed_zero(heights[at]),
        heights[at],
    ]);
    assert(spline.knots[k]@[0] == crate::motion::signed_zero(heights[at]));
    assert(spline.knots[k]@[1] == crate::motion::signed_zero(heights[at]));
    assert(spline.knots[k]@[2] == heights[at]);
}

/// A value is zero exactly where its pattern is that of zero, with either sign.
pub proof fn zero_has_two_patterns(bits: u32)
    ensures
        crate::motion::zero_value(bits) <==> bits == 0 || bits == 0x8000_0000,
{
}

/// A group is at rest where every coordinate of every knot of its three splines is zero.
pub proof fn groups_at_rest_have_no_motion(group: MotionSplineGroup, k: int, c: int)
    requires
        group.all_zero(),
        0 <= k < 6,
        0 <= c < 3,
    ensures
        group.base.knots[k][c] == 0 || group.base.knots[k][c] == 0x8000_0000,
        group.wave.knots[k][c] == 0 || group.wave.knots[k][c] == 0x8000_0000,
        group.detail.knots[k][c] == 0 || group.detail.knots[k][c] == 0x8000_0000,
{
    assert(crate::motion::zero_point(group.base.knots[k]));
    assert(crate::motion::zero_point(group.wave.knots[k]));
    assert(crate::motion::zero_point(group.detail.knots[k]));
}

/// Settings count as equal where each of their numbers does: a difference in any of them is seen.
#[verifier::rlimit(40)]
pub proof fn equal_settings_agree_in_all(a: MotionEditConfig, b: MotionEditConfig)
    ensures
        a.same_config(b) ==> {
            &&& a.enabled == b.enabled
            &&& crate::playback_laws::equal_numbers(a.amplitude, b.amplitude)
            &&& crate::playback_laws::equal_numbers(a.edge_band, b.edge_band)
            &&& crate::playback_laws::equal_numbers(a.wave_phase_span, b.wave_phase_span)
            &&& crate::playback_laws::equal_numbers(a.detail_amplitude, b.detail_amplitude)
            &&& forall|g: int, k: int, c: int|
                0 <= g < 4 && 0 <= k < 6 && 0 <= c < 3 ==> {
                    &&& crate::playback_laws::equal_numbers(
                        #[trigger] a.spline_groups[g].base.knots[k][c],
                        b.spline_groups[g].base.knots[k][c],
                    )
                    &&& crate::playback_laws::equal_numbers(
                        a.spline_groups[g].wave.knots[k][c],
                        b.spline_groups[g].wave.knots[k][c],
                    )
                    &&& crate::playback_laws::equal_numbers(
                        a.spline_groups[g].detail.knots[k][c],
                        b.spline_groups[g].detail.knots[k][c],
                    )
                }
        },
{
    crate::playback_laws::values_compare_by_pattern(a.amplitude, b.amplitude);
    crate::playback_laws::values_compare_by_pattern(a.edge_band, b.edge_band);
    crate::playback_laws::values_compare_by_pattern(a.wave_phase_span, b.wave_phase_span);
    crate::playback_laws::values_compare_by_pattern(a.detail_amplitude, b.detail_amplitude);
    if a.same_config(b) {
        assert forall|g: int, k: int, c: int| 0 <= g < 4 && 0 <= k < 6 && 0 <= c < 3 implies {
            &&& crate::playback_laws::equal_numbers(
                #[trigger] a.spline_groups[g].base.knots[k][c],
                b.spline_groups[g].base.knots[k][c],
            )
            &&& crate::playback_laws::equal_numbers(
                a.spline_groups[g].wave.knots[k][c],
                b.spline_groups[g].wave.knots[k][c],
            )
            &&& crate::playback_laws::equal_numbers(
                a.spline_groups[g].detail.knots[k][c],
                b.spline_groups[g].detail.knots[k][c],
            )
        } by {
            assert(a.spline_groups[g].same_group(b.spline_groups[g]));
            let (ga, gb) = (a.spline_groups[g], b.spline_groups[g]);
            assert(crate::float_bits::same_point(ga.base.knots@[k], gb.base.knots@[k]));
            assert(crate::float_bits::same_point(ga.wave.knots@[k], gb.wave.knots@[k]));
            assert(crate::float_bits::same_point(ga.detail.knots@[k], gb.detail.knots@[k]));
            crate::playback_laws::values_compare_by_pattern(
                ga.base.knots[k][c],
                gb.base.knots[k][c],
            );
            crate::playback_laws::values_compare_by_pattern(
                ga.wave.knots[k][c],
                gb.wave.knots[k][c],
            );
            crate::playback_laws::values_compare_by_pattern(
                ga.detail.knots[k][c],
                gb.detail.knots[k][c],
            );
        }
    }
}

/// Two places on an edge are the same where both of their coordinates are.
pub proof fn equal_places_agree_in_both(a: CanonicalEdgeCoordinate, b: CanonicalEdgeCoordinate)
    ensures
        a.same_place(b) <==> crate::playback_laws::equal_numbers(a.s, b.s)
            && crate::playback_laws::equal_numbers(a.distance, b.distance),
{
    crate::playback_laws::values_compare_by_pattern(a.s, b.s);
    crate::playback_laws::values_compare_by_pattern(a.distance, b.distance);
}

/// Where every scene tells the origins of its splats, many scenes joined tell them all, each behind
/// those of the scenes before it.
pub proof fn merged_scenes_keep_their_origins(scenes: Seq<Scene>, n: nat, s: int, i: int)
    requires
        0 <= s < n <= scenes.len(),
        forall|k: int|
            0 <= k < n ==> (#[trigger] scenes[k]).orig_means is Some && (
            scenes[k].orig_means->0)@.len() == scenes[k].splat_count,
        0 <= i < scenes[s].splat_count,
    ensures
        ({
            let means = crate::scene::joined_means(scenes, n);
            &&& means is Some
            &&& (means->0).len() == crate::scene::total_splats(scenes, n)
            &&& (means->0)[crate::scene::total_splats(scenes, s as nat) + i] == (
            scenes[s].orig_means->0)@[i]
        }),
    decreases n,
{
    origins_are_counted(scenes, n);
    origins_are_counted(scenes, (n - 1) as nat);
    splats_add_up(scenes, s as nat);
    assert(scenes[s].orig_means is Some);
    assert(scenes[n - 1].orig_means is Some);
    if s < n - 1 {
        merged_scenes_keep_their_origins(scenes, (n - 1) as nat, s, i);
        splats_stay_inside(scenes, (s + 1) as nat, (n - 1) as nat);
    }
}

proof fn origins_are_counted(scenes: Seq<Scene>, n: nat)
    requires
        n <= scenes.len(),
        forall|k: int|
            0 <= k < n ==> (#[trigger] scenes[k]).orig_means is Some && (
            scenes[k].orig_means->0)@.len() == scenes[k].splat_count,
    ensures
        n > 0 ==> crate::scene::joined_means(scenes, n) is Some && (crate::scene::joined_means(
            scenes,
            n,
        )->0).len() == crate::scene::total_splats(scenes, n),
    decreases n,
{
    if n > 0 {
        assert(scenes[n - 1].orig_means is Some);
        origins_are_counted(scenes, (n - 1) as nat);
    }
}

/// The same holds of the rotations.
pub proof fn merged_scenes_keep_their_rotations(scenes: Seq<Scene>, n: nat, s: int, i: int)
    requires
        0 <= s < n <= scenes.len(),
        forall|k: int|
            0 <= k < n ==> (#[trigger] scenes[k]).orig_quats is Some && (
            scenes[k].orig_quats->0)@.len() == scenes[k].splat_count,
        0 <= i < scenes[s].splat_count,
    ensures
        ({
            let quats = crate::scene::joined_quats(scenes, n);
            &&& quats is Some
            &&& (quats->0).len() == crate::scene::total_splats(scenes, n)
            &&& (quats->0)[crate::scene::total_splats(scenes, s as nat) + i] == (
            scenes[s].orig_quats->0)@[i]
        }),
    decreases n,
{
    rotations_are_counted(scenes, n);
    rotations_are_counted(scenes, (n - 1) as nat);
    splats_add_up(scenes, s as nat);
    assert(scenes[s].orig_quats is Some);
    assert(scenes[n - 1].orig_quats is Some);
    if s < n - 1 {
        merged_scenes_keep_their_rotations(scenes, (n - 1) as nat, s, i);
        splats_stay_inside(scenes, (s + 1) as nat, (n - 1) as nat);
    }
}

proof fn rotations_are_counted(scenes: Seq<Scene>, n: nat)
    requires
        n <= scenes.len(),
        forall|k: int|
            0 <= k < n ==> (#[trigger] scenes[k]).orig_quats is Some && (
            scenes[k].orig_quats->0)@.len() == scenes[k].splat_count,
    ensures
        n > 0 ==> crate::scene::joined_quats(scenes, n) is Some && (crate::scene::joined_quats(
            scenes,
            n,
        )->0).len() == crate::scene::total_splats(scenes, n),
    decreases n,
{
    if n > 0 {
        assert(scenes[n - 1].orig_quats is Some);
        rotations_are_counted(scenes, (n - 1) as nat);
    }
}

} // verus!
