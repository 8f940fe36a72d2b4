//! What the plans and uniforms of a frame say of the tiles and the scene.

use crate::renderer::{
    DrawSource, DrawStep, MotionPlan, MotionRequest, SceneState, SortedTile, TileInstance,
};
use vstd::prelude::*;

verus! {

/// Uniforms tell tiles apart: with the same words, two tiles stand at the same place of the map and
/// of the scene, and are drawn in the same way.
pub proof fn uniforms_tell_tiles_apart(a: TileInstance, b: TileInstance)
    requires
        crate::renderer::tile_words(a) == crate::renderer::tile_words(b),
    ensures
        a.offset@ == b.offset@,
        a.map_coord@ == b.map_coord@,
        a.map_index == b.map_index,
        a.lod as u32 == b.lod as u32,
        a.tile as u32 == b.tile as u32,
        a.view_id as u32 == b.view_id as u32,
        a.sorted is Some <==> b.sorted is Some,
        a.sorted is None ==> (a.transition is Stable <==> b.transition is Stable),
{
    let wa = crate::renderer::tile_words(a);
    let wb = crate::renderer::tile_words(b);
    assert(forall|k: int| 0 <= k < 20 ==> wa[k] == wb[k]);
    assert(wa[12] == a.offset[0] && wa[13] == a.offset[1] && wa[14] == a.offset[2]);
    assert(wb[12] == b.offset[0] && wb[13] == b.offset[1] && wb[14] == b.offset[2]);
    assert(wa[16] == a.map_coord[0] && wa[17] == a.map_coord[1]);
    assert(wb[16] == b.map_coord[0] && wb[17] == b.map_coord[1]);
    assert(wa[0] == wb[0] && wa[1] == wb[1] && wa[4] == wb[4]);
    assert(wa[8] == wb[8] && wa[9] == wb[9] && wa[10] == wb[10]);
    assert(a.offset@ =~= b.offset@);
    assert(a.map_coord@ =~= b.map_coord@);
}

/// A tile is out of sight where all of its corners lie beyond the same side: behind the viewer, or
/// farther out than the clip in `x`, or in `y`. One corner on the near side of each keeps it in sight.
pub proof fn tiles_out_of_sight_lie_beyond_one_side(corners: Seq<[u32; 3]>, clip: u32)
    requires
        corners.len() > 0,
        forall|i: int|
            0 <= i < corners.len() ==> crate::float_bits::finite((#[trigger] corners[i])[0])
                && crate::float_bits::finite(corners[i][1]) && crate::float_bits::finite(
                corners[i][2],
            ),
        crate::float_bits::finite(clip),
    ensures
        crate::renderer::out_of_sight(corners, clip) <==> {
            ||| forall|i: int|
                0 <= i < corners.len() ==> crate::float_bits::rank((#[trigger] corners[i])[2])
                    < -crate::float_bits::rank(clip)
            ||| forall|i: int|
                0 <= i < corners.len() ==> crate::float_bits::rank(clip)
                    < crate::float_bits::magnitude((#[trigger] corners[i])[0])
            ||| forall|i: int|
                0 <= i < corners.len() ==> crate::float_bits::rank(clip)
                    < crate::float_bits::magnitude((#[trigger] corners[i])[1])
        },
{
    closest_is_least(corners, clip, corners.len());
    let first = corners[0];
    assert(crate::float_bits::finite(first[0]));
    let negative = crate::renderer::negated(clip);
    assert(crate::float_bits::rank(negative) == -crate::float_bits::rank(clip));
    assert(!crate::float_bits::nan(negative));
}

proof fn closest_is_least(corners: Seq<[u32; 3]>, clip: u32, n: nat)
    requires
        n <= corners.len(),
        crate::float_bits::finite(clip),
        forall|i: int|
            0 <= i < corners.len() ==> crate::float_bits::finite((#[trigger] corners[i])[0])
                && crate::float_bits::finite(corners[i][1]) && crate::float_bits::finite(
                corners[i][2],
            ),
    ensures
        ({
            let c = crate::renderer::closest(corners, n);
            let clip_rank = crate::float_bits::rank(clip);
            let greatest: int = 0x7f7f_ffff;
            &&& crate::float_bits::finite(c.0)
            &&& crate::float_bits::finite(c.1)
            &&& crate::float_bits::finite(c.2)
            &&& clip_rank < crate::float_bits::rank(c.0) <==> clip_rank < greatest && forall|i: int|
                0 <= i < n ==> clip_rank < crate::float_bits::magnitude((#[trigger] corners[i])[0])
            &&& clip_rank < crate::float_bits::rank(c.1) <==> clip_rank < greatest && forall|i: int|
                0 <= i < n ==> clip_rank < crate::float_bits::magnitude((#[trigger] corners[i])[1])
            &&& crate::float_bits::rank(c.2) < -clip_rank <==> -greatest < -clip_rank
                && forall|i: int|
                0 <= i < n ==> crate::float_bits::rank((#[trigger] corners[i])[2]) < -clip_rank
        }),
    decreases n,
{
    if n > 0 {
        closest_is_least(corners, clip, (n - 1) as nat);
        let last = corners[n - 1];
        assert(crate::float_bits::finite(last[0]));
    }
}

/// A frame is planned where motion is ready. The plan takes every request over, and writes to the
/// device only where there is a runtime to write to.
pub proof fn plans_follow_the_requests(q: MotionRequest, p: MotionPlan)
    requires
        crate::renderer::planned_motion(q) == Some(p),
    ensures
        q.motion_ready,
        p.clear_branches == q.clear_requested,
        p.dispatch == q.has_runtime,
        q.refresh_requested ==> p.refresh_branches,
        q.auto_refresh && q.authoring_stale && !q.dragging ==> p.refresh_branches,
        p.refresh_branches && !q.refresh_requested ==> q.auto_refresh && q.authoring_stale
            && !q.dragging,
        p.write_edits <==> q.has_runtime && q.edits_dirty,
        p.write_knots <==> q.has_runtime && q.knots_dirty && q.has_knot_edits,
        p.write_regions <==> q.has_runtime && p.assign_regions,
        q.region_ids != q.splat_count ==> p.assign_regions,
        q.region_ids == q.splat_count ==> (p.assign_regions
            <==> !q.present_regions.same_config(q.region_config.in_range())),
        p.regions == q.region_config.in_range(),
        p.region_count == q.region_config.region_total(),
        q.log_frame < u32::MAX ==> p.log_frame == q.log_frame + 1,
        q.log_frame == u32::MAX ==> p.log_frame == 0,
        p.log_time <==> q.has_runtime && p.log_frame % 15 == 0,
{
}

/// Without motion that is ready nothing is planned, and otherwise something is.
pub proof fn only_ready_motion_is_planned(q: MotionRequest)
    ensures
        crate::renderer::planned_motion(q) is Some <==> q.motion_ready,
{
}

/// The draws of a frame are those of the tiles that are in sight and whose LoD is shown, each once
/// and in the order of the tiles. Each reads the 256 bytes of uniforms at its place, and either what
/// was uploaded for it, four bytes per splat, or the buffers of its LoD, tile and view.
pub proof fn draws_are_the_shown_tiles(
    tiles: Seq<SortedTile>,
    lod_enable: Seq<bool>,
    clip: u32,
    n: nat,
)
    requires
        n <= tiles.len() <= usize::MAX,
        256 * n <= u64::MAX,
    ensures
        ({
            let draws = crate::renderer::draws_before(tiles, lod_enable, clip, n);
            &&& forall|d: int|
                0 <= d < draws.len() ==> {
                    let step = #[trigger] draws[d];
                    let tile = tiles[step.index as int];
                    &&& step.index < n
                    &&& lod_enable[tile.instance.lod as int]
                    &&& tile.parts != 1 || !crate::renderer::out_of_sight(tile.corners@, clip)
                    &&& step.uniform_offset == 256 * step.index
                    &&& reads_its_tile(step, tile.instance)
                }
            &&& forall|d: int, e: int|
                0 <= d < e < draws.len() ==> (#[trigger] draws[d]).index < (
                #[trigger] draws[e]).index
            &&& forall|i: int|
                #![trigger tiles[i]]
                0 <= i < n && lod_enable[tiles[i].instance.lod as int] && (tiles[i].parts != 1
                    || !crate::renderer::out_of_sight(tiles[i].corners@, clip)) ==> exists|d: int|
                    0 <= d < draws.len() && (#[trigger] draws[d]).index == i
        }),
    decreases n,
{
    if n > 0 {
        let m = (n - 1) as nat;
        draws_are_the_shown_tiles(tiles, lod_enable, clip, m);
        let before = crate::renderer::draws_before(tiles, lod_enable, clip, m);
        let draws = crate::renderer::draws_before(tiles, lod_enable, clip, n);
        let shown = crate::renderer::is_drawn(tiles[n - 1], lod_enable, clip);
        if shown {
            assert(draws[before.len() as int].index == n - 1);
            assert forall|d: int| 0 <= d < before.len() implies draws[d] == before[d] by {}
        }
        assert forall|i: int|
            #![trigger tiles[i]]
            0 <= i < n && lod_enable[tiles[i].instance.lod as int] && (tiles[i].parts != 1
                || !crate::renderer::out_of_sight(tiles[i].corners@, clip)) implies exists|d: int|
            0 <= d < draws.len() && (#[trigger] draws[d]).index == i by {
            if i < m {
                let d = choose|d: int| 0 <= d < before.len() && (#[trigger] before[d]).index == i;
                assert(draws[d] == before[d]);
            }
        }
    }
}

/// A draw reads what belongs to its tile.
pub open spec fn reads_its_tile(step: DrawStep, tile: TileInstance) -> bool {
    match step.source {
        DrawSource::Uploaded { offset: _, size, splat_count, with_lods } => {
            &&& tile.sorted is Some
            &&& splat_count == (tile.sorted->0).splat_count
            &&& size == 4 * splat_count
            &&& with_lods <==> (tile.sorted->0).single_lod_id == -1
        },
        DrawSource::Prepared { lod, tile: id, view_id } => {
            &&& tile.sorted is None
            &&& id == tile.tile
            &&& view_id == tile.view_id
            &&& tile.transition is Stable ==> lod == tile.lod
            &&& tile.transition matches crate::renderer::TileTransitionStatus::Changing {
                to_lower,
            } ==> {
                &&& to_lower ==> lod == tile.lod
                &&& !to_lower && tile.lod > 0 ==> lod + 1 == tile.lod
            }
        },
    }
}

/// Every word of the scene's uniforms is one part of its state: sixteen words of settings, sixteen
/// distances, the scales, the motion, the heatmap, and the knots of the splines, four words each.
pub proof fn scene_words_show_the_state(state: SceneState)
    ensures
        ({
            let w = crate::renderer::scene_words(state);
            &&& w.len() == 340
            &&& w[0] == state.splat_scale
            &&& w[1] == state.tile_width
            &&& state.use_clip ==> w[2] == 1
            &&& !state.use_clip ==> w[2] == 0
            &&& w[3] == state.clip_height
            &&& w[4] == state.surface_type
            &&& w[5] == state.sphere_radius
            &&& state.draw_point_cloud ==> w[6] == state.point_cloud_radius
            &&& !state.draw_point_cloud ==> w[6] == 0
            &&& w[7] == state.transition_width_ratio
            &&& w[8] == state.lod_count
            &&& w[9] == state.draw_mode
            &&& w[10] == state.map_half_size[0]
            &&& w[11] == state.map_half_size[1]
            &&& w[12] == state.center_coord[0] as u32
            &&& w[13] == state.center_coord[1] as u32
            &&& w[14] == 0
            &&& w[15] == 0
            &&& forall|i: int|
                #![trigger w[16 + i]]
                0 <= i < 16 ==> w[16 + i] == if i < state.transition_distances@.len() {
                    state.transition_distances@[i]
                } else {
                    0
                }
            &&& w[32] == state.height_map_scale[0]
            &&& w[33] == state.height_map_scale[1]
            &&& w[34] == state.height_map_scale[2]
            &&& w[35] == 0
            &&& w[36] == state.scene_scale[0]
            &&& w[37] == state.scene_scale[1]
            &&& w[38] == state.scene_scale[2]
            &&& w[39] == 0
            &&& state.motion.enabled ==> w[40] == 0x3f80_0000
            &&& !state.motion.enabled ==> w[40] == 0
            &&& w[41] == state.motion.amplitude
            &&& w[42] == state.motion.edge_band
            &&& w[43] == state.motion.detail_amplitude
            &&& w[44] == state.animation_time
            &&& w[45] == state.motion.wave_phase_span
            &&& w[46] == 0
            &&& w[47] == 0
            &&& state.heatmap_basis == 0 ==> w[48] == 0
            &&& 0 < state.heatmap_basis < 0x100_0000 ==> crate::float_bits::whole_part(w[48])
                == state.heatmap_basis
            &&& state.top_k is None ==> w[49] == 0
            &&& state.top_k matches Some(k) ==> 0 < k < 0x100_0000 ==> crate::float_bits::whole_part(
                w[49],
            ) == k
            &&& state.active_top_k matches Some(k) ==> 0 < k < 0x100_0000
                ==> crate::float_bits::whole_part(w[50]) == k
            &&& state.active_top_k is None ==> w[50] == w[49]
            &&& crate::float_bits::less_or_same(0x3586_37bd, w[51])
            &&& crate::float_bits::less(0x3586_37bd, state.heatmap_normalization) ==> w[51]
                == state.heatmap_normalization
            &&& !crate::float_bits::less(0x3586_37bd, state.heatmap_normalization) ==> w[51]
                == 0x3586_37bd
        }),
{
    if 0 < state.heatmap_basis < 0x100_0000 {
        crate::float_bits::small_integers_are_kept(state.heatmap_basis as nat);
    }
    if let Some(k) = state.top_k {
        if 0 < k < 0x100_0000 {
            crate::float_bits::small_integers_are_kept(k as nat);
        }
    }
    if let Some(k) = state.active_top_k {
        if 0 < k < 0x100_0000 {
            crate::float_bits::small_integers_are_kept(k as nat);
        }
    }
}

/// The uniforms end in the knots of the splines: of four groups, the base, wave and detail spline
/// of six knots each, and of each knot the three coordinates and a gap.
pub proof fn scene_words_end_in_the_knots(
    state: SceneState,
    group: int,
    family: int,
    knot: int,
    axis: int,
)
    requires
        0 <= group < 4,
        0 <= family < 3,
        0 <= knot < 6,
        0 <= axis < 4,
    ensures
        ({
            let word = crate::renderer::scene_words(state)[52 + 72 * group + 24 * family + 4 * knot
                + axis];
            let splines = state.motion.spline_groups[group];
            &&& axis == 3 ==> word == 0
            &&& axis < 3 && family == 0 ==> word == splines.base.knots[knot][axis]
            &&& axis < 3 && family == 1 ==> word == splines.wave.knots[knot][axis]
            &&& axis < 3 && family == 2 ==> word == splines.detail.knots[knot][axis]
        }),
{
    let i = 72 * group + 24 * family + 4 * knot + axis;
    let row = 18 * group + 6 * family + knot;
    assert(i / 4 == row && i % 4 == axis);
    assert(row / 18 == group && row / 6 == 3 * group + family && row / 6 % 3 == family && row % 6
        == knot);
    let words = crate::renderer::scene_words(state);
    assert(words[52 + i] == crate::motion::packed_row(state.motion, i / 4)[i % 4]);
}

/// The splats of the drawn tiles are uploaded one behind the other, four bytes each; other tiles take
/// no room.
pub proof fn uploads_lie_end_to_end(
    tiles: Seq<SortedTile>,
    lod_enable: Seq<bool>,
    clip: u32,
    i: int,
)
    requires
        0 <= i < tiles.len(),
    ensures
        ({
            let start = crate::renderer::uploaded_before(tiles, lod_enable, clip, i as nat);
            let end = crate::renderer::uploaded_before(tiles, lod_enable, clip, (i + 1) as nat);
            let tile = tiles[i];
            let shown = lod_enable[tile.instance.lod as int] && (tile.parts != 1
                || !crate::renderer::out_of_sight(tile.corners@, clip));
            &&& crate::renderer::uploaded_before(tiles, lod_enable, clip, 0) == 0
            &&& shown ==> (tile.instance.sorted matches Some(s) ==> end - start == 4
                * s.splat_count)
            &&& !shown || tile.instance.sorted is None ==> end == start
        }),
{
}

} // verus!
