//! What the renderer decides in a frame: which motion work is due, which tiles are drawn from which
//! buffers, and the uniforms that go with them.

use crate::basis_branch_regions::{graph_state_index, BasisGraphRegionConfig};
use crate::float_bits::from_integer;
use crate::motion::{pack_motion_spline_knots, MotionEditConfig};
use crate::text::decimal;
use vstd::prelude::*;

verus! {

/// Bytes of the uniforms of a tile in their buffer.
pub const TILE_BLOCK_BYTES: u64 = 256;

/// Frames between two reports of the motion time.
pub const LOG_INTERVAL: u32 = 15;

/// Bit pattern of `1.0e-6`, the least normalisation of the heat map.
pub const MIN_HEATMAP_SCALE: u32 = 0x3586_37bd;

/// Bit pattern of the greatest number.
pub const GREATEST: u32 = 0x7f7f_ffff;

/// Motion that is not of the scene.
#[derive(Debug, Clone, Copy, PartialEq, Eq, Structural)]
pub struct SplatMismatch {
    pub motion: usize,
    pub scene: usize,
}

impl SplatMismatch {
    pub open spec fn text(self) -> Seq<char> {
        "shared-LoD0 motion splat count "@ + crate::text::decimal_text(self.motion as nat)
            + " does not match merged scene splat count "@ + crate::text::decimal_text(
            self.scene as nat,
        )
    }

    /// The error in words.
    pub fn message(&self) -> (r: String)
        ensures
            r@ == self.text(),
    {
        let mut s: String = "shared-LoD0 motion splat count ".to_owned();
        s.append(decimal(self.motion as u64).as_str());
        s.append(" does not match merged scene splat count ");
        s.append(decimal(self.scene as u64).as_str());
        s
    }
}

/// Checks that motion has a row for each splat of a scene.
pub fn check_motion_splats(motion: usize, scene: usize) -> (r: Result<(), SplatMismatch>)
    ensures
        r == if motion == scene {
            Ok(())
        } else {
            Err::<(), SplatMismatch>(SplatMismatch { motion, scene })
        },
{
    if motion != scene {
        return Err(SplatMismatch { motion, scene });
    }
    Ok(())
}

/// The positions of the splats in a texture: the first three words of each.
pub fn base_tile_means(texture: &[u32], splat_count: usize) -> (r: Vec<[u32; 3]>)
    requires
        8 * splat_count <= texture@.len(),
    ensures
        r@.len() == splat_count,
        forall|i: int|
            0 <= i < splat_count ==> (#[trigger] r@[i])@ == texture@.subrange(8 * i, 8 * i + 3),
{
    let total: usize = texture.len();
    let mut out: Vec<[u32; 3]> = Vec::new();
    for i in 0..splat_count
        invariant
            total == texture@.len(),
            8 * splat_count <= texture@.len(),
            out@.len() == i,
            forall|k: int|
                0 <= k < i ==> (#[trigger] out@[k])@ == texture@.subrange(8 * k, 8 * k + 3),
    {
        let row: [u32; 3] = [texture[8 * i], texture[8 * i + 1], texture[8 * i + 2]];
        assert(row@ =~= texture@.subrange(8 * i, 8 * i + 3));
        out.push(row);
    }
    out
}

/// What a frame knows of the motion and what was asked of it.
#[derive(Debug, Clone, Copy)]
pub struct MotionRequest {
    pub motion_ready: bool,
    pub log_frame: u32,
    pub region_config: BasisGraphRegionConfig,
    pub present_regions: BasisGraphRegionConfig,
    pub region_ids: usize,
    pub splat_count: usize,
    pub has_runtime: bool,
    pub edits_dirty: bool,
    pub knots_dirty: bool,
    pub has_knot_edits: bool,
    pub clear_requested: bool,
    pub refresh_requested: bool,
    pub auto_refresh: bool,
    pub authoring_stale: bool,
    pub dragging: bool,
}

/// The motion work of a frame.
#[derive(Clone, Copy, Debug, PartialEq)]
pub struct MotionPlan {
    pub log_frame: u32,
    pub regions: BasisGraphRegionConfig,
    pub region_count: u32,
    pub assign_regions: bool,
    pub clear_branches: bool,
    pub refresh_branches: bool,
    pub dispatch: bool,
    pub write_edits: bool,
    pub write_knots: bool,
    pub write_regions: bool,
    pub log_time: bool,
}

/// Regions are assigned anew when they are configured otherwise or do not match the splats.
pub open spec fn regions_dirty(q: MotionRequest) -> bool {
    !q.present_regions.same_config(q.region_config.in_range()) || q.region_ids != q.splat_count
}

/// Branches are refreshed on request, or by themselves once edits have made them stale and are not
/// going on.
pub open spec fn refresh_due(q: MotionRequest) -> bool {
    q.refresh_requested || (q.auto_refresh && q.authoring_stale && !q.dragging)
}

/// The motion work of a frame; none without motion. Buffers are written only where the motion runs.
pub open spec fn planned_motion(q: MotionRequest) -> Option<MotionPlan> {
    if !q.motion_ready {
        None
    } else {
        let frame = q.log_frame.wrapping_add(1);
        Some(
            MotionPlan {
                log_frame: frame,
                regions: q.region_config.in_range(),
                region_count: q.region_config.region_total(),
                assign_regions: regions_dirty(q),
                clear_branches: q.clear_requested,
                refresh_branches: refresh_due(q),
                dispatch: q.has_runtime,
                write_edits: q.has_runtime && q.edits_dirty,
                write_knots: q.has_runtime && q.knots_dirty && q.has_knot_edits,
                write_regions: q.has_runtime && regions_dirty(q),
                log_time: q.has_runtime && frame % LOG_INTERVAL == 0,
            },
        )
    }
}

/// Plans the motion work of a frame.
pub fn plan_motion(q: &MotionRequest) -> (r: Option<MotionPlan>)
    ensures
        r == planned_motion(*q),
{
    if !q.motion_ready {
        return None;
    }
    let frame: u32 = q.log_frame.wrapping_add(1);
    let regions: BasisGraphRegionConfig = q.region_config.sanitized();
    let dirty: bool = !q.present_regions.equals(regions) || q.region_ids != q.splat_count;
    Some(
        MotionPlan {
            log_frame: frame,
            regions,
            region_count: q.region_config.effective_region_count(),
            assign_regions: dirty,
            clear_branches: q.clear_requested,
            refresh_branches: q.refresh_requested || (q.auto_refresh && q.authoring_stale
                && !q.dragging),
            dispatch: q.has_runtime,
            write_edits: q.has_runtime && q.edits_dirty,
            write_knots: q.has_runtime && q.knots_dirty && q.has_knot_edits,
            write_regions: q.has_runtime && dirty,
            log_time: q.has_runtime && frame % LOG_INTERVAL == 0,
        },
    )
}

/// What playback does in a frame.
#[derive(Debug, Clone, Copy, PartialEq, Eq, Structural)]
pub enum PlaybackAction {
    Off,
    Reset,
    Advance { with_overrides: bool },
}

/// Plans playback: off unless it is enabled and there is a graph to play.
pub fn plan_playback(
    enabled: bool,
    has_motion: bool,
    has_graph: bool,
    reset_requested: bool,
    overrides_empty: bool,
) -> (r: PlaybackAction)
    ensures
        r == if !enabled || !has_motion || !has_graph {
            PlaybackAction::Off
        } else if reset_requested {
            PlaybackAction::Reset
        } else {
            PlaybackAction::Advance { with_overrides: !overrides_empty }
        },
{
    if !enabled || !has_motion || !has_graph {
        PlaybackAction::Off
    } else if reset_requested {
        PlaybackAction::Reset
    } else {
        PlaybackAction::Advance { with_overrides: !overrides_empty }
    }
}

/// The place of a basis in a region among the states of playback, if there is one.
pub fn playback_state_index(
    region_id: usize,
    basis_id: usize,
    basis_count: usize,
    state_count: usize,
) -> (r: Option<usize>)
    ensures
        r == match crate::basis_branch_regions::state_index(region_id, basis_id, basis_count) {
            Some(index) => if index < state_count {
                Some(index)
            } else {
                None
            },
            None => None,
        },
{
    match graph_state_index(region_id, basis_id, basis_count) {
        Some(index) => {
            if index < state_count {
                Some(index)
            } else {
                None
            }
        },
        None => None,
    }
}

/// A tile that is changing its LoD, or not.
#[derive(Debug, Clone, Copy, PartialEq, Eq, Structural)]
pub enum TileTransitionStatus {
    Stable,
    Changing { to_lower: bool },
}

/// Splats that are sorted for a tile instance: how many, and their LoD, -1 if it varies.
#[derive(Debug, Clone, Copy, PartialEq, Eq, Structural)]
pub struct SortedSplats {
    pub splat_count: u32,
    pub single_lod_id: i32,
}

/// A tile of the map, as it is drawn. The offset is bit patterns.
#[derive(Debug, Clone, Copy)]
pub struct TileInstance {
    pub map_index: u32,
    pub lod: usize,
    pub tile: usize,
    pub view_id: usize,
    pub offset: [u32; 3],
    pub map_coord: [u32; 2],
    pub transition: TileTransitionStatus,
    pub sorted: Option<SortedSplats>,
}

/// The words of the uniforms of a tile. A tile with sorted splats is drawn at once, and is changing
/// if their LoD varies; another says whether it is changing, or its LoD.
pub open spec fn tile_words(tile: TileInstance) -> Seq<u32> {
    let none = 0xffff_ffffu32;
    seq![
        if tile.sorted is Some {
            1u32
        } else {
            0u32
        },
        tile.map_index,
        match tile.sorted {
            Some(s) => s.single_lod_id as u32,
            None => none,
        },
        match (tile.sorted, tile.transition) {
            (None, TileTransitionStatus::Stable) => tile.lod as u32,
            _ => none,
        },
        match (tile.sorted, tile.transition) {
            (Some(s), _) => if s.single_lod_id == -1 {
                1u32
            } else {
                0u32
            },
            (None, TileTransitionStatus::Changing { to_lower }) => 1u32,
            (None, TileTransitionStatus::Stable) => 0u32,
        },
        match (tile.sorted, tile.transition) {
            (None, TileTransitionStatus::Changing { to_lower }) => if to_lower {
                1u32
            } else {
                0u32
            },
            _ => none,
        },
        0u32,
        0u32,
        tile.lod as u32,
        tile.tile as u32,
        tile.view_id as u32,
        0u32,
        tile.offset[0],
        tile.offset[1],
        tile.offset[2],
        crate::float_bits::ZERO,
        tile.map_coord[0],
        tile.map_coord[1],
        0u32,
        0u32,
    ]
}

/// The words of the uniforms of a tile.
pub fn tile_uniforms(tile: &TileInstance) -> (r: [u32; 20])
    ensures
        r@ == tile_words(*tile),
        r[0] == 1 <==> tile.sorted is Some,
        r[0] == 0 <==> tile.sorted is None,
        r[1] == tile.map_index,
        tile.sorted matches Some(s) ==> r[2] == s.single_lod_id as u32 && r[3] == 0xffff_ffff && r[5]
            == 0xffff_ffff && (r[4] == 1 <==> s.single_lod_id == -1) && r[4] <= 1,
        tile.sorted is None ==> r[2] == 0xffff_ffff,
        tile.sorted is None && tile.transition is Stable ==> r[3] == tile.lod as u32 && r[4] == 0
            && r[5] == 0xffff_ffff,
        tile.sorted is None ==> (tile.transition matches TileTransitionStatus::Changing {
            to_lower,
        } ==> r[3] == 0xffff_ffff && r[4] == 1 && (r[5] == 1 <==> to_lower) && r[5] <= 1),
        r[8] == tile.lod as u32,
        r[9] == tile.tile as u32,
        r[10] == tile.view_id as u32,
        r[12] == tile.offset[0],
        r[13] == tile.offset[1],
        r[14] == tile.offset[2],
        r[15] == 0,
        r[16] == tile.map_coord[0],
        r[17] == tile.map_coord[1],
        r[6] == 0 && r[7] == 0 && r[11] == 0 && r[18] == 0 && r[19] == 0,
{
    let none: u32 = 0xffff_ffff;
    let single_draw: u32 = if tile.sorted.is_some() {
        1
    } else {
        0
    };
    let single_lod: u32 = match tile.sorted {
        Some(s) => s.single_lod_id as u32,
        None => none,
    };
    let valid_lod: u32 = match (tile.sorted, tile.transition) {
        (None, TileTransitionStatus::Stable) => tile.lod as u32,
        _ => none,
    };
    let changing: u32 = match (tile.sorted, tile.transition) {
        (Some(s), _) => {
            if s.single_lod_id == -1 {
                1
            } else {
                0
            }
        },
        (None, TileTransitionStatus::Changing { to_lower }) => 1,
        (None, TileTransitionStatus::Stable) => 0,
    };
    let changing_to_lower: u32 = match (tile.sorted, tile.transition) {
        (None, TileTransitionStatus::Changing { to_lower }) => {
            if to_lower {
                1
            } else {
                0
            }
        },
        _ => none,
    };
    let r: [u32; 20] = [
        single_draw,
        tile.map_index,
        single_lod,
        valid_lod,
        changing,
        changing_to_lower,
        0,
        0,
        tile.lod as u32,
        tile.tile as u32,
        tile.view_id as u32,
        0,
        tile.offset[0],
        tile.offset[1],
        tile.offset[2],
        crate::float_bits::ZERO,
        tile.map_coord[0],
        tile.map_coord[1],
        0,
        0,
    ];
    assert(r@ =~= tile_words(*tile));
    r
}

/// What the four corners of a tile come closest to on the screen: the least absolute `x` and `y`,
/// and the greatest `z`. A number that is none counts for nothing.
pub open spec fn closest(corners: Seq<[u32; 3]>, n: nat) -> (u32, u32, u32)
    decreases n,
{
    if n == 0 {
        (GREATEST, GREATEST, (GREATEST + 0x8000_0000) as u32)
    } else {
        let c = closest(corners, (n - 1) as nat);
        let x = crate::float_bits::abs_bits(corners[n - 1][0]);
        let y = crate::float_bits::abs_bits(corners[n - 1][1]);
        let z = corners[n - 1][2];
        (
            if crate::float_bits::less(x, c.0) {
                x
            } else {
                c.0
            },
            if crate::float_bits::less(y, c.1) {
                y
            } else {
                c.1
            },
            if crate::float_bits::less(c.2, z) {
                z
            } else {
                c.2
            },
        )
    }
}

/// A number with the other sign.
pub open spec fn negated(bits: u32) -> u32 {
    if bits >= 0x8000_0000 {
        (bits - 0x8000_0000) as u32
    } else {
        (bits + 0x8000_0000) as u32
    }
}

/// A tile is out of sight: behind the viewer or beyond the edge of the screen on every corner.
pub open spec fn out_of_sight(corners: Seq<[u32; 3]>, clip: u32) -> bool {
    let c = closest(corners, corners.len());
    crate::float_bits::less(c.2, negated(clip)) || crate::float_bits::less(clip, c.0)
        || crate::float_bits::less(clip, c.1)
}

/// Whether a tile is out of sight.
pub fn is_out_of_sight(corners: &Vec<[u32; 3]>, clip: u32) -> (r: bool)
    ensures
        r == out_of_sight(corners@, clip),
{
    let mut x: u32 = GREATEST;
    let mut y: u32 = GREATEST;
    let mut z: u32 = 0xff7f_ffff;
    for i in 0..corners.len()
        invariant
            (x, y, z) == closest(corners@, i as nat),
    {
        let c: [u32; 3] = corners[i];
        let cx: u32 = crate::float_bits::abs(c[0]);
        let cy: u32 = crate::float_bits::abs(c[1]);
        if crate::float_bits::is_less(cx, x) {
            x = cx;
        }
        if crate::float_bits::is_less(cy, y) {
            y = cy;
        }
        if crate::float_bits::is_less(z, c[2]) {
            z = c[2];
        }
    }
    let negative: u32 = if clip >= 0x8000_0000 {
        clip - 0x8000_0000
    } else {
        clip + 0x8000_0000
    };
    crate::float_bits::is_less(z, negative) || crate::float_bits::is_less(clip, x)
        || crate::float_bits::is_less(clip, y)
}

/// The LoD whose buffers a tile is drawn from: its own, or the one above while it changes upwards.
pub open spec fn buffer_lod(lod: usize, transition: TileTransitionStatus) -> int {
    match transition {
        TileTransitionStatus::Changing { to_lower } => if to_lower {
            lod as int
        } else {
            lod - 1
        },
        TileTransitionStatus::Stable => lod as int,
    }
}

/// Where the splats of a draw come from: uploaded behind those of the draws before it, or from the
/// prepared buffers of a LoD, tile and view.
#[derive(Debug, Clone, Copy, PartialEq, Eq, Structural)]
pub enum DrawSource {
    Uploaded { offset: u64, size: u64, splat_count: u32, with_lods: bool },
    Prepared { lod: usize, tile: usize, view_id: usize },
}

/// One draw: the tile, where its uniforms stand, and its splats.
#[derive(Debug, Clone, Copy, PartialEq, Eq, Structural)]
pub struct DrawStep {
    pub index: usize,
    pub uniform_offset: u64,
    pub source: DrawSource,
}

/// A tile instance of the sorted map. Tiles that are merged have several parts.
#[derive(Debug)]
pub struct SortedTile {
    pub instance: TileInstance,
    pub parts: usize,
    /// Corners on the screen; only for a tile of one part.
    pub corners: Vec<[u32; 3]>,
}

/// A tile may be seen: it is merged or not out of sight.
pub open spec fn in_sight(tile: SortedTile, clip: u32) -> bool {
    !(tile.parts == 1 && out_of_sight(tile.corners@, clip))
}

/// A tile is drawn: it may be seen, and its LoD is shown.
pub open spec fn is_drawn(tile: SortedTile, lod_enable: Seq<bool>, clip: u32) -> bool {
    in_sight(tile, clip) && lod_enable[tile.instance.lod as int]
}

/// Bytes that the drawn tiles among the first `n` upload.
pub open spec fn uploaded_before(
    tiles: Seq<SortedTile>,
    lod_enable: Seq<bool>,
    clip: u32,
    n: nat,
) -> int
    decreases n,
{
    if n == 0 {
        0
    } else {
        uploaded_before(tiles, lod_enable, clip, (n - 1) as nat) + match tiles[n
            - 1].instance.sorted {
            Some(s) => if is_drawn(tiles[n - 1], lod_enable, clip) {
                4 * s.splat_count
            } else {
                0
            },
            None => 0,
        }
    }
}

/// The draw of a tile.
pub open spec fn draw_of(
    tiles: Seq<SortedTile>,
    lod_enable: Seq<bool>,
    clip: u32,
    i: int,
) -> DrawStep {
    let tile = tiles[i].instance;
    DrawStep {
        index: i as usize,
        uniform_offset: (i * TILE_BLOCK_BYTES) as u64,
        source: match tile.sorted {
            Some(s) => DrawSource::Uploaded {
                offset: uploaded_before(tiles, lod_enable, clip, i as nat) as u64,
                size: (4 * s.splat_count) as u64,
                splat_count: s.splat_count,
                with_lods: s.single_lod_id == -1,
            },
            None => DrawSource::Prepared {
                lod: buffer_lod(tile.lod, tile.transition) as usize,
                tile: tile.tile,
                view_id: tile.view_id,
            },
        },
    }
}

/// The draws of the first `n` tiles, in order.
pub open spec fn draws_before(
    tiles: Seq<SortedTile>,
    lod_enable: Seq<bool>,
    clip: u32,
    n: nat,
) -> Seq<DrawStep>
    decreases n,
{
    if n == 0 {
        Seq::empty()
    } else if is_drawn(tiles[n - 1], lod_enable, clip) {
        draws_before(tiles, lod_enable, clip, (n - 1) as nat).push(
            draw_of(tiles, lod_enable, clip, n - 1),
        )
    } else {
        draws_before(tiles, lod_enable, clip, (n - 1) as nat)
    }
}

/// Plans the draws of a frame.
pub fn plan_draws(tiles: &Vec<SortedTile>, lod_enable: &Vec<bool>, clip: u32) -> (r: Vec<DrawStep>)
    requires
        tiles@.len() * TILE_BLOCK_BYTES <= u32::MAX,
        forall|i: int|
            0 <= i < tiles@.len() && in_sight(#[trigger] tiles@[i], clip)
                ==> tiles@[i].instance.lod < lod_enable@.len(),
        forall|i: int|
            0 <= i < tiles@.len() && is_drawn(#[trigger] tiles@[i], lod_enable@, clip)
                && tiles@[i].instance.sorted is None ==> buffer_lod(
                tiles@[i].instance.lod,
                tiles@[i].instance.transition,
            ) >= 0,
    ensures
        r@ == draws_before(tiles@, lod_enable@, clip, tiles@.len()),
{
    let mut draws: Vec<DrawStep> = Vec::new();
    let mut offset: u64 = 0;
    for i in 0..tiles.len()
        invariant
            tiles@.len() * TILE_BLOCK_BYTES <= u32::MAX,
            forall|i: int|
                0 <= i < tiles@.len() && in_sight(#[trigger] tiles@[i], clip)
                    ==> tiles@[i].instance.lod < lod_enable@.len(),
            forall|i: int|
                0 <= i < tiles@.len() && is_drawn(#[trigger] tiles@[i], lod_enable@, clip)
                    && tiles@[i].instance.sorted is None ==> buffer_lod(
                    tiles@[i].instance.lod,
                    tiles@[i].instance.transition,
                ) >= 0,
            offset == uploaded_before(tiles@, lod_enable@, clip, i as nat),
            offset <= i * 0x4_0000_0000,
            draws@ == draws_before(tiles@, lod_enable@, clip, i as nat),
    {
        let tile: &SortedTile = &tiles[i];
        assert(in_sight(tiles@[i as int], clip) ==> tiles@[i as int].instance.lod
            < lod_enable@.len());
        let hidden: bool = (tile.parts == 1 && is_out_of_sight(&tile.corners, clip))
            || !lod_enable[tile.instance.lod];
        if !hidden {
            let source: DrawSource = match tile.instance.sorted {
                Some(s) => {
                    let size: u64 = 4 * s.splat_count as u64;
                    let at: u64 = offset;
                    offset = offset + size;
                    DrawSource::Uploaded {
                        offset: at,
                        size,
                        splat_count: s.splat_count,
                        with_lods: s.single_lod_id == -1,
                    }
                },
                None => {
                    let lod: usize = match tile.instance.transition {
                        TileTransitionStatus::Changing { to_lower } => {
                            if to_lower {
                                tile.instance.lod
                            } else {
                                tile.instance.lod - 1
                            }
                        },
                        TileTransitionStatus::Stable => tile.instance.lod,
                    };
                    DrawSource::Prepared {
                        lod,
                        tile: tile.instance.tile,
                        view_id: tile.instance.view_id,
                    }
                },
            };
            draws.push(
                DrawStep { index: i, uniform_offset: i as u64 * TILE_BLOCK_BYTES, source },
            );
        }
    }
    draws
}

/// Uploads of different draws do not overlap: each starts where the bytes of those before it end.
pub proof fn uploads_are_disjoint(
    tiles: Seq<SortedTile>,
    lod_enable: Seq<bool>,
    clip: u32,
    i: int,
    j: int,
)
    requires
        0 <= i < j < tiles.len(),
        is_drawn(tiles[i], lod_enable, clip),
        is_drawn(tiles[j], lod_enable, clip),
        tiles[i].instance.sorted is Some,
        tiles[j].instance.sorted is Some,
        uploaded_before(tiles, lod_enable, clip, tiles.len()) <= u64::MAX,
    ensures
        ({
            let a = draw_of(tiles, lod_enable, clip, i).source;
            let b = draw_of(tiles, lod_enable, clip, j).source;
            a->offset + a->size <= b->offset
        }),
{
    uploads_grow(tiles, lod_enable, clip, (i + 1) as nat, j as nat);
    uploads_grow(tiles, lod_enable, clip, j as nat, tiles.len());
    uploads_grow(tiles, lod_enable, clip, 0, i as nat);
}

proof fn uploads_grow(tiles: Seq<SortedTile>, lod_enable: Seq<bool>, clip: u32, m: nat, n: nat)
    requires
        m <= n,
    ensures
        uploaded_before(tiles, lod_enable, clip, m) <= uploaded_before(tiles, lod_enable, clip, n),
    decreases n,
{
    if m < n {
        uploads_grow(tiles, lod_enable, clip, m, (n - 1) as nat);
    }
}

/// The first sixteen numbers of a list, with padding behind a shorter one.
pub open spec fn sixteen(values: Seq<u32>, pad: u32) -> Seq<u32> {
    Seq::new(
        16,
        |i: int|
            if i < values.len() {
                values[i]
            } else {
                pad
            },
    )
}

/// Cuts or pads a list to sixteen numbers.
pub fn expand_to_sixteen(values: &[u32], pad: u32) -> (r: Vec<u32>)
    ensures
        r@ == sixteen(values@, pad),
{
    let mut out: Vec<u32> = Vec::new();
    for i in 0..16usize
        invariant
            out@.len() == i,
            forall|k: int|
                0 <= k < i ==> #[trigger] out@[k] == if k < values@.len() {
                    values@[k]
                } else {
                    pad
                },
    {
        let v: u32 = if i < values.len() {
            values[i]
        } else {
            pad
        };
        out.push(v);
    }
    out
}

/// What the uniforms of a scene are made of. Numbers with a fraction are bit patterns.
#[derive(Debug)]
pub struct SceneState {
    pub splat_scale: u32,
    pub tile_width: u32,
    pub use_clip: bool,
    pub clip_height: u32,
    pub surface_type: u32,
    pub sphere_radius: u32,
    pub draw_point_cloud: bool,
    pub point_cloud_radius: u32,
    pub transition_width_ratio: u32,
    pub lod_count: u32,
    pub draw_mode: u32,
    pub map_half_size: [u32; 2],
    pub center_coord: [i32; 2],
    pub transition_distances: Vec<u32>,
    pub height_map_scale: [u32; 3],
    pub scene_scale: [u32; 3],
    pub motion: MotionEditConfig,
    pub animation_time: u32,
    pub heatmap_basis: u32,
    pub top_k: Option<u32>,
    pub active_top_k: Option<u32>,
    pub heatmap_normalization: u32,
}

/// The number of bases that the heat map counts as active.
pub open spec fn heatmap_active(state: SceneState) -> u32 {
    match state.active_top_k {
        Some(k) => k,
        None => match state.top_k {
            Some(k) => k,
            None => 0,
        },
    }
}

/// The uniforms before the knots of the motion.
pub open spec fn scene_head(state: SceneState) -> Seq<u32> {
    let zero = crate::float_bits::ZERO;
    seq![
        state.splat_scale,
        state.tile_width,
        if state.use_clip {
            1u32
        } else {
            0u32
        },
        state.clip_height,
        state.surface_type,
        state.sphere_radius,
        if state.draw_point_cloud {
            state.point_cloud_radius
        } else {
            zero
        },
        state.transition_width_ratio,
        state.lod_count,
        state.draw_mode,
        state.map_half_size[0],
        state.map_half_size[1],
        state.center_coord[0] as u32,
        state.center_coord[1] as u32,
        0u32,
        0u32,
    ] + sixteen(state.transition_distances@, zero) + seq![
        state.height_map_scale[0],
        state.height_map_scale[1],
        state.height_map_scale[2],
        zero,
        state.scene_scale[0],
        state.scene_scale[1],
        state.scene_scale[2],
        zero,
        if state.motion.enabled {
            crate::float_bits::ONE
        } else {
            zero
        },
        state.motion.amplitude,
        state.motion.edge_band,
        state.motion.detail_amplitude,
        state.animation_time,
        state.motion.wave_phase_span,
        zero,
        zero,
        crate::float_bits::integer_bits(state.heatmap_basis as nat) as u32,
        crate::float_bits::integer_bits(
            match state.top_k {
                Some(k) => k as nat,
                None => 0,
            },
        ) as u32,
        crate::float_bits::integer_bits(heatmap_active(state) as nat) as u32,
        if crate::float_bits::less(MIN_HEATMAP_SCALE, state.heatmap_normalization) {
            state.heatmap_normalization
        } else {
            MIN_HEATMAP_SCALE
        },
    ]
}

/// The words of the uniforms of a scene: 52 words, then a row of four for each packed knot.
pub open spec fn scene_words(state: SceneState) -> Seq<u32> {
    scene_head(state) + Seq::new(
        288,
        |i: int| crate::motion::packed_row(state.motion, i / 4)[i % 4],
    )
}

/// The words of the uniforms of a scene.
pub fn scene_uniforms(state: &SceneState) -> (r: Vec<u32>)
    ensures
        r@ == scene_words(*state),
{
    let zero: u32 = crate::float_bits::ZERO;
    let top_k: u32 = match state.top_k {
        Some(k) => k,
        None => 0,
    };
    let active: u32 = match state.active_top_k {
        Some(k) => k,
        None => top_k,
    };
    let mut out: Vec<u32> = vec![
        state.splat_scale,
        state.tile_width,
        if state.use_clip { 1 } else { 0 },
        state.clip_height,
        state.surface_type,
        state.sphere_radius,
        if state.draw_point_cloud { state.point_cloud_radius } else { zero },
        state.transition_width_ratio,
        state.lod_count,
        state.draw_mode,
        state.map_half_size[0],
        state.map_half_size[1],
        state.center_coord[0] as u32,
        state.center_coord[1] as u32,
        0,
        0,
    ];
    let mut distances: Vec<u32> = expand_to_sixteen(state.transition_distances.as_slice(), zero);
    out.append(&mut distances);
    let mut tail: Vec<u32> = vec![
        state.height_map_scale[0],
        state.height_map_scale[1],
        state.height_map_scale[2],
        zero,
        state.scene_scale[0],
        state.scene_scale[1],
        state.scene_scale[2],
        zero,
        if state.motion.enabled { crate::float_bits::ONE } else { zero },
        state.motion.amplitude,
        state.motion.edge_band,
        state.motion.detail_amplitude,
        state.animation_time,
        state.motion.wave_phase_span,
        zero,
        zero,
        from_integer(state.heatmap_basis as u64),
        from_integer(top_k as u64),
        from_integer(active as u64),
        if crate::float_bits::is_less(MIN_HEATMAP_SCALE, state.heatmap_normalization) {
            state.heatmap_normalization
        } else {
            MIN_HEATMAP_SCALE
        },
    ];
    out.append(&mut tail);
    assert(out@ =~= scene_head(*state));
    let knots: Vec<[u32; 4]> = pack_motion_spline_knots(&state.motion);
    for i in 0..72usize
        invariant
            knots@.len() == 72,
            forall|k: int|
                0 <= k < 72 ==> (#[trigger] knots@[k])@ == crate::motion::packed_row(
                    state.motion,
                    k,
                ),
            out@ == scene_head(*state) + Seq::new(
                (4 * i) as nat,
                |k: int| crate::motion::packed_row(state.motion, k / 4)[k % 4],
            ),
    {
        let row: [u32; 4] = knots[i];
        assert(row@ == crate::motion::packed_row(state.motion, i as int));
        let ghost before = out@;
        out.push(row[0]);
        out.push(row[1]);
        out.push(row[2]);
        out.push(row[3]);
        assert(out@ =~= before + row@);
        assert(row@ =~= Seq::new(
            4,
            |k: int| crate::motion::packed_row(state.motion, (4 * i + k) / 4)[(4 * i + k) % 4],
        ));
        assert(out@ =~= scene_head(*state) + Seq::new(
            (4 * (i + 1)) as nat,
            |k: int| crate::motion::packed_row(state.motion, k / 4)[k % 4],
        ));
    }
    out
}

} // verus!
