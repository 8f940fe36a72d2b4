//! What the panels decide: which basis, knot and region are selected, what an edit changes, and
//! when playback starts over.

use crate::basis_bank_edit::{
    reset_all_basis_edits, reset_basis_edit, BasisEditOverride, BasisKnotEditPlane,
    BasisKnotEditState,
};
use crate::basis_branch_regions::{BasisGraphBranchDomain, BasisGraphRegionConfig};
use crate::basis_graph_playback::{branch_rejection, BasisGraphPlaybackConfig};
use crate::basis_motion_graph::BasisMotionGraphBranch;
use vstd::prelude::*;

verus! {

/// The plane in which a curve is shown.
#[derive(Clone, Copy, Debug, PartialEq, Eq, Structural)]
pub enum BasisPreviewProjection {
    XY,
    XZ,
    YZ,
}

/// The plane in which a knot is dragged: the one that is shown.
pub open spec fn edit_plane(projection: BasisPreviewProjection) -> BasisKnotEditPlane {
    match projection {
        BasisPreviewProjection::XY => BasisKnotEditPlane::XY,
        BasisPreviewProjection::XZ => BasisKnotEditPlane::XZ,
        BasisPreviewProjection::YZ => BasisKnotEditPlane::YZ,
    }
}

pub fn basis_projection_edit_plane(projection: BasisPreviewProjection) -> (r: BasisKnotEditPlane)
    ensures
        r == edit_plane(projection),
{
    match projection {
        BasisPreviewProjection::XY => BasisKnotEditPlane::XY,
        BasisPreviewProjection::XZ => BasisKnotEditPlane::XZ,
        BasisPreviewProjection::YZ => BasisKnotEditPlane::YZ,
    }
}

/// A point in the plane that is shown.
pub open spec fn projected(point: Seq<u32>, projection: BasisPreviewProjection) -> Seq<u32> {
    match projection {
        BasisPreviewProjection::XY => seq![point[0], point[1]],
        BasisPreviewProjection::XZ => seq![point[0], point[2]],
        BasisPreviewProjection::YZ => seq![point[1], point[2]],
    }
}

/// Takes the two coordinates of a point that are shown.
pub fn project_basis_point(point: [u32; 3], projection: BasisPreviewProjection) -> (r: [u32; 2])
    ensures
        r@ == projected(point@, projection),
{
    let r: [u32; 2] = match projection {
        BasisPreviewProjection::XY => [point[0], point[1]],
        BasisPreviewProjection::XZ => [point[0], point[2]],
        BasisPreviewProjection::YZ => [point[1], point[2]],
    };
    assert(r@ =~= projected(point@, projection));
    r
}

/// A knot that is dragged to a place in the shown plane is shown there.
pub proof fn dragged_knots_follow_the_pointer(
    point: Seq<u32>,
    projection: BasisPreviewProjection,
    moved: Seq<u32>,
)
    requires
        point.len() == 3,
        moved.len() == 2,
    ensures
        ({
            let axes = crate::basis_bank_edit::plane_axes(edit_plane(projection));
            projected(point.update(axes.0, moved[0]).update(axes.1, moved[1]), projection) == moved
        }),
{
    let axes = crate::basis_bank_edit::plane_axes(edit_plane(projection));
    assert(projected(point.update(axes.0, moved[0]).update(axes.1, moved[1]), projection) =~= moved);
}

/// How strictly branches are held to their costs.
#[derive(Clone, Copy, Debug, PartialEq, Eq, Structural)]
pub enum BasisGraphQualityPreset {
    Relaxed,
    Balanced,
    Strict,
    Custom,
}

pub open spec fn preset_text(preset: BasisGraphQualityPreset) -> Seq<char> {
    match preset {
        BasisGraphQualityPreset::Relaxed => "Relaxed"@,
        BasisGraphQualityPreset::Balanced => "Balanced"@,
        BasisGraphQualityPreset::Strict => "Strict"@,
        BasisGraphQualityPreset::Custom => "Custom"@,
    }
}

pub fn basis_graph_quality_preset_label(preset: BasisGraphQualityPreset) -> (r: &'static str)
    ensures
        r@ == preset_text(preset),
{
    match preset {
        BasisGraphQualityPreset::Relaxed => "Relaxed",
        BasisGraphQualityPreset::Balanced => "Balanced",
        BasisGraphQualityPreset::Strict => "Strict",
        BasisGraphQualityPreset::Custom => "Custom",
    }
}

/// Bit pattern of `0.75`, the greatest cost of a balanced choice.
pub const BALANCED_COST: u32 = 0x3f40_0000;

/// Bit pattern of `0.5`, the greatest cost of a strict choice.
pub const STRICT_COST: u32 = 0x3f00_0000;

/// All costs are limited, and each limit is among the bit patterns `low` to `high`.
pub open spec fn costs_within(config: BasisGraphPlaybackConfig, low: u32, high: u32) -> bool {
    &&& config.max_position_cost_enabled && low <= config.max_position_cost <= high
    &&& config.max_velocity_cost_enabled && low <= config.max_velocity_cost <= high
    &&& config.max_acceleration_cost_enabled && low <= config.max_acceleration_cost <= high
}

/// The preset that a configuration amounts to. Limits count as those of a preset if they are within
/// `2^-23` of its cost: two patterns off `0.75`; two above and four below `0.5`, where patterns are
/// denser.
pub open spec fn preset_of(config: BasisGraphPlaybackConfig) -> BasisGraphQualityPreset {
    if !config.max_position_cost_enabled && !config.max_velocity_cost_enabled
        && !config.max_acceleration_cost_enabled {
        BasisGraphQualityPreset::Relaxed
    } else if costs_within(config, 0x3f3f_fffe, 0x3f40_0002) {
        BasisGraphQualityPreset::Balanced
    } else if costs_within(config, 0x3eff_fffc, 0x3f00_0002) {
        BasisGraphQualityPreset::Strict
    } else {
        BasisGraphQualityPreset::Custom
    }
}

fn has_costs_within(config: BasisGraphPlaybackConfig, low: u32, high: u32) -> (r: bool)
    ensures
        r == costs_within(config, low, high),
{
    config.max_position_cost_enabled && low <= config.max_position_cost && config.max_position_cost
        <= high && config.max_velocity_cost_enabled && low <= config.max_velocity_cost
        && config.max_velocity_cost <= high && config.max_acceleration_cost_enabled && low
        <= config.max_acceleration_cost && config.max_acceleration_cost <= high
}

/// Finds the preset that a configuration amounts to.
pub fn basis_graph_quality_preset(config: BasisGraphPlaybackConfig) -> (r: BasisGraphQualityPreset)
    ensures
        r == preset_of(config),
{
    if !config.max_position_cost_enabled && !config.max_velocity_cost_enabled
        && !config.max_acceleration_cost_enabled {
        BasisGraphQualityPreset::Relaxed
    } else if has_costs_within(config, 0x3f3f_fffe, 0x3f40_0002) {
        BasisGraphQualityPreset::Balanced
    } else if has_costs_within(config, 0x3eff_fffc, 0x3f00_0002) {
        BasisGraphQualityPreset::Strict
    } else {
        BasisGraphQualityPreset::Custom
    }
}

/// A configuration with all costs limited to one number.
pub open spec fn with_costs(
    config: BasisGraphPlaybackConfig,
    cost: u32,
) -> BasisGraphPlaybackConfig {
    BasisGraphPlaybackConfig {
        max_position_cost_enabled: true,
        max_position_cost: cost,
        max_velocity_cost_enabled: true,
        max_velocity_cost: cost,
        max_acceleration_cost_enabled: true,
        max_acceleration_cost: cost,
        ..config
    }
}

/// A configuration under a preset. Without limits their numbers stay; a custom one stays whole.
pub open spec fn with_preset(
    config: BasisGraphPlaybackConfig,
    preset: BasisGraphQualityPreset,
) -> BasisGraphPlaybackConfig {
    match preset {
        BasisGraphQualityPreset::Relaxed => BasisGraphPlaybackConfig {
            max_position_cost_enabled: false,
            max_velocity_cost_enabled: false,
            max_acceleration_cost_enabled: false,
            ..config
        },
        BasisGraphQualityPreset::Balanced => with_costs(config, BALANCED_COST),
        BasisGraphQualityPreset::Strict => with_costs(config, STRICT_COST),
        BasisGraphQualityPreset::Custom => config,
    }
}

/// Puts a configuration under a preset.
pub fn apply_basis_graph_quality_preset(
    config: &mut BasisGraphPlaybackConfig,
    preset: BasisGraphQualityPreset,
)
    ensures
        *final(config) == with_preset(*old(config), preset),
{
    let cost: u32 = match preset {
        BasisGraphQualityPreset::Relaxed => {
            config.max_position_cost_enabled = false;
            config.max_velocity_cost_enabled = false;
            config.max_acceleration_cost_enabled = false;
            return ;
        },
        BasisGraphQualityPreset::Balanced => BALANCED_COST,
        BasisGraphQualityPreset::Strict => STRICT_COST,
        BasisGraphQualityPreset::Custom => {
            return ;
        },
    };
    config.max_position_cost_enabled = true;
    config.max_position_cost = cost;
    config.max_velocity_cost_enabled = true;
    config.max_velocity_cost = cost;
    config.max_acceleration_cost_enabled = true;
    config.max_acceleration_cost = cost;
}

/// A preset that was applied is recognised, and applying it again changes nothing.
pub proof fn presets_are_recognised(
    config: BasisGraphPlaybackConfig,
    preset: BasisGraphQualityPreset,
)
    requires
        preset != BasisGraphQualityPreset::Custom,
    ensures
        preset_of(with_preset(config, preset)) == preset,
        with_preset(with_preset(config, preset), preset) == with_preset(config, preset),
{
}

/// Gives the listed bases an edit, switched on. A basis that has an edit of the same values keeps
/// it; others are not touched. Returns whether anything changed.
pub fn apply_basis_batch_scalar_edit(
    edits: &mut Vec<BasisEditOverride>,
    basis_ids: &[usize],
    edit: BasisEditOverride,
) -> (r: bool)
    ensures
        final(edits)@ == batch_edited(old(edits)@, basis_ids@, switched_on(edit)),
        r == batch_changes(old(edits)@, basis_ids@, switched_on(edit)),
{
    let on: BasisEditOverride = BasisEditOverride { enabled: true, ..edit };
    apply_batch(edits, basis_ids, on)
}

/// Gives the listed bases the edit that changes nothing. Returns whether anything changed.
pub fn reset_basis_batch_scalar_edits(
    edits: &mut Vec<BasisEditOverride>,
    basis_ids: &[usize],
) -> (r: bool)
    ensures
        final(edits)@ == batch_edited(
            old(edits)@,
            basis_ids@,
            crate::basis_bank_edit::default_edit(),
        ),
        r == batch_changes(old(edits)@, basis_ids@, crate::basis_bank_edit::default_edit()),
{
    apply_batch(edits, basis_ids, BasisEditOverride::default())
}

pub open spec fn switched_on(edit: BasisEditOverride) -> BasisEditOverride {
    BasisEditOverride { enabled: true, ..edit }
}

/// Basis `i` is listed and has an edit of other values.
pub open spec fn takes_edit(
    edits: Seq<BasisEditOverride>,
    ids: Seq<usize>,
    edit: BasisEditOverride,
    i: int,
) -> bool {
    ids.contains(i as usize) && !edits[i].same_edit(edit)
}

pub open spec fn batch_edited(
    edits: Seq<BasisEditOverride>,
    ids: Seq<usize>,
    edit: BasisEditOverride,
) -> Seq<BasisEditOverride> {
    Seq::new(
        edits.len(),
        |i: int|
            if takes_edit(edits, ids, edit, i) {
                edit
            } else {
                edits[i]
            },
    )
}

pub open spec fn batch_changes(
    edits: Seq<BasisEditOverride>,
    ids: Seq<usize>,
    edit: BasisEditOverride,
) -> bool {
    exists|i: int| 0 <= i < edits.len() && #[trigger] takes_edit(edits, ids, edit, i)
}

fn apply_batch(
    edits: &mut Vec<BasisEditOverride>,
    basis_ids: &[usize],
    edit: BasisEditOverride,
) -> (r: bool)
    ensures
        final(edits)@ == batch_edited(old(edits)@, basis_ids@, edit),
        r == batch_changes(old(edits)@, basis_ids@, edit),
{
    let ghost start = edits@;
    let total: usize = edits.len();
    let mut changed: bool = false;
    assert(edits@ =~= batch_edited(start, basis_ids@.take(0), edit));
    for n in 0..basis_ids.len()
        invariant
            start == old(edits)@,
            total == start.len(),
            edits@ == batch_edited(start, basis_ids@.take(n as int), edit),
            changed == batch_changes(start, basis_ids@.take(n as int), edit),
    {
        let id: usize = basis_ids[n];
        let ghost before = basis_ids@.take(n as int);
        let ghost after = basis_ids@.take(n + 1);
        proof {
            assert(after =~= before.push(id));
            assert forall|i: int| 0 <= i < start.len() implies #[trigger] takes_edit(
                start,
                after,
                edit,
                i,
            ) == (takes_edit(start, before, edit, i) || (i == id && !start[i].same_edit(edit))) by {
                if i == id {
                    assert(after[n as int] == id);
                }
                if before.contains(i as usize) {
                    let k = choose|k: int| 0 <= k < before.len() && before[k] == i as usize;
                    assert(after[k] == i as usize);
                }
            }
        }
        if id < edits.len() {
            assert(edits@[id as int] == start[id as int] || edits@[id as int] == edit);
            if !edits[id].equals(edit) {
                edits.set(id, edit);
                changed = true;
                proof {
                    assert(takes_edit(start, after, edit, id as int));
                }
            } else {
                assert(start[id as int].same_edit(edit) || takes_edit(start, before, edit, id as int));
            }
        }
        proof {
            assert(edits@ =~= batch_edited(start, after, edit));
            if batch_changes(start, after, edit) {
                let i = choose|i: int| 0 <= i < start.len() && #[trigger] takes_edit(start, after, edit, i);
                assert(takes_edit(start, before, edit, i) || i == id);
            }
            if batch_changes(start, before, edit) {
                let i = choose|i: int|
                    0 <= i < start.len() && #[trigger] takes_edit(start, before, edit, i);
                assert(takes_edit(start, after, edit, i));
            }
        }
    }
    assert(basis_ids@.take(basis_ids@.len() as int) =~= basis_ids@);
    changed
}

/// Edits of knots, with those of one basis taken back.
pub open spec fn knots_reset_to(
    before: Option<BasisKnotEditState>,
    after: Option<BasisKnotEditState>,
    edited: Seq<u32>,
) -> bool {
    match (before, after) {
        (None, None) => true,
        (Some(b), Some(a)) => a.shaped() && a.same_bank(b) && a.edited() == edited,
        _ => false,
    }
}

pub open spec fn shaped_edits(knots: Option<BasisKnotEditState>) -> bool {
    knots is Some ==> knots->0.shaped()
}

/// The knots of a bank with the edits of a basis taken back.
pub open spec fn basis_taken_back(state: BasisKnotEditState, basis_id: usize) -> Seq<u32> {
    if basis_id < state.bases() {
        crate::basis_bank_edit::with_part(
            state.edited(),
            basis_id * state.knots() * 3,
            basis_id * state.knots() * 3 + state.knots() * 3,
            state.original(),
        )
    } else {
        state.edited()
    }
}

pub open spec fn edit_at(edits: Seq<BasisEditOverride>, basis_id: usize) -> BasisEditOverride {
    if basis_id < edits.len() {
        edits[basis_id as int]
    } else {
        crate::basis_bank_edit::default_edit()
    }
}

fn get_edit(edits: &Vec<BasisEditOverride>, basis_id: usize) -> (r: BasisEditOverride)
    ensures
        r == edit_at(edits@, basis_id),
{
    if basis_id < edits.len() {
        edits[basis_id]
    } else {
        BasisEditOverride::default()
    }
}

/// Takes back the edits of a basis and of its knots. Returns the edit that the basis then has,
/// whether it had another, and whether the knots were reset.
pub fn reset_selected_basis_authoring_edits(
    edits: &mut Vec<BasisEditOverride>,
    knots: &mut Option<BasisKnotEditState>,
    basis_id: usize,
) -> (r: (BasisEditOverride, bool, bool))
    requires
        shaped_edits(*old(knots)),
    ensures
        r.0 == crate::basis_bank_edit::default_edit(),
        r.1 == (basis_id < old(edits)@.len() && !old(edits)@[basis_id as int].same_edit(
            crate::basis_bank_edit::default_edit(),
        )),
        r.2 == (*old(knots) is Some && basis_id < (*old(knots))->0.bases()),
        final(edits)@ == if basis_id < old(edits)@.len() {
            old(edits)@.update(basis_id as int, crate::basis_bank_edit::default_edit())
        } else {
            old(edits)@
        },
        knots_reset_to(*old(knots), *final(knots), basis_taken_back((*old(knots))->0, basis_id)),
{
    let scalar_changed: bool = basis_id < edits.len() && !edits[basis_id].equals(
        BasisEditOverride::default(),
    );
    reset_basis_edit(edits, basis_id);
    let knot_changed: bool = match knots {
        Some(state) => state.reset_basis(basis_id),
        None => false,
    };
    (get_edit(edits, basis_id), scalar_changed, knot_changed)
}

/// Takes back all edits. Returns the edit that a basis then has, whether any basis had another,
/// and whether there were knots to reset.
pub fn reset_all_basis_authoring_edits(
    edits: &mut Vec<BasisEditOverride>,
    knots: &mut Option<BasisKnotEditState>,
    selected_basis_id: usize,
) -> (r: (BasisEditOverride, bool, bool))
    requires
        shaped_edits(*old(knots)),
    ensures
        r.0 == crate::basis_bank_edit::default_edit(),
        r.1 == exists|i: int|
            0 <= i < old(edits)@.len() && !(#[trigger] old(edits)@[i]).same_edit(
                crate::basis_bank_edit::default_edit(),
            ),
        r.2 == (*old(knots) is Some),
        final(edits)@.len() == old(edits)@.len(),
        forall|i: int|
            0 <= i < final(edits)@.len() ==> #[trigger] final(edits)@[i]
                == crate::basis_bank_edit::default_edit(),
        knots_reset_to(*old(knots), *final(knots), (*old(knots))->0.original()),
{
    let mut scalar_changed: bool = false;
    for i in 0..edits.len()
        invariant
            edits@ == old(edits)@,
            scalar_changed == exists|k: int|
                0 <= k < i && !(#[trigger] edits@[k]).same_edit(
                    crate::basis_bank_edit::default_edit(),
                ),
    {
        if !edits[i].equals(BasisEditOverride::default()) {
            assert(!edits@[i as int].same_edit(crate::basis_bank_edit::default_edit()));
            scalar_changed = true;
        }
    }
    reset_all_basis_edits(edits);
    let knot_changed: bool = match knots {
        Some(state) => {
            state.reset_all();
            true
        },
        None => false,
    };
    (get_edit(edits, selected_basis_id), scalar_changed, knot_changed)
}

/// What is asked of the branches after an edit of knots: nothing, that those of changed nodes are
/// looked for anew, or that all local ones are dropped.
#[derive(Clone, Copy, Debug, PartialEq, Eq, Structural)]
pub enum AuthoringRequest {
    Nothing,
    Refresh,
    Clear,
}

/// Which knots are to be reset.
#[derive(Clone, Copy, Debug, PartialEq, Eq, Structural)]
pub enum KnotReset {
    Nothing,
    Knot,
    Basis,
    All,
}

/// The knots after a reset.
pub open spec fn knots_taken_back(
    state: BasisKnotEditState,
    basis_id: usize,
    knot: usize,
    which: KnotReset,
) -> Seq<u32> {
    let at = crate::basis_bank_edit::knot_offset(
        basis_id as int,
        knot as int,
        state.knots() as int,
    );
    match which {
        KnotReset::Nothing => state.edited(),
        KnotReset::Knot => if basis_id < state.bases() && knot < state.editable() {
            crate::basis_bank_edit::with_part(state.edited(), at, at + 3, state.original())
        } else {
            state.edited()
        },
        KnotReset::Basis => basis_taken_back(state, basis_id),
        KnotReset::All => state.original(),
    }
}

/// What a reset asks of the branches. One that finds nothing to reset asks nothing.
pub open spec fn reset_request(
    knots: Option<BasisKnotEditState>,
    basis_id: usize,
    knot: usize,
    which: KnotReset,
) -> AuthoringRequest {
    match (knots, which) {
        (None, _) => AuthoringRequest::Nothing,
        (_, KnotReset::Nothing) => AuthoringRequest::Nothing,
        (Some(state), KnotReset::Knot) => if basis_id < state.bases() && knot < state.editable() {
            AuthoringRequest::Refresh
        } else {
            AuthoringRequest::Nothing
        },
        (Some(state), KnotReset::Basis) => if basis_id < state.bases() {
            AuthoringRequest::Refresh
        } else {
            AuthoringRequest::Nothing
        },
        (Some(_), KnotReset::All) => AuthoringRequest::Clear,
    }
}

/// Resets knots and says what that asks of the branches.
pub fn reset_knots(
    knots: &mut Option<BasisKnotEditState>,
    basis_id: usize,
    knot: usize,
    which: KnotReset,
) -> (r: AuthoringRequest)
    requires
        shaped_edits(*old(knots)),
    ensures
        r == reset_request(*old(knots), basis_id, knot, which),
        knots_reset_to(
            *old(knots),
            *final(knots),
            knots_taken_back((*old(knots))->0, basis_id, knot, which),
        ),
{
    match knots {
        None => AuthoringRequest::Nothing,
        Some(state) => {
            let changed: bool = match which {
                KnotReset::Nothing => false,
                KnotReset::Knot => state.reset_knot(basis_id, knot),
                KnotReset::Basis => state.reset_basis(basis_id),
                KnotReset::All => {
                    state.reset_all();
                    return AuthoringRequest::Clear;
                },
            };
            if changed {
                AuthoringRequest::Refresh
            } else {
                AuthoringRequest::Nothing
            }
        },
    }
}

/// Puts a selection among `count` items: the last if it is beyond them, the first if there are
/// none.
pub fn clamp_selection(selected: u32, count: usize) -> (r: u32)
    ensures
        r == if count > 0 && selected as int >= count {
            (count - 1) as int
        } else if count == 0 {
            0
        } else {
            selected as int
        },
{
    if count == 0 {
        0
    } else if selected as usize >= count {
        (count - 1) as u32
    } else {
        selected
    }
}

/// The number of coefficients that are used per splat: what was chosen, between one and those that
/// there are; none without coefficients.
pub fn clamp_active_top_k(active: Option<u32>, exported: Option<u32>) -> (r: Option<u32>)
    ensures
        r == match exported {
            Some(k) => if k == 0 {
                None
            } else {
                match active {
                    Some(a) => Some(crate::basis_branch_regions::between(a, 1, k)),
                    None => Some(k),
                }
            },
            None => None,
        },
{
    match exported {
        Some(k) => {
            if k == 0 {
                None
            } else {
                match active {
                    Some(a) => {
                        if a < 1 {
                            Some(1)
                        } else if a > k {
                            Some(k)
                        } else {
                            Some(a)
                        }
                    },
                    None => Some(k),
                }
            }
        },
        None => None,
    }
}

/// What the scene is coloured by.
#[derive(Clone, Copy, Debug, PartialEq, Eq, Structural)]
pub enum DrawMode {
    Normal,
    TileID,
    TileLOD,
    View,
    BasisWeight,
}

/// The mode after the heat map was switched: on, it is the mode; off, the scene is drawn normally
/// unless another mode was chosen.
pub fn switch_heatmap(mode: DrawMode, enabled: bool) -> (r: DrawMode)
    ensures
        r == if enabled {
            DrawMode::BasisWeight
        } else if mode == DrawMode::BasisWeight {
            DrawMode::Normal
        } else {
            mode
        },
{
    if enabled {
        DrawMode::BasisWeight
    } else if mode == DrawMode::BasisWeight {
        DrawMode::Normal
    } else {
        mode
    }
}

/// What was changed in the controls of playback.
#[derive(Clone, Copy, Debug, PartialEq, Eq, Structural)]
pub struct GraphControlEdits {
    pub enabled_toggled: bool,
    pub policy_changed: bool,
    pub reset_clicked: bool,
    pub region_changed: bool,
    /// Chance, variety, smoothness or a limit.
    pub number_changed: bool,
    pub seed_changed: bool,
    pub interval_changed: bool,
    pub preset_picked: Option<BasisGraphQualityPreset>,
}

/// What follows from changes in the controls.
#[derive(Clone, Copy, Debug, PartialEq)]
pub struct GraphControlOutcome {
    pub config: BasisGraphPlaybackConfig,
    pub regions: BasisGraphRegionConfig,
    pub selected_region: u32,
    pub changed: bool,
    pub reset: bool,
}

/// A preset was picked that fixes limits.
pub open spec fn preset_applied(edits: GraphControlEdits) -> bool {
    edits.preset_picked is Some && edits.preset_picked->0 != BasisGraphQualityPreset::Custom
}

/// The configuration as the controls show it, under the preset that was picked.
pub open spec fn shown_config(
    shown: BasisGraphPlaybackConfig,
    edits: GraphControlEdits,
) -> BasisGraphPlaybackConfig {
    match edits.preset_picked {
        Some(preset) => with_preset(shown, preset),
        None => shown,
    }
}

/// Something that playback reads was changed.
pub open spec fn controls_changed(edits: GraphControlEdits) -> bool {
    edits.enabled_toggled || edits.policy_changed || edits.region_changed || edits.number_changed
        || edits.seed_changed || edits.interval_changed || preset_applied(edits)
}

/// A limit of the costs differs, or whether it is in force.
pub open spec fn limits_differ(a: BasisGraphPlaybackConfig, b: BasisGraphPlaybackConfig) -> bool {
    ||| a.max_position_cost_enabled != b.max_position_cost_enabled
    ||| !crate::float_bits::same_value(a.max_position_cost, b.max_position_cost)
    ||| a.max_velocity_cost_enabled != b.max_velocity_cost_enabled
    ||| !crate::float_bits::same_value(a.max_velocity_cost, b.max_velocity_cost)
    ||| a.max_acceleration_cost_enabled != b.max_acceleration_cost_enabled
    ||| !crate::float_bits::same_value(a.max_acceleration_cost, b.max_acceleration_cost)
}

/// Playback starts over: on request, when it is switched on, and when what it would have played
/// before may be another.
pub open spec fn controls_reset(
    before: BasisGraphPlaybackConfig,
    shown: BasisGraphPlaybackConfig,
    edits: GraphControlEdits,
) -> bool {
    ||| edits.enabled_toggled && shown.enabled
    ||| edits.policy_changed
    ||| edits.reset_clicked
    ||| edits.region_changed
    ||| edits.seed_changed
    ||| edits.interval_changed
    ||| preset_applied(edits)
    ||| controls_changed(edits) && limits_differ(shown_config(shown, edits), before)
}

/// The region that is inspected: among those that there are, or the only one.
pub open spec fn region_kept(selected: u32, regions: BasisGraphRegionConfig) -> u32 {
    match regions.domain {
        BasisGraphBranchDomain::GlobalBasis => 0,
        BasisGraphBranchDomain::FbmRegions => if selected < regions.region_total() {
            selected
        } else {
            (regions.region_total() - 1) as u32
        },
    }
}

pub open spec fn control_outcome(
    before: BasisGraphPlaybackConfig,
    shown: BasisGraphPlaybackConfig,
    regions_before: BasisGraphRegionConfig,
    regions: BasisGraphRegionConfig,
    selected_region: u32,
    edits: GraphControlEdits,
) -> GraphControlOutcome {
    GraphControlOutcome {
        config: if controls_changed(edits) {
            shown_config(shown, edits)
        } else {
            before
        },
        regions: if edits.region_changed {
            regions.in_range()
        } else {
            regions_before
        },
        selected_region: region_kept(selected_region, regions),
        changed: controls_changed(edits),
        reset: controls_reset(before, shown, edits),
    }
}

/// Works out what follows from changes in the controls. `shown` and `regions` are what the controls
/// show after them.
pub fn apply_graph_controls(
    before: BasisGraphPlaybackConfig,
    shown: BasisGraphPlaybackConfig,
    regions_before: BasisGraphRegionConfig,
    regions: BasisGraphRegionConfig,
    selected_region: u32,
    edits: GraphControlEdits,
) -> (r: GraphControlOutcome)
    ensures
        r == control_outcome(before, shown, regions_before, regions, selected_region, edits),
{
    let mut config: BasisGraphPlaybackConfig = shown;
    let mut changed: bool = edits.enabled_toggled || edits.policy_changed || edits.region_changed
        || edits.number_changed || edits.seed_changed || edits.interval_changed;
    let mut reset: bool = (edits.enabled_toggled && shown.enabled) || edits.policy_changed
        || edits.reset_clicked || edits.region_changed || edits.seed_changed
        || edits.interval_changed;
    match edits.preset_picked {
        Some(preset) => {
            apply_basis_graph_quality_preset(&mut config, preset);
            if preset != BasisGraphQualityPreset::Custom {
                changed = true;
                reset = true;
            }
        },
        None => {},
    }
    if changed && (config.max_position_cost_enabled != before.max_position_cost_enabled
        || !crate::float_bits::is_same_value(config.max_position_cost, before.max_position_cost)
        || config.max_velocity_cost_enabled != before.max_velocity_cost_enabled
        || !crate::float_bits::is_same_value(config.max_velocity_cost, before.max_velocity_cost)
        || config.max_acceleration_cost_enabled != before.max_acceleration_cost_enabled
        || !crate::float_bits::is_same_value(
        config.max_acceleration_cost,
        before.max_acceleration_cost,
    )) {
        reset = true;
    }
    let last: u32 = regions.effective_region_count() - 1;
    let selected: u32 = match regions.domain {
        BasisGraphBranchDomain::GlobalBasis => 0,
        BasisGraphBranchDomain::FbmRegions => {
            if selected_region <= last {
                selected_region
            } else {
                last
            }
        },
    };
    GraphControlOutcome {
        config: if changed {
            config
        } else {
            before
        },
        regions: if edits.region_changed {
            regions.sanitized()
        } else {
            regions_before
        },
        selected_region: selected,
        changed,
        reset,
    }
}

/// Untouched controls change nothing; a click on reset alone only starts playback over.
pub proof fn idle_controls_change_nothing(
    before: BasisGraphPlaybackConfig,
    regions: BasisGraphRegionConfig,
    selected_region: u32,
    reset_clicked: bool,
)
    ensures
        ({
            let edits = GraphControlEdits {
                enabled_toggled: false,
                policy_changed: false,
                reset_clicked,
                region_changed: false,
                number_changed: false,
                seed_changed: false,
                interval_changed: false,
                preset_picked: None,
            };
            let r = control_outcome(before, before, regions, regions, selected_region, edits);
            r.config == before && r.regions == regions && !r.changed && r.reset == reset_clicked
        }),
{
}

/// Whether limits are chosen by hand, and the preset that is shown. A configuration that is no
/// preset switches this on, a picked preset off or on.
pub fn quality_choice(
    config: BasisGraphPlaybackConfig,
    custom_mode: bool,
    picked: Option<BasisGraphQualityPreset>,
) -> (r: (bool, BasisGraphQualityPreset))
    ensures
        ({
            let custom = custom_mode || preset_of(config) == BasisGraphQualityPreset::Custom;
            r == match picked {
                Some(preset) => (preset == BasisGraphQualityPreset::Custom, preset),
                None => (
                    custom,
                    if custom {
                        BasisGraphQualityPreset::Custom
                    } else {
                        preset_of(config)
                    },
                ),
            }
        }),
{
    let detected: BasisGraphQualityPreset = basis_graph_quality_preset(config);
    let custom: bool = custom_mode || detected == BasisGraphQualityPreset::Custom;
    match picked {
        Some(preset) => (preset == BasisGraphQualityPreset::Custom, preset),
        None => {
            if custom {
                (true, BasisGraphQualityPreset::Custom)
            } else {
                (false, detected)
            }
        },
    }
}

/// The branches that can be taken.
pub open spec fn usable(
    branches: Seq<BasisMotionGraphBranch>,
    config: BasisGraphPlaybackConfig,
) -> Seq<BasisMotionGraphBranch> {
    branches.filter(crate::basis_graph_steps::within_limits(config))
}

/// Counts the branches that can be taken.
pub fn usable_branch_count(
    branches: &Vec<BasisMotionGraphBranch>,
    config: BasisGraphPlaybackConfig,
) -> (r: usize)
    ensures
        r == usable(branches@, config).len(),
{
    let mut count: usize = 0;
    let ghost keep = crate::basis_graph_steps::within_limits(config);
    assert(branches@.take(0).filter(keep) =~= Seq::empty()) by {
        reveal(Seq::filter);
    }
    for i in 0..branches.len()
        invariant
            keep == crate::basis_graph_steps::within_limits(config),
            count == branches@.take(i as int).filter(keep).len(),
            count <= i,
    {
        proof {
            assert(branches@.take(i + 1) =~= branches@.take(i as int).push(branches@[i as int]));
            branches@.take(i as int).lemma_filter_push(branches@[i as int], keep);
        }
        if !branch_rejection(&branches[i], config).rejected() {
            count = count + 1;
        }
    }
    assert(branches@.take(branches@.len() as int) =~= branches@);
    count
}

/// The basis that the first usable branch leads to, if targets are shown and there is one.
pub open spec fn shown_target(
    branches: Seq<BasisMotionGraphBranch>,
    config: BasisGraphPlaybackConfig,
    shown: bool,
) -> Option<usize> {
    if shown && usable(branches, config).len() > 0 {
        Some(usable(branches, config)[0].to_basis)
    } else {
        None
    }
}

/// Finds the target to show.
pub fn best_target(
    branches: &Vec<BasisMotionGraphBranch>,
    config: BasisGraphPlaybackConfig,
    shown: bool,
) -> (r: Option<usize>)
    ensures
        r == shown_target(branches@, config, shown),
{
    if !shown {
        return None;
    }
    let ghost keep = crate::basis_graph_steps::within_limits(config);
    assert(branches@.take(0).filter(keep) =~= Seq::empty()) by {
        reveal(Seq::filter);
    }
    for i in 0..branches.len()
        invariant
            shown,
            keep == crate::basis_graph_steps::within_limits(config),
            branches@.take(i as int).filter(keep) =~= Seq::empty(),
    {
        let ghost first = branches@.take(i as int);
        let ghost rest = branches@.skip(i + 1);
        proof {
            assert(branches@.take(i + 1) =~= first.push(branches@[i as int]));
            first.lemma_filter_push(branches@[i as int], keep);
        }
        if !branch_rejection(&branches[i], config).rejected() {
            proof {
                assert(branches@ =~= branches@.take(i + 1) + rest);
                Seq::filter_distributes_over_add(branches@.take(i + 1), rest, keep);
                assert(usable(branches@, config)[0] == branches@[i as int]);
            }
            return Some(branches[i].to_basis);
        }
    }
    assert(branches@.take(branches@.len() as int) =~= branches@);
    None
}

/// The segment that follows another around the loop.
pub fn next_segment(segment: usize, knot_count: usize) -> (r: usize)
    requires
        knot_count > 0,
        segment < usize::MAX,
    ensures
        r == (segment + 1) % (knot_count as int),
{
    (segment + 1) % knot_count
}

} // verus!
