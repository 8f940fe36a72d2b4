//! Laws of the menus: what presets, edits and controls do to the settings, and what is shown.

use crate::basis_bank_edit::{BasisEditOverride, BasisKnotEditState};
use crate::basis_branch_regions::BasisGraphRegionConfig;
use crate::basis_graph_playback::BasisGraphPlaybackConfig;
use crate::basis_motion_graph::BasisMotionGraphBranch;
use crate::gui::{BasisGraphQualityPreset, BasisPreviewProjection, GraphControlEdits, KnotReset};
use crate::gui_forms::{ConfigChoices, ConfigField, MenuPart};
use vstd::prelude::*;

verus! {

/// A view shows the two coordinates it is named after, and a knot dragged in it moves in them.
pub proof fn views_show_their_coordinates(point: Seq<u32>, projection: BasisPreviewProjection)
    requires
        point.len() == 3,
    ensures
        ({
            let shown = crate::gui::projected(point, projection);
            let plane = crate::gui::edit_plane(projection);
            &&& shown.len() == 2
            &&& projection is XY ==> shown[0] == point[0] && shown[1] == point[1] && plane is XY
            &&& projection is XZ ==> shown[0] == point[0] && shown[1] == point[2] && plane is XZ
            &&& projection is YZ ==> shown[0] == point[1] && shown[1] == point[2] && plane is YZ
        }),
{
}

/// The settings that no preset touches.
pub open spec fn same_beside_costs(
    a: BasisGraphPlaybackConfig,
    b: BasisGraphPlaybackConfig,
) -> bool {
    &&& a.enabled == b.enabled
    &&& a.policy == b.policy
    &&& a.branch_probability == b.branch_probability
    &&& a.temperature == b.temperature
    &&& a.seed == b.seed
    &&& a.blend_duration == b.blend_duration
    &&& a.max_branch_score_enabled == b.max_branch_score_enabled
    &&& a.max_branch_score == b.max_branch_score
    &&& a.min_branch_interval_segments == b.min_branch_interval_segments
}

/// A preset sets the limits of the three costs and nothing else: off, all at 0.75, or all at 0.5.
/// Settings made by hand stay.
pub proof fn presets_set_the_costs(
    config: BasisGraphPlaybackConfig,
    preset: BasisGraphQualityPreset,
)
    ensures
        ({
            let r = crate::gui::with_preset(config, preset);
            let limit: u32 = if preset is Balanced {
                0x3f40_0000
            } else {
                0x3f00_0000
            };
            &&& same_beside_costs(r, config)
            &&& preset is Custom ==> r == config
            &&& preset is Relaxed ==> {
                &&& !r.max_position_cost_enabled
                &&& !r.max_velocity_cost_enabled
                &&& !r.max_acceleration_cost_enabled
                &&& r.max_position_cost == config.max_position_cost
                &&& r.max_velocity_cost == config.max_velocity_cost
                &&& r.max_acceleration_cost == config.max_acceleration_cost
            }
            &&& preset is Balanced || preset is Strict ==> {
                &&& r.max_position_cost_enabled && r.max_position_cost == limit
                &&& r.max_velocity_cost_enabled && r.max_velocity_cost == limit
                &&& r.max_acceleration_cost_enabled && r.max_acceleration_cost == limit
            }
        }),
{
}

/// Settings are shown as a preset where all three limits are off, or all are on within a hair of its
/// value; one limit alone makes them settings made by hand.
pub proof fn presets_are_shown_where_all_costs_agree(config: BasisGraphPlaybackConfig)
    ensures
        ({
            let shown = crate::gui::preset_of(config);
            let on = config.max_position_cost_enabled && config.max_velocity_cost_enabled
                && config.max_acceleration_cost_enabled;
            let off = !config.max_position_cost_enabled && !config.max_velocity_cost_enabled
                && !config.max_acceleration_cost_enabled;
            &&& shown is Relaxed <==> off
            &&& !on && !off ==> shown is Custom
            &&& shown is Balanced ==> on && config.max_position_cost - 0x3f40_0000 <= 2
                && 0x3f40_0000 - config.max_position_cost <= 2 && config.max_velocity_cost
                - 0x3f40_0000 <= 2 && 0x3f40_0000 - config.max_velocity_cost <= 2
                && config.max_acceleration_cost - 0x3f40_0000 <= 2 && 0x3f40_0000
                - config.max_acceleration_cost <= 2
            &&& on && config.max_position_cost == config.max_velocity_cost
                && config.max_velocity_cost == config.max_acceleration_cost
                && config.max_position_cost == 0x3f40_0000 ==> shown is Balanced
            &&& shown is Strict ==> on && config.max_position_cost - 0x3f00_0000 <= 2
                && 0x3f00_0000 - config.max_position_cost <= 4 && config.max_velocity_cost
                - 0x3f00_0000 <= 2 && 0x3f00_0000 - config.max_velocity_cost <= 4
                && config.max_acceleration_cost - 0x3f00_0000 <= 2 && 0x3f00_0000
                - config.max_acceleration_cost <= 4
            &&& on && config.max_position_cost == config.max_velocity_cost
                && config.max_velocity_cost == config.max_acceleration_cost
                && config.max_position_cost == 0x3f00_0000 ==> shown is Strict
        }),
{
}

/// An edit for a batch is taken over by the bases of the batch, switched on and otherwise as given;
/// the others keep theirs. Something changed exactly where a basis of the batch had other values.
pub proof fn batches_edit_their_bases(
    edits: Seq<BasisEditOverride>,
    ids: Seq<usize>,
    edit: BasisEditOverride,
    i: int,
)
    requires
        0 <= i < edits.len() <= usize::MAX,
    ensures
        ({
            let on = crate::gui::switched_on(edit);
            let r = crate::gui::batch_edited(edits, ids, on);
            &&& on.enabled
            &&& on.amplitude_scale == edit.amplitude_scale
            &&& on.phase_offset == edit.phase_offset
            &&& on.time_scale == edit.time_scale
            &&& r.len() == edits.len()
            &&& !ids.contains(i as usize) ==> r[i] == edits[i]
            &&& ids.contains(i as usize) ==> r[i] == on || edits[i].same_edit(on)
            &&& ids.contains(i as usize) ==> r[i].enabled
            &&& ids.contains(i as usize) && !edits[i].same_edit(on) ==> r[i] == on
                && crate::gui::batch_changes(edits, ids, on)
            &&& !crate::gui::batch_changes(edits, ids, on) ==> r[i] == edits[i]
        }),
{
    let on = crate::gui::switched_on(edit);
    if crate::gui::takes_edit(edits, ids, on, i) {
        assert(crate::gui::batch_changes(edits, ids, on));
    }
}

/// Taking a basis back restores the knots of that basis, and no others.
pub proof fn taken_back_bases_are_as_at_first(state: BasisKnotEditState, basis_id: usize, i: int)
    requires
        state.shaped(),
        0 <= i < state.edited().len(),
    ensures
        ({
            let r = crate::gui::basis_taken_back(state, basis_id);
            let from = basis_id * state.knots() * 3;
            &&& r.len() == state.edited().len()
            &&& basis_id < state.bases() && from <= i < from + state.knots() * 3 ==> r[i]
                == state.original()[i]
            &&& basis_id >= state.bases() || i < from || i >= from + state.knots() * 3 ==> r[i]
                == state.edited()[i]
        }),
{
}

/// A reset takes back what it names: nothing, a knot, a basis or all. Where something could be taken
/// back, the branches are refreshed, and with everything taken back they are cleared.
pub proof fn resets_take_back_what_they_name(
    state: BasisKnotEditState,
    basis_id: usize,
    knot: usize,
    which: KnotReset,
)
    ensures
        ({
            let r = crate::gui::knots_taken_back(state, basis_id, knot, which);
            let asked = crate::gui::reset_request(Some(state), basis_id, knot, which);
            &&& which is Nothing ==> r == state.edited() && asked is Nothing
            &&& which is All ==> r == state.original() && asked is Clear
            &&& which is Basis && basis_id < state.bases() ==> asked is Refresh
            &&& which is Knot && basis_id < state.bases() && knot < state.editable()
                ==> asked is Refresh
            &&& asked is Nothing ==> r == state.edited()
            &&& basis_id >= state.bases() && !(which is All) ==> asked is Nothing
            &&& which is Knot && knot >= state.editable() ==> asked is Nothing
            &&& crate::gui::reset_request(None, basis_id, knot, which) is Nothing
        }),
{
}

/// Controls that were used take effect: the settings become those that are shown, with the preset
/// that was picked, and regions come into range. What a course of playback depends on makes it start
/// over: turning it on, the policy, the regions, the seed, the interval, a preset, a limit of the
/// costs, or asking for it. The selected region is always one of them.
pub proof fn used_controls_take_effect(
    before: BasisGraphPlaybackConfig,
    shown: BasisGraphPlaybackConfig,
    regions_before: BasisGraphRegionConfig,
    regions: BasisGraphRegionConfig,
    selected_region: u32,
    edits: GraphControlEdits,
)
    ensures
        ({
            let r = crate::gui::control_outcome(
                before,
                shown,
                regions_before,
                regions,
                selected_region,
                edits,
            );
            let preset = edits.preset_picked is Some && !(edits.preset_picked->0 is Custom);
            let used = edits.enabled_toggled || edits.policy_changed || edits.region_changed
                || edits.number_changed || edits.seed_changed || edits.interval_changed || preset;
            let costs = {
                &&& r.config.max_position_cost_enabled == before.max_position_cost_enabled
                &&& r.config.max_velocity_cost_enabled == before.max_velocity_cost_enabled
                &&& r.config.max_acceleration_cost_enabled == before.max_acceleration_cost_enabled
                &&& crate::playback_laws::equal_numbers(
                    r.config.max_position_cost,
                    before.max_position_cost,
                )
                &&& crate::playback_laws::equal_numbers(
                    r.config.max_velocity_cost,
                    before.max_velocity_cost,
                )
                &&& crate::playback_laws::equal_numbers(
                    r.config.max_acceleration_cost,
                    before.max_acceleration_cost,
                )
            };
            &&& r.changed == used
            &&& !used ==> r.config == before
            &&& used && edits.preset_picked is None ==> r.config == shown
            &&& used && edits.preset_picked is Some ==> same_beside_costs(r.config, shown)
            &&& used && preset ==> r.config == crate::gui::with_preset(
                shown,
                edits.preset_picked->0,
            )
            &&& edits.region_changed ==> r.regions == regions.in_range()
            &&& !edits.region_changed ==> r.regions == regions_before
            &&& r.reset <==> (edits.enabled_toggled && shown.enabled) || edits.policy_changed
                || edits.reset_clicked || edits.region_changed || edits.seed_changed
                || edits.interval_changed || preset || (used && !costs)
            &&& r.selected_region < regions.region_total()
            &&& selected_region < regions.region_total() ==> r.selected_region == selected_region
            &&& selected_region >= regions.region_total() ==> r.selected_region + 1
                == regions.region_total()
        }),
{
    let r = crate::gui::control_outcome(
        before,
        shown,
        regions_before,
        regions,
        selected_region,
        edits,
    );
    crate::playback_laws::values_compare_by_pattern(
        r.config.max_position_cost,
        before.max_position_cost,
    );
    crate::playback_laws::values_compare_by_pattern(
        r.config.max_velocity_cost,
        before.max_velocity_cost,
    );
    crate::playback_laws::values_compare_by_pattern(
        r.config.max_acceleration_cost,
        before.max_acceleration_cost,
    );
}

/// The target that is shown is where the first branch leads that respects every limit; nothing is
/// shown without one, or where it is not asked for.
pub proof fn the_first_usable_target_is_shown(
    branches: Seq<BasisMotionGraphBranch>,
    config: BasisGraphPlaybackConfig,
    shown: bool,
)
    ensures
        match crate::gui::shown_target(branches, config, shown) {
            Some(target) => shown && exists|i: int|
                {
                    &&& 0 <= i < branches.len()
                    &&& (#[trigger] branches[i]).to_basis == target
                    &&& crate::basis_graph_laws::respects_limits(branches[i], config)
                    &&& forall|j: int|
                        0 <= j < i ==> !crate::basis_graph_laws::respects_limits(
                            #[trigger] branches[j],
                            config,
                        )
                },
            None => !shown || forall|i: int|
                0 <= i < branches.len() ==> !crate::basis_graph_laws::respects_limits(
                    #[trigger] branches[i],
                    config,
                ),
        },
{
    crate::basis_graph_laws::kept_branches_respect_the_limits(branches, config);
    let kept = crate::gui::usable(branches, config);
    if kept.len() > 0 {
        let i = choose|i: int|
            0 <= i < branches.len() && kept[0] == #[trigger] branches[i] && forall|j: int|
                0 <= j < i ==> !crate::basis_graph_laws::respects_limits(
                    #[trigger] branches[j],
                    config,
                );
        assert(crate::basis_graph_laws::respects_limits(kept[0], config));
        assert(branches[i].to_basis == kept[0].to_basis);
    } else {
        assert forall|i: int| 0 <= i < branches.len() implies
            !crate::basis_graph_laws::respects_limits(#[trigger] branches[i], config) by {
            if crate::basis_graph_laws::respects_limits(branches[i], config) {
                assert(kept.contains(branches[i]));
            }
        }
    }
}

/// Which fields a form asks for.
pub open spec fn is_asked(choices: ConfigChoices, field: ConfigField) -> bool {
    match field {
        ConfigField::MergeDistance => choices.merge_type is Axis,
        ConfigField::MergeDotThreshold => choices.merge_type is Edge,
        ConfigField::MergeTopK => choices.merge_type is Edge,
        ConfigField::UseCache => !(choices.merge_type is Off),
        ConfigField::CacheSize => !(choices.merge_type is Off) && choices.use_cache,
        ConfigField::BlendingWidth => choices.lod_blending,
        ConfigField::BboxCheck => choices.lod_blending,
        ConfigField::BlendingTolerance => choices.lod_blending,
        ConfigField::HeightMapSize => choices.surface_type is HeightMap,
        ConfigField::HeightMapType => choices.surface_type is HeightMap,
        ConfigField::HeightMapScale => choices.surface_type is HeightMap,
        ConfigField::HeightTexture => choices.surface_type is HeightMap
            && choices.height_map_type is Texture,
        ConfigField::SphereRadius => choices.surface_type is Sphere,
        _ => true,
    }
}

/// The place of a field in a form.
pub open spec fn place_of(field: ConfigField) -> int {
    match field {
        ConfigField::MapSize => 0,
        ConfigField::CenterOption => 1,
        ConfigField::UpdateDistance => 2,
        ConfigField::TileWidth => 3,
        ConfigField::TileSortType => 4,
        ConfigField::MergeType => 5,
        ConfigField::MergeDistance => 6,
        ConfigField::MergeDotThreshold => 7,
        ConfigField::MergeTopK => 8,
        ConfigField::UseCache => 9,
        ConfigField::CacheSize => 10,
        ConfigField::LodMaxDistance => 11,
        ConfigField::LodBlending => 12,
        ConfigField::BlendingWidth => 13,
        ConfigField::BboxCheck => 14,
        ConfigField::BlendingTolerance => 15,
        ConfigField::SurfaceType => 16,
        ConfigField::HeightMapSize => 17,
        ConfigField::HeightMapType => 18,
        ConfigField::HeightTexture => 19,
        ConfigField::HeightMapScale => 20,
        ConfigField::SphereRadius => 21,
        ConfigField::SkyboxTexture => 22,
        ConfigField::ProxyTexture => 23,
        ConfigField::Switches => 24,
    }
}

/// Fields come in the order of the form, and lie between two places of it.
pub open spec fn in_form_order(fields: Seq<ConfigField>, low: int, high: int) -> bool {
    &&& forall|i: int| 0 <= i < fields.len() ==> low <= place_of(#[trigger] fields[i]) <= high
    &&& forall|i: int, j: int|
        0 <= i < j < fields.len() ==> place_of(#[trigger] fields[i]) < place_of(#[trigger] fields[j])
}

/// The part of a form between two places holds what is asked for there.
pub open spec fn asks(
    choices: ConfigChoices,
    fields: Seq<ConfigField>,
    low: int,
    high: int,
) -> bool {
    &&& in_form_order(fields, low, high)
    &&& forall|f: ConfigField|
        low <= place_of(f) <= high ==> (fields.contains(f) <==> #[trigger] is_asked(choices, f))
}

proof fn parts_of_a_form_join(
    choices: ConfigChoices,
    a: Seq<ConfigField>,
    b: Seq<ConfigField>,
    low: int,
    middle: int,
    high: int,
)
    requires
        low <= middle < high,
        asks(choices, a, low, middle),
        asks(choices, b, middle + 1, high),
    ensures
        asks(choices, a + b, low, high),
{
    let whole = a + b;
    assert forall|i: int| 0 <= i < whole.len() implies low <= place_of(#[trigger] whole[i])
        <= high by {
        if i < a.len() {
            assert(whole[i] == a[i]);
        } else {
            assert(whole[i] == b[i - a.len()]);
        }
    }
    assert forall|i: int, j: int| 0 <= i < j < whole.len() implies place_of(#[trigger] whole[i])
        < place_of(#[trigger] whole[j]) by {
        if j < a.len() {
            assert(whole[i] == a[i] && whole[j] == a[j]);
        } else if i < a.len() {
            assert(whole[i] == a[i] && whole[j] == b[j - a.len()]);
        } else {
            assert(whole[i] == b[i - a.len()] && whole[j] == b[j - a.len()]);
        }
    }
    assert forall|f: ConfigField| low <= place_of(f) <= high implies (whole.contains(f)
        <==> #[trigger] is_asked(choices, f)) by {
        if whole.contains(f) {
            let i = choose|i: int| 0 <= i < whole.len() && whole[i] == f;
            if i < a.len() {
                assert(a[i] == f);
                assert(a.contains(f));
            } else {
                assert(b[i - a.len()] == f);
                assert(b.contains(f));
            }
        }
        if is_asked(choices, f) {
            if place_of(f) <= middle {
                let i = choose|i: int| 0 <= i < a.len() && a[i] == f;
                assert(whole[i] == f);
            } else {
                let i = choose|i: int| 0 <= i < b.len() && b[i] == f;
                assert(whole[a.len() + i] == f);
            }
        }
    }
}

/// A form asks for exactly the fields that the choices call for, each once and in its place.
pub proof fn forms_ask_for_what_is_chosen(choices: ConfigChoices)
    ensures
        asks(choices, crate::gui_forms::fields_for(choices), 0, 24),
{
    let head = seq![
        ConfigField::MapSize,
        ConfigField::CenterOption,
        ConfigField::UpdateDistance,
        ConfigField::TileWidth,
        ConfigField::TileSortType,
    ];
    let merge = crate::gui_forms::merge_fields(choices.merge_type, choices.use_cache);
    let lod = crate::gui_forms::lod_fields(choices.lod_blending);
    let surface = crate::gui_forms::surface_fields(choices.surface_type, choices.height_map_type);
    let tail = seq![
        ConfigField::SkyboxTexture,
        ConfigField::ProxyTexture,
        ConfigField::Switches,
    ];
    heads_ask(choices);
    merges_ask(choices);
    lods_ask(choices);
    surfaces_ask(choices);
    parts_of_a_form_join(choices, head, merge, 0, 4, 10);
    parts_of_a_form_join(choices, head + merge, lod, 0, 10, 15);
    parts_of_a_form_join(choices, head + merge + lod, surface, 0, 15, 21);
    parts_of_a_form_join(choices, head + merge + lod + surface, tail, 0, 21, 24);
}

proof fn heads_ask(choices: ConfigChoices)
    ensures
        asks(
            choices,
            seq![
                ConfigField::MapSize,
                ConfigField::CenterOption,
                ConfigField::UpdateDistance,
                ConfigField::TileWidth,
                ConfigField::TileSortType,
            ],
            0,
            4,
        ),
        asks(
            choices,
            seq![ConfigField::SkyboxTexture, ConfigField::ProxyTexture, ConfigField::Switches],
            22,
            24,
        ),
{
    let head = seq![
        ConfigField::MapSize,
        ConfigField::CenterOption,
        ConfigField::UpdateDistance,
        ConfigField::TileWidth,
        ConfigField::TileSortType,
    ];
    let tail = seq![
        ConfigField::SkyboxTexture,
        ConfigField::ProxyTexture,
        ConfigField::Switches,
    ];
    assert(head[0] == ConfigField::MapSize && head[1] == ConfigField::CenterOption && head[2]
        == ConfigField::UpdateDistance && head[3] == ConfigField::TileWidth && head[4]
        == ConfigField::TileSortType);
    assert(tail[0] == ConfigField::SkyboxTexture && tail[1] == ConfigField::ProxyTexture && tail[2]
        == ConfigField::Switches);
    assert forall|f: ConfigField| 0 <= place_of(f) <= 4 implies (head.contains(f)
        <==> #[trigger] is_asked(choices, f)) by {
        assert(head[place_of(f)] == f);
    }
    assert forall|f: ConfigField| 22 <= place_of(f) <= 24 implies (tail.contains(f)
        <==> #[trigger] is_asked(choices, f)) by {
        assert(tail[place_of(f) - 22] == f);
    }
}

proof fn merges_ask(choices: ConfigChoices)
    ensures
        asks(
            choices,
            crate::gui_forms::merge_fields(choices.merge_type, choices.use_cache),
            5,
            10,
        ),
{
    let fields = crate::gui_forms::merge_fields(choices.merge_type, choices.use_cache);
    assert(fields[0] == ConfigField::MergeType);
    if choices.merge_type is Axis {
        assert(fields[1] == ConfigField::MergeDistance);
        assert(fields[2] == ConfigField::UseCache);
        if choices.use_cache {
            assert(fields[3] == ConfigField::CacheSize);
        }
    } else if choices.merge_type is Edge {
        assert(fields[1] == ConfigField::MergeDotThreshold);
        assert(fields[2] == ConfigField::MergeTopK);
        assert(fields[3] == ConfigField::UseCache);
        if choices.use_cache {
            assert(fields[4] == ConfigField::CacheSize);
        }
    }
}

proof fn lods_ask(choices: ConfigChoices)
    ensures
        asks(choices, crate::gui_forms::lod_fields(choices.lod_blending), 11, 15),
{
    let fields = crate::gui_forms::lod_fields(choices.lod_blending);
    assert(fields[0] == ConfigField::LodMaxDistance);
    assert(fields[1] == ConfigField::LodBlending);
    if choices.lod_blending {
        assert(fields[2] == ConfigField::BlendingWidth);
        assert(fields[3] == ConfigField::BboxCheck);
        assert(fields[4] == ConfigField::BlendingTolerance);
    }
}

proof fn surfaces_ask(choices: ConfigChoices)
    ensures
        asks(
            choices,
            crate::gui_forms::surface_fields(choices.surface_type, choices.height_map_type),
            16,
            21,
        ),
{
    let fields = crate::gui_forms::surface_fields(choices.surface_type, choices.height_map_type);
    assert(fields[0] == ConfigField::SurfaceType);
    if choices.surface_type is Sphere {
        assert(fields[1] == ConfigField::SphereRadius);
    } else if choices.surface_type is HeightMap {
        assert(fields[1] == ConfigField::HeightMapSize);
        assert(fields[2] == ConfigField::HeightMapType);
        if choices.height_map_type is Texture {
            assert(fields[3] == ConfigField::HeightTexture);
            assert(fields[4] == ConfigField::HeightMapScale);
        } else {
            assert(fields[3] == ConfigField::HeightMapScale);
        }
    }
}

/// A part of a menu is there where it is called for.
pub proof fn parts_are_there_where_called_for(there: bool, part: MenuPart)
    ensures
        there ==> crate::gui_forms::part_if(there, part).len() == 1 && crate::gui_forms::part_if(
            there,
            part,
        )[0] == part,
        !there ==> crate::gui_forms::part_if(there, part).len() == 0,
{
}

/// A curve is drawn with so many samples per knot, and never with fewer than the least number.
pub proof fn curves_are_drawn_smoothly(knot_count: int, per_knot: int, least: int)
    ensures
        ({
            let n = crate::gui_plot::samples(knot_count, per_knot, least);
            &&& n >= least
            &&& n >= knot_count * per_knot
            &&& n == least || n == knot_count * per_knot
        }),
{
}

/// The knot that is grabbed is within reach, and no knot is closer; of those as close it is the
/// first.
pub proof fn the_nearest_knot_is_grabbed(distances: Seq<u32>, knot: int, other: int)
    requires
        crate::gui_plot::grabbed(distances, knot),
        0 <= other < distances.len(),
    ensures
        0 <= knot < distances.len(),
        crate::float_bits::less_or_same(distances[knot], 0x4140_0000),
        !crate::float_bits::less(distances[other], distances[knot]),
        distances[other] == distances[knot] ==> knot <= other,
{
    if crate::float_bits::less(distances[other], distances[knot]) {
        crate::float_bits::total_order_refines_value_order(distances[other], distances[knot]);
        assert(crate::float_bits::less_or_same(distances[other], 0x4140_0000));
    }
    if distances[other] == distances[knot] {
        assert(crate::float_bits::less_or_same(distances[other], 0x4140_0000));
    }
}

/// A selected knot is marked as such; of the others those of the closure are, then those edited.
pub proof fn marks_tell_knots_apart(selected: bool, closure: bool, edited: bool)
    ensures
        ({
            let mark = crate::gui_plot::mark_of(selected, closure, edited);
            &&& mark is Selected <==> selected
            &&& mark is Closure <==> !selected && closure
            &&& mark is Edited <==> !selected && !closure && edited
            &&& mark is Plain <==> !selected && !closure && !edited
        }),
{
}

/// A selected region stays where it exists; else the last is selected. Without regions there is one.
pub proof fn selected_regions_exist(selected: u32, regions: BasisGraphRegionConfig)
    requires
        1 <= regions.region_total() <= u32::MAX,
    ensures
        ({
            let r = crate::gui::region_kept(selected, regions);
            &&& regions.domain is GlobalBasis ==> r == 0
            &&& regions.domain is FbmRegions ==> {
                &&& r < regions.region_total()
                &&& selected < regions.region_total() ==> r == selected
                &&& selected >= regions.region_total() ==> r + 1 == regions.region_total()
            }
        }),
{
}

/// A basis that has an edit shows it; one that has none shows an edit without effect.
pub proof fn bases_show_their_edit(edits: Seq<BasisEditOverride>, basis_id: usize)
    ensures
        basis_id < edits.len() ==> crate::gui::edit_at(edits, basis_id) == edits[basis_id as int],
        basis_id >= edits.len() ==> !crate::gui::edit_at(edits, basis_id).enabled,
{
}

} // verus!
