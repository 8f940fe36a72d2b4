use gswt::motion::{
    canonical_edge_coordinate, motion_group_index, pack_motion_spline_knots, wang_edge_colors,
    CanonicalEdgeCoordinate, EdgeSide, MotionEdgeOrientation, MotionEditConfig, MotionSplineGroup,
    VectorSpline6, WangEdgeColors,
};

fn bits3(v: [f32; 3]) -> [u32; 3] {
    [v[0].to_bits(), v[1].to_bits(), v[2].to_bits()]
}

fn floats3(v: [u32; 3]) -> [f32; 3] {
    [f32::from_bits(v[0]), f32::from_bits(v[1]), f32::from_bits(v[2])]
}

fn edge_coordinate(side: EdgeSide, uv: [f32; 2]) -> CanonicalEdgeCoordinate {
    let complement = [1.0 - uv[0].clamp(0.0, 1.0), 1.0 - uv[1].clamp(0.0, 1.0)];
    canonical_edge_coordinate(
        side,
        [uv[0].to_bits(), uv[1].to_bits()],
        [complement[0].to_bits(), complement[1].to_bits()],
    )
}

fn sample_periodic(spline: &VectorSpline6, t: f32) -> [f32; 3] {
    let scaled = t.rem_euclid(1.0) * 6.0;
    let segment = scaled.floor() as usize % 6;
    let u = scaled - scaled.floor();
    let (a, b, c, d) = spline.segment_knots(segment);
    let (p0, p1, p2, p3) = (floats3(a), floats3(b), floats3(c), floats3(d));
    let mut out = [0.0_f32; 3];
    for axis in 0..3 {
        out[axis] = 0.5
            * (2.0 * p1[axis]
                + (-p0[axis] + p2[axis]) * u
                + (2.0 * p0[axis] - 5.0 * p1[axis] + 4.0 * p2[axis] - p3[axis]) * u * u
                + (-p0[axis] + 3.0 * p1[axis] - 3.0 * p2[axis] + p3[axis]) * u * u * u);
    }
    out
}

#[test]
fn default_motion_edit_config_preserves_existing_rendering() {
    let config = MotionEditConfig::default();

    assert!(!config.enabled);
    assert_eq!(f32::from_bits(config.amplitude), 0.0);
    assert_eq!(f32::from_bits(config.edge_band), 0.12);
    assert_eq!(f32::from_bits(config.wave_phase_span), 0.25);
    assert_eq!(f32::from_bits(config.detail_amplitude), 0.0);
    assert!(config.spline_groups.iter().all(MotionSplineGroup::is_zero));
}

#[test]
fn zero_motion_clears_all_spline_groups() {
    let mut config = MotionEditConfig::default();
    config.load_wave_preset();

    config.zero_motion();

    assert!(config.spline_groups.iter().all(MotionSplineGroup::is_zero));
}

#[test]
fn wave_preset_creates_base_wave_and_detail_motion() {
    let mut config = MotionEditConfig::default();

    config.load_wave_preset();

    assert!(config.spline_groups.iter().any(|group| !group.base.is_zero()));
    assert!(config.spline_groups.iter().any(|group| !group.wave.is_zero()));
    assert!(config.spline_groups.iter().any(|group| !group.detail.is_zero()));
}

#[test]
fn wave_preset_heights_are_mirrored_between_colours() {
    let mut config = MotionEditConfig::default();
    config.load_wave_preset();
    assert_eq!(f32::from_bits(config.amplitude), 0.08);
    assert_eq!(f32::from_bits(config.edge_band), 0.12);
    assert_eq!(f32::from_bits(config.wave_phase_span), 0.35);
    assert_eq!(f32::from_bits(config.detail_amplitude), 0.35);
    for knot in 1..6 {
        let one = floats3(config.group(MotionEdgeOrientation::Vertical, 0).wave.knots[knot]);
        let other = floats3(config.group(MotionEdgeOrientation::Vertical, 1).wave.knots[knot]);
        assert_eq!(one[2], -other[2]);
    }
}

#[test]
fn periodic_catmull_rom_wraps_six_knots() {
    let spline = VectorSpline6 {
        knots: [
            bits3([0.0, 0.0, 0.0]),
            bits3([1.0, 0.0, 0.0]),
            bits3([1.0, 1.0, 0.0]),
            bits3([0.0, 1.0, 0.0]),
            bits3([-1.0, 1.0, 0.0]),
            bits3([-1.0, 0.0, 0.0]),
        ],
    };

    assert_eq!(sample_periodic(&spline, 0.0), [0.0, 0.0, 0.0]);
    assert_eq!(sample_periodic(&spline, 1.0 / 6.0), [1.0, 0.0, 0.0]);
    assert_eq!(sample_periodic(&spline, 2.0 / 6.0), [1.0, 1.0, 0.0]);
    assert_eq!(sample_periodic(&spline, 3.0 / 6.0), [0.0, 1.0, 0.0]);
    assert_eq!(sample_periodic(&spline, 4.0 / 6.0), [-1.0, 1.0, 0.0]);
    assert_eq!(sample_periodic(&spline, 5.0 / 6.0), [-1.0, 0.0, 0.0]);
    assert_eq!(sample_periodic(&spline, 1.0), sample_periodic(&spline, 0.0));
}

#[test]
fn wang_edge_colors_follow_tile_id_bit_layout() {
    let colors = wang_edge_colors(0b1011);

    assert_eq!(
        colors,
        WangEdgeColors {
            west: 1,
            north: 0,
            east: 1,
            south: 1,
        }
    );
}

#[test]
fn edge_colors_spell_the_last_four_digits() {
    for tile_id in 0..64_u32 {
        let c = wang_edge_colors(tile_id);
        assert_eq!(8 * c.west + 4 * c.north + 2 * c.east + c.south, tile_id % 16);
    }
}

#[test]
fn canonical_edge_coordinates_match_across_neighboring_tiles() {
    let west_of_right_tile = edge_coordinate(EdgeSide::West, [0.0, 0.25]);
    let east_of_left_tile = edge_coordinate(EdgeSide::East, [1.0, 0.25]);

    assert_eq!(west_of_right_tile.s, east_of_left_tile.s);
    assert_eq!(f32::from_bits(west_of_right_tile.distance), 0.0);
    assert_eq!(f32::from_bits(east_of_left_tile.distance), 0.0);
}

#[test]
fn edge_distance_is_normalized_for_each_side() {
    let distance = |side, uv| f32::from_bits(edge_coordinate(side, uv).distance);
    assert_eq!(distance(EdgeSide::West, [0.2, 0.5]), 0.2);
    assert_eq!(distance(EdgeSide::East, [0.2, 0.5]), 0.8);
    assert_eq!(distance(EdgeSide::South, [0.5, 0.2]), 0.2);
    assert_eq!(distance(EdgeSide::North, [0.5, 0.2]), 0.8);
}

#[test]
fn points_outside_a_tile_are_taken_to_its_border() {
    let place = edge_coordinate(EdgeSide::West, [-3.0, 2.0]);
    assert_eq!(f32::from_bits(place.distance), 0.0);
    assert_eq!(f32::from_bits(place.s), 1.0);
}

#[test]
fn groups_are_numbered_by_orientation_and_colour() {
    assert_eq!(motion_group_index(MotionEdgeOrientation::Vertical, 0), 0);
    assert_eq!(motion_group_index(MotionEdgeOrientation::Vertical, 3), 1);
    assert_eq!(motion_group_index(MotionEdgeOrientation::Horizontal, 0), 2);
    assert_eq!(motion_group_index(MotionEdgeOrientation::Horizontal, 1), 3);
    assert_eq!(EdgeSide::West.orientation(), MotionEdgeOrientation::Vertical);
    assert_eq!(EdgeSide::East.orientation(), MotionEdgeOrientation::Vertical);
    assert_eq!(EdgeSide::South.orientation(), MotionEdgeOrientation::Horizontal);
    assert_eq!(EdgeSide::North.orientation(), MotionEdgeOrientation::Horizontal);
}

#[test]
fn packed_knots_follow_group_family_and_knot() {
    let mut config = MotionEditConfig::default();
    config.load_wave_preset();
    let rows = pack_motion_spline_knots(&config);
    assert_eq!(rows.len(), 72);
    for group in 0..4 {
        for knot in 0..6 {
            let detail = config.spline_groups[group].detail.knots[knot];
            let row = rows[group * 18 + 12 + knot];
            assert_eq!([row[0], row[1], row[2]], detail);
            assert_eq!(row[3], 0);
        }
    }
}

#[test]
fn motion_is_compared_by_value() {
    let zero = VectorSpline6::zero();
    assert_eq!(zero.knots, [[0; 3]; 6]);
    assert_eq!(MotionSplineGroup::zero().detail.knots, [[0; 3]; 6]);
    let mut config = MotionEditConfig::default();
    assert!(config.spline_groups.iter().all(|group| group.wave.knots == [[0; 3]; 6]));
    config.load_wave_preset();
    assert_ne!(config, MotionEditConfig::default());
    config.zero_motion();
    assert!(config.spline_groups.iter().all(|group| group.base.knots == [[0; 3]; 6]));

    let minus = (-0.0_f32).to_bits();
    let mut other = zero;
    other.knots[5] = [minus, 0, minus];
    assert_eq!(zero, other);
    other.knots[5][1] = f32::NAN.to_bits();
    assert_ne!(other, other);
    let mut changed = MotionEditConfig::default();
    changed.amplitude = minus;
    assert_eq!(changed, MotionEditConfig::default());
    changed.spline_groups[3].detail.knots[2][0] = 1.0_f32.to_bits();
    assert_ne!(changed, MotionEditConfig::default());
    assert_eq!(
        CanonicalEdgeCoordinate { s: minus, distance: 0 },
        CanonicalEdgeCoordinate { s: 0, distance: minus }
    );
}
