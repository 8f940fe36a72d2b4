use gswt::basis_bank_edit::{
    apply_basis_knot_plane_delta, pack_basis_edit_overrides, reset_all_basis_edits,
    reset_basis_edit, resize_basis_edit_overrides, BasisEditOverride, BasisKnotEditPlane,
    BasisKnotEditState,
};
use gswt::basis_bank_sampling::basis_segment_points;

fn bits(values: &[f32]) -> Vec<u32> {
    values.iter().map(|v| v.to_bits()).collect()
}

fn bits3(v: [f32; 3]) -> [u32; 3] {
    [v[0].to_bits(), v[1].to_bits(), v[2].to_bits()]
}

fn floats(values: &[u32]) -> Vec<f32> {
    values.iter().map(|v| f32::from_bits(*v)).collect()
}

fn basis_bank_delta(knots: &[u32], bases: usize, count: usize, basis: usize, t: f32) -> [f32; 3] {
    let scaled = t.rem_euclid(1.0) * count as f32;
    let segment = scaled.floor() as usize % count;
    let u = scaled - segment as f32;
    let p = basis_segment_points(knots, bases, count, basis, segment).unwrap();
    let mut out = [0.0_f32; 3];
    for c in 0..3 {
        let p: Vec<f32> = p.iter().map(|point| f32::from_bits(point[c])).collect();
        out[c] = 0.5
            * (2.0 * p[1]
                + (-p[0] + p[2]) * u
                + (2.0 * p[0] - 5.0 * p[1] + 4.0 * p[2] - p[3]) * u * u
                + (-p[0] + 3.0 * p[1] - 3.0 * p[2] + p[3]) * u * u * u);
    }
    out
}

fn edited_basis_bank_delta(knots: &[u32], t: f32, edit: BasisEditOverride) -> [f32; 3] {
    let [enabled, amplitude, offset, speed] = edit.packed().map(f32::from_bits);
    if enabled == 0.0 {
        return basis_bank_delta(knots, 1, 4, 0, t);
    }
    basis_bank_delta(knots, 1, 4, 0, t * speed + offset).map(|v| v * amplitude)
}

fn override_of(amplitude: f32, offset: f32, speed: f32) -> BasisEditOverride {
    BasisEditOverride {
        enabled: true,
        amplitude_scale: amplitude.to_bits(),
        phase_offset: offset.to_bits(),
        time_scale: speed.to_bits(),
    }
}

fn plane_delta(point: [f32; 3], plane: BasisKnotEditPlane, delta: [f32; 2]) -> Option<[f32; 3]> {
    let (a, b) = match plane {
        BasisKnotEditPlane::XY => (0, 1),
        BasisKnotEditPlane::XZ => (0, 2),
        BasisKnotEditPlane::YZ => (1, 2),
    };
    let moved = [point[a] + delta[0], point[b] + delta[1]];
    apply_basis_knot_plane_delta(
        bits3(point),
        plane,
        [delta[0].to_bits(), delta[1].to_bits()],
        [moved[0].to_bits(), moved[1].to_bits()],
    )
    .map(|p| p.map(f32::from_bits))
}

fn single_basis_knots() -> Vec<u32> {
    bits(&[
        0.0, 0.0, 0.0, //
        1.0, 0.0, 0.0, //
        2.0, 0.0, 0.0, //
        3.0, 0.0, 0.0, //
    ])
}

#[test]
fn default_edit_override_samples_identically_to_original_basis() {
    let knots = single_basis_knots();
    let edit = BasisEditOverride::default();

    assert_eq!(edited_basis_bank_delta(&knots, 0.25, edit), [1.0, 0.0, 0.0]);
}

#[test]
fn enabled_amplitude_scale_multiplies_sampled_displacement() {
    let knots = single_basis_knots();
    let edit = override_of(2.0, 0.0, 1.0);

    assert_eq!(edited_basis_bank_delta(&knots, 0.25, edit), [2.0, 0.0, 0.0]);
}

#[test]
fn phase_offset_shifts_sample_time_and_wraps_periodically() {
    let knots = single_basis_knots();
    let edit = override_of(1.0, 0.25, 1.0);

    assert_eq!(edited_basis_bank_delta(&knots, 1.0, edit), [1.0, 0.0, 0.0]);
}

#[test]
fn time_scale_changes_sample_time_and_wraps_periodically() {
    let knots = single_basis_knots();
    let edit = override_of(1.0, 0.0, 2.0);

    assert_eq!(edited_basis_bank_delta(&knots, 0.625, edit), [1.0, 0.0, 0.0]);
}

#[test]
fn edit_buffer_packing_emits_one_vec4_per_global_basis_with_defaults() {
    let edits = vec![BasisEditOverride::default(), override_of(0.5, -0.25, 1.5)];

    let packed = pack_basis_edit_overrides(&edits, 3);

    assert_eq!(packed.len(), 3);
    assert_eq!(packed[0].map(f32::from_bits), [0.0, 1.0, 0.0, 1.0]);
    assert_eq!(packed[1].map(f32::from_bits), [1.0, 0.5, -0.25, 1.5]);
    assert_eq!(packed[2].map(f32::from_bits), [0.0, 1.0, 0.0, 1.0]);
}

#[test]
fn reset_helpers_restore_selected_or_all_edits_to_defaults() {
    let edited = override_of(0.5, 0.25, 2.0);
    let mut edits = vec![edited; 3];

    reset_basis_edit(&mut edits, 1);
    assert_eq!(edits[0], edited);
    assert_eq!(edits[1], BasisEditOverride::default());
    assert_eq!(edits[2], edited);

    reset_all_basis_edits(&mut edits);
    assert!(edits.iter().all(|edit| *edit == BasisEditOverride::default()));
}

#[test]
fn edits_are_resized_with_defaults() {
    let edited = override_of(0.5, 0.25, 2.0);
    let mut edits = vec![edited; 3];
    resize_basis_edit_overrides(&mut edits, 2);
    assert_eq!(edits, vec![edited; 2]);
    resize_basis_edit_overrides(&mut edits, 4);
    assert_eq!(edits[1], edited);
    assert_eq!(edits[3], BasisEditOverride::default());
    assert!(edited.equals(edited));
    let zero = override_of(0.5, 0.0, 2.0);
    let negative_zero = override_of(0.5, -0.0, 2.0);
    assert!(zero.equals(negative_zero));
}

#[test]
fn plane_drag_updates_only_projected_components() {
    let point = [1.0, 2.0, 3.0];

    assert_eq!(
        plane_delta(point, BasisKnotEditPlane::XY, [0.5, -1.0]).unwrap(),
        [1.5, 1.0, 3.0]
    );
    assert_eq!(
        plane_delta(point, BasisKnotEditPlane::XZ, [0.5, -1.0]).unwrap(),
        [1.5, 2.0, 2.0]
    );
    assert_eq!(
        plane_delta(point, BasisKnotEditPlane::YZ, [0.5, -1.0]).unwrap(),
        [1.0, 2.5, 2.0]
    );
}

#[test]
fn plane_drag_rejects_non_finite_values() {
    assert!(plane_delta([1.0, 2.0, 3.0], BasisKnotEditPlane::XY, [f32::NAN, 0.0]).is_none());
}

#[test]
fn knot_edit_state_edits_source_and_closure_knots() {
    let original = bits(&[
        0.0, 0.0, 0.0, //
        1.0, 0.0, 0.0, //
        2.0, 0.0, 0.0, //
        99.0, 99.0, 99.0, //
    ]);
    let mut edits = BasisKnotEditState::new(original, 1, 4, 4);

    assert!(edits.set_knot(0, 1, bits3([1.0, 2.0, 3.0])));
    assert_eq!(edits.knot(0, 1), Some(bits3([1.0, 2.0, 3.0])));
    assert!(edits.set_knot(0, 3, bits3([4.0, 5.0, 6.0])));
    assert_eq!(edits.knot(0, 3), Some(bits3([4.0, 5.0, 6.0])));
}

#[test]
fn knot_edit_reset_helpers_restore_original_knots() {
    let original = bits(&[
        0.0, 0.0, 0.0, //
        1.0, 0.0, 0.0, //
        2.0, 0.0, 0.0, //
        10.0, 0.0, 0.0, //
        11.0, 0.0, 0.0, //
        12.0, 0.0, 0.0, //
    ]);
    let mut edits = BasisKnotEditState::new(original.clone(), 2, 3, 3);

    assert!(edits.set_knot(0, 1, bits3([5.0, 5.0, 5.0])));
    assert!(edits.set_knot(1, 1, bits3([6.0, 6.0, 6.0])));
    edits.reset_knot(0, 1);
    assert_eq!(edits.knot(0, 1), Some(bits3([1.0, 0.0, 0.0])));
    assert_eq!(edits.knot(1, 1), Some(bits3([6.0, 6.0, 6.0])));

    edits.reset_basis(1);
    assert_eq!(edits.knot(1, 1), Some(bits3([11.0, 0.0, 0.0])));

    assert!(edits.set_knot(0, 2, bits3([7.0, 7.0, 7.0])));
    edits.reset_all();
    assert_eq!(edits.edited_knots(), original.as_slice());
}

#[test]
fn knots_outside_the_bank_are_refused() {
    let mut edits = BasisKnotEditState::new(single_basis_knots(), 1, 4, 2);
    assert!(edits.matches_shape(1, 4));
    assert!(!edits.matches_shape(2, 2));
    assert_eq!((edits.basis_count(), edits.knot_count(), edits.editable_knot_count()), (1, 4, 2));
    assert!(!edits.set_knot(0, 2, [1, 1, 1]));
    assert!(!edits.set_knot(1, 0, [1, 1, 1]));
    assert!(!edits.set_knot(0, 0, bits3([f32::INFINITY, 0.0, 0.0])));
    assert_eq!(edits.knot(0, 9), None);
    assert!(!edits.reset_knot(0, 3));
    assert!(!edits.reset_basis(1));
    assert_eq!(floats(edits.original_knots()), floats(edits.edited_knots()));
}

#[test]
fn edited_knot_sampling_uses_modified_geometry() {
    let original = single_basis_knots();
    let mut edits = BasisKnotEditState::new(original, 1, 4, 4);

    assert_eq!(
        basis_bank_delta(edits.edited_knots(), 1, 4, 0, 0.25),
        [1.0, 0.0, 0.0]
    );
    assert!(edits.set_knot(0, 1, bits3([1.0, 2.0, 0.0])));
    assert_eq!(
        basis_bank_delta(edits.edited_knots(), 1, 4, 0, 0.25),
        [1.0, 2.0, 0.0]
    );
}

#[test]
fn edited_closure_knot_changes_sampling_near_loop_boundary() {
    let original = single_basis_knots();
    let mut edits = BasisKnotEditState::new(original, 1, 4, 4);
    let before = basis_bank_delta(edits.edited_knots(), 1, 4, 0, 0.875);

    assert!(edits.set_knot(0, 3, bits3([3.0, 4.0, 0.0])));
    let after = basis_bank_delta(edits.edited_knots(), 1, 4, 0, 0.875);

    assert_ne!(before, after);
    assert!(after[1] > before[1]);

    edits.reset_knot(0, 3);
    assert_eq!(
        basis_bank_delta(edits.edited_knots(), 1, 4, 0, 0.875),
        before
    );
}

#[test]
fn edits_are_compared_by_value() {
    let edit = BasisEditOverride::default();
    let signed = BasisEditOverride { phase_offset: (-0.0_f32).to_bits(), ..edit };
    assert_eq!(edit, signed);
    let unknown = BasisEditOverride { time_scale: f32::NAN.to_bits(), ..edit };
    assert_ne!(unknown, unknown);

    let knots = bits(&[0.0; 12]);
    let state = BasisKnotEditState::new(knots, 1, 4, 4);
    let mut other = state.clone();
    assert_eq!(state, other);
    other.set_knot(0, 2, bits3([0.0, -0.0, 0.0]));
    assert_eq!(state, other);
    other.set_knot(0, 2, bits3([0.0, 1.0, 0.0]));
    assert_ne!(state, other);
}
