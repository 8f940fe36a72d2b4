//! Motion along the edges of Wang tiles: which splines an edge uses and how they are packed.

use vstd::prelude::*;

verus! {

pub const MOTION_KNOT_COUNT: usize = 6;

pub const MOTION_ORIENTATION_COUNT: usize = 2;

pub const MOTION_EDGE_COLOR_COUNT: usize = 2;

pub const MOTION_GROUP_COUNT: usize = 4;

pub const MOTION_SPLINE_FAMILY_COUNT: usize = 3;

/// Rows of the packed knots: groups times families times knots.
pub const MOTION_PACKED_KNOT_COUNT: usize = 72;

/// A closed spline of six knots, as bit patterns.
#[derive(Clone, Copy, Debug)]
pub struct VectorSpline6 {
    pub knots: [[u32; 3]; 6],
}

/// The splines of one kind of edge.
#[derive(Clone, Copy, Debug)]
pub struct MotionSplineGroup {
    pub base: VectorSpline6,
    pub wave: VectorSpline6,
    pub detail: VectorSpline6,
}

/// The procedural motion of a scene. Numbers are bit patterns.
#[derive(Clone, Debug)]
pub struct MotionEditConfig {
    pub enabled: bool,
    pub amplitude: u32,
    pub edge_band: u32,
    pub wave_phase_span: u32,
    pub detail_amplitude: u32,
    pub spline_groups: [MotionSplineGroup; 4],
}

impl VectorSpline6 {
    pub open spec fn same_spline(self, other: VectorSpline6) -> bool {
        crate::float_bits::same_points(self.knots@, other.knots@)
    }
}

impl PartialEq for VectorSpline6 {
    /// Numbers compare by value, not by bit pattern.
    fn eq(&self, other: &VectorSpline6) -> (r: bool) {
        crate::float_bits::are_same_points(self.knots.as_slice(), other.knots.as_slice())
    }
}

impl vstd::std_specs::cmp::PartialEqSpecImpl for VectorSpline6 {
    open spec fn obeys_eq_spec() -> bool {
        true
    }

    open spec fn eq_spec(&self, other: &VectorSpline6) -> bool {
        self.same_spline(*other)
    }
}

impl MotionSplineGroup {
    pub open spec fn same_group(self, other: MotionSplineGroup) -> bool {
        &&& self.base.same_spline(other.base)
        &&& self.wave.same_spline(other.wave)
        &&& self.detail.same_spline(other.detail)
    }
}

impl PartialEq for MotionSplineGroup {
    /// Numbers compare by value, not by bit pattern.
    fn eq(&self, other: &MotionSplineGroup) -> (r: bool) {
        self.base == other.base && self.wave == other.wave && self.detail == other.detail
    }
}

impl vstd::std_specs::cmp::PartialEqSpecImpl for MotionSplineGroup {
    open spec fn obeys_eq_spec() -> bool {
        true
    }

    open spec fn eq_spec(&self, other: &MotionSplineGroup) -> bool {
        self.same_group(*other)
    }
}

impl MotionEditConfig {
    pub open spec fn same_config(self, other: MotionEditConfig) -> bool {
        &&& self.enabled == other.enabled
        &&& crate::float_bits::same_value(self.amplitude, other.amplitude)
        &&& crate::float_bits::same_value(self.edge_band, other.edge_band)
        &&& crate::float_bits::same_value(self.wave_phase_span, other.wave_phase_span)
        &&& crate::float_bits::same_value(self.detail_amplitude, other.detail_amplitude)
        &&& forall|g: int|
            0 <= g < 4 ==> (#[trigger] self.spline_groups[g]).same_group(other.spline_groups[g])
    }
}

impl PartialEq for MotionEditConfig {
    /// Numbers compare by value, not by bit pattern.
    fn eq(&self, other: &MotionEditConfig) -> (r: bool) {
        let mut same: bool = self.enabled == other.enabled && crate::float_bits::is_same_value(
            self.amplitude,
            other.amplitude,
        ) && crate::float_bits::is_same_value(self.edge_band, other.edge_band)
            && crate::float_bits::is_same_value(self.wave_phase_span, other.wave_phase_span)
            && crate::float_bits::is_same_value(self.detail_amplitude, other.detail_amplitude);
        for g in 0..4usize
            invariant
                same == (self.enabled == other.enabled && crate::float_bits::same_value(
                    self.amplitude,
                    other.amplitude,
                ) && crate::float_bits::same_value(self.edge_band, other.edge_band)
                    && crate::float_bits::same_value(self.wave_phase_span, other.wave_phase_span)
                    && crate::float_bits::same_value(self.detail_amplitude, other.detail_amplitude)
                    && forall|k: int|
                    0 <= k < g ==> (#[trigger] self.spline_groups[k]).same_group(
                        other.spline_groups[k],
                    )),
        {
            same = same && self.spline_groups[g] == other.spline_groups[g];
        }
        same
    }
}

impl vstd::std_specs::cmp::PartialEqSpecImpl for MotionEditConfig {
    open spec fn obeys_eq_spec() -> bool {
        true
    }

    open spec fn eq_spec(&self, other: &MotionEditConfig) -> bool {
        self.same_config(*other)
    }
}

/// The value is `0.0` or `-0.0`.
pub open spec fn zero_value(bits: u32) -> bool {
    crate::float_bits::magnitude(bits) == 0
}

fn is_zero_value(bits: u32) -> (r: bool)
    ensures
        r == zero_value(bits),
{
    bits == 0 || bits == 0x8000_0000
}

pub open spec fn zero_point(p: [u32; 3]) -> bool {
    zero_value(p[0]) && zero_value(p[1]) && zero_value(p[2])
}

impl VectorSpline6 {
    pub open spec fn all_zero(self) -> bool {
        forall|k: int| 0 <= k < 6 ==> zero_point(#[trigger] self.knots[k])
    }

    /// Every knot is the origin, its zeros positive.
    pub open spec fn at_origin(self) -> bool {
        forall|k: int| 0 <= k < 6 ==> (#[trigger] self.knots[k])@ == seq![0u32, 0u32, 0u32]
    }

    /// A spline that does not move.
    pub fn zero() -> (r: VectorSpline6)
        ensures
            r.all_zero(),
            r.at_origin(),
    {
        let p: [u32; 3] = [0, 0, 0];
        assert(p@ =~= seq![0u32, 0u32, 0u32]);
        VectorSpline6 { knots: [p, p, p, p, p, p] }
    }

    /// Whether the spline does not move.
    pub fn is_zero(&self) -> (r: bool)
        ensures
            r == self.all_zero(),
    {
        let mut k: usize = 0;
        while k < 6
            invariant
                k <= 6,
                forall|m: int| 0 <= m < k ==> zero_point(#[trigger] self.knots[m]),
            decreases 6 - k,
        {
            let p: [u32; 3] = self.knots[k];
            if !(is_zero_value(p[0]) && is_zero_value(p[1]) && is_zero_value(p[2])) {
                assert(!zero_point(self.knots[k as int]));
                return false;
            }
            k = k + 1;
        }
        true
    }

    /// A spline along the third axis through the given heights, from the origin.
    pub open spec fn rises_through(self, heights: Seq<u32>) -> bool {
        &&& self.knots[0]@ == seq![0u32, 0u32, 0u32]
        &&& forall|k: int|
            0 <= k < 5 ==> (#[trigger] self.knots[k + 1])@ == seq![
                signed_zero(heights[k]),
                signed_zero(heights[k]),
                heights[k],
            ]
    }

    fn along_height(heights: [u32; 5]) -> (r: VectorSpline6)
        ensures
            r.rises_through(heights@),
    {
        let start: [u32; 3] = [0, 0, 0];
        let r: VectorSpline6 = VectorSpline6 {
            knots: [
                start,
                height_point(heights[0]),
                height_point(heights[1]),
                height_point(heights[2]),
                height_point(heights[3]),
                height_point(heights[4]),
            ],
        };
        assert(start@ =~= seq![0u32, 0u32, 0u32]);
        r
    }

    /// The four knots around a segment: the one before, its ends and the one behind, round the loop.
    pub fn segment_knots(&self, segment: usize) -> (r: ([u32; 3], [u32; 3], [u32; 3], [u32; 3]))
        requires
            segment <= usize::MAX - 6,
        ensures
            r.0 == self.knots[(segment + 5) % 6],
            r.1 == self.knots[segment as int % 6],
            r.2 == self.knots[(segment + 1) % 6],
            r.3 == self.knots[(segment + 2) % 6],
    {
        (
            self.knots[(segment + 5) % 6],
            self.knots[segment % 6],
            self.knots[(segment + 1) % 6],
            self.knots[(segment + 2) % 6],
        )
    }
}

/// A zero with the sign of a value.
pub open spec fn signed_zero(bits: u32) -> u32 {
    if crate::float_bits::negative(bits) {
        0x8000_0000
    } else {
        0
    }
}

fn height_point(height: u32) -> (r: [u32; 3])
    ensures
        r@ == seq![signed_zero(height), signed_zero(height), height],
{
    let zero: u32 = if height >= 0x8000_0000 {
        0x8000_0000
    } else {
        0
    };
    let r: [u32; 3] = [zero, zero, height];
    assert(r@ =~= seq![signed_zero(height), signed_zero(height), height]);
    r
}

impl MotionSplineGroup {
    pub open spec fn all_zero(self) -> bool {
        self.base.all_zero() && self.wave.all_zero() && self.detail.all_zero()
    }

    /// Every knot of the group is the origin, its zeros positive.
    pub open spec fn at_origin(self) -> bool {
        self.base.at_origin() && self.wave.at_origin() && self.detail.at_origin()
    }

    pub fn zero() -> (r: MotionSplineGroup)
        ensures
            r.all_zero(),
            r.at_origin(),
    {
        MotionSplineGroup {
            base: VectorSpline6::zero(),
            wave: VectorSpline6::zero(),
            detail: VectorSpline6::zero(),
        }
    }

    pub fn is_zero(&self) -> (r: bool)
        ensures
            r == self.all_zero(),
    {
        self.base.is_zero() && self.wave.is_zero() && self.detail.is_zero()
    }

    fn rising(base: [u32; 5], wave: [u32; 5], detail: [u32; 5]) -> (r: MotionSplineGroup)
        ensures
            r.base.rises_through(base@),
            r.wave.rises_through(wave@),
            r.detail.rises_through(detail@),
    {
        MotionSplineGroup {
            base: VectorSpline6::along_height(base),
            wave: VectorSpline6::along_height(wave),
            detail: VectorSpline6::along_height(detail),
        }
    }
}

/// Heights of the wave preset: `1, 1.35, 0.15, -0.75, -0.2` times `0.4`, `0.8` and `0.35`.
pub const FULL_BASE: [u32; 5] = [0x3ecc_cccd, 0x3f0a_3d71, 0x3d75_c290, 0xbe99_999a, 0xbda3_d70b];

pub const FULL_WAVE: [u32; 5] = [0x3f4c_cccd, 0x3f8a_3d71, 0x3df5_c290, 0xbf19_999a, 0xbe23_d70b];

pub const FULL_DETAIL: [u32; 5] = [0x3eb3_3333, 0x3ef1_eb85, 0x3d57_0a3e, 0xbe86_6666, 0xbd8f_5c29];

/// The same, times `0.7`.
pub const REDUCED_BASE: [u32; 5] = [
    0x3e8f_5c29,
    0x3ec1_8938,
    0x3d2c_0832,
    0xbe57_0a3e,
    0xbd65_6042,
];

pub const REDUCED_WAVE: [u32; 5] = [
    0x3f0f_5c29,
    0x3f41_8938,
    0x3dac_0832,
    0xbed7_0a3e,
    0xbde5_6042,
];

pub const REDUCED_DETAIL: [u32; 5] = [
    0x3e7a_e147,
    0x3ea9_5810,
    0x3d16_872b,
    0xbe3c_28f5,
    0xbd48_b439,
];

/// The bit pattern of the negative value.
pub open spec fn negated(bits: u32) -> u32 {
    if crate::float_bits::negative(bits) {
        (bits - 0x8000_0000) as u32
    } else {
        (bits + 0x8000_0000) as u32
    }
}

pub open spec fn negated_all(s: Seq<u32>) -> Seq<u32> {
    Seq::new(s.len(), |i: int| negated(s[i]))
}

fn negate(bits: u32) -> (r: u32)
    ensures
        r == negated(bits),
{
    if bits >= 0x8000_0000 {
        bits - 0x8000_0000
    } else {
        bits + 0x8000_0000
    }
}

fn negate_all(v: [u32; 5]) -> (r: [u32; 5])
    ensures
        r@ == negated_all(v@),
{
    let r: [u32; 5] = [negate(v[0]), negate(v[1]), negate(v[2]), negate(v[3]), negate(v[4])];
    assert(r@ =~= negated_all(v@));
    r
}

/// Group `g` is a wave of the given heights.
pub open spec fn group_rises(
    g: MotionSplineGroup,
    base: Seq<u32>,
    wave: Seq<u32>,
    detail: Seq<u32>,
) -> bool {
    g.base.rises_through(base) && g.wave.rises_through(wave) && g.detail.rises_through(detail)
}

impl Default for MotionEditConfig {
    fn default() -> (r: MotionEditConfig)
        ensures
            !r.enabled,
            r.amplitude == 0,
            r.edge_band == 0x3df5_c28f,
            r.wave_phase_span == 0x3e80_0000,
            r.detail_amplitude == 0,
            r.motionless(),
            r.at_origin(),
    {
        let zero: MotionSplineGroup = MotionSplineGroup::zero();
        MotionEditConfig {
            enabled: false,
            amplitude: 0,
            edge_band: 0x3df5_c28f,
            wave_phase_span: 0x3e80_0000,
            detail_amplitude: 0,
            spline_groups: [zero, zero, zero, zero],
        }
    }
}

impl MotionEditConfig {
    /// No spline moves.
    pub open spec fn motionless(self) -> bool {
        forall|g: int| 0 <= g < 4 ==> (#[trigger] self.spline_groups[g]).all_zero()
    }

    /// Every knot is the origin, its zeros positive.
    pub open spec fn at_origin(self) -> bool {
        forall|g: int| 0 <= g < 4 ==> (#[trigger] self.spline_groups[g]).at_origin()
    }

    /// Clears all splines; everything else stays.
    pub fn zero_motion(&mut self)
        ensures
            final(self).motionless(),
            final(self).at_origin(),
            final(self).enabled == old(self).enabled,
            final(self).amplitude == old(self).amplitude,
            final(self).edge_band == old(self).edge_band,
            final(self).wave_phase_span == old(self).wave_phase_span,
            final(self).detail_amplitude == old(self).detail_amplitude,
    {
        let zero: MotionSplineGroup = MotionSplineGroup::zero();
        self.spline_groups = [zero, zero, zero, zero];
    }

    /// Switches to a gentle wave: full height for vertical edges, reduced for horizontal ones, and
    /// opposite directions for the two edge colours.
    pub fn load_wave_preset(&mut self)
        ensures
            final(self).enabled,
            final(self).amplitude == 0x3da3_d70a,
            final(self).edge_band == 0x3df5_c28f,
            final(self).wave_phase_span == 0x3eb3_3333,
            final(self).detail_amplitude == 0x3eb3_3333,
            group_rises(final(self).spline_groups[0], FULL_BASE@, FULL_WAVE@, FULL_DETAIL@),
            group_rises(
                final(self).spline_groups[1],
                negated_all(FULL_BASE@),
                negated_all(FULL_WAVE@),
                negated_all(FULL_DETAIL@),
            ),
            group_rises(
                final(self).spline_groups[2],
                REDUCED_BASE@,
                REDUCED_WAVE@,
                REDUCED_DETAIL@,
            ),
            group_rises(
                final(self).spline_groups[3],
                negated_all(REDUCED_BASE@),
                negated_all(REDUCED_WAVE@),
                negated_all(REDUCED_DETAIL@),
            ),
    {
        self.enabled = true;
        self.amplitude = 0x3da3_d70a;
        self.edge_band = 0x3df5_c28f;
        self.wave_phase_span = 0x3eb3_3333;
        self.detail_amplitude = 0x3eb3_3333;
        self.spline_groups =
        [
            MotionSplineGroup::rising(FULL_BASE, FULL_WAVE, FULL_DETAIL),
            MotionSplineGroup::rising(
                negate_all(FULL_BASE),
                negate_all(FULL_WAVE),
                negate_all(FULL_DETAIL),
            ),
            MotionSplineGroup::rising(REDUCED_BASE, REDUCED_WAVE, REDUCED_DETAIL),
            MotionSplineGroup::rising(
                negate_all(REDUCED_BASE),
                negate_all(REDUCED_WAVE),
                negate_all(REDUCED_DETAIL),
            ),
        ];
    }

    /// The splines of an edge of the given orientation and colour.
    pub fn group(&self, orientation: MotionEdgeOrientation, edge_color: u32) -> (r:
        &MotionSplineGroup)
        ensures
            *r == self.spline_groups[group_index(orientation, edge_color)],
    {
        &self.spline_groups[motion_group_index(orientation, edge_color)]
    }
}

#[derive(Clone, Copy, Debug, PartialEq, Eq, Structural)]
pub enum MotionEdgeOrientation {
    Vertical,
    Horizontal,
}

#[derive(Clone, Copy, Debug, PartialEq, Eq, Structural)]
pub enum EdgeSide {
    West,
    North,
    East,
    South,
}

impl EdgeSide {
    pub open spec fn runs_vertically(self) -> bool {
        self == EdgeSide::West || self == EdgeSide::East
    }

    pub fn orientation(self) -> (r: MotionEdgeOrientation)
        ensures
            r == if self.runs_vertically() {
                MotionEdgeOrientation::Vertical
            } else {
                MotionEdgeOrientation::Horizontal
            },
    {
        match self {
            EdgeSide::West => MotionEdgeOrientation::Vertical,
            EdgeSide::East => MotionEdgeOrientation::Vertical,
            EdgeSide::North => MotionEdgeOrientation::Horizontal,
            EdgeSide::South => MotionEdgeOrientation::Horizontal,
        }
    }
}

/// The colours of a tile's edges.
#[derive(Clone, Copy, Debug, PartialEq, Eq, Structural)]
pub struct WangEdgeColors {
    pub west: u32,
    pub north: u32,
    pub east: u32,
    pub south: u32,
}

/// The edge colours that a tile number stands for: one binary digit each, west first.
pub fn wang_edge_colors(tile_id: u32) -> (r: WangEdgeColors)
    ensures
        r.west == tile_id / 8 % 2,
        r.north == tile_id / 4 % 2,
        r.east == tile_id / 2 % 2,
        r.south == tile_id % 2,
{
    WangEdgeColors {
        west: tile_id / 8 % 2,
        north: tile_id / 4 % 2,
        east: tile_id / 2 % 2,
        south: tile_id % 2,
    }
}

/// The four colours are the last four binary digits of the tile number.
pub proof fn edge_colors_spell_tile(tile_id: u32)
    ensures
        8 * (tile_id / 8 % 2) + 4 * (tile_id / 4 % 2) + 2 * (tile_id / 2 % 2) + tile_id % 2
            == tile_id % 16,
{
}

pub open spec fn group_index(orientation: MotionEdgeOrientation, edge_color: u32) -> int {
    match orientation {
        MotionEdgeOrientation::Vertical => edge_color as int % 2,
        MotionEdgeOrientation::Horizontal => 2 + edge_color as int % 2,
    }
}

/// The spline group of an edge.
pub fn motion_group_index(orientation: MotionEdgeOrientation, edge_color: u32) -> (r: usize)
    ensures
        r == group_index(orientation, edge_color),
        r < MOTION_GROUP_COUNT,
{
    let orientation_index: usize = match orientation {
        MotionEdgeOrientation::Vertical => 0,
        MotionEdgeOrientation::Horizontal => 1,
    };
    orientation_index * MOTION_EDGE_COLOR_COUNT + (edge_color as usize % MOTION_EDGE_COLOR_COUNT)
}

/// A place on an edge: how far along it and how far from it, as bit patterns.
#[derive(Clone, Copy, Debug)]
pub struct CanonicalEdgeCoordinate {
    pub s: u32,
    pub distance: u32,
}

impl CanonicalEdgeCoordinate {
    pub open spec fn same_place(self, other: CanonicalEdgeCoordinate) -> bool {
        crate::float_bits::same_value(self.s, other.s) && crate::float_bits::same_value(
            self.distance,
            other.distance,
        )
    }
}

impl PartialEq for CanonicalEdgeCoordinate {
    /// Numbers compare by value, not by bit pattern.
    fn eq(&self, other: &CanonicalEdgeCoordinate) -> (r: bool) {
        crate::float_bits::is_same_value(self.s, other.s) && crate::float_bits::is_same_value(
            self.distance,
            other.distance,
        )
    }
}

impl vstd::std_specs::cmp::PartialEqSpecImpl for CanonicalEdgeCoordinate {
    open spec fn obeys_eq_spec() -> bool {
        true
    }

    open spec fn eq_spec(&self, other: &CanonicalEdgeCoordinate) -> bool {
        self.same_place(*other)
    }
}

pub open spec fn unit_clamped(bits: u32) -> u32 {
    crate::float_bits::clamped(bits, crate::float_bits::ZERO, crate::float_bits::ONE)
}

/// The place of a point of a tile with respect to one of its edges. `complement` holds one minus
/// each coordinate, after both were confined to the unit square.
pub fn canonical_edge_coordinate(side: EdgeSide, local_uv: [u32; 2], complement: [u32; 2]) -> (r:
    CanonicalEdgeCoordinate)
    ensures
        r == (match side {
            EdgeSide::West => CanonicalEdgeCoordinate {
                s: unit_clamped(local_uv[1]),
                distance: unit_clamped(local_uv[0]),
            },
            EdgeSide::East => CanonicalEdgeCoordinate {
                s: unit_clamped(local_uv[1]),
                distance: complement[0],
            },
            EdgeSide::South => CanonicalEdgeCoordinate {
                s: unit_clamped(local_uv[0]),
                distance: unit_clamped(local_uv[1]),
            },
            EdgeSide::North => CanonicalEdgeCoordinate {
                s: unit_clamped(local_uv[0]),
                distance: complement[1],
            },
        }),
{
    let u: u32 = crate::float_bits::clamp(
        local_uv[0],
        crate::float_bits::ZERO,
        crate::float_bits::ONE,
    );
    let v: u32 = crate::float_bits::clamp(
        local_uv[1],
        crate::float_bits::ZERO,
        crate::float_bits::ONE,
    );
    match side {
        EdgeSide::West => CanonicalEdgeCoordinate { s: v, distance: u },
        EdgeSide::East => CanonicalEdgeCoordinate { s: v, distance: complement[0] },
        EdgeSide::South => CanonicalEdgeCoordinate { s: u, distance: v },
        EdgeSide::North => CanonicalEdgeCoordinate { s: u, distance: complement[1] },
    }
}

/// Spline `family` of a group: base, wave, detail.
pub open spec fn family_spline(group: MotionSplineGroup, family: int) -> VectorSpline6 {
    if family == 0 {
        group.base
    } else if family == 1 {
        group.wave
    } else {
        group.detail
    }
}

/// Row `i` of the packed knots: group-major, then family, then knot, padded with zero.
pub open spec fn packed_row(config: MotionEditConfig, i: int) -> Seq<u32> {
    let p = family_spline(config.spline_groups[i / 18], i / 6 % 3).knots[i % 6];
    seq![p[0], p[1], p[2], 0u32]
}

fn push_spline(out: &mut Vec<[u32; 4]>, spline: &VectorSpline6)
    ensures
        final(out)@.len() == old(out)@.len() + 6,
        forall|i: int| 0 <= i < old(out)@.len() ==> #[trigger] final(out)@[i] == old(out)@[i],
        forall|k: int|
            0 <= k < 6 ==> (#[trigger] final(out)@[old(out)@.len() + k])@ == seq![
                spline.knots[k][0],
                spline.knots[k][1],
                spline.knots[k][2],
                0u32,
            ],
{
    let ghost before = out@;
    let mut k: usize = 0;
    while k < 6
        invariant
            k <= 6,
            out@.len() == before.len() + k,
            forall|i: int| 0 <= i < before.len() ==> #[trigger] out@[i] == before[i],
            forall|m: int|
                0 <= m < k ==> (#[trigger] out@[before.len() + m])@ == seq![
                    spline.knots[m][0],
                    spline.knots[m][1],
                    spline.knots[m][2],
                    0u32,
                ],
        decreases 6 - k,
    {
        let p: [u32; 3] = spline.knots[k];
        let row: [u32; 4] = [p[0], p[1], p[2], 0];
        assert(row@ =~= seq![p[0], p[1], p[2], 0u32]);
        out.push(row);
        k = k + 1;
    }
}

/// Packs all knots as rows of four.
pub fn pack_motion_spline_knots(config: &MotionEditConfig) -> (r: Vec<[u32; 4]>)
    ensures
        r@.len() == MOTION_PACKED_KNOT_COUNT,
        forall|i: int| 0 <= i < r@.len() ==> (#[trigger] r@[i])@ == packed_row(*config, i),
{
    let mut out: Vec<[u32; 4]> = Vec::new();
    let mut g: usize = 0;
    while g < 4
        invariant
            g <= 4,
            out@.len() == 18 * g,
            forall|i: int| 0 <= i < 18 * g ==> (#[trigger] out@[i])@ == packed_row(*config, i),
        decreases 4 - g,
    {
        let group: &MotionSplineGroup = &config.spline_groups[g];
        let ghost n = out@.len() as int;
        push_spline(&mut out, &group.base);
        let ghost after_base = out@;
        push_spline(&mut out, &group.wave);
        let ghost after_wave = out@;
        push_spline(&mut out, &group.detail);
        proof {
            assert forall|i: int| 0 <= i < 18 * (g + 1) implies (#[trigger] out@[i])@ == packed_row(
                *config,
                i,
            ) by {
                if i >= n {
                    assert(i / 18 == g);
                    let k = i - n;
                    if k < 6 {
                        assert(i / 6 % 3 == 0 && i % 6 == k);
                        assert(out@[i] == after_wave[i]);
                        assert(after_wave[i] == after_base[i]);
                        assert(after_base[n + k] == after_base[i]);
                    } else if k < 12 {
                        assert(i / 6 % 3 == 1 && i % 6 == k - 6);
                        assert(out@[i] == after_wave[i]);
                        assert(after_wave[n + 6 + (k - 6)] == after_wave[i]);
                    } else {
                        assert(i / 6 % 3 == 2 && i % 6 == k - 12);
                        assert(out@[n + 12 + (k - 12)] == out@[i]);
                    }
                }
            }
        }
        g = g + 1;
    }
    out
}

} // verus!
