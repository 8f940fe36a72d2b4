//! Edits of a basis bank: moved knots and per-basis strength, timing and speed.

use vstd::prelude::*;

verus! {

/// The packed form of an edit that changes nothing: off, strength 1, offset 0, speed 1.
pub const DEFAULT_BASIS_EDIT_PACKED: [u32; 4] = [0, 0x3f80_0000, 0, 0x3f80_0000];

/// The plane in which a knot is dragged.
#[derive(Clone, Copy, Debug, PartialEq, Eq, Structural)]
pub enum BasisKnotEditPlane {
    XY,
    XZ,
    YZ,
}

/// The knots of a bank before and after editing, as bit patterns.
#[derive(Clone, Debug)]
pub struct BasisKnotEditState {
    original_knots: Vec<u32>,
    edited_knots: Vec<u32>,
    basis_count: usize,
    knot_count: usize,
    editable_knot_count: usize,
}

impl BasisKnotEditState {
    pub closed spec fn same_state(self, other: BasisKnotEditState) -> bool {
        &&& crate::float_bits::same_values(self.original_knots@, other.original_knots@)
        &&& crate::float_bits::same_values(self.edited_knots@, other.edited_knots@)
        &&& self.basis_count == other.basis_count
        &&& self.knot_count == other.knot_count
        &&& self.editable_knot_count == other.editable_knot_count
    }
}

impl PartialEq for BasisKnotEditState {
    /// Numbers compare by value, not by bit pattern.
    fn eq(&self, other: &BasisKnotEditState) -> (r: bool) {
        crate::float_bits::are_same_values(
            self.original_knots.as_slice(),
            other.original_knots.as_slice(),
        ) && crate::float_bits::are_same_values(
            self.edited_knots.as_slice(),
            other.edited_knots.as_slice(),
        ) && self.basis_count == other.basis_count && self.knot_count == other.knot_count
            && self.editable_knot_count == other.editable_knot_count
    }
}

impl vstd::std_specs::cmp::PartialEqSpecImpl for BasisKnotEditState {
    open spec fn obeys_eq_spec() -> bool {
        true
    }

    open spec fn eq_spec(&self, other: &BasisKnotEditState) -> bool {
        self.same_state(*other)
    }
}

/// The first number of a knot: basis-major, three numbers per knot.
pub open spec fn knot_offset(basis_id: int, knot: int, knot_count: int) -> int {
    (basis_id * knot_count + knot) * 3
}

/// Three numbers of a list, replaced.
pub open spec fn with_triple(s: Seq<u32>, at: int, point: Seq<u32>) -> Seq<u32> {
    Seq::new(
        s.len(),
        |i: int|
            if at <= i < at + 3 {
                point[i - at]
            } else {
                s[i]
            },
    )
}

/// A part of a list, replaced by the same part of another.
pub open spec fn with_part(s: Seq<u32>, from: int, to: int, source: Seq<u32>) -> Seq<u32> {
    Seq::new(
        s.len(),
        |i: int|
            if from <= i < to {
                source[i]
            } else {
                s[i]
            },
    )
}

/// Some number of a part differs by value.
pub open spec fn differs_in(a: Seq<u32>, b: Seq<u32>, from: int, to: int) -> bool {
    exists|i: int| from <= i < to && !crate::float_bits::same_value(#[trigger] a[i], b[i])
}

fn differs(a: &Vec<u32>, b: &Vec<u32>, from: usize, to: usize) -> (r: bool)
    requires
        from <= to <= a@.len(),
        to <= b@.len(),
    ensures
        r == differs_in(a@, b@, from as int, to as int),
{
    for i in from..to
        invariant
            from <= i <= to <= a@.len(),
            to <= b@.len(),
            forall|k: int|
                from <= k < i ==> crate::float_bits::same_value(#[trigger] a@[k], b@[k]),
    {
        if !crate::float_bits::is_same_value(a[i], b[i]) {
            assert(!crate::float_bits::same_value(a@[i as int], b@[i as int]));
            return true;
        }
    }
    false
}

proof fn knot_in_bounds(basis_id: int, knot: int, basis_count: int, knot_count: int)
    requires
        0 <= basis_id < basis_count,
        0 <= knot < knot_count,
    ensures
        0 <= knot_offset(basis_id, knot, knot_count),
        knot_offset(basis_id, knot, knot_count) + 3 <= basis_count * knot_count * 3,
        0 <= basis_id * knot_count * 3,
        basis_id * knot_count * 3 + knot_count * 3 <= basis_count * knot_count * 3,
{
    assert(basis_id * knot_count + knot_count <= basis_count * knot_count) by (nonlinear_arith)
        requires
            0 <= basis_id < basis_count,
            0 <= knot_count,
    ;
    assert(0 <= basis_id * knot_count) by (nonlinear_arith)
        requires
            0 <= basis_id,
            0 <= knot_count,
    ;
}

proof fn basis_in_bounds(basis_id: int, basis_count: int, knot_count: int)
    requires
        0 <= basis_id < basis_count,
        0 <= knot_count,
    ensures
        0 <= basis_id * knot_count * 3,
        basis_id * knot_count * 3 + knot_count * 3 <= basis_count * knot_count * 3,
{
    assert(basis_id * knot_count + knot_count <= basis_count * knot_count) by (nonlinear_arith)
        requires
            0 <= basis_id < basis_count,
            0 <= knot_count,
    ;
    assert(0 <= basis_id * knot_count) by (nonlinear_arith)
        requires
            0 <= basis_id,
            0 <= knot_count,
    ;
}

/// Different knots of a bank share no number.
pub proof fn knots_are_disjoint(
    basis_a: int,
    knot_a: int,
    basis_b: int,
    knot_b: int,
    knot_count: int,
)
    requires
        0 <= basis_a,
        0 <= basis_b,
        0 <= knot_a < knot_count,
        0 <= knot_b < knot_count,
        basis_a != basis_b || knot_a != knot_b,
    ensures
        ({
            let a = knot_offset(basis_a, knot_a, knot_count);
            let b = knot_offset(basis_b, knot_b, knot_count);
            a + 3 <= b || b + 3 <= a
        }),
{
    let a = basis_a * knot_count + knot_a;
    let b = basis_b * knot_count + knot_b;
    if a == b {
        vstd::arithmetic::div_mod::lemma_fundamental_div_mod_converse(a, knot_count, basis_a, knot_a);
        vstd::arithmetic::div_mod::lemma_fundamental_div_mod_converse(b, knot_count, basis_b, knot_b);
    }
}

impl BasisKnotEditState {
    pub closed spec fn original(self) -> Seq<u32> {
        self.original_knots@
    }

    pub closed spec fn edited(self) -> Seq<u32> {
        self.edited_knots@
    }

    pub closed spec fn bases(self) -> usize {
        self.basis_count
    }

    pub closed spec fn knots(self) -> usize {
        self.knot_count
    }

    pub closed spec fn editable(self) -> usize {
        self.editable_knot_count
    }

    /// Both lists hold three numbers for every knot of every basis.
    pub open spec fn shaped(self) -> bool {
        &&& self.original().len() == self.bases() * self.knots() * 3
        &&& self.edited().len() == self.original().len()
        &&& self.editable() <= self.knots()
    }

    /// Only the edited knots may differ.
    pub open spec fn same_bank(self, other: BasisKnotEditState) -> bool {
        &&& self.original() == other.original()
        &&& self.bases() == other.bases()
        &&& self.knots() == other.knots()
        &&& self.editable() == other.editable()
    }

    /// Starts editing: nothing is changed yet.
    pub fn new(
        original_knots: Vec<u32>,
        basis_count: usize,
        knot_count: usize,
        editable_knot_count: usize,
    ) -> (r: BasisKnotEditState)
        ensures
            r.original() == original_knots@,
            r.edited() == original_knots@,
            r.bases() == basis_count,
            r.knots() == knot_count,
            r.editable() == if editable_knot_count < knot_count {
                editable_knot_count
            } else {
                knot_count
            },
            r.shaped() <==> original_knots@.len() == basis_count * knot_count * 3,
    {
        let editable: usize = if editable_knot_count < knot_count {
            editable_knot_count
        } else {
            knot_count
        };
        let mut edited_knots: Vec<u32> = Vec::new();
        for i in 0..original_knots.len()
            invariant
                edited_knots@ == original_knots@.take(i as int),
        {
            edited_knots.push(original_knots[i]);
            assert(edited_knots@ =~= original_knots@.take(i + 1));
        }
        assert(edited_knots@ =~= original_knots@);
        BasisKnotEditState {
            edited_knots,
            original_knots,
            basis_count,
            knot_count,
            editable_knot_count: editable,
        }
    }

    /// Whether the edits belong to a bank of these dimensions.
    pub fn matches_shape(&self, basis_count: usize, knot_count: usize) -> (r: bool)
        ensures
            r == (self.bases() == basis_count && self.knots() == knot_count && self.edited().len()
                == saturated(saturated(basis_count * knot_count) * 3)),
    {
        self.basis_count == basis_count && self.knot_count == knot_count && self.edited_knots.len()
            == saturating_product(saturating_product(basis_count, knot_count), 3)
    }

    pub fn basis_count(&self) -> (r: usize)
        ensures
            r == self.bases(),
    {
        self.basis_count
    }

    pub fn knot_count(&self) -> (r: usize)
        ensures
            r == self.knots(),
    {
        self.knot_count
    }

    pub fn editable_knot_count(&self) -> (r: usize)
        ensures
            r == self.editable(),
    {
        self.editable_knot_count
    }

    pub fn edited_knots(&self) -> (r: &[u32])
        ensures
            r@ == self.edited(),
    {
        self.edited_knots.as_slice()
    }

    pub fn original_knots(&self) -> (r: &[u32])
        ensures
            r@ == self.original(),
    {
        self.original_knots.as_slice()
    }

    fn knot_base(&self, basis_id: usize, knot: usize) -> (r: Option<usize>)
        requires
            self.shaped(),
        ensures
            match r {
                Some(base) => {
                    &&& basis_id < self.bases()
                    &&& knot < self.knots()
                    &&& base == knot_offset(basis_id as int, knot as int, self.knots() as int)
                    &&& base + 3 <= self.edited().len()
                    &&& base + 3 <= usize::MAX
                },
                None => basis_id >= self.bases() || knot >= self.knots(),
            },
    {
        if basis_id >= self.basis_count || knot >= self.knot_count {
            return None;
        }
        let total: usize = self.edited_knots.len();
        proof {
            knot_in_bounds(
                basis_id as int,
                knot as int,
                self.basis_count as int,
                self.knot_count as int,
            );
            assert(0 <= basis_id * self.knot_count) by (nonlinear_arith)
                requires
                    basis_id >= 0,
                    self.knot_count >= 0,
            ;
        }
        Some((basis_id * self.knot_count + knot) * 3)
    }

    /// The position of a knot.
    pub fn knot(&self, basis_id: usize, knot: usize) -> (r: Option<[u32; 3]>)
        requires
            self.shaped(),
        ensures
            match r {
                Some(point) => {
                    &&& basis_id < self.bases()
                    &&& knot < self.knots()
                    &&& point@ == self.edited().subrange(
                        knot_offset(basis_id as int, knot as int, self.knots() as int),
                        knot_offset(basis_id as int, knot as int, self.knots() as int) + 3,
                    )
                },
                None => basis_id >= self.bases() || knot >= self.knots(),
            },
    {
        match self.knot_base(basis_id, knot) {
            Some(base) => {
                let point: [u32; 3] = [
                    self.edited_knots[base],
                    self.edited_knots[base + 1],
                    self.edited_knots[base + 2],
                ];
                assert(point@ =~= self.edited().subrange(base as int, base + 3));
                Some(point)
            },
            None => None,
        }
    }

    /// Whether a knot differs from its original.
    pub fn knot_is_edited(&self, basis_id: usize, knot: usize) -> (r: bool)
        requires
            self.shaped(),
        ensures
            r == (basis_id < self.bases() && knot < self.knots() && differs_in(
                self.edited(),
                self.original(),
                knot_offset(basis_id as int, knot as int, self.knots() as int),
                knot_offset(basis_id as int, knot as int, self.knots() as int) + 3,
            )),
    {
        match self.knot_base(basis_id, knot) {
            Some(base) => differs(&self.edited_knots, &self.original_knots, base, base + 3),
            None => false,
        }
    }

    /// Whether any knot of a basis differs from its original.
    pub fn basis_is_edited(&self, basis_id: usize) -> (r: bool)
        requires
            self.shaped(),
        ensures
            r == (basis_id < self.bases() && differs_in(
                self.edited(),
                self.original(),
                basis_id * self.knots() * 3,
                basis_id * self.knots() * 3 + self.knots() * 3,
            )),
    {
        if basis_id >= self.basis_count {
            return false;
        }
        let total: usize = self.edited_knots.len();
        proof {
            basis_in_bounds(basis_id as int, self.basis_count as int, self.knot_count as int);
            assert(0 <= basis_id * self.knot_count) by (nonlinear_arith)
                requires
                    basis_id >= 0,
                    self.knot_count >= 0,
            ;
        }
        let start: usize = basis_id * self.knot_count * 3;
        let end: usize = start + self.knot_count * 3;
        differs(&self.edited_knots, &self.original_knots, start, end)
    }

    /// Moves a knot, if it may be edited and the position is finite.
    pub fn set_knot(&mut self, basis_id: usize, knot: usize, point: [u32; 3]) -> (r: bool)
        requires
            old(self).shaped(),
        ensures
            final(self).shaped(),
            final(self).same_bank(*old(self)),
            r == (basis_id < old(self).bases() && knot < old(self).editable()
                && crate::basis_motion_graph::finite3(point)),
            final(self).edited() == if r {
                with_triple(
                    old(self).edited(),
                    knot_offset(basis_id as int, knot as int, old(self).knots() as int),
                    point@,
                )
            } else {
                old(self).edited()
            },
    {
        if knot >= self.editable_knot_count || !(crate::float_bits::is_finite(point[0])
            && crate::float_bits::is_finite(point[1]) && crate::float_bits::is_finite(point[2])) {
            return false;
        }
        match self.knot_base(basis_id, knot) {
            Some(base) => {
                let ghost before = self.edited_knots@;
                self.edited_knots.set(base, point[0]);
                self.edited_knots.set(base + 1, point[1]);
                self.edited_knots.set(base + 2, point[2]);
                assert(self.edited_knots@ =~= with_triple(before, base as int, point@));
                true
            },
            None => false,
        }
    }

    fn restore(&mut self, from: usize, to: usize)
        requires
            old(self).shaped(),
            from <= to <= old(self).edited().len(),
        ensures
            final(self).shaped(),
            final(self).same_bank(*old(self)),
            final(self).edited() == with_part(
                old(self).edited(),
                from as int,
                to as int,
                old(self).original(),
            ),
    {
        let ghost before = self.edited_knots@;
        let mut i: usize = from;
        assert(self.edited_knots@ =~= with_part(
            before,
            from as int,
            i as int,
            self.original_knots@,
        ));
        while i < to
            invariant
                from <= i <= to,
                to <= self.original_knots@.len(),
                self.shaped(),
                self.same_bank(*old(self)),
                before == old(self).edited(),
                self.edited_knots@ == with_part(
                    before,
                    from as int,
                    i as int,
                    self.original_knots@,
                ),
            decreases to - i,
        {
            let value: u32 = self.original_knots[i];
            self.edited_knots.set(i, value);
            i = i + 1;
            assert(self.edited_knots@ =~= with_part(
                before,
                from as int,
                i as int,
                self.original_knots@,
            ));
        }
    }

    /// Takes back the edit of a knot.
    pub fn reset_knot(&mut self, basis_id: usize, knot: usize) -> (r: bool)
        requires
            old(self).shaped(),
        ensures
            final(self).shaped(),
            final(self).same_bank(*old(self)),
            r == (basis_id < old(self).bases() && knot < old(self).editable()),
            final(self).edited() == if r {
                with_part(
                    old(self).edited(),
                    knot_offset(basis_id as int, knot as int, old(self).knots() as int),
                    knot_offset(basis_id as int, knot as int, old(self).knots() as int) + 3,
                    old(self).original(),
                )
            } else {
                old(self).edited()
            },
    {
        if knot >= self.editable_knot_count {
            return false;
        }
        match self.knot_base(basis_id, knot) {
            Some(base) => {
                self.restore(base, base + 3);
                true
            },
            None => false,
        }
    }

    /// Takes back the edits of a basis.
    pub fn reset_basis(&mut self, basis_id: usize) -> (r: bool)
        requires
            old(self).shaped(),
        ensures
            final(self).shaped(),
            final(self).same_bank(*old(self)),
            r == (basis_id < old(self).bases()),
            final(self).edited() == if r {
                with_part(
                    old(self).edited(),
                    basis_id * old(self).knots() * 3,
                    basis_id * old(self).knots() * 3 + old(self).knots() * 3,
                    old(self).original(),
                )
            } else {
                old(self).edited()
            },
    {
        if basis_id >= self.basis_count {
            return false;
        }
        let total: usize = self.edited_knots.len();
        proof {
            basis_in_bounds(basis_id as int, self.basis_count as int, self.knot_count as int);
            assert(0 <= basis_id * self.knot_count) by (nonlinear_arith)
                requires
                    basis_id >= 0,
                    self.knot_count >= 0,
            ;
        }
        let start: usize = basis_id * self.knot_count * 3;
        let end: usize = start + self.knot_count * 3;
        self.restore(start, end);
        true
    }

    /// Takes back all edits.
    pub fn reset_all(&mut self)
        requires
            old(self).shaped(),
        ensures
            final(self).shaped(),
            final(self).same_bank(*old(self)),
            final(self).edited() == old(self).original(),
    {
        let total: usize = self.edited_knots.len();
        self.restore(0, total);
        assert(self.edited_knots@ =~= self.original_knots@);
    }
}

pub open spec fn saturated(v: int) -> int {
    if v > usize::MAX {
        usize::MAX as int
    } else {
        v
    }
}

pub(crate) fn saturating_product(a: usize, b: usize) -> (r: usize)
    ensures
        r == saturated(a * b),
{
    match a.checked_mul(b) {
        Some(v) => v,
        None => usize::MAX,
    }
}

/// Taking back the edit of a knot undoes moving it.
pub proof fn reset_knot_undoes_set_knot(
    original: Seq<u32>,
    edited: Seq<u32>,
    at: int,
    point: Seq<u32>,
)
    requires
        original.len() == edited.len(),
        0 <= at,
        at + 3 <= edited.len(),
        point.len() == 3,
        edited.subrange(at, at + 3) == original.subrange(at, at + 3),
    ensures
        with_part(with_triple(edited, at, point), at, at + 3, original) == edited,
{
    let back = with_part(with_triple(edited, at, point), at, at + 3, original);
    assert forall|i: int| 0 <= i < edited.len() implies back[i] == edited[i] by {
        if at <= i < at + 3 {
            assert(edited.subrange(at, at + 3)[i - at] == edited[i]);
            assert(original.subrange(at, at + 3)[i - at] == original[i]);
        }
    }
    assert(back =~= edited);
}

/// Moving a knot leaves every other knot as it is.
pub proof fn set_knot_leaves_other_knots(
    edited: Seq<u32>,
    basis_a: int,
    knot_a: int,
    basis_b: int,
    knot_b: int,
    knot_count: int,
    point: Seq<u32>,
)
    requires
        0 <= basis_a,
        0 <= basis_b,
        0 <= knot_a < knot_count,
        0 <= knot_b < knot_count,
        basis_a != basis_b || knot_a != knot_b,
        knot_offset(basis_b, knot_b, knot_count) + 3 <= edited.len(),
        0 <= knot_offset(basis_b, knot_b, knot_count),
    ensures
        ({
            let a = knot_offset(basis_a, knot_a, knot_count);
            let b = knot_offset(basis_b, knot_b, knot_count);
            with_triple(edited, a, point).subrange(b, b + 3) == edited.subrange(b, b + 3)
        }),
{
    knots_are_disjoint(basis_a, knot_a, basis_b, knot_b, knot_count);
    let a = knot_offset(basis_a, knot_a, knot_count);
    let b = knot_offset(basis_b, knot_b, knot_count);
    assert(with_triple(edited, a, point).subrange(b, b + 3) =~= edited.subrange(b, b + 3));
}

/// The axes that a drag in a plane moves.
pub open spec fn plane_axes(plane: BasisKnotEditPlane) -> (int, int) {
    match plane {
        BasisKnotEditPlane::XY => (0, 1),
        BasisKnotEditPlane::XZ => (0, 2),
        BasisKnotEditPlane::YZ => (1, 2),
    }
}

/// Moves a point within a plane. `moved` holds the new coordinates along the two axes of the plane,
/// that is the old ones plus `delta`. A point or delta that is not finite is refused.
pub fn apply_basis_knot_plane_delta(
    point: [u32; 3],
    plane: BasisKnotEditPlane,
    delta: [u32; 2],
    moved: [u32; 2],
) -> (r: Option<[u32; 3]>)
    ensures
        match r {
            Some(edited) => {
                &&& crate::basis_motion_graph::finite3(point)
                &&& crate::float_bits::finite(delta[0])
                &&& crate::float_bits::finite(delta[1])
                &&& edited@ == point@.update(plane_axes(plane).0, moved[0]).update(
                    plane_axes(plane).1,
                    moved[1],
                )
            },
            None => !(crate::basis_motion_graph::finite3(point) && crate::float_bits::finite(
                delta[0],
            ) && crate::float_bits::finite(delta[1])),
        },
{
    if !(crate::float_bits::is_finite(point[0]) && crate::float_bits::is_finite(point[1])
        && crate::float_bits::is_finite(point[2]) && crate::float_bits::is_finite(delta[0])
        && crate::float_bits::is_finite(delta[1])) {
        return None;
    }
    let edited: [u32; 3] = match plane {
        BasisKnotEditPlane::XY => [moved[0], moved[1], point[2]],
        BasisKnotEditPlane::XZ => [moved[0], point[1], moved[1]],
        BasisKnotEditPlane::YZ => [point[0], moved[0], moved[1]],
    };
    assert(edited@ =~= point@.update(plane_axes(plane).0, moved[0]).update(
        plane_axes(plane).1,
        moved[1],
    ));
    Some(edited)
}

/// How one basis is played: strength, timing offset and speed, as bit patterns.
#[derive(Clone, Copy, Debug)]
pub struct BasisEditOverride {
    pub enabled: bool,
    pub amplitude_scale: u32,
    pub phase_offset: u32,
    pub time_scale: u32,
}

pub open spec fn default_edit() -> BasisEditOverride {
    BasisEditOverride {
        enabled: false,
        amplitude_scale: crate::float_bits::ONE,
        phase_offset: crate::float_bits::ZERO,
        time_scale: crate::float_bits::ONE,
    }
}

impl Default for BasisEditOverride {
    fn default() -> (r: BasisEditOverride)
        ensures
            r == default_edit(),
    {
        BasisEditOverride {
            enabled: false,
            amplitude_scale: crate::float_bits::ONE,
            phase_offset: crate::float_bits::ZERO,
            time_scale: crate::float_bits::ONE,
        }
    }
}

impl BasisEditOverride {
    /// Equal as values: numbers compare by value, not by bit pattern.
    pub open spec fn same_edit(self, other: BasisEditOverride) -> bool {
        &&& self.enabled == other.enabled
        &&& crate::float_bits::same_value(self.amplitude_scale, other.amplitude_scale)
        &&& crate::float_bits::same_value(self.phase_offset, other.phase_offset)
        &&& crate::float_bits::same_value(self.time_scale, other.time_scale)
    }

    pub fn equals(self, other: BasisEditOverride) -> (r: bool)
        ensures
            r == self.same_edit(other),
    {
        self.enabled == other.enabled && crate::float_bits::is_same_value(
            self.amplitude_scale,
            other.amplitude_scale,
        ) && crate::float_bits::is_same_value(self.phase_offset, other.phase_offset)
            && crate::float_bits::is_same_value(self.time_scale, other.time_scale)
    }

    pub open spec fn packed_words(self) -> Seq<u32> {
        seq![
            if self.enabled {
                crate::float_bits::ONE
            } else {
                crate::float_bits::ZERO
            },
            self.amplitude_scale,
            self.phase_offset,
            self.time_scale,
        ]
    }

    /// The four numbers the GPU reads.
    pub fn packed(self) -> (r: [u32; 4])
        ensures
            r@ == self.packed_words(),
    {
        let r: [u32; 4] = [
            if self.enabled {
                crate::float_bits::ONE
            } else {
                crate::float_bits::ZERO
            },
            self.amplitude_scale,
            self.phase_offset,
            self.time_scale,
        ];
        assert(r@ =~= self.packed_words());
        r
    }
}

impl PartialEq for BasisEditOverride {
    /// Numbers compare by value, not by bit pattern.
    fn eq(&self, other: &BasisEditOverride) -> (r: bool) {
        self.equals(*other)
    }
}

impl vstd::std_specs::cmp::PartialEqSpecImpl for BasisEditOverride {
    open spec fn obeys_eq_spec() -> bool {
        true
    }

    open spec fn eq_spec(&self, other: &BasisEditOverride) -> bool {
        self.same_edit(*other)
    }
}

/// Packs one row per basis; bases without an edit get the default row.
pub fn pack_basis_edit_overrides(edits: &[BasisEditOverride], global_basis_count: usize) -> (r: Vec<
    [u32; 4],
>)
    ensures
        r@.len() == global_basis_count,
        forall|i: int|
            0 <= i < r@.len() ==> (#[trigger] r@[i])@ == if i < edits@.len() {
                edits@[i].packed_words()
            } else {
                default_edit().packed_words()
            },
{
    let mut packed: Vec<[u32; 4]> = Vec::new();
    for i in 0..global_basis_count
        invariant
            packed@.len() == i,
            forall|k: int|
                0 <= k < i ==> (#[trigger] packed@[k])@ == if k < edits@.len() {
                    edits@[k].packed_words()
                } else {
                    default_edit().packed_words()
                },
    {
        let row: [u32; 4] = if i < edits.len() {
            edits[i].packed()
        } else {
            BasisEditOverride::default().packed()
        };
        packed.push(row);
    }
    packed
}

/// Keeps the edits of the first bases and adds defaults for new ones.
pub fn resize_basis_edit_overrides(edits: &mut Vec<BasisEditOverride>, global_basis_count: usize)
    ensures
        final(edits)@.len() == global_basis_count,
        forall|i: int|
            0 <= i < global_basis_count ==> #[trigger] final(edits)@[i] == if i < old(edits)@.len() {
                old(edits)@[i]
            } else {
                default_edit()
            },
{
    let ghost before = edits@;
    edits.truncate(global_basis_count);
    while edits.len() < global_basis_count
        invariant
            edits@.len() <= global_basis_count,
            before == old(edits)@,
            forall|i: int|
                0 <= i < edits@.len() ==> #[trigger] edits@[i] == if i < before.len() {
                    before[i]
                } else {
                    default_edit()
                },
            edits@.len() < global_basis_count ==> edits@.len() >= before.len(),
        decreases global_basis_count - edits@.len(),
    {
        edits.push(BasisEditOverride::default());
    }
}

/// Gives one basis the default edit.
pub fn reset_basis_edit(edits: &mut Vec<BasisEditOverride>, basis_id: usize)
    ensures
        final(edits)@ == if basis_id < old(edits)@.len() {
            old(edits)@.update(basis_id as int, default_edit())
        } else {
            old(edits)@
        },
{
    if basis_id < edits.len() {
        edits.set(basis_id, BasisEditOverride::default());
    }
}

/// Gives every basis the default edit.
pub fn reset_all_basis_edits(edits: &mut Vec<BasisEditOverride>)
    ensures
        final(edits)@.len() == old(edits)@.len(),
        forall|i: int| 0 <= i < final(edits)@.len() ==> #[trigger] final(edits)@[i] == default_edit(),
{
    let mut i: usize = 0;
    while i < edits.len()
        invariant
            i <= edits@.len(),
            edits@.len() == old(edits)@.len(),
            forall|k: int| 0 <= k < i ==> #[trigger] edits@[k] == default_edit(),
        decreases edits@.len() - i,
    {
        edits.set(i, BasisEditOverride::default());
        i = i + 1;
    }
}

} // verus!
