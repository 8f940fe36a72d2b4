//! The plot of a basis: its samples and knots, what the pointer grabs, and how knots are marked.

use crate::basis_bank_edit::BasisKnotEditState;
use crate::gui::AuthoringRequest;
use vstd::prelude::*;

verus! {

/// Samples of a curve: some for every knot, and at least so many.
pub open spec fn samples(knot_count: int, per_knot: int, least: int) -> int {
    if knot_count * per_knot > least {
        knot_count * per_knot
    } else {
        least
    }
}

/// Samples of a curve in a plane: four for every knot, at least 96.
pub fn curve_samples(knot_count: usize) -> (r: usize)
    requires
        knot_count * 4 <= usize::MAX,
    ensures
        r == samples(knot_count as int, 4, 96),
{
    if knot_count * 4 > 96 {
        knot_count * 4
    } else {
        96
    }
}

/// Samples of a curve in space: five for every knot, at least 128.
pub fn view3d_samples(knot_count: usize) -> (r: usize)
    requires
        knot_count * 5 <= usize::MAX,
    ensures
        r == samples(knot_count as int, 5, 128),
{
    if knot_count * 5 > 128 {
        knot_count * 5
    } else {
        128
    }
}

/// The knots of a basis, in order.
pub open spec fn points_of(knots: Seq<u32>, knot_count: int, basis_id: int) -> Seq<Seq<u32>> {
    Seq::new(
        knot_count as nat,
        |k: int|
            knots.subrange(
                crate::basis_bank_edit::knot_offset(basis_id, k, knot_count),
                crate::basis_bank_edit::knot_offset(basis_id, k, knot_count) + 3,
            ),
    )
}

/// Takes the knots of a basis out of a bank.
pub fn knot_points(knots: &[u32], knot_count: usize, basis_id: usize) -> (r: Vec<[u32; 3]>)
    requires
        (basis_id + 1) * knot_count * 3 <= knots@.len(),
    ensures
        r@.len() == knot_count,
        forall|k: int|
            0 <= k < knot_count ==> (#[trigger] r@[k])@ == points_of(
                knots@,
                knot_count as int,
                basis_id as int,
            )[k],
{
    let mut out: Vec<[u32; 3]> = Vec::new();
    let total: usize = knots.len();
    proof {
        assert(0 <= basis_id * knot_count * 3 <= (basis_id + 1) * knot_count * 3 - knot_count * 3)
            by (nonlinear_arith)
            requires
                basis_id >= 0,
                knot_count >= 0,
        ;
        assert(0 <= basis_id * knot_count) by (nonlinear_arith)
            requires
                basis_id >= 0,
                knot_count >= 0,
        ;
    }
    let first: usize = basis_id * knot_count * 3;
    for k in 0..knot_count
        invariant
            total == knots@.len(),
            first == basis_id * knot_count * 3,
            first + knot_count * 3 <= total,
            out@.len() == k,
            forall|i: int|
                0 <= i < k ==> (#[trigger] out@[i])@ == points_of(
                    knots@,
                    knot_count as int,
                    basis_id as int,
                )[i],
    {
        let at: usize = first + k * 3;
        let row: [u32; 3] = [knots[at], knots[at + 1], knots[at + 2]];
        proof {
            assert(at == crate::basis_bank_edit::knot_offset(
                basis_id as int,
                k as int,
                knot_count as int,
            ));
            assert(row@ =~= points_of(knots@, knot_count as int, basis_id as int)[k as int]);
        }
        out.push(row);
    }
    out
}

/// Bit pattern of `12.0`, the reach of the pointer.
pub const GRAB_DISTANCE: u32 = 0x4140_0000;

/// The knot that the pointer grabs: within its reach, none closer, and the first of those equally
/// close.
pub open spec fn grabbed(distances: Seq<u32>, knot: int) -> bool {
    &&& 0 <= knot < distances.len()
    &&& crate::float_bits::less_or_same(distances[knot], GRAB_DISTANCE)
    &&& forall|k: int|
        0 <= k < distances.len() && crate::float_bits::less_or_same(
            #[trigger] distances[k],
            GRAB_DISTANCE,
        ) ==> {
            &&& crate::float_bits::total_rank(distances[knot]) <= crate::float_bits::total_rank(
                distances[k],
            )
            &&& k < knot ==> crate::float_bits::total_rank(distances[knot])
                < crate::float_bits::total_rank(distances[k])
        }
}

/// Finds the knot that the pointer grabs, by the distances of the knots from it.
pub fn nearest_knot(distances: &[u32]) -> (r: Option<usize>)
    ensures
        match r {
            Some(knot) => grabbed(distances@, knot as int),
            None => forall|k: int|
                0 <= k < distances@.len() ==> !crate::float_bits::less_or_same(
                    #[trigger] distances@[k],
                    GRAB_DISTANCE,
                ),
        },
{
    let mut best: Option<usize> = None;
    for i in 0..distances.len()
        invariant
            match best {
                Some(knot) => knot < i && grabbed(distances@.take(i as int), knot as int),
                None => forall|k: int|
                    0 <= k < i ==> !crate::float_bits::less_or_same(
                        #[trigger] distances@[k],
                        GRAB_DISTANCE,
                    ),
            },
    {
        let ghost before = distances@.take(i as int);
        let ghost after = distances@.take(i + 1);
        assert(forall|k: int| 0 <= k < i ==> #[trigger] after[k] == before[k]);
        assert(forall|k: int| 0 <= k < i ==> #[trigger] before[k] == distances@[k]);
        assert(after[i as int] == distances@[i as int]);
        if crate::float_bits::is_less_or_same(distances[i], GRAB_DISTANCE) {
            match best {
                Some(knot) => {
                    if crate::float_bits::total_order_key(distances[i])
                        < crate::float_bits::total_order_key(distances[knot]) {
                        best = Some(i);
                        assert(grabbed(after, i as int));
                    } else {
                        assert(grabbed(after, knot as int));
                    }
                },
                None => {
                    best = Some(i);
                    assert(grabbed(after, i as int));
                },
            }
        } else {
            match best {
                Some(knot) => {
                    assert(grabbed(after, knot as int));
                },
                None => {},
            }
        }
    }
    assert(distances@.take(distances@.len() as int) =~= distances@);
    best
}

/// Which knot is selected, and which is dragged.
#[derive(Clone, Copy, Debug, PartialEq, Eq, Structural)]
pub struct KnotSelection {
    pub selected: u32,
    pub dragging: Option<u32>,
}

/// The selection after the pointer was pressed. `nearest` is the knot that it grabs. A drag that
/// grabs none lets go of the last.
pub fn press_pointer(
    selection: KnotSelection,
    drag_started: bool,
    clicked: bool,
    nearest: Option<u32>,
) -> (r: KnotSelection)
    ensures
        r == if !drag_started && !clicked {
            selection
        } else {
            match nearest {
                Some(knot) => KnotSelection {
                    selected: knot,
                    dragging: if drag_started {
                        Some(knot)
                    } else {
                        selection.dragging
                    },
                },
                None => KnotSelection {
                    dragging: if drag_started {
                        None
                    } else {
                        selection.dragging
                    },
                    ..selection
                },
            }
        },
{
    if !drag_started && !clicked {
        return selection;
    }
    match nearest {
        Some(knot) => KnotSelection {
            selected: knot,
            dragging: if drag_started {
                Some(knot)
            } else {
                selection.dragging
            },
        },
        None => KnotSelection {
            selected: selection.selected,
            dragging: if drag_started {
                None
            } else {
                selection.dragging
            },
        },
    }
}

/// The selection when the button is up: nothing is dragged, and a drag that has ended asks for new
/// branches.
pub fn release_pointer(selection: KnotSelection) -> (r: (KnotSelection, AuthoringRequest))
    ensures
        r.0 == (KnotSelection { dragging: None, ..selection }),
        r.1 == if selection.dragging is Some {
            AuthoringRequest::Refresh
        } else {
            AuthoringRequest::Nothing
        },
{
    let request: AuthoringRequest = if selection.dragging.is_some() {
        AuthoringRequest::Refresh
    } else {
        AuthoringRequest::Nothing
    };
    (KnotSelection { selected: selection.selected, dragging: None }, request)
}

/// How a knot is marked.
#[derive(Clone, Copy, Debug, PartialEq, Eq, Structural)]
pub enum KnotMark {
    Selected,
    Closure,
    Edited,
    Plain,
}

/// The mark of a knot: that it is selected comes first, then that it closes the loop, then that it
/// was edited.
pub open spec fn mark_of(selected: bool, closure: bool, edited: bool) -> KnotMark {
    if selected {
        KnotMark::Selected
    } else if closure {
        KnotMark::Closure
    } else if edited {
        KnotMark::Edited
    } else {
        KnotMark::Plain
    }
}

/// The mark of a knot, and whether its number is shown: for a selected knot, the first and last of
/// the source, and those that close the loop.
pub fn mark_knot(
    knot: usize,
    source_knot_count: usize,
    selected_knot: Option<u32>,
    basis_id: usize,
    edits: &Option<BasisKnotEditState>,
) -> (r: (KnotMark, bool))
    requires
        crate::gui::shaped_edits(*edits),
    ensures
        ({
            let selected = selected_knot is Some && selected_knot->0 == knot;
            let edited = *edits is Some && basis_id < (*edits)->0.bases() && knot
                < (*edits)->0.knots() && crate::basis_bank_edit::differs_in(
                (*edits)->0.edited(),
                (*edits)->0.original(),
                crate::basis_bank_edit::knot_offset(
                    basis_id as int,
                    knot as int,
                    (*edits)->0.knots() as int,
                ),
                crate::basis_bank_edit::knot_offset(
                    basis_id as int,
                    knot as int,
                    (*edits)->0.knots() as int,
                ) + 3,
            );
            &&& r.0 == mark_of(selected, knot >= source_knot_count, edited)
            &&& r.1 == (selected || knot == 0 || knot + 1 == source_knot_count || knot
                >= source_knot_count)
        }),
{
    let selected: bool = match selected_knot {
        Some(k) => k as usize == knot,
        None => false,
    };
    let closure: bool = knot >= source_knot_count;
    let edited: bool = match edits {
        Some(state) => state.knot_is_edited(basis_id, knot),
        None => false,
    };
    let mark: KnotMark = if selected {
        KnotMark::Selected
    } else if closure {
        KnotMark::Closure
    } else if edited {
        KnotMark::Edited
    } else {
        KnotMark::Plain
    };
    let last: bool = source_knot_count > 0 && knot == source_knot_count - 1;
    (mark, selected || knot == 0 || last || closure)
}

/// The steps of the program: the scene is configured, built and shown.
#[derive(Clone, Copy, Debug, PartialEq, Eq, Structural)]
pub enum GUIStatus {
    Config,
    PostConfig,
    Render,
}

/// A confirmed configuration that is in order is sent off under the next number.
pub fn confirm_config(status: GUIStatus, next_id: u32, confirmed: bool, in_order: bool) -> (r: (
    GUIStatus,
    u32,
))
    requires
        next_id < u32::MAX,
    ensures
        r == if status == GUIStatus::Config && confirmed && in_order {
            (GUIStatus::PostConfig, (next_id + 1) as u32)
        } else {
            (status, next_id)
        },
{
    if status == GUIStatus::Config && confirmed && in_order {
        (GUIStatus::PostConfig, next_id + 1)
    } else {
        (status, next_id)
    }
}

/// What the panel of a camera path offers.
#[derive(Clone, Copy, Debug, PartialEq, Eq, Structural)]
pub enum FlyPathOffer {
    Start,
    Pause,
    ShowError,
    EndBenchmark,
    Nothing,
}

/// What is offered: to start or pause a path that is ready, else the error of the last reset, else
/// the measurements of a path that has ended.
pub fn fly_path_offer(
    ready: bool,
    finished: bool,
    paused: bool,
    has_error: bool,
    benchmark: bool,
) -> (r: FlyPathOffer)
    ensures
        r == if ready && !finished {
            if paused {
                FlyPathOffer::Start
            } else {
                FlyPathOffer::Pause
            }
        } else if has_error {
            FlyPathOffer::ShowError
        } else if finished && benchmark {
            FlyPathOffer::EndBenchmark
        } else {
            FlyPathOffer::Nothing
        },
{
    if ready && !finished {
        if paused {
            FlyPathOffer::Start
        } else {
            FlyPathOffer::Pause
        }
    } else if has_error {
        FlyPathOffer::ShowError
    } else if finished && benchmark {
        FlyPathOffer::EndBenchmark
    } else {
        FlyPathOffer::Nothing
    }
}

} // verus!
