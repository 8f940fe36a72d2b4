//! Laws of the orders in which splats, tiles and sizes are put.

use crate::ordering::LastView;
use vstd::prelude::*;

verus! {

/// Splats are drawn from the farthest bin to the nearest; within a bin the later splat comes first.
pub proof fn far_splats_are_drawn_first(order: Seq<u32>, bins: Seq<u32>, i: int, j: int)
    requires
        crate::ordering::is_back_to_front(order, bins),
        0 <= i < j < order.len(),
    ensures
        bins[order[i] as int] >= bins[order[j] as int],
        bins[order[i] as int] == bins[order[j] as int] ==> order[i] > order[j],
{
    assert(crate::ordering::drawn_before(bins, order[i], order[j]));
}

proof fn parts_are_joined_in_order(lists: Seq<Vec<u32>>, n: nat)
    requires
        n <= lists.len() <= usize::MAX,
        forall|i: int| 0 <= i < lists.len() ==> (#[trigger] lists[i])@.len() <= usize::MAX,
    ensures
        ({
            let all = crate::ordering::flattened(lists, n);
            let owners = crate::ordering::owners(lists, n);
            &&& owners.len() == all.len()
            &&& forall|p: int|
                0 <= p < all.len() ==> {
                    let o = #[trigger] owners[p];
                    &&& o.0 < n
                    &&& o.1 < lists[o.0 as int]@.len()
                    &&& all[p] == lists[o.0 as int]@[o.1 as int]
                }
            &&& forall|p: int, q: int|
                0 <= p < q < all.len() ==> {
                    let a = #[trigger] owners[p];
                    let b = #[trigger] owners[q];
                    a.0 < b.0 || (a.0 == b.0 && a.1 < b.1)
                }
        }),
    decreases n,
{
    if n > 0 {
        let m = (n - 1) as nat;
        parts_are_joined_in_order(lists, m);
        let before = crate::ordering::owners(lists, m);
        let row = Seq::new(lists[m as int]@.len(), |k: int| (m as usize, k as usize));
        let owners = crate::ordering::owners(lists, n);
        let all = crate::ordering::flattened(lists, n);
        assert(owners == before + row);
        assert(lists[m as int]@.len() <= usize::MAX);
        assert forall|p: int| 0 <= p < all.len() implies {
            let o = #[trigger] owners[p];
            &&& o.0 < n
            &&& o.1 < lists[o.0 as int]@.len()
            &&& all[p] == lists[o.0 as int]@[o.1 as int]
        } by {
            if p < before.len() {
                assert(owners[p] == before[p]);
            } else {
                assert(owners[p] == row[p - before.len()]);
            }
        }
        assert forall|p: int, q: int| 0 <= p < q < all.len() implies {
            let a = #[trigger] owners[p];
            let b = #[trigger] owners[q];
            a.0 < b.0 || (a.0 == b.0 && a.1 < b.1)
        } by {
            if q < before.len() {
                assert(owners[p] == before[p] && owners[q] == before[q]);
            } else if p < before.len() {
                assert(owners[p] == before[p] && owners[q] == row[q - before.len()]);
            } else {
                assert(owners[p] == row[p - before.len()] && owners[q] == row[q - before.len()]);
            }
        }
    }
}

/// Merged lists are drawn from the farthest bin to the nearest whichever list a splat comes from;
/// within a bin the splat of the later list comes first, and of one list the later splat.
pub proof fn merged_lists_are_drawn_far_first(
    lists: Seq<Vec<u32>>,
    flat: Seq<u32>,
    order: Seq<(usize, usize)>,
    i: int,
    j: int,
)
    requires
        lists.len() <= usize::MAX,
        forall|k: int| 0 <= k < lists.len() ==> (#[trigger] lists[k])@.len() <= usize::MAX,
        crate::ordering::is_back_to_front(flat, crate::ordering::flattened(lists, lists.len())),
        order.len() == flat.len(),
        forall|p: int|
            0 <= p < order.len() ==> #[trigger] order[p] == crate::ordering::owners(
                lists,
                lists.len(),
            )[flat[p] as int],
        0 <= i < j < order.len(),
    ensures
        order[i].0 < lists.len(),
        order[i].1 < lists[order[i].0 as int]@.len(),
        order[j].0 < lists.len(),
        order[j].1 < lists[order[j].0 as int]@.len(),
        ({
            let a = lists[order[i].0 as int]@[order[i].1 as int];
            let b = lists[order[j].0 as int]@[order[j].1 as int];
            &&& a >= b
            &&& a == b ==> order[i].0 > order[j].0 || (order[i].0 == order[j].0 && order[i].1
                > order[j].1)
        }),
{
    parts_are_joined_in_order(lists, lists.len());
    let all = crate::ordering::flattened(lists, lists.len());
    let owners = crate::ordering::owners(lists, lists.len());
    far_splats_are_drawn_first(flat, all, i, j);
    assert(order[i] == owners[flat[i] as int]);
    assert(order[j] == owners[flat[j] as int]);
    assert(all[flat[i] as int] == lists[order[i].0 as int]@[order[i].1 as int]);
    assert(all[flat[j] as int] == lists[order[j].0 as int]@[order[j].1 as int]);
}

/// Of numbers, the larger comes first, and of equal ones the earlier.
pub proof fn larger_sizes_come_first(order: Seq<u32>, sizes: Seq<u32>, i: int, j: int)
    requires
        crate::ordering::is_largest_first(order, sizes),
        0 <= i < j < order.len(),
    ensures
        !crate::float_bits::less(sizes[order[i] as int], sizes[order[j] as int]),
        sizes[order[i] as int] == sizes[order[j] as int] ==> order[i] < order[j],
{
    assert(crate::ordering::larger_first(sizes, order[i], order[j]));
}

/// Where some sizes are no numbers, those keep their places, and the numbers among them are ordered
/// over the places that are left.
pub proof fn sizes_that_are_no_numbers_keep_their_places(
    order: Seq<u32>,
    sizes: Seq<u32>,
    i: int,
    j: int,
)
    requires
        crate::ordering::is_size_order(order, sizes),
        0 <= i < j < order.len(),
    ensures
        order.len() == sizes.len(),
        order[i] < sizes.len(),
        order[i] != order[j],
        crate::float_bits::nan(sizes[i]) ==> order[i] == i,
        !crate::float_bits::nan(sizes[i]) ==> !crate::float_bits::nan(sizes[order[i] as int]),
        !crate::float_bits::nan(sizes[i]) && !crate::float_bits::nan(sizes[j])
            ==> !crate::float_bits::less(sizes[order[i] as int], sizes[order[j] as int]),
{
    assert(order[i] < sizes.len());
    assert(order[i] != order[j]);
    if !crate::float_bits::nan(sizes[i]) && !crate::float_bits::nan(sizes[j]) {
        assert(crate::ordering::larger_first(sizes, order[i], order[j]));
    }
}

/// Of numbers put in rising order, none is less than one before it, and of equal ones the earlier
/// comes first.
pub proof fn smaller_values_come_first(order: Seq<usize>, values: Seq<u32>, i: int, j: int)
    requires
        crate::ordering::is_smallest_first(order, values),
        0 <= i < j < order.len(),
    ensures
        !crate::float_bits::less(values[order[j] as int], values[order[i] as int]),
        values[order[i] as int] == values[order[j] as int] ==> order[i] < order[j],
{
    assert(crate::ordering::smaller_first(values, order[i], order[j]));
}

/// A view is ordered anew where there was none, or it turned by 0.01 or more.
pub proof fn turned_views_are_ordered_anew(view: LastView, distance: u32)
    ensures
        view.axis is None ==> view.has_turned(distance),
        view.axis is Some && distance < 0x3c23_d70a ==> !view.has_turned(distance),
        0x3c23_d70a <= distance <= 0x7f80_0000 ==> view.has_turned(distance),
{
}

/// Records come by their number, then by the three places in turn.
pub proof fn records_come_by_number(a: (i64, usize, usize, usize), b: (i64, usize, usize, usize))
    requires
        crate::ordering::record_le(a, b),
    ensures
        a.0 <= b.0,
        a.0 == b.0 ==> a.1 <= b.1,
        a.0 == b.0 && a.1 == b.1 ==> a.2 <= b.2,
        a.0 == b.0 && a.1 == b.1 && a.2 == b.2 ==> a.3 <= b.3,
{
}

} // verus!
