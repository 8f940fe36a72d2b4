//! Orders of splats: by size when a scene is loaded, by quantised depth when it is drawn.

use vstd::prelude::*;

verus! {

/// Depth bins of the drawing order.
pub const DEPTH_BINS: usize = 65536;

/// Entries below `bin` among the first `n`.
pub open spec fn count_below(bins: Seq<u32>, n: nat, bin: int) -> nat
    decreases n,
{
    if n == 0 {
        0
    } else {
        count_below(bins, (n - 1) as nat, bin) + if bins[n - 1] < bin {
            1nat
        } else {
            0nat
        }
    }
}

/// Entries equal to `bin` among the first `n`.
pub open spec fn count_at(bins: Seq<u32>, n: nat, bin: int) -> nat
    decreases n,
{
    if n == 0 {
        0
    } else {
        count_at(bins, (n - 1) as nat, bin) + if bins[n - 1] == bin {
            1nat
        } else {
            0nat
        }
    }
}

/// Where ascending counting sort puts entry `i`.
pub open spec fn ascending_slot(bins: Seq<u32>, i: int) -> int {
    (count_below(bins, bins.len(), bins[i] as int) + count_at(bins, i as nat, bins[i] as int)) as int
}

/// `order` names every entry once, the deepest bin first and later entries first within a bin.
pub open spec fn is_back_to_front(order: Seq<u32>, bins: Seq<u32>) -> bool {
    &&& order.len() == bins.len()
    &&& forall|i: int| 0 <= i < order.len() ==> #[trigger] order[i] < bins.len()
    &&& forall|i: int, j: int|
        0 <= i < j < order.len() ==> drawn_before(bins, #[trigger] order[i], #[trigger] order[j])
}

/// Whether entry `a` is drawn before entry `b`.
pub open spec fn drawn_before(bins: Seq<u32>, a: u32, b: u32) -> bool {
    bins[a as int] > bins[b as int] || (bins[a as int] == bins[b as int] && a > b)
}

proof fn count_below_step(bins: Seq<u32>, n: nat, bin: int)
    ensures
        count_below(bins, n, bin + 1) == count_below(bins, n, bin) + count_at(bins, n, bin),
    decreases n,
{
    if n > 0 {
        count_below_step(bins, (n - 1) as nat, bin);
    }
}

proof fn count_below_monotone(bins: Seq<u32>, n: nat, a: int, b: int)
    requires
        a <= b,
    ensures
        count_below(bins, n, a) <= count_below(bins, n, b) <= n,
    decreases n,
{
    if n > 0 {
        count_below_monotone(bins, (n - 1) as nat, a, b);
    }
}

proof fn count_below_zero(bins: Seq<u32>, n: nat)
    ensures
        count_below(bins, n, 0) == 0,
    decreases n,
{
    if n > 0 {
        count_below_zero(bins, (n - 1) as nat);
    }
}

proof fn count_at_monotone(bins: Seq<u32>, m: nat, n: nat, bin: int)
    requires
        m <= n,
    ensures
        count_at(bins, m, bin) <= count_at(bins, n, bin) <= n,
        m < n && bins[m as int] == bin ==> count_at(bins, m, bin) < count_at(bins, n, bin),
    decreases n,
{
    if m < n {
        count_at_monotone(bins, m, (n - 1) as nat, bin);
    } else if n > 0 {
        count_at_monotone(bins, (m - 1) as nat, (n - 1) as nat, bin);
    }
}

/// The slots of ascending counting sort are in range and in the order of (bin, entry).
proof fn ascending_slots_are_ordered(bins: Seq<u32>, i: int, j: int)
    requires
        0 <= i < bins.len(),
        0 <= j < bins.len(),
        bins[i] < bins[j] || (bins[i] == bins[j] && i < j),
    ensures
        0 <= ascending_slot(bins, i) < ascending_slot(bins, j) < bins.len(),
{
    let n = bins.len();
    ascending_slot_in_range(bins, j);
    count_at_monotone(bins, i as nat, n, bins[i] as int);
    count_below_step(bins, n, bins[i] as int);
    if bins[i] < bins[j] {
        count_below_monotone(bins, n, bins[i] + 1, bins[j] as int);
    } else {
        count_at_monotone(bins, i as nat, j as nat, bins[i] as int);
    }
}

proof fn ascending_slot_in_range(bins: Seq<u32>, i: int)
    requires
        0 <= i < bins.len(),
    ensures
        0 <= ascending_slot(bins, i) < bins.len(),
{
    let n = bins.len();
    count_at_monotone(bins, i as nat, n, bins[i] as int);
    count_below_step(bins, n, bins[i] as int);
    count_below_monotone(bins, n, bins[i] as int, bins[i] + 1);
}

/// Every slot is the slot of some entry.
proof fn ascending_slots_are_onto(bins: Seq<u32>, slot: int)
    requires
        0 <= slot < bins.len(),
    ensures
        exists|i: int| 0 <= i < bins.len() && #[trigger] ascending_slot(bins, i) == slot,
{
    let n = bins.len() as int;
    let entries = vstd::set_lib::set_int_range(0, n);
    let f = |i: int| ascending_slot(bins, i);
    let slots = entries.map(f);
    vstd::set_lib::lemma_int_range(0, n);
    assert forall|a: int, b: int|
        entries.contains(a) && entries.contains(b) && #[trigger] f(a) == #[trigger] f(b) implies a
        == b by {
        if a != b {
            if bins[a] < bins[b] || (bins[a] == bins[b] && a < b) {
                ascending_slots_are_ordered(bins, a, b);
            } else {
                ascending_slots_are_ordered(bins, b, a);
            }
        }
    }
    vstd::set_lib::lemma_map_size(entries, slots, f);
    assert forall|s: int| slots.contains(s) implies entries.contains(s) by {
        let i = choose|i: int| entries.contains(i) && f(i) == s;
        ascending_slot_in_range(bins, i);
    }
    vstd::set_lib::lemma_subset_equality(slots, entries);
    assert(slots.contains(slot));
    let i = choose|i: int| entries.contains(i) && f(i) == slot;
    assert(ascending_slot(bins, i) == slot);
}

/// Every entry occurs in a back-to-front order.
pub proof fn back_to_front_names_every_entry(order: Seq<u32>, bins: Seq<u32>, entry: u32)
    requires
        is_back_to_front(order, bins),
        entry < bins.len(),
    ensures
        order.contains(entry),
{
    let n = bins.len() as int;
    let places = vstd::set_lib::set_int_range(0, n);
    let f = |i: int| order[i] as int;
    let named = places.map(f);
    vstd::set_lib::lemma_int_range(0, n);
    assert forall|a: int, b: int|
        places.contains(a) && places.contains(b) && #[trigger] f(a) == #[trigger] f(b) implies a
        == b by {
        if a < b {
            assert(drawn_before(bins, order[a], order[b]));
        } else if b < a {
            assert(drawn_before(bins, order[b], order[a]));
        }
    }
    vstd::set_lib::lemma_map_size(places, named, f);
    assert forall|s: int| named.contains(s) implies places.contains(s) by {
        let i = choose|i: int| places.contains(i) && f(i) == s;
        assert(order[i] < bins.len());
    }
    vstd::set_lib::lemma_subset_equality(named, places);
    assert(named.contains(entry as int));
    let i = choose|i: int| places.contains(i) && f(i) == entry;
    assert(order[i] == entry);
}

/// A set of bins has one back-to-front order.
pub proof fn back_to_front_is_unique(a: Seq<u32>, b: Seq<u32>, bins: Seq<u32>)
    requires
        is_back_to_front(a, bins),
        is_back_to_front(b, bins),
    ensures
        a == b,
{
    assert forall|k: int| 0 <= k < a.len() implies #[trigger] a[k] == b[k] by {
        orders_agree(a, b, bins, k);
    }
    assert(a =~= b);
}

proof fn orders_agree(a: Seq<u32>, b: Seq<u32>, bins: Seq<u32>, k: int)
    requires
        is_back_to_front(a, bins),
        is_back_to_front(b, bins),
        0 <= k < a.len(),
    ensures
        a[k] == b[k],
    decreases k,
{
    assert forall|m: int| 0 <= m < k implies #[trigger] a[m] == b[m] by {
        orders_agree(a, b, bins, m);
    }
    if a[k] != b[k] {
        back_to_front_names_every_entry(b, bins, a[k]);
        back_to_front_names_every_entry(a, bins, b[k]);
        let i = choose|i: int| 0 <= i < b.len() && b[i] == a[k];
        let j = choose|j: int| 0 <= j < a.len() && a[j] == b[k];
        if i < k {
            assert(a[i] == b[i]);
            assert(drawn_before(bins, a[i], a[k]));
        }
        if j < k {
            assert(a[j] == b[j]);
            assert(drawn_before(bins, b[j], b[k]));
        }
        assert(drawn_before(bins, a[k], a[j]));
        assert(drawn_before(bins, b[k], b[i]));
    }
}

/// Orders entries back to front by their depth bin: a counting sort, read from its end.
pub fn order_by_bins(bins: &[u32]) -> (order: Vec<u32>)
    requires
        bins@.len() <= u32::MAX,
        forall|i: int| 0 <= i < bins@.len() ==> #[trigger] bins@[i] < DEPTH_BINS,
    ensures
        is_back_to_front(order@, bins@),
{
    let n: usize = bins.len();
    let mut counts: Vec<u32> = vec![0u32; DEPTH_BINS];
    let mut i: usize = 0;
    while i < n
        invariant
            i <= n,
            n == bins@.len(),
            n <= u32::MAX,
            counts@.len() == DEPTH_BINS,
            forall|k: int| 0 <= k < n ==> #[trigger] bins@[k] < DEPTH_BINS,
            forall|b: int| 0 <= b < DEPTH_BINS ==> #[trigger] counts@[b] == count_at(bins@, i as nat, b),
        decreases n - i,
    {
        let b: usize = bins[i] as usize;
        proof {
            count_at_monotone(bins@, i as nat, i as nat, b as int);
        }
        let c: u32 = counts[b];
        counts.set(b, c + 1);
        i = i + 1;
    }
    let mut starts: Vec<u32> = vec![0u32; DEPTH_BINS];
    let mut b: usize = 1;
    proof {
        count_below_zero(bins@, n as nat);
    }
    while b < DEPTH_BINS
        invariant
            1 <= b <= DEPTH_BINS,
            n == bins@.len(),
            n <= u32::MAX,
            counts@.len() == DEPTH_BINS,
            starts@.len() == DEPTH_BINS,
            forall|k: int| 0 <= k < DEPTH_BINS ==> #[trigger] counts@[k] == count_at(bins@, n as nat, k),
            forall|k: int| 0 <= k < b ==> #[trigger] starts@[k] == count_below(bins@, n as nat, k),
        decreases DEPTH_BINS - b,
    {
        proof {
            count_below_step(bins@, n as nat, b - 1);
            count_below_monotone(bins@, n as nat, b as int, b as int);
        }
        let start: u32 = starts[b - 1] + counts[b - 1];
        starts.set(b, start);
        b = b + 1;
    }
    let mut order: Vec<u32> = vec![0u32; n];
    let mut i: usize = 0;
    while i < n
        invariant
            i <= n,
            n == bins@.len(),
            n <= u32::MAX,
            order@.len() == n,
            starts@.len() == DEPTH_BINS,
            forall|k: int| 0 <= k < n ==> #[trigger] bins@[k] < DEPTH_BINS,
            forall|k: int|
                0 <= k < DEPTH_BINS ==> #[trigger] starts@[k] == count_below(bins@, n as nat, k)
                    + count_at(bins@, i as nat, k),
            forall|k: int|
                0 <= k < i ==> order@[n - 1 - #[trigger] ascending_slot(bins@, k)] == k,
        decreases n - i,
    {
        let b: usize = bins[i] as usize;
        proof {
            ascending_slot_in_range(bins@, i as int);
        }
        let slot: u32 = starts[b];
        let place: usize = n - 1 - slot as usize;
        let ghost before = order@;
        order.set(place, i as u32);
        starts.set(b, slot + 1);
        proof {
            assert forall|k: int| 0 <= k < i + 1 implies order@[n - 1 - #[trigger] ascending_slot(
                bins@,
                k,
            )] == k by {
                if k < i {
                    ascending_slot_in_range(bins@, k);
                    if bins@[k] < bins@[i as int] || bins@[k] == bins@[i as int] {
                        ascending_slots_are_ordered(bins@, k, i as int);
                    } else {
                        ascending_slots_are_ordered(bins@, i as int, k);
                    }
                }
            }
        }
        i = i + 1;
    }
    proof {
        assert forall|p: int| 0 <= p < n implies {
            &&& #[trigger] order@[p] < n
            &&& ascending_slot(bins@, order@[p] as int) == n - 1 - p
        } by {
            ascending_slots_are_onto(bins@, n - 1 - p);
            let k = choose|k: int|
                0 <= k < bins@.len() && #[trigger] ascending_slot(bins@, k) == n - 1 - p;
            assert(order@[n - 1 - ascending_slot(bins@, k)] == k);
        }
        assert forall|p: int, q: int| 0 <= p < q < n implies drawn_before(
            bins@,
            #[trigger] order@[p],
            #[trigger] order@[q],
        ) by {
            let a = order@[p] as int;
            let c = order@[q] as int;
            if !drawn_before(bins@, order@[p], order@[q]) {
                if a == c {
                    assert(ascending_slot(bins@, a) == n - 1 - p);
                } else {
                    ascending_slots_are_ordered(bins@, a, c);
                }
            }
        }
    }
    order
}

/// The entries of several lists one after the other, for the first `n` lists.
pub open spec fn flattened(lists: Seq<Vec<u32>>, n: nat) -> Seq<u32>
    decreases n,
{
    if n == 0 {
        Seq::empty()
    } else {
        flattened(lists, (n - 1) as nat) + lists[n - 1]@
    }
}

/// For each entry of the flattened lists, its list and its place in it.
pub open spec fn owners(lists: Seq<Vec<u32>>, n: nat) -> Seq<(usize, usize)>
    decreases n,
{
    if n == 0 {
        Seq::empty()
    } else {
        owners(lists, (n - 1) as nat) + Seq::new(
            lists[n - 1]@.len(),
            |k: int| ((n - 1) as usize, k as usize),
        )
    }
}

/// Orders the entries of several scenes together, back to front. An entry is named by its scene
/// and its place there.
pub fn order_merged(lists: &Vec<Vec<u32>>) -> (order: Vec<(usize, usize)>)
    requires
        flattened(lists@, lists@.len()).len() <= u32::MAX,
        forall|i: int, k: int|
            0 <= i < lists@.len() && 0 <= k < lists@[i]@.len() ==> (#[trigger] lists@[i]@[k])
                < DEPTH_BINS,
    ensures
        order@.len() == flattened(lists@, lists@.len()).len(),
        exists|flat: Seq<u32>|
            {
                &&& #[trigger] is_back_to_front(flat, flattened(lists@, lists@.len()))
                &&& forall|p: int|
                    0 <= p < order@.len() ==> #[trigger] order@[p] == owners(
                        lists@,
                        lists@.len(),
                    )[flat[p] as int]
            },
{
    let mut flat: Vec<u32> = Vec::new();
    let mut owner: Vec<(usize, usize)> = Vec::new();
    let mut i: usize = 0;
    while i < lists.len()
        invariant
            i <= lists@.len(),
            flat@ == flattened(lists@, i as nat),
            owner@ == owners(lists@, i as nat),
            flat@.len() == owner@.len(),
            forall|k: int| 0 <= k < flat@.len() ==> #[trigger] flat@[k] < DEPTH_BINS,
            forall|j: int, k: int|
                0 <= j < lists@.len() && 0 <= k < lists@[j]@.len() ==> (#[trigger] lists@[j]@[k])
                    < DEPTH_BINS,
        decreases lists@.len() - i,
    {
        let ghost flat0 = flat@;
        let ghost owner0 = owner@;
        let list: &Vec<u32> = &lists[i];
        let mut k: usize = 0;
        while k < list.len()
            invariant
                i < lists@.len(),
                k <= list@.len(),
                list@ == lists@[i as int]@,
                flat@ == flat0 + list@.take(k as int),
                owner@ == owner0 + Seq::new(k as nat, |m: int| (i, m as usize)),
                flat@.len() == owner@.len(),
                forall|m: int| 0 <= m < flat@.len() ==> #[trigger] flat@[m] < DEPTH_BINS,
                forall|j: int, m: int|
                    0 <= j < lists@.len() && 0 <= m < lists@[j]@.len() ==> (
                    #[trigger] lists@[j]@[m]) < DEPTH_BINS,
            decreases list@.len() - k,
        {
            assert(lists@[i as int]@[k as int] < DEPTH_BINS);
            flat.push(list[k]);
            owner.push((i, k));
            assert(flat@ =~= flat0 + list@.take(k + 1));
            assert(owner@ =~= owner0 + Seq::new((k + 1) as nat, |m: int| (i, m as usize)));
            k = k + 1;
        }
        assert(list@.take(list@.len() as int) =~= list@);
        assert(owner@ =~= owners(lists@, (i + 1) as nat));
        i = i + 1;
    }
    let by_depth: Vec<u32> = order_by_bins(flat.as_slice());
    let mut order: Vec<(usize, usize)> = Vec::new();
    let mut p: usize = 0;
    while p < by_depth.len()
        invariant
            p <= by_depth@.len(),
            order@.len() == p,
            flat@.len() == owner@.len(),
            owner@ == owners(lists@, lists@.len()),
            is_back_to_front(by_depth@, flat@),
            forall|q: int|
                0 <= q < p ==> #[trigger] order@[q] == owners(
                    lists@,
                    lists@.len(),
                )[by_depth@[q] as int],
        decreases by_depth@.len() - p,
    {
        let entry: usize = by_depth[p] as usize;
        order.push(owner[entry]);
        p = p + 1;
    }
    assert(is_back_to_front(by_depth@, flattened(lists@, lists@.len())));
    order
}

/// Least and greatest depth of a list, in its order of appearance.
pub open spec fn least(values: Seq<i32>, n: nat) -> int
    decreases n,
{
    if n <= 1 {
        values[0] as int
    } else if values[n - 1] < least(values, (n - 1) as nat) {
        values[n - 1] as int
    } else {
        least(values, (n - 1) as nat)
    }
}

pub open spec fn greatest(values: Seq<i32>, n: nat) -> int
    decreases n,
{
    if n <= 1 {
        values[0] as int
    } else if values[n - 1] > greatest(values, (n - 1) as nat) {
        values[n - 1] as int
    } else {
        greatest(values, (n - 1) as nat)
    }
}

/// The range of a list of depths: `i32::MAX` and `i32::MIN` where there are none.
pub fn depth_range(depths: &[i32]) -> (r: (i32, i32))
    ensures
        depths@.len() == 0 ==> r == (i32::MAX, i32::MIN),
        depths@.len() > 0 ==> r.0 == least(depths@, depths@.len()) && r.1 == greatest(
            depths@,
            depths@.len(),
        ),
{
    let mut min_depth: i32 = i32::MAX;
    let mut max_depth: i32 = i32::MIN;
    for i in 0..depths.len()
        invariant
            i == 0 ==> min_depth == i32::MAX && max_depth == i32::MIN,
            i > 0 ==> min_depth == least(depths@, i as nat) && max_depth == greatest(
                depths@,
                i as nat,
            ),
    {
        let depth: i32 = depths[i];
        if depth > max_depth {
            max_depth = depth;
        }
        if depth < min_depth {
            min_depth = depth;
        }
    }
    (min_depth, max_depth)
}

/// The least and greatest depth bound every depth of the list and occur in it.
pub proof fn depth_range_is_tight(depths: Seq<i32>, n: nat, i: int)
    requires
        0 <= i < n <= depths.len(),
    ensures
        least(depths, n) <= depths[i] <= greatest(depths, n),
        exists|k: int| 0 <= k < n && #[trigger] depths[k] == least(depths, n),
        exists|k: int| 0 <= k < n && #[trigger] depths[k] == greatest(depths, n),
    decreases n,
{
    if n == 1 {
        assert(depths[0] == least(depths, n));
    } else {
        depth_range_is_tight(depths, (n - 1) as nat, if i == n - 1 {
            0
        } else {
            i
        });
        let a = choose|k: int| 0 <= k < n - 1 && #[trigger] depths[k] == least(depths, (n - 1) as nat);
        let b = choose|k: int|
            0 <= k < n - 1 && #[trigger] depths[k] == greatest(depths, (n - 1) as nat);
        assert(depths[n - 1] == depths[n - 1]);
        assert(depths[a] == least(depths, (n - 1) as nat));
        assert(depths[b] == greatest(depths, (n - 1) as nat));
    }
}

/// Four numbers compared from the first to the last.
pub open spec fn record_le(a: (i64, usize, usize, usize), b: (i64, usize, usize, usize)) -> bool {
    a.0 < b.0 || (a.0 == b.0 && (a.1 < b.1 || (a.1 == b.1 && (a.2 < b.2 || (a.2 == b.2 && a.3
        <= b.3)))))
}

/// `<[T]>::sort_unstable` of std on tuples of integers: the same tuples in lexicographic order.
#[verifier::external_body]
pub(crate) fn sort_records(records: &mut Vec<(i64, usize, usize, usize)>)
    ensures
        final(records)@.to_multiset() == old(records)@.to_multiset(),
        forall|i: int, j: int|
            0 <= i < j < final(records)@.len() ==> record_le(
                #[trigger] final(records)@[i],
                #[trigger] final(records)@[j],
            ),
{
    records.sort_unstable();
}

/// Records that end in their own place are told apart by it, and sorting keeps them all.
pub proof fn sorted_records_keep_places(
    unsorted: Seq<(i64, usize, usize, usize)>,
    sorted: Seq<(i64, usize, usize, usize)>,
)
    requires
        unsorted.len() <= usize::MAX,
        sorted.to_multiset() == unsorted.to_multiset(),
        forall|k: int| 0 <= k < unsorted.len() ==> (#[trigger] unsorted[k]).3 == k,
    ensures
        sorted.len() == unsorted.len(),
        sorted.no_duplicates(),
        forall|k: int|
            0 <= k < sorted.len() ==> (#[trigger] sorted[k]).3 < unsorted.len() && sorted[k]
                == unsorted[sorted[k].3 as int],
        forall|k: int, m: int|
            0 <= k < sorted.len() && 0 <= m < sorted.len() && k != m ==> (#[trigger] sorted[k]).3
                != (#[trigger] sorted[m]).3,
        forall|k: int|
            0 <= k < unsorted.len() ==> sorted.contains(#[trigger] unsorted[k]),
{
    assert(unsorted.no_duplicates()) by {
        assert forall|a: int, b: int|
            0 <= a < unsorted.len() && 0 <= b < unsorted.len() && a != b implies unsorted[a]
            != unsorted[b] by {
            assert(unsorted[a].3 == a);
            assert(unsorted[b].3 == b);
        }
    }
    unsorted.lemma_multiset_has_no_duplicates();
    sorted.lemma_multiset_has_no_duplicates_conv();
    unsorted.to_multiset_ensures();
    sorted.to_multiset_ensures();
    assert forall|k: int| 0 <= k < sorted.len() implies (#[trigger] sorted[k]).3 < unsorted.len()
        && sorted[k] == unsorted[sorted[k].3 as int] by {
        assert(sorted.contains(sorted[k]));
        assert(sorted.to_multiset().count(sorted[k]) > 0);
        assert(unsorted.contains(sorted[k]));
        let m = choose|m: int| 0 <= m < unsorted.len() && unsorted[m] == sorted[k];
        assert(unsorted[m].3 == m);
    }
    assert forall|k: int, m: int|
        0 <= k < sorted.len() && 0 <= m < sorted.len() && k != m implies (#[trigger] sorted[k]).3
        != (#[trigger] sorted[m]).3 by {
        assert(sorted[k] != sorted[m]);
    }
    assert forall|k: int| 0 <= k < unsorted.len() implies sorted.contains(#[trigger] unsorted[k]) by {
        assert(unsorted.contains(unsorted[k]));
        assert(unsorted.to_multiset().count(unsorted[k]) > 0);
    }
}

/// `order` names every entry once, larger sizes first and equal sizes in their old order.
pub open spec fn is_largest_first(order: Seq<u32>, sizes: Seq<u32>) -> bool {
    &&& order.len() == sizes.len()
    &&& forall|i: int| 0 <= i < order.len() ==> #[trigger] order[i] < sizes.len()
    &&& forall|i: int, j: int|
        0 <= i < j < order.len() ==> larger_first(sizes, #[trigger] order[i], #[trigger] order[j])
}

pub open spec fn larger_first(sizes: Seq<u32>, a: u32, b: u32) -> bool {
    let ra = crate::float_bits::rank(sizes[a as int]);
    let rb = crate::float_bits::rank(sizes[b as int]);
    ra > rb || (ra == rb && a < b)
}

/// `order` names every entry once. An entry whose size is NaN keeps its place; the others come
/// larger sizes first and equal sizes in their old order.
pub open spec fn is_size_order(order: Seq<u32>, sizes: Seq<u32>) -> bool {
    &&& order.len() == sizes.len()
    &&& forall|i: int| 0 <= i < order.len() ==> #[trigger] order[i] < sizes.len()
    &&& forall|i: int, j: int|
        0 <= i < j < order.len() ==> #[trigger] order[i] != #[trigger] order[j]
    &&& forall|i: int|
        0 <= i < order.len() ==> if crate::float_bits::nan(sizes[i]) {
            #[trigger] order[i] == i
        } else {
            !crate::float_bits::nan(sizes[order[i] as int])
        }
    &&& forall|i: int, j: int|
        0 <= i < j < order.len() && !crate::float_bits::nan(sizes[i]) && !crate::float_bits::nan(
            sizes[j],
        ) ==> larger_first(sizes, #[trigger] order[i], #[trigger] order[j])
}

/// Sizes that are numbers order all entries; sizes that are none leave all where they are.
pub proof fn numbers_are_ordered(order: Seq<u32>, sizes: Seq<u32>)
    requires
        is_size_order(order, sizes),
    ensures
        (forall|i: int| 0 <= i < sizes.len() ==> !crate::float_bits::nan(#[trigger] sizes[i]))
            ==> is_largest_first(order, sizes),
        (forall|i: int| 0 <= i < sizes.len() ==> crate::float_bits::nan(#[trigger] sizes[i]))
            ==> forall|i: int| 0 <= i < order.len() ==> #[trigger] order[i] == i,
{
}

/// How many of the first `n` sizes are numbers.
pub open spec fn number_count(sizes: Seq<u32>, n: nat) -> nat
    decreases n,
{
    if n == 0 {
        0
    } else {
        number_count(sizes, (n - 1) as nat) + if crate::float_bits::nan(sizes[n - 1]) {
            0nat
        } else {
            1nat
        }
    }
}

proof fn number_count_grows(sizes: Seq<u32>, m: nat, n: nat)
    requires
        m <= n <= sizes.len(),
    ensures
        number_count(sizes, m) <= number_count(sizes, n) <= n,
    decreases n,
{
    if n > 0 {
        number_count_grows(
            sizes,
            if m < n {
                m
            } else {
                (n - 1) as nat
            },
            (n - 1) as nat,
        );
    }
}

/// Orders entries by size, the largest first; equal sizes keep their order. Sizes are bit patterns;
/// an entry whose size is not a number keeps its place.
pub fn order_by_size(sizes: &[u32]) -> (order: Vec<u32>)
    requires
        sizes@.len() <= u32::MAX,
    ensures
        is_size_order(order@, sizes@),
        (forall|i: int| 0 <= i < sizes@.len() ==> !crate::float_bits::nan(#[trigger] sizes@[i]))
            ==> is_largest_first(order@, sizes@),
{
    let mut records: Vec<(i64, usize, usize, usize)> = Vec::new();
    let n: usize = sizes.len();
    let mut i: usize = 0;
    while i < n
        invariant
            i <= n,
            n == sizes@.len(),
            records@.len() == number_count(sizes@, i as nat),
            records@.len() <= i,
            forall|k: int|
                0 <= k < records@.len() ==> {
                    &&& (#[trigger] records@[k]).2 < i
                    &&& !crate::float_bits::nan(sizes@[records@[k].2 as int])
                    &&& records@[k] == (
                        -crate::float_bits::rank(sizes@[records@[k].2 as int]) as i64,
                        0usize,
                        records@[k].2,
                        k as usize,
                    )
                },
            forall|k: int, m: int|
                0 <= k < m < records@.len() ==> (#[trigger] records@[k]).2 < (
                #[trigger] records@[m]).2,
        decreases n - i,
    {
        let bits: u32 = sizes[i];
        if !crate::float_bits::is_nan(bits) {
            let key: i64 = if bits >= 0x8000_0000 {
                (bits - 0x8000_0000) as i64
            } else {
                -(bits as i64)
            };
            records.push((key, 0, i, records.len()));
        }
        i = i + 1;
    }
    let ghost unsorted = records@;
    sort_records(&mut records);
    let ghost sorted = records@;
    proof {
        sorted_records_keep_places(unsorted, sorted);
        assert forall|k: int| 0 <= k < sorted.len() implies (#[trigger] sorted[k]).2 < n
            && !crate::float_bits::nan(sizes@[sorted[k].2 as int]) by {
            assert(sorted[k] == unsorted[sorted[k].3 as int]);
        }
        assert forall|k: int, m: int| 0 <= k < m < sorted.len() implies {
            &&& (#[trigger] sorted[k]).2 != (#[trigger] sorted[m]).2
            &&& larger_first(sizes@, sorted[k].2 as u32, sorted[m].2 as u32)
        } by {
            assert(record_le(sorted[k], sorted[m]));
            assert(sorted[k].3 != sorted[m].3);
            assert(sorted[k] == unsorted[sorted[k].3 as int]);
            assert(sorted[m] == unsorted[sorted[m].3 as int]);
        }
    }
    let mut order: Vec<u32> = Vec::new();
    let mut taken: usize = 0;
    let mut p: usize = 0;
    while p < n
        invariant
            p <= n,
            n == sizes@.len(),
            n <= u32::MAX,
            records@ == sorted,
            sorted.len() == number_count(sizes@, n as nat),
            taken == number_count(sizes@, p as nat),
            order@.len() == p,
            forall|k: int|
                0 <= k < sorted.len() ==> (#[trigger] sorted[k]).2 < n && !crate::float_bits::nan(
                    sizes@[sorted[k].2 as int],
                ),
            forall|k: int|
                0 <= k < p ==> #[trigger] order@[k] == if crate::float_bits::nan(sizes@[k]) {
                    k
                } else {
                    sorted[number_count(sizes@, k as nat) as int].2 as int
                },
        decreases n - p,
    {
        if crate::float_bits::is_nan(sizes[p]) {
            order.push(p as u32);
        } else {
            proof {
                number_count_grows(sizes@, (p + 1) as nat, n as nat);
            }
            assert(sorted[taken as int].2 < n);
            order.push(records[taken].2 as u32);
            taken = taken + 1;
        }
        p = p + 1;
    }
    proof {
        assert forall|i: int| 0 <= i < n implies {
            &&& #[trigger] order@[i] < n
            &&& crate::float_bits::nan(sizes@[i]) ==> order@[i] == i
            &&& !crate::float_bits::nan(sizes@[i]) ==> !crate::float_bits::nan(
                sizes@[order@[i] as int],
            )
        } by {
            if !crate::float_bits::nan(sizes@[i]) {
                number_count_grows(sizes@, (i + 1) as nat, n as nat);
                assert(sorted[number_count(sizes@, i as nat) as int].2 < n);
            }
        }
        assert forall|i: int, j: int| 0 <= i < j < n implies {
            &&& #[trigger] order@[i] != #[trigger] order@[j]
            &&& !crate::float_bits::nan(sizes@[i]) && !crate::float_bits::nan(sizes@[j])
                ==> larger_first(sizes@, order@[i], order@[j])
        } by {
            if !crate::float_bits::nan(sizes@[i]) && !crate::float_bits::nan(sizes@[j]) {
                number_count_grows(sizes@, (i + 1) as nat, j as nat);
                number_count_grows(sizes@, (j + 1) as nat, n as nat);
                let a = number_count(sizes@, i as nat) as int;
                let b = number_count(sizes@, j as nat) as int;
                assert(sorted[a].2 != sorted[b].2);
            }
        }
        numbers_are_ordered(order@, sizes@);
    }
    order
}

/// `order` names every entry once, smaller values first and equal values in their old order.
pub open spec fn is_smallest_first(order: Seq<usize>, values: Seq<u32>) -> bool {
    &&& order.len() == values.len()
    &&& forall|i: int| 0 <= i < order.len() ==> #[trigger] order[i] < values.len()
    &&& forall|i: int, j: int|
        0 <= i < j < order.len() ==> smaller_first(values, #[trigger] order[i], #[trigger] order[j])
}

pub open spec fn smaller_first(values: Seq<u32>, a: usize, b: usize) -> bool {
    let ra = crate::float_bits::rank(values[a as int]);
    let rb = crate::float_bits::rank(values[b as int]);
    ra < rb || (ra == rb && a < b)
}

/// Orders entries by value, the smallest first; equal values keep their order. Values are bit
/// patterns of numbers.
pub fn order_ascending(values: &[u32]) -> (order: Vec<usize>)
    ensures
        is_smallest_first(order@, values@),
{
    let mut records: Vec<(i64, usize, usize, usize)> = Vec::new();
    let n: usize = values.len();
    let mut i: usize = 0;
    while i < n
        invariant
            i <= n,
            n == values@.len(),
            records@.len() == i,
            forall|k: int|
                0 <= k < i ==> #[trigger] records@[k] == (
                    crate::float_bits::rank(values@[k]) as i64,
                    0usize,
                    0usize,
                    k as usize,
                ),
        decreases n - i,
    {
        let bits: u32 = values[i];
        let key: i64 = if bits >= 0x8000_0000 {
            -((bits - 0x8000_0000) as i64)
        } else {
            bits as i64
        };
        records.push((key, 0, 0, i));
        i = i + 1;
    }
    let ghost unsorted = records@;
    sort_records(&mut records);
    let ghost sorted = records@;
    proof {
        sorted_records_keep_places(unsorted, sorted);
    }
    let mut order: Vec<usize> = Vec::new();
    let mut p: usize = 0;
    while p < n
        invariant
            p <= n,
            records@.len() == n,
            records@ == sorted,
            order@.len() == p,
            forall|k: int| 0 <= k < p ==> #[trigger] order@[k] == sorted[k].3,
        decreases n - p,
    {
        order.push(records[p].3);
        p = p + 1;
    }
    proof {
        assert forall|i: int| 0 <= i < n implies #[trigger] order@[i] < n by {
            assert(sorted[i].3 < unsorted.len());
        }
        assert forall|i: int, j: int| 0 <= i < j < n implies smaller_first(
            values@,
            #[trigger] order@[i],
            #[trigger] order@[j],
        ) by {
            assert(record_le(sorted[i], sorted[j]));
            assert(sorted[i].3 != sorted[j].3);
            assert(sorted[i] == unsorted[sorted[i].3 as int]);
            assert(sorted[j] == unsorted[sorted[j].3 as int]);
        }
    }
    order
}

/// Where bins keep the order of depths, a back-to-front order follows the depths: from the greatest
/// on, and later entries first among equal ones.
pub proof fn back_to_front_follows_depths(
    order: Seq<u32>,
    bins: Seq<u32>,
    depths: Seq<i32>,
    i: int,
    j: int,
)
    requires
        is_back_to_front(order, bins),
        depths.len() == bins.len(),
        forall|a: int, b: int|
            0 <= a < depths.len() && 0 <= b < depths.len() ==> ((#[trigger] depths[a]) < (
            #[trigger] depths[b]) <==> bins[a] < bins[b]),
        0 <= i < j < order.len(),
    ensures
        depths[order[i] as int] > depths[order[j] as int] || (depths[order[i] as int]
            == depths[order[j] as int] && order[i] > order[j]),
{
    let a = order[i] as int;
    let b = order[j] as int;
    assert(drawn_before(bins, order[i], order[j]));
    assert(depths[a] < depths[b] <==> bins[a] < bins[b]);
    assert(depths[b] < depths[a] <==> bins[b] < bins[a]);
}

/// How far the product of two view axes may be from that of an axis with itself: 0.01.
pub const SAME_VIEW_DISTANCE: u32 = 0x3c23_d70a;

/// The view axis that splats were last ordered along.
#[derive(Debug, Clone, Copy, PartialEq, Eq)]
pub struct LastView {
    pub axis: Option<[u32; 3]>,
}

impl Default for LastView {
    /// Nothing was ordered yet.
    fn default() -> (r: LastView)
        ensures
            r.axis is None,
    {
        LastView { axis: None }
    }
}

impl LastView {
    /// Splats are ordered again: for the first time, or because the view has turned. `distance` is
    /// how far the product of the axis and the last one is from 1.
    pub open spec fn has_turned(self, distance: u32) -> bool {
        self.axis is None || !crate::float_bits::less(distance, SAME_VIEW_DISTANCE)
    }

    /// Says whether splats are to be ordered along a view axis, and keeps the axis if they are.
    pub fn turn_to(&mut self, axis: [u32; 3], distance: u32) -> (r: bool)
        ensures
            r == old(self).has_turned(distance),
            final(self).axis == if r {
                Some(axis)
            } else {
                old(self).axis
            },
    {
        if self.axis.is_some() && crate::float_bits::is_less(distance, SAME_VIEW_DISTANCE) {
            return false;
        }
        self.axis = Some(axis);
        true
    }
}

/// Entries are named once each, from the greatest depth on, and later entries first among equal ones.
pub open spec fn follows_depths(order: Seq<u32>, depths: Seq<i32>) -> bool {
    &&& order.len() == depths.len()
    &&& forall|i: int| 0 <= i < order.len() ==> #[trigger] order[i] < depths.len()
    &&& forall|i: int, j: int|
        0 <= i < j < order.len() ==> {
            let a = #[trigger] order[i];
            let b = #[trigger] order[j];
            depths[a as int] > depths[b as int] || (depths[a as int] == depths[b as int] && a > b)
        }
}

/// Splats are ordered once for a view. Along the first view they are ordered, whatever it is; where
/// bins keep the order of the depths, the order follows the depths; and along a view that is no
/// further from it they are not ordered again.
pub proof fn a_view_is_ordered_once(
    first: LastView,
    then: LastView,
    axis: [u32; 3],
    distance: u32,
    depths: Seq<i32>,
    bins: Seq<u32>,
    order: Seq<u32>,
)
    requires
        first.axis is None,
        then.axis == Some(axis),
        crate::float_bits::less(distance, SAME_VIEW_DISTANCE),
        depths.len() == bins.len(),
        forall|a: int, b: int|
            0 <= a < depths.len() && 0 <= b < depths.len() ==> ((#[trigger] depths[a]) < (
            #[trigger] depths[b]) <==> bins[a] < bins[b]),
        is_back_to_front(order, bins),
    ensures
        forall|any: u32| first.has_turned(any),
        follows_depths(order, depths),
        !then.has_turned(distance),
{
    assert forall|i: int, j: int| 0 <= i < j < order.len() implies {
        let a = #[trigger] order[i];
        let b = #[trigger] order[j];
        depths[a as int] > depths[b as int] || (depths[a as int] == depths[b as int] && a > b)
    } by {
        back_to_front_follows_depths(order, bins, depths, i, j);
    }
}

} // verus!
