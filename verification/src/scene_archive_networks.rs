//! What the deformation network of a scene archive is for: nothing, in the current format. Archives
//! that differ in it alone amount to the same tiles and the same motion.

use crate::basis_bank_motion::{
    BasisBankCoeffZipEntry, BasisBankLodZipEntry, BasisBankMotionMeta, BasisBankMotionWireMeta,
};
use crate::scene_archive::{
    EntryKind, EntryName, ScanState, SceneArchiveError, SceneFileEntry, SceneZipScan,
};
use vstd::prelude::*;

verus! {

/// The entry is a deformation network.
pub open spec fn is_network(name: EntryName) -> bool {
    name matches EntryName::Name { name: filename } && crate::scene_archive::kind_of(
        crate::text::lowered(filename@),
    ) == EntryKind::Deformation
}

/// The entries of an archive beside one with a network at `at`: the same names if it has a network
/// there too (`kept`), else all but that one.
pub open spec fn names_beside(names: Seq<EntryName>, at: int, kept: bool) -> Seq<EntryName> {
    if kept {
        names
    } else {
        names.remove(at)
    }
}

/// The place in the other archive of the entry at `index`.
pub open spec fn moved(index: usize, at: int, kept: bool) -> usize {
    if kept || index < at {
        index
    } else {
        (index - 1) as usize
    }
}

/// Every entry but the network that can be read holds the same bytes in both archives.
pub open spec fn same_contents(
    a: Seq<u8>,
    b: Seq<u8>,
    count: nat,
    at: int,
    kept: bool,
) -> bool {
    forall|i: usize|
        i < count && i != at && (#[trigger] crate::zip_file::whole_entry(a, i)) is Ok
            ==> crate::zip_file::whole_entry(b, moved(i, at, kept))
            == crate::zip_file::whole_entry(a, i)
}

pub open spec fn option_moved(index: Option<usize>, at: int, kept: bool) -> Option<usize> {
    match index {
        Some(i) => Some(moved(i, at, kept)),
        None => None,
    }
}

pub open spec fn banks_moved(
    entries: Seq<BasisBankLodZipEntry>,
    at: int,
    kept: bool,
) -> Seq<BasisBankLodZipEntry> {
    Seq::new(
        entries.len(),
        |i: int|
            BasisBankLodZipEntry { index: moved(entries[i].index, at, kept), ..entries[i] },
    )
}

pub open spec fn coefficients_moved(
    entries: Seq<BasisBankCoeffZipEntry>,
    at: int,
    kept: bool,
) -> Seq<BasisBankCoeffZipEntry> {
    Seq::new(
        entries.len(),
        |i: int|
            BasisBankCoeffZipEntry { index: moved(entries[i].index, at, kept), ..entries[i] },
    )
}

pub open spec fn tiles_moved(
    entries: Seq<SceneFileEntry>,
    at: int,
    kept: bool,
) -> Seq<SceneFileEntry> {
    Seq::new(
        entries.len(),
        |i: int| SceneFileEntry { index: moved(entries[i].index, at, kept), ..entries[i] },
    )
}

spec fn state_moved(state: ScanState, at: int, kept: bool) -> ScanState {
    ScanState {
        deformation: if kept {
            state.deformation
        } else {
            None
        },
        legacy_motion: state.legacy_motion,
        meta: option_moved(state.meta, at, kept),
        graph: option_moved(state.graph, at, kept),
        basis: banks_moved(state.basis, at, kept),
        coefficients: coefficients_moved(state.coefficients, at, kept),
        scenes: tiles_moved(state.scenes, at, kept),
    }
}

/// The entries of a state lie before `n`, and none of them is at `at`.
spec fn avoids(state: ScanState, n: nat, at: int) -> bool {
    &&& state.meta matches Some(i) ==> i < n && i != at
    &&& state.graph matches Some(i) ==> i < n && i != at
    &&& forall|i: int|
        0 <= i < state.basis.len() ==> (#[trigger] state.basis[i]).index < n && state.basis[i].index
            != at
    &&& forall|i: int|
        0 <= i < state.coefficients.len() ==> (#[trigger] state.coefficients[i]).index < n
            && state.coefficients[i].index != at
    &&& forall|i: int|
        0 <= i < state.scenes.len() ==> (#[trigger] state.scenes[i]).index < n
            && state.scenes[i].index != at
}

proof fn scanned_entries_avoid(names: Seq<EntryName>, at: int, n: nat)
    requires
        0 <= at < names.len() <= usize::MAX,
        n <= names.len(),
        is_network(names[at]),
        crate::scene_archive::scan_of(names, n) is Ok,
    ensures
        avoids(crate::scene_archive::scan_of(names, n)->Ok_0, n, at),
    decreases n,
{
    if n > 0 {
        scanned_entries_avoid(names, at, (n - 1) as nat);
    }
}

proof fn scan_without_network(names: Seq<EntryName>, at: int, n: nat)
    requires
        0 <= at < n <= names.len() <= usize::MAX,
        is_network(names[at]),
        crate::scene_archive::scan_of(names, n) is Ok,
    ensures
        crate::scene_archive::scan_of(names.remove(at), (n - 1) as nat) == Ok::<
            ScanState,
            SceneArchiveError,
        >(state_moved(crate::scene_archive::scan_of(names, n)->Ok_0, at, false)),
        (crate::scene_archive::scan_of(names, n)->Ok_0).deformation is Some,
    decreases n,
{
    let rest = names.remove(at);
    let state = crate::scene_archive::scan_of(names, n)->Ok_0;
    let before = crate::scene_archive::scan_of(names, (n - 1) as nat)->Ok_0;
    if n == at + 1 {
        scan_of_first_names(names, rest, at as nat);
        scanned_entries_avoid(names, at, at as nat);
        let other = state_moved(state, at, false);
        assert(other.basis =~= before.basis);
        assert(other.coefficients =~= before.coefficients);
        assert(other.scenes =~= before.scenes);
    } else {
        scan_without_network(names, at, (n - 1) as nat);
        assert(rest[n - 2] == names[n - 1]);
        let other = state_moved(before, at, false);
        let next = state_moved(state, at, false);
        assert(crate::scene_archive::scan_of(rest, (n - 1) as nat)
            == crate::scene_archive::scan_entry(other, (n - 2) as usize, names[n - 1]));
        match names[n - 1] {
            EntryName::Name { name } => {
                match crate::scene_archive::kind_of(crate::text::lowered(name@)) {
                    EntryKind::Basis { lod } => {
                        assert(next.basis =~= other.basis.push(
                            BasisBankLodZipEntry {
                                index: (n - 2) as usize,
                                filename: name,
                                lod_id: lod,
                            },
                        ));
                    },
                    EntryKind::Coefficients { tile, lod } => {
                        assert(next.coefficients =~= other.coefficients.push(
                            BasisBankCoeffZipEntry {
                                index: (n - 2) as usize,
                                filename: name,
                                tile_id: tile,
                                lod_id: lod,
                            },
                        ));
                    },
                    EntryKind::Scene { tile, lod } => {
                        assert(next.scenes =~= other.scenes.push(
                            SceneFileEntry {
                                index: (n - 2) as usize,
                                filename: name,
                                lod_id: lod,
                                tile_id: tile,
                            },
                        ));
                    },
                    _ => {},
                }
            },
            _ => {},
        }
    }
}

proof fn scan_of_first_names(a: Seq<EntryName>, b: Seq<EntryName>, n: nat)
    requires
        n <= a.len(),
        n <= b.len(),
        forall|i: int| 0 <= i < n ==> a[i] == b[i],
    ensures
        crate::scene_archive::scan_of(a, n) == crate::scene_archive::scan_of(b, n),
    decreases n,
{
    if n > 0 {
        scan_of_first_names(a, b, (n - 1) as nat);
    }
}

proof fn scan_beside(names: Seq<EntryName>, at: int, kept: bool)
    requires
        0 <= at < names.len() <= usize::MAX,
        is_network(names[at]),
        crate::scene_archive::scan_of(names, names.len()) is Ok,
    ensures
        crate::scene_archive::scan_of(
            names_beside(names, at, kept),
            names_beside(names, at, kept).len(),
        ) == Ok::<ScanState, SceneArchiveError>(
            state_moved(crate::scene_archive::scan_of(names, names.len())->Ok_0, at, kept),
        ),
{
    if kept {
        let state = crate::scene_archive::scan_of(names, names.len())->Ok_0;
        let other = state_moved(state, at, kept);
        assert(other.basis =~= state.basis);
        assert(other.coefficients =~= state.coefficients);
        assert(other.scenes =~= state.scenes);
    } else {
        scan_without_network(names, at, names.len());
    }
}

proof fn place_of_moved(
    sorted: Seq<SceneFileEntry>,
    entry: SceneFileEntry,
    n: nat,
    at: int,
    kept: bool,
)
    requires
        n <= sorted.len(),
    ensures
        crate::scene_archive::tile_place(
            tiles_moved(sorted, at, kept),
            SceneFileEntry { index: moved(entry.index, at, kept), ..entry },
            n,
        ) == crate::scene_archive::tile_place(sorted, entry, n),
        0 <= crate::scene_archive::tile_place(sorted, entry, n) <= n,
    decreases n,
{
    if n > 0 {
        place_of_moved(sorted, entry, (n - 1) as nat, at, kept);
    }
}

proof fn sorting_moved(scenes: Seq<SceneFileEntry>, n: nat, at: int, kept: bool)
    requires
        n <= scenes.len(),
    ensures
        crate::scene_archive::sorted_tiles(tiles_moved(scenes, at, kept), n) == tiles_moved(
            crate::scene_archive::sorted_tiles(scenes, n),
            at,
            kept,
        ),
        crate::scene_archive::sorted_tiles(scenes, n).len() == n,
    decreases n,
{
    let others = tiles_moved(scenes, at, kept);
    if n == 0 {
        assert(tiles_moved(crate::scene_archive::sorted_tiles(scenes, n), at, kept) =~= Seq::<
            SceneFileEntry,
        >::empty());
    } else {
        sorting_moved(scenes, (n - 1) as nat, at, kept);
        let before = crate::scene_archive::sorted_tiles(scenes, (n - 1) as nat);
        place_of_moved(before, scenes[n - 1], before.len(), at, kept);
        let place = crate::scene_archive::tile_place(before, scenes[n - 1], before.len());
        assert(tiles_moved(before.insert(place, scenes[n - 1]), at, kept) =~= tiles_moved(
            before,
            at,
            kept,
        ).insert(place, others[n - 1]));
    }
}

proof fn max_tile_of_moved(tiles: Seq<SceneFileEntry>, n: nat, at: int, kept: bool)
    requires
        n <= tiles.len(),
    ensures
        crate::scene_archive::max_tile(tiles_moved(tiles, at, kept), n)
            == crate::scene_archive::max_tile(tiles, n),
    decreases n,
{
    if n > 0 {
        max_tile_of_moved(tiles, (n - 1) as nat, at, kept);
    }
}

proof fn misplaced_of_moved(
    tiles: Seq<SceneFileEntry>,
    tile_count: int,
    from: nat,
    at: int,
    kept: bool,
)
    ensures
        crate::scene_archive::first_misplaced(tiles_moved(tiles, at, kept), tile_count, from)
            == crate::scene_archive::first_misplaced(tiles, tile_count, from),
        crate::scene_archive::first_misplaced(tiles, tile_count, from) matches Some(i) ==> 0 <= i
            < tiles.len(),
    decreases tiles.len() - from,
{
    if from < tiles.len() {
        misplaced_of_moved(tiles, tile_count, from + 1, at, kept);
    }
}

proof fn grid_of_moved(scenes: Seq<SceneFileEntry>, at: int, kept: bool)
    ensures
        crate::scene_archive::grid_error(tiles_moved(scenes, at, kept))
            == crate::scene_archive::grid_error(scenes),
{
    sorting_moved(scenes, scenes.len(), at, kept);
    if scenes.len() > 0 {
        let tiles = crate::scene_archive::sorted_tiles(scenes, scenes.len());
        let others = tiles_moved(tiles, at, kept);
        assert(others.last().lod_id == tiles.last().lod_id);
        max_tile_of_moved(tiles, tiles.len(), at, kept);
        misplaced_of_moved(
            tiles,
            crate::scene_archive::max_tile(tiles, tiles.len()) + 1,
            0,
            at,
            kept,
        );
    }
}

/// Tiles that form a grid have one width and one height.
proof fn grid_has_one_shape(
    tiles: Seq<SceneFileEntry>,
    others: Seq<SceneFileEntry>,
    lods: int,
    width: int,
    other_lods: int,
    other_width: int,
)
    requires
        crate::scene_archive::is_tile_grid(tiles, lods, width),
        crate::scene_archive::is_tile_grid(others, other_lods, other_width),
        tiles.len() == others.len(),
        forall|i: int|
            0 <= i < tiles.len() ==> (#[trigger] tiles[i]).tile_id == (
            #[trigger] others[i]).tile_id,
    ensures
        lods == other_lods,
        width == other_width,
{
    let n = tiles.len() as int;
    assert(n >= width && n >= other_width) by (nonlinear_arith)
        requires
            n == lods * width,
            n == other_lods * other_width,
            lods > 0,
            width > 0,
            other_lods > 0,
            other_width > 0,
    ;
    if width < other_width {
        assert(tiles[width].tile_id == others[width].tile_id);
        vstd::arithmetic::div_mod::lemma_mod_self_0(width);
        vstd::arithmetic::div_mod::lemma_small_mod(width as nat, other_width as nat);
    } else if other_width < width {
        assert(tiles[other_width].tile_id == others[other_width].tile_id);
        vstd::arithmetic::div_mod::lemma_mod_self_0(other_width);
        vstd::arithmetic::div_mod::lemma_small_mod(other_width as nat, width as nat);
    }
    assert(lods == other_lods) by (nonlinear_arith)
        requires
            lods * width == other_lods * width,
            width > 0,
    ;
}

proof fn repeats_of_moved(entries: Seq<BasisBankCoeffZipEntry>, i: int, at: int, kept: bool)
    requires
        0 <= i < entries.len(),
    ensures
        crate::basis_bank_motion::repeats_tile(coefficients_moved(entries, at, kept), i)
            == crate::basis_bank_motion::repeats_tile(entries, i),
{
    let others = coefficients_moved(entries, at, kept);
    if crate::basis_bank_motion::repeats_tile(entries, i) {
        let j = choose|j: int|
            0 <= j < i && crate::basis_bank_motion::same_tile(#[trigger] entries[j], entries[i]);
        assert(crate::basis_bank_motion::same_tile(others[j], others[i]));
    }
    if crate::basis_bank_motion::repeats_tile(others, i) {
        let j = choose|j: int|
            0 <= j < i && crate::basis_bank_motion::same_tile(#[trigger] others[j], others[i]);
        assert(crate::basis_bank_motion::same_tile(entries[j], entries[i]));
    }
}

proof fn first_repeat_of_moved(
    entries: Seq<BasisBankCoeffZipEntry>,
    from: nat,
    at: int,
    kept: bool,
)
    ensures
        crate::basis_bank_motion::first_repeat(coefficients_moved(entries, at, kept), from)
            == crate::basis_bank_motion::first_repeat(entries, from),
    decreases entries.len() - from,
{
    if from < entries.len() {
        repeats_of_moved(entries, from as int, at, kept);
        first_repeat_of_moved(entries, from + 1, at, kept);
    }
}

proof fn fault_of_moved(
    entries: Seq<BasisBankCoeffZipEntry>,
    lod_count: int,
    tile_count: int,
    from: nat,
    at: int,
    kept: bool,
)
    ensures
        crate::scene_archive::coefficient_fault(
            coefficients_moved(entries, at, kept),
            lod_count,
            tile_count,
            from,
        ) == crate::scene_archive::coefficient_fault(entries, lod_count, tile_count, from),
    decreases entries.len() - from,
{
    if from < entries.len() {
        repeats_of_moved(entries, from as int, at, kept);
        fault_of_moved(entries, lod_count, tile_count, from + 1, at, kept);
    }
}

proof fn entry_of_moved(
    entries: Seq<BasisBankCoeffZipEntry>,
    lod: int,
    tile: int,
    from: nat,
    at: int,
    kept: bool,
)
    ensures
        crate::basis_bank_motion::entry_for(coefficients_moved(entries, at, kept), lod, tile, from)
            == crate::basis_bank_motion::entry_for(entries, lod, tile, from),
        crate::basis_bank_motion::entry_for(entries, lod, tile, from) matches Some(i) ==> 0 <= i
            < entries.len(),
    decreases entries.len() - from,
{
    if from < entries.len() {
        entry_of_moved(entries, lod, tile, from + 1, at, kept);
    }
}

proof fn coefficients_of_moved(
    a: Seq<u8>,
    b: Seq<u8>,
    count: nat,
    meta: BasisBankMotionMeta,
    entries: Seq<BasisBankCoeffZipEntry>,
    scenes: Seq<Vec<crate::scene::Scene>>,
    lod: nat,
    tile: nat,
    at: int,
    kept: bool,
)
    requires
        same_contents(a, b, count, at, kept),
        forall|i: int|
            0 <= i < entries.len() ==> (#[trigger] entries[i]).index < count && entries[i].index
                != at,
        crate::basis_bank_motion::coefficients_before(a, meta, entries, scenes, lod, tile) is Ok,
    ensures
        crate::basis_bank_motion::coefficients_before(
            b,
            meta,
            coefficients_moved(entries, at, kept),
            scenes,
            lod,
            tile,
        ) == crate::basis_bank_motion::coefficients_before(a, meta, entries, scenes, lod, tile),
    decreases lod, tile,
{
    if tile > 0 {
        coefficients_of_moved(
            a,
            b,
            count,
            meta,
            entries,
            scenes,
            lod,
            (tile - 1) as nat,
            at,
            kept,
        );
        let lod_id = lod as usize as int;
        let tile_id = (tile - 1) as usize as int;
        entry_of_moved(entries, lod_id, tile_id, 0, at, kept);
        match crate::basis_bank_motion::entry_for(entries, lod_id, tile_id, 0) {
            Some(i) => {
                assert(crate::zip_file::whole_entry(a, entries[i].index) is Ok);
            },
            None => {},
        }
    } else if lod > 0 {
        coefficients_of_moved(
            a,
            b,
            count,
            meta,
            entries,
            scenes,
            (lod - 1) as nat,
            scenes[lod - 1]@.len(),
            at,
            kept,
        );
    }
}

/// The tiles of two archives that differ in a network alone: the same grid, and every tile that can
/// be read is the same file with the same bytes.
pub open spec fn same_tiles(
    a: Seq<u8>,
    b: Seq<u8>,
    scan: SceneZipScan,
    other: SceneZipScan,
) -> bool {
    &&& other.lod_count == scan.lod_count
    &&& other.tile_count == scan.tile_count
    &&& other.tiles@.len() == scan.tiles@.len()
    &&& forall|i: int|
        0 <= i < scan.tiles@.len() ==> {
            &&& (#[trigger] other.tiles@[i]).filename == (#[trigger] scan.tiles@[i]).filename
            &&& other.tiles@[i].lod_id == scan.tiles@[i].lod_id
            &&& other.tiles@[i].tile_id == scan.tiles@[i].tile_id
            &&& crate::zip_file::whole_entry(a, scan.tiles@[i].index) is Ok
                ==> crate::zip_file::whole_entry(b, other.tiles@[i].index)
                == crate::zip_file::whole_entry(a, scan.tiles@[i].index)
        }
}

/// The network of an archive has no effect on its tiles. Let `a` be an archive whose entries are
/// accepted, with a network at `at`, and let `b` hold the same entries but for that one: it has
/// another network there, or none. Then `b` is accepted too, with the same grid of the same tiles.
/// And if `a` has all assets of a motion, so has `b`, with the same metadata and graph.
pub proof fn networks_have_no_effect_on_tiles(
    a: Seq<u8>,
    b: Seq<u8>,
    names: Seq<EntryName>,
    at: int,
    kept: bool,
    scan: SceneZipScan,
    other: SceneZipScan,
)
    requires
        0 <= at < names.len() <= usize::MAX,
        is_network(names[at]),
        same_contents(a, b, names.len(), at, kept),
        crate::scene_archive::scan_error(names) is None,
        crate::scene_archive::scan_holds(
            scan,
            crate::scene_archive::scan_of(names, names.len())->Ok_0,
        ),
        crate::scene_archive::scan_holds(
            other,
            crate::scene_archive::scan_of(
                names_beside(names, at, kept),
                names_beside(names, at, kept).len(),
            )->Ok_0,
        ),
    ensures
        crate::scene_archive::scan_error(names_beside(names, at, kept)) is None,
        same_tiles(a, b, scan, other),
        other.basis_entries@ == banks_moved(scan.basis_entries@, at, kept),
        other.coeff_entries@ == coefficients_moved(scan.coeff_entries@, at, kept),
        other.graph == option_moved(scan.graph, at, kept),
        scan.graph matches Some(i) ==> crate::zip_file::whole_entry(a, i) is Ok
            ==> crate::zip_file::whole_entry(b, moved(i, at, kept))
            == crate::zip_file::whole_entry(a, i),
        crate::scene_archive::motion_assets(scan) matches Ok(Some(i)) ==> {
            &&& crate::scene_archive::motion_assets(other) == Ok::<
                Option<usize>,
                SceneArchiveError,
            >(Some(moved(i, at, kept)))
            &&& crate::zip_file::whole_entry(a, i) is Ok ==> crate::zip_file::whole_entry(
                b,
                moved(i, at, kept),
            ) == crate::zip_file::whole_entry(a, i)
        },
{
    let state = crate::scene_archive::scan_of(names, names.len())->Ok_0;
    scan_beside(names, at, kept);
    scanned_entries_avoid(names, at, names.len());
    grid_of_moved(state.scenes, at, kept);
    sorting_moved(state.scenes, state.scenes.len(), at, kept);
    sorted_tiles_avoid(state.scenes, state.scenes.len(), names.len(), at);
    assert(other.tiles@ == tiles_moved(scan.tiles@, at, kept));
    grid_has_one_shape(
        scan.tiles@,
        other.tiles@,
        scan.lod_count as int,
        scan.tile_count as int,
        other.lod_count as int,
        other.tile_count as int,
    );
    fault_of_moved(
        scan.coeff_entries@,
        scan.lod_count as int,
        scan.tile_count as int,
        0,
        at,
        kept,
    );
}

proof fn sorted_tiles_avoid(scenes: Seq<SceneFileEntry>, n: nat, count: nat, at: int)
    requires
        n <= scenes.len(),
        forall|i: int|
            0 <= i < scenes.len() ==> (#[trigger] scenes[i]).index < count && scenes[i].index != at,
    ensures
        crate::scene_archive::sorted_tiles(scenes, n).len() == n,
        forall|i: int|
            0 <= i < n ==> (#[trigger] crate::scene_archive::sorted_tiles(scenes, n)[i]).index
                < count && crate::scene_archive::sorted_tiles(scenes, n)[i].index != at,
    decreases n,
{
    if n > 0 {
        sorted_tiles_avoid(scenes, (n - 1) as nat, count, at);
        let before = crate::scene_archive::sorted_tiles(scenes, (n - 1) as nat);
        place_of_moved(before, scenes[n - 1], before.len(), 0, true);
    }
}

/// The network of an archive of the current format has no effect on its motion. Let `a` and `b` be
/// as above, and let `a` have all assets of a motion. Metadata of the current format take no duration
/// from a network in either archive, so both amount to the same metadata; and if the motion of `a`
/// can be loaded, so can that of `b`: the same knots of the same bases, and the same basis numbers
/// and weights for every splat.
pub proof fn networks_have_no_effect_on_motion(
    a: Seq<u8>,
    b: Seq<u8>,
    names: Seq<EntryName>,
    at: int,
    kept: bool,
    scan: SceneZipScan,
    other: SceneZipScan,
    wire: BasisBankMotionWireMeta,
    meta: BasisBankMotionMeta,
    scenes: Seq<Vec<crate::scene::Scene>>,
)
    requires
        0 <= at < names.len() <= usize::MAX,
        is_network(names[at]),
        same_contents(a, b, names.len(), at, kept),
        crate::scene_archive::scan_error(names) is None,
        crate::scene_archive::scan_holds(
            scan,
            crate::scene_archive::scan_of(names, names.len())->Ok_0,
        ),
        crate::scene_archive::scan_holds(
            other,
            crate::scene_archive::scan_of(
                names_beside(names, at, kept),
                names_beside(names, at, kept).len(),
            )->Ok_0,
        ),
        wire.format_version == crate::basis_bank_motion::BASIS_BANK_VERSION,
    ensures
        crate::basis_bank_sampling::duration_from_network(
            a,
            wire.format_version,
            scan.deformation_weights,
        ) == crate::basis_bank_sampling::duration_from_network(
            b,
            wire.format_version,
            other.deformation_weights,
        ),
        crate::basis_bank_sampling::duration_from_network(
            b,
            wire.format_version,
            other.deformation_weights,
        ) == Ok::<Option<u32>, crate::basis_bank_sampling::LegacyDurationError>(None),
        other.lod_count == scan.lod_count,
        crate::basis_bank_motion::motion_error(
            a,
            meta,
            scan.basis_entries@,
            scan.coeff_entries@,
            scenes,
        ) is None ==> {
            &&& crate::basis_bank_motion::motion_error(
                b,
                meta,
                other.basis_entries@,
                other.coeff_entries@,
                scenes,
            ) is None
            &&& crate::basis_bank_motion::bank_knots(b, meta, other.basis_entries@)
                == crate::basis_bank_motion::bank_knots(a, meta, scan.basis_entries@)
            &&& crate::basis_bank_motion::coefficients_before(
                b,
                meta,
                other.coeff_entries@,
                scenes,
                scenes.len(),
                0,
            ) == crate::basis_bank_motion::coefficients_before(
                a,
                meta,
                scan.coeff_entries@,
                scenes,
                scenes.len(),
                0,
            )
        },
{
    networks_have_no_effect_on_tiles(a, b, names, at, kept, scan, other);
    scanned_entries_avoid(names, at, names.len());
    if crate::basis_bank_motion::motion_error(
        a,
        meta,
        scan.basis_entries@,
        scan.coeff_entries@,
        scenes,
    ) is None {
        first_repeat_of_moved(scan.coeff_entries@, 0, at, kept);
        coefficients_of_moved(
            a,
            b,
            names.len(),
            meta,
            scan.coeff_entries@,
            scenes,
            scenes.len(),
            0,
            at,
            kept,
        );
        assert(crate::zip_file::whole_entry(a, scan.basis_entries@[0].index) is Ok);
    }
}

} // verus!
