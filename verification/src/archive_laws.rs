//! Laws of scene archives: what an entry is taken for, where it is listed, and which grids count.

use crate::basis_bank_motion::BasisBankCoeffZipEntry;
use crate::scene_archive::{
    EntryKind, EntryName, SceneArchiveError, SceneFileEntry, SceneZipScan, ScanState,
};
use crate::scene_files::{FileKind, FilesState, PickedFile};
use vstd::prelude::*;

verus! {

/// The names of the single files of an archive, in lower case, tell what they are; only names of
/// numbered tiles, in the tile formats, are tiles.
pub proof fn names_tell_the_entries(name: Seq<char>)
    ensures
        ({
            let kind = crate::scene_archive::kind_of(name);
            let lod = crate::name_match::group_number(
                crate::name_match::regex_captures(r"^lod(\d+)_motion_basis\.bin$"@, name),
                1,
            );
            let coeffs = crate::name_match::regex_captures(
                r"^tile(\d+)_lod(\d+)_motion_basis_coeffs\.bin$"@,
                name,
            );
            let scene = crate::name_match::regex_captures(
                r"^tile(\d+)_lod(\d+)\.(ply|splat)$"@,
                name,
            );
            &&& name == "deformation_weights.bin"@ <==> kind is Deformation
            &&& name == "motion_basis_meta.bin"@ <==> kind is BasisMeta
            &&& name == "motion_graph_basis.json"@ <==> kind is BasisGraph
            &&& name == "motion_catmull_rom_meta.pt"@ ==> kind is LegacyMotion
            &&& kind is LegacyMotion && name != "motion_catmull_rom_meta.pt"@
                ==> "_motion_catmull_rom.pt"@.is_suffix_of(name)
            &&& kind matches EntryKind::Basis { lod: n } ==> lod == Some(n)
            &&& kind matches EntryKind::Coefficients { tile, lod } ==> {
                &&& crate::name_match::group_number(coeffs, 1) == Some(tile)
                &&& crate::name_match::group_number(coeffs, 2) == Some(lod)
            }
            &&& kind matches EntryKind::Scene { tile, lod } ==> {
                &&& crate::name_match::group_number(scene, 1) == Some(tile)
                &&& crate::name_match::group_number(scene, 2) == Some(lod)
            }
            &&& kind is Other ==> scene is None && lod is None
        }),
{
    reveal_strlit("deformation_weights.bin");
    reveal_strlit("motion_basis_meta.bin");
    reveal_strlit("motion_graph_basis.json");
    reveal_strlit("motion_catmull_rom_meta.pt");
    reveal_strlit("_motion_catmull_rom.pt");
    assert("deformation_weights.bin"@.len() == 23);
    assert("motion_basis_meta.bin"@.len() == 21);
    assert("motion_graph_basis.json"@.len() == 23 && "motion_graph_basis.json"@[0] == 'm');
    assert("deformation_weights.bin"@[0] == 'd');
    assert("motion_catmull_rom_meta.pt"@.len() == 26);
    let dense = "_motion_catmull_rom.pt"@;
    assert(dense.len() == 22 && dense[21] == 't' && dense[19] == '.');
    assert("motion_graph_basis.json"@[22] == 'n' && "motion_graph_basis.json"@[18] == '.');
    assert("motion_basis_meta.bin"@[20] == 'n');
    if dense.is_suffix_of(name) {
        assert(name.subrange(name.len() - 22, name.len() as int)[21] == 't');
        assert(name[name.len() - 1] == 't');
    }
}

/// The files of a picked archive are told apart in the same way, but by any name that holds the
/// numbers of a tile and ends in a tile format.
pub proof fn names_tell_the_files(name: Seq<char>)
    ensures
        ({
            let kind = crate::scene_files::file_kind(name);
            let lower = crate::text::lowered(name);
            let scene = crate::name_match::regex_captures(r"tile(\d+)_lod(\d+)"@, name);
            &&& lower == "deformation_weights.bin"@ <==> kind is Weights
            &&& lower == "motion_catmull_rom_meta.pt"@ <==> kind is MotionMeta
            &&& kind is Scene || kind is SceneNumber ==> crate::scene_archive::ends_in_ply(name)
                || crate::scene_archive::ends_in_splat(name)
            &&& kind matches FileKind::Scene { tile, lod } ==> {
                &&& crate::name_match::group_number(scene, 1) == Some(tile)
                &&& crate::name_match::group_number(scene, 2) == Some(lod)
            }
            &&& kind is Other && (crate::scene_archive::ends_in_ply(name)
                || crate::scene_archive::ends_in_splat(name)) ==> scene is None
        }),
{
    reveal_strlit("deformation_weights.bin");
    reveal_strlit("motion_catmull_rom_meta.pt");
    assert("deformation_weights.bin"@.len() == 23);
    assert("motion_catmull_rom_meta.pt"@.len() == 26);
    crate::scene_archive::names_tell_the_format(name);
    reveal_strlit(".splat");
    let n = name.len() as int;
    let lower = crate::text::lowered(name);
    if ".splat"@.is_suffix_of(lower) {
        let last = lower.subrange(n - 6, n);
        assert(last =~= ".splat"@);
        assert(last[0] == lower[n - 6] && last[1] == lower[n - 5] && last[2] == lower[n - 4]
            && last[3] == lower[n - 3] && last[4] == lower[n - 2] && last[5] == lower[n - 1]);
    }
    if crate::scene_archive::ends_in_splat(name) {
        assert(lower.subrange(n - 6, n) =~= ".splat"@);
    }
}

/// Picked files tell their LoD first and their tile second, both within thirty-one bits.
pub proof fn picked_names_tell_their_numbers(name: Seq<char>)
    ensures
        ({
            let found = crate::name_match::regex_captures(r"lod(\d+)_tile_(\d+)"@, name);
            let lod = crate::name_match::group_number(found, 1);
            let tile = crate::name_match::group_number(found, 2);
            let r = crate::scene_files::picked_numbers(name);
            &&& r is Some <==> lod is Some && tile is Some && lod->0 < 0x8000_0000 && tile->0
                < 0x8000_0000
            &&& r is Some ==> lod == Some((r->0).0) && tile == Some((r->0).1)
        }),
{
}

/// The name that an entry is listed under, in lower case.
pub open spec fn entry_kind(name: EntryName) -> Option<EntryKind> {
    match name {
        EntryName::Name { name } => Some(
            crate::scene_archive::kind_of(crate::text::lowered(name@)),
        ),
        _ => None,
    }
}

/// Every entry of a scanned archive is listed where it belongs, once: the single files by their
/// index, the tiles and their motion with index, name and numbers.
#[verifier::rlimit(40)]
pub proof fn scanned_entries_are_listed(names: Seq<EntryName>, n: nat, j: int)
    requires
        n <= names.len() <= usize::MAX,
        0 <= j < n,
        crate::scene_archive::scan_of(names, n) is Ok,
    ensures
        ({
            let state = crate::scene_archive::scan_of(names, n)->Ok_0;
            &&& names[j] is Name
            &&& match entry_kind(names[j])->0 {
                EntryKind::Deformation => state.deformation == Some(j as usize),
                EntryKind::LegacyMotion => state.legacy_motion,
                EntryKind::BasisMeta => state.meta == Some(j as usize),
                EntryKind::BasisGraph => state.graph == Some(j as usize),
                EntryKind::Basis { lod } => exists|i: int|
                    {
                        &&& 0 <= i < state.basis.len()
                        &&& (#[trigger] state.basis[i]).index == j
                        &&& state.basis[i].filename == names[j]->name
                        &&& state.basis[i].lod_id == lod
                    },
                EntryKind::Coefficients { tile, lod } => exists|i: int|
                    {
                        &&& 0 <= i < state.coefficients.len()
                        &&& (#[trigger] state.coefficients[i]).index == j
                        &&& state.coefficients[i].filename == names[j]->name
                        &&& state.coefficients[i].tile_id == tile
                        &&& state.coefficients[i].lod_id == lod
                    },
                EntryKind::Scene { tile, lod } => exists|i: int|
                    {
                        &&& 0 <= i < state.scenes.len()
                        &&& (#[trigger] state.scenes[i]).index == j
                        &&& state.scenes[i].filename == names[j]->name
                        &&& state.scenes[i].tile_id == tile
                        &&& state.scenes[i].lod_id == lod
                    },
                EntryKind::SceneNumber { .. } => false,
                EntryKind::Other => true,
            }
        }),
    decreases n,
{
    let state = crate::scene_archive::scan_of(names, n)->Ok_0;
    let before = crate::scene_archive::scan_of(names, (n - 1) as nat)->Ok_0;
    if j < n - 1 {
        scanned_entries_are_listed(names, (n - 1) as nat, j);
        assert(forall|i: int|
            0 <= i < before.basis.len() ==> #[trigger] before.basis[i] == state.basis[i]);
        assert(forall|i: int|
            0 <= i < before.coefficients.len() ==> #[trigger] before.coefficients[i]
                == state.coefficients[i]);
        assert(forall|i: int|
            0 <= i < before.scenes.len() ==> #[trigger] before.scenes[i] == state.scenes[i]);
    } else {
        match entry_kind(names[j])->0 {
            EntryKind::Basis { lod } => {
                assert(state.basis[before.basis.len() as int].index == j);
            },
            EntryKind::Coefficients { tile, lod } => {
                assert(state.coefficients[before.coefficients.len() as int].index == j);
            },
            EntryKind::Scene { tile, lod } => {
                assert(state.scenes[before.scenes.len() as int].index == j);
            },
            _ => {},
        }
    }
}

/// A single file that was found in a scanned archive is one of its entries, of that kind.
pub proof fn found_files_are_scanned(names: Seq<EntryName>, n: nat)
    requires
        n <= names.len() <= usize::MAX,
        crate::scene_archive::scan_of(names, n) is Ok,
    ensures
        ({
            let state = crate::scene_archive::scan_of(names, n)->Ok_0;
            &&& state.deformation matches Some(j) ==> j < n && entry_kind(names[j as int]) == Some(
                EntryKind::Deformation,
            )
            &&& state.meta matches Some(j) ==> j < n && entry_kind(names[j as int]) == Some(
                EntryKind::BasisMeta,
            )
            &&& state.graph matches Some(j) ==> j < n && entry_kind(names[j as int]) == Some(
                EntryKind::BasisGraph,
            )
            &&& state.legacy_motion ==> exists|j: int|
                0 <= j < n && entry_kind(#[trigger] names[j]) == Some(EntryKind::LegacyMotion)
        }),
    decreases n,
{
    if n > 0 {
        found_files_are_scanned(names, (n - 1) as nat);
        let state = crate::scene_archive::scan_of(names, n)->Ok_0;
        let before = crate::scene_archive::scan_of(names, (n - 1) as nat)->Ok_0;
        if state.legacy_motion {
            if before.legacy_motion {
                let j = choose|j: int|
                    0 <= j < n - 1 && entry_kind(#[trigger] names[j]) == Some(
                        EntryKind::LegacyMotion,
                    );
                assert(entry_kind(names[j]) == Some(EntryKind::LegacyMotion));
            } else {
                assert(entry_kind(names[n - 1]) == Some(EntryKind::LegacyMotion));
            }
        }
    }
}

/// The banks that are listed are entries of that kind, in the order of the archive.
pub proof fn listed_banks_are_scanned(names: Seq<EntryName>, n: nat)
    requires
        n <= names.len() <= usize::MAX,
        crate::scene_archive::scan_of(names, n) is Ok,
    ensures
        ({
            let list = crate::scene_archive::scan_of(names, n)->Ok_0.basis;
            &&& forall|i: int|
                0 <= i < list.len() ==> {
                    let entry = #[trigger] list[i];
                    &&& entry.index < n
                    &&& names[entry.index as int] == (EntryName::Name { name: entry.filename })
                    &&& entry_kind(names[entry.index as int]) == Some(
                        EntryKind::Basis { lod: entry.lod_id },
                    )
                }
            &&& forall|i: int, k: int|
                0 <= i < k < list.len() ==> (#[trigger] list[i]).index < (#[trigger] list[k]).index
        }),
    decreases n,
{
    if n > 0 {
        listed_banks_are_scanned(names, (n - 1) as nat);
    }
}

/// The coefficients that are listed are entries of that kind, in the order of the archive.
pub proof fn listed_coefficients_are_scanned(names: Seq<EntryName>, n: nat)
    requires
        n <= names.len() <= usize::MAX,
        crate::scene_archive::scan_of(names, n) is Ok,
    ensures
        ({
            let list = crate::scene_archive::scan_of(names, n)->Ok_0.coefficients;
            &&& forall|i: int|
                0 <= i < list.len() ==> {
                    let entry = #[trigger] list[i];
                    &&& entry.index < n
                    &&& names[entry.index as int] == (EntryName::Name { name: entry.filename })
                    &&& entry_kind(names[entry.index as int]) == Some(
                        EntryKind::Coefficients { tile: entry.tile_id, lod: entry.lod_id },
                    )
                }
            &&& forall|i: int, k: int|
                0 <= i < k < list.len() ==> (#[trigger] list[i]).index < (#[trigger] list[k]).index
        }),
    decreases n,
{
    if n > 0 {
        listed_coefficients_are_scanned(names, (n - 1) as nat);
    }
}

/// The tiles that are listed are entries of that kind, in the order of the archive.
pub proof fn listed_tiles_are_scanned(names: Seq<EntryName>, n: nat)
    requires
        n <= names.len() <= usize::MAX,
        crate::scene_archive::scan_of(names, n) is Ok,
    ensures
        ({
            let list = crate::scene_archive::scan_of(names, n)->Ok_0.scenes;
            &&& forall|i: int|
                0 <= i < list.len() ==> {
                    let entry = #[trigger] list[i];
                    &&& entry.index < n
                    &&& names[entry.index as int] == (EntryName::Name { name: entry.filename })
                    &&& entry_kind(names[entry.index as int]) == Some(
                        EntryKind::Scene { tile: entry.tile_id, lod: entry.lod_id },
                    )
                }
            &&& forall|i: int, k: int|
                0 <= i < k < list.len() ==> (#[trigger] list[i]).index < (#[trigger] list[k]).index
        }),
    decreases n,
{
    if n > 0 {
        listed_tiles_are_scanned(names, (n - 1) as nat);
    }
}

/// An archive is refused at its first entry that cannot be named, that repeats a single file, or
/// whose tile has no number.
pub proof fn refused_entries_are_named(
    state: ScanState,
    index: usize,
    name: EntryName,
    error: SceneArchiveError,
)
    ensures
        crate::scene_archive::scan_entry(state, index, name) == Err::<ScanState, SceneArchiveError>(
            error,
        ) ==> match error {
            SceneArchiveError::EntryUnreadable { index: at } => at == index && name is Unreadable,
            SceneArchiveError::UnsafePath { index: at } => at == index && name is UnsafePath,
            SceneArchiveError::NotText { index: at } => at == index && name is NotText,
            SceneArchiveError::DuplicateDeformation => state.deformation is Some && entry_kind(name)
                == Some(EntryKind::Deformation),
            SceneArchiveError::DuplicateMeta => state.meta is Some && entry_kind(name) == Some(
                EntryKind::BasisMeta,
            ),
            SceneArchiveError::DuplicateGraph => state.graph is Some && entry_kind(name) == Some(
                EntryKind::BasisGraph,
            ),
            SceneArchiveError::SceneNumber { index: at, fault } => at == index && entry_kind(name)
                == Some(EntryKind::SceneNumber { fault }),
            _ => false,
        },
{
}

/// Tiles come LoD by LoD, and within a LoD by their number; each that was found is there.
pub proof fn tiles_come_in_order(scenes: Seq<SceneFileEntry>, n: nat)
    requires
        n <= scenes.len(),
    ensures
        ({
            let tiles = crate::scene_archive::sorted_tiles(scenes, n);
            &&& tiles.to_multiset() == scenes.take(n as int).to_multiset()
            &&& forall|i: int, j: int|
                0 <= i < j < tiles.len() ==> {
                    ||| (#[trigger] tiles[i]).lod_id < (#[trigger] tiles[j]).lod_id
                    ||| tiles[i].lod_id == tiles[j].lod_id && tiles[i].tile_id <= tiles[j].tile_id
                }
        }),
    decreases n,
{
    broadcast use vstd::seq_lib::group_to_multiset_ensures;

    crate::scene_archive::sorted_tiles_ordered(scenes, n);
    if n == 0 {
        assert(scenes.take(0) =~= Seq::empty());
        assert(crate::scene_archive::sorted_tiles(scenes, n) =~= scenes.take(0));
    } else {
        tiles_come_in_order(scenes, (n - 1) as nat);
        crate::scene_archive::sorted_tiles_ordered(scenes, (n - 1) as nat);
        let before = crate::scene_archive::sorted_tiles(scenes, (n - 1) as nat);
        let at = crate::scene_archive::tile_place(before, scenes[n - 1], before.len());
        places_are_inside(before, scenes[n - 1], before.len());
        vstd::seq_lib::to_multiset_insert(before, at, scenes[n - 1]);
        assert(scenes.take(n as int) =~= scenes.take(n - 1).push(scenes[n - 1]));
    }
}

proof fn places_are_inside(sorted: Seq<SceneFileEntry>, entry: SceneFileEntry, n: nat)
    ensures
        0 <= crate::scene_archive::tile_place(sorted, entry, n) <= n,
    decreases n,
{
    if n > 0 {
        places_are_inside(sorted, entry, (n - 1) as nat);
    }
}

proof fn greatest_tiles_are_greatest(tiles: Seq<SceneFileEntry>, n: nat)
    requires
        n <= tiles.len(),
    ensures
        crate::scene_archive::max_tile(tiles, n) >= 0,
        crate::scene_archive::max_tile(tiles, n) <= usize::MAX,
        forall|i: int|
            0 <= i < n ==> (#[trigger] tiles[i]).tile_id <= crate::scene_archive::max_tile(tiles, n),
        n > 0 ==> exists|i: int|
            0 <= i < n && (#[trigger] tiles[i]).tile_id == crate::scene_archive::max_tile(tiles, n),
    decreases n,
{
    if n > 0 {
        greatest_tiles_are_greatest(tiles, (n - 1) as nat);
        if n > 1 && !(tiles[n - 1].tile_id > crate::scene_archive::max_tile(
            tiles,
            (n - 1) as nat,
        )) {
            let i = choose|i: int|
                0 <= i < n - 1 && (#[trigger] tiles[i]).tile_id == crate::scene_archive::max_tile(
                    tiles,
                    (n - 1) as nat,
                );
            assert(tiles[i].tile_id == crate::scene_archive::max_tile(tiles, n));
        } else {
            assert(tiles[n - 1].tile_id == crate::scene_archive::max_tile(tiles, n));
        }
    }
}

proof fn misplaced_tiles_are_found(tiles: Seq<SceneFileEntry>, tile_count: int, from: nat)
    requires
        from <= tiles.len(),
    ensures
        match crate::scene_archive::first_misplaced(tiles, tile_count, from) {
            Some(i) => {
                &&& from <= i < tiles.len()
                &&& !(tiles[i].lod_id == i / tile_count && tiles[i].tile_id == i % tile_count)
            },
            None => forall|i: int|
                from <= i < tiles.len() ==> (#[trigger] tiles[i]).lod_id == i / tile_count
                    && tiles[i].tile_id == i % tile_count,
        },
    decreases tiles.len() - from,
{
    if from < tiles.len() {
        misplaced_tiles_are_found(tiles, tile_count, from + 1);
    }
}

/// The tiles are a whole grid exactly where every LoD up to the greatest has every tile up to the
/// greatest.
#[verifier::rlimit(40)]
pub proof fn whole_grids_are_accepted(scenes: Seq<SceneFileEntry>)
    requires
        scenes.len() <= usize::MAX,
    ensures
        ({
            let tiles = crate::scene_archive::sorted_tiles(scenes, scenes.len());
            let r = crate::scene_archive::grid_error(scenes);
            &&& r is None ==> exists|lods: int, columns: int|
                #[trigger] crate::scene_archive::is_tile_grid(tiles, lods, columns)
            &&& forall|lods: int, columns: int| #[trigger]
                crate::scene_archive::is_tile_grid(tiles, lods, columns) ==> r is None
        }),
{
    let tiles = crate::scene_archive::sorted_tiles(scenes, scenes.len());
    crate::scene_archive::sorted_tiles_ordered(scenes, scenes.len());
    greatest_tiles_are_greatest(tiles, tiles.len());
    let tile = crate::scene_archive::max_tile(tiles, tiles.len());
    misplaced_tiles_are_found(tiles, tile + 1, 0);
    if crate::scene_archive::grid_error(scenes) is None {
        assert(crate::scene_archive::is_tile_grid(tiles, tiles.last().lod_id + 1, tile + 1));
    }
    assert forall|lods: int, columns: int| #[trigger]
        crate::scene_archive::is_tile_grid(
            tiles,
            lods,
            columns,
        ) implies crate::scene_archive::grid_error(scenes) is None by {
        assert(lods * columns >= 1 && lods * columns >= columns) by (nonlinear_arith)
            requires
                lods > 0,
                columns > 0,
        ;
        let last = lods * columns - 1;
        assert(last == (lods - 1) * columns + (columns - 1)) by (nonlinear_arith)
            requires
                last == lods * columns - 1,
        ;
        assert(last / columns == lods - 1 && last % columns == columns - 1) by {
            vstd::arithmetic::div_mod::lemma_fundamental_div_mod_converse(
                last,
                columns,
                lods - 1,
                columns - 1,
            );
        }
        assert(tiles[last].tile_id == columns - 1);
        assert(tiles.last().lod_id == lods - 1);
        assert forall|i: int| 0 <= i < tiles.len() implies (#[trigger] tiles[i]).tile_id
            < columns by {
            assert(i % columns < columns) by (nonlinear_arith)
                requires
                    columns > 0,
            ;
        }
        assert(tile == columns - 1);
    }
}

/// A refused grid is refused for want of tiles, for their number, or for the first that is not where
/// it belongs.
#[verifier::rlimit(40)]
pub proof fn refused_grids_are_named(scenes: Seq<SceneFileEntry>, error: SceneArchiveError)
    requires
        scenes.len() <= usize::MAX,
        crate::scene_archive::grid_error(scenes) == Some(error),
    ensures
        ({
            let tiles = crate::scene_archive::sorted_tiles(scenes, scenes.len());
            match error {
                SceneArchiveError::NoScenes => scenes.len() == 0,
                SceneArchiveError::GridSize { found, max_lod, max_tile } => {
                    &&& found == scenes.len()
                    &&& found != (max_lod + 1) * (max_tile + 1)
                    &&& forall|i: int|
                        0 <= i < tiles.len() ==> (#[trigger] tiles[i]).lod_id <= max_lod
                            && tiles[i].tile_id <= max_tile
                    &&& exists|i: int|
                        0 <= i < tiles.len() && (#[trigger] tiles[i]).lod_id == max_lod
                    &&& exists|i: int|
                        0 <= i < tiles.len() && (#[trigger] tiles[i]).tile_id == max_tile
                },
                SceneArchiveError::GridTile { tile, lod, filename } => exists|i: int|
                    {
                        &&& 0 <= i < tiles.len()
                        &&& (#[trigger] tiles[i]).filename == filename
                        &&& !(tiles[i].lod_id == lod && tiles[i].tile_id == tile)
                    },
                _ => false,
            }
        }),
{
    let tiles = crate::scene_archive::sorted_tiles(scenes, scenes.len());
    crate::scene_archive::sorted_tiles_ordered(scenes, scenes.len());
    greatest_tiles_are_greatest(tiles, tiles.len());
    let tile = crate::scene_archive::max_tile(tiles, tiles.len());
    misplaced_tiles_are_found(tiles, tile + 1, 0);
    if error is GridSize {
        assert(tiles[tiles.len() - 1].lod_id == error->max_lod);
        assert forall|i: int| 0 <= i < tiles.len() implies (#[trigger] tiles[i]).lod_id
            <= error->max_lod by {
            if i < tiles.len() - 1 {
                assert(crate::scene_archive::tile_le(tiles[i], tiles[tiles.len() - 1]));
            }
        }
    }
    if error is GridTile {
        let i = crate::scene_archive::first_misplaced(tiles, tile + 1, 0)->0;
        assert(tiles[i].filename == error->GridTile_filename);
        assert(0 <= i % (tile + 1) <= tile) by (nonlinear_arith)
            requires
                tile >= 0,
        ;
        assert(0 <= i / (tile + 1) <= i) by (nonlinear_arith)
            requires
                tile >= 0,
                i >= 0,
        ;
    }
}

/// Coefficients are usable where all are inside the grid and none comes twice.
#[verifier::rlimit(40)]
pub proof fn coefficients_fill_their_grid(
    entries: Seq<BasisBankCoeffZipEntry>,
    lod_count: int,
    tile_count: int,
    from: nat,
)
    requires
        from <= entries.len(),
    ensures
        crate::scene_archive::coefficient_fault(entries, lod_count, tile_count, from) is None <==> {
            &&& forall|i: int|
                from <= i < entries.len() ==> (#[trigger] entries[i]).lod_id < lod_count
                    && entries[i].tile_id < tile_count
            &&& forall|i: int, j: int|
                from <= i < entries.len() && 0 <= j < i ==> !((#[trigger] entries[i]).lod_id == (
                #[trigger] entries[j]).lod_id && entries[i].tile_id == entries[j].tile_id)
        },
        match crate::scene_archive::coefficient_fault(entries, lod_count, tile_count, from) {
            None => true,
            Some(SceneArchiveError::CoefficientOutsideGrid { filename }) => exists|i: int|
                {
                    &&& from <= i < entries.len()
                    &&& (#[trigger] entries[i]).filename == filename
                    &&& entries[i].lod_id >= lod_count || entries[i].tile_id >= tile_count
                },
            Some(SceneArchiveError::DuplicateCoefficients { tile, lod }) => exists|i: int, j: int|
                {
                    &&& from <= i < entries.len()
                    &&& 0 <= j < i
                    &&& (#[trigger] entries[i]).tile_id == tile && entries[i].lod_id == lod
                    &&& (#[trigger] entries[j]).tile_id == tile && entries[j].lod_id == lod
                },
            _ => false,
        },
    decreases entries.len() - from,
{
    if from < entries.len() {
        coefficients_fill_their_grid(entries, lod_count, tile_count, from + 1);
        let entry = entries[from as int];
        if entry.lod_id >= lod_count || entry.tile_id >= tile_count {
            assert(entries[from as int].filename == entry.filename);
        } else if crate::basis_bank_motion::repeats_tile(entries, from as int) {
            let j = choose|j: int|
                0 <= j < from && crate::basis_bank_motion::same_tile(
                    #[trigger] entries[j],
                    entries[from as int],
                );
            assert(entries[from as int].tile_id == entry.tile_id && entries[j].tile_id
                == entry.tile_id);
        } else {
            assert forall|j: int| 0 <= j < from implies !(entry.lod_id == (
            #[trigger] entries[j]).lod_id && entry.tile_id == entries[j].tile_id) by {
                if entry.lod_id == entries[j].lod_id && entry.tile_id == entries[j].tile_id {
                    assert(crate::basis_bank_motion::same_tile(entries[j], entries[from as int]));
                }
            }
        }
    }
}

/// An archive has motion where its metadata, the one shared bank and the coefficients of each tile
/// are there; it has none where no file of motion is; all else is refused.
pub proof fn motion_is_whole_or_absent(scan: SceneZipScan)
    ensures
        ({
            let r = crate::scene_archive::motion_assets(scan);
            &&& r matches Ok(Some(meta)) ==> {
                &&& scan.meta == Some(meta)
                &&& scan.basis_entries@.len() == 1 && scan.basis_entries@[0].lod_id == 0
                &&& scan.coeff_entries@.len() == scan.lod_count * scan.tile_count
            }
            &&& (r is Ok && r->Ok_0 is None) <==> {
                &&& scan.meta is None && scan.graph is None && scan.deformation_weights is None
                &&& scan.basis_entries@.len() == 0 && scan.coeff_entries@.len() == 0
            }
            &&& r matches Err(error) ==> match error {
                SceneArchiveError::BasisFiles => scan.meta is Some && !(scan.basis_entries@.len()
                    == 1 && scan.basis_entries@[0].lod_id == 0),
                SceneArchiveError::CoefficientFiles { found, expected } => {
                    &&& scan.meta is Some
                    &&& scan.lod_count * scan.tile_count <= usize::MAX ==> expected
                        == scan.lod_count * scan.tile_count && found != expected
                    &&& found == scan.coeff_entries@.len()
                },
                SceneArchiveError::MetaMissing => scan.meta is None && (scan.basis_entries@.len()
                    > 0 || scan.coeff_entries@.len() > 0 || scan.graph is Some),
                SceneArchiveError::DeformationOnly => scan.meta is None
                    && scan.basis_entries@.len() == 0 && scan.coeff_entries@.len() == 0
                    && scan.graph is None && scan.deformation_weights is Some,
                _ => scan.meta is Some && (error is CoefficientOutsideGrid
                    || error is DuplicateCoefficients),
            }
        }),
{
    coefficients_fill_their_grid(
        scan.coeff_entries@,
        scan.lod_count as int,
        scan.tile_count as int,
        0,
    );
    let entries = scan.coeff_entries;
    assert(0 <= scan.lod_count * scan.tile_count) by (nonlinear_arith)
        requires
            scan.lod_count >= 0,
            scan.tile_count >= 0,
    ;
    assert(entries@.len() == entries.len());
}

/// What an archive answers about the name of an entry keeps the name.
pub proof fn replies_keep_the_name(reply: Result<Option<Option<String>>, ()>)
    ensures
        crate::scene_archive::name_of(reply) is Unreadable <==> reply is Err,
        crate::scene_archive::name_of(reply) is UnsafePath <==> reply is Ok && reply->Ok_0 is None,
        crate::scene_archive::name_of(reply) matches EntryName::Name { name } ==> reply == Ok::<
            Option<Option<String>>,
            (),
        >(Some(Some(name))),
{
}

/// The files of a picked archive are listed in its order, each with its index, name and numbers; of
/// the single files the last counts.
#[verifier::rlimit(40)]
pub proof fn picked_archives_list_their_files(names: Seq<EntryName>, n: nat, j: int)
    requires
        n <= names.len() <= usize::MAX,
        0 <= j < n,
        crate::scene_files::files_of(names, n) is Ok,
    ensures
        ({
            let state = crate::scene_files::files_of(names, n)->Ok_0;
            &&& names[j] is Name
            &&& match crate::scene_files::file_kind((names[j]->name)@) {
                FileKind::Weights => state.weights is Some && j <= state.weights->0 < n,
                FileKind::MotionMeta => state.motion_meta is Some && j <= state.motion_meta->0 < n,
                FileKind::Motion { tile, lod } => exists|i: int|
                    {
                        &&& 0 <= i < state.motion.len()
                        &&& (#[trigger] state.motion[i]).index == j
                        &&& state.motion[i].filename == names[j]->name
                        &&& state.motion[i].tile_id == tile
                        &&& state.motion[i].lod_id == lod
                    },
                FileKind::Scene { tile, lod } => exists|i: int|
                    {
                        &&& 0 <= i < state.scenes.len()
                        &&& (#[trigger] state.scenes[i]).index == j
                        &&& state.scenes[i].filename == names[j]->name
                        &&& state.scenes[i].tile_id == tile
                        &&& state.scenes[i].lod_id == lod
                    },
                FileKind::SceneNumber => false,
                FileKind::Other => true,
            }
        }),
    decreases n,
{
    let state = crate::scene_files::files_of(names, n)->Ok_0;
    let before = crate::scene_files::files_of(names, (n - 1) as nat)->Ok_0;
    if j < n - 1 {
        picked_archives_list_their_files(names, (n - 1) as nat, j);
        assert(forall|i: int|
            0 <= i < before.motion.len() ==> #[trigger] before.motion[i] == state.motion[i]);
        assert(forall|i: int|
            0 <= i < before.scenes.len() ==> #[trigger] before.scenes[i] == state.scenes[i]);
    } else {
        match crate::scene_files::file_kind((names[j]->name)@) {
            FileKind::Motion { tile, lod } => {
                assert(state.motion[before.motion.len() as int].index == j);
            },
            FileKind::Scene { tile, lod } => {
                assert(state.scenes[before.scenes.len() as int].index == j);
            },
            _ => {},
        }
    }
}

/// What is listed of a picked archive is one of its files, of that kind.
pub proof fn listed_files_are_in_the_archive(names: Seq<EntryName>, n: nat)
    requires
        n <= names.len() <= usize::MAX,
        crate::scene_files::files_of(names, n) is Ok,
    ensures
        ({
            let state: FilesState = crate::scene_files::files_of(names, n)->Ok_0;
            &&& state.weights matches Some(j) ==> j < n && names[j as int] is Name
                && crate::scene_files::file_kind((names[j as int]->name)@) is Weights
            &&& state.motion_meta matches Some(j) ==> j < n && names[j as int] is Name
                && crate::scene_files::file_kind((names[j as int]->name)@) is MotionMeta
            &&& forall|i: int|
                0 <= i < state.scenes.len() ==> {
                    let entry = #[trigger] state.scenes[i];
                    &&& entry.index < n
                    &&& names[entry.index as int] == (EntryName::Name { name: entry.filename })
                    &&& crate::scene_files::file_kind(entry.filename@) == (FileKind::Scene {
                        tile: entry.tile_id,
                        lod: entry.lod_id,
                    })
                }
            &&& forall|i: int|
                0 <= i < state.motion.len() ==> {
                    let entry = #[trigger] state.motion[i];
                    &&& entry.index < n
                    &&& names[entry.index as int] == (EntryName::Name { name: entry.filename })
                    &&& crate::scene_files::file_kind(entry.filename@) == (FileKind::Motion {
                        tile: entry.tile_id,
                        lod: entry.lod_id,
                    })
                }
        }),
    decreases n,
{
    if n > 0 {
        listed_files_are_in_the_archive(names, (n - 1) as nat);
    }
}

/// Every picked file is listed, in the order of picking, with the numbers of its name.
pub proof fn picked_files_are_all_listed(names: Seq<String>, n: nat)
    requires
        n <= names.len() <= usize::MAX,
    ensures
        match crate::scene_files::picked_of(names, n) {
            Ok(list) => {
                &&& list.len() == n
                &&& forall|i: int|
                    0 <= i < n ==> {
                        &&& (#[trigger] list[i]).index == i
                        &&& list[i].filename == names[i]
                        &&& crate::scene_files::picked_numbers(names[i]@) == Some(
                            (list[i].lod_id, list[i].tile_id),
                        )
                    }
            },
            Err(at) => {
                &&& at < n
                &&& crate::scene_files::picked_numbers(names[at as int]@) is None
                &&& forall|i: int|
                    0 <= i < at ==> crate::scene_files::picked_numbers(
                        (#[trigger] names[i])@,
                    ) is Some
            },
        },
    decreases n,
{
    if n > 0 {
        picked_files_are_all_listed(names, (n - 1) as nat);
        if let Ok(list) = crate::scene_files::picked_of(names, (n - 1) as nat) {
            assert forall|i: int| 0 <= i < n - 1 implies crate::scene_files::picked_numbers(
                (#[trigger] names[i])@,
            ) is Some by {
                assert(list[i].index == i);
            }
        }
    }
}

/// A grid of picked files has as many LoDs as lie between the first and the last, and as many columns
/// as the last has tiles before it, and itself.
pub proof fn picked_grids_span_first_to_last(tiles: Seq<SceneFileEntry>, lods: int, columns: int)
    requires
        tiles.len() > 0,
    ensures
        crate::scene_files::grid_size(tiles) == (lods, columns) <==> {
            &&& tiles[0].lod_id + lods == tiles[tiles.len() - 1].lod_id + 1
            &&& columns == tiles[tiles.len() - 1].tile_id + 1
        },
{
}

/// A picked file is taken by what its name holds: `.ply` first, then `.splat`; the bytes are kept.
pub proof fn picked_files_are_taken_by_name(
    file: PickedFile,
    filename: Seq<char>,
    bytes: Seq<u8>,
    at: int,
)
    requires
        crate::scene_files::picked_holds(file, filename, bytes),
        0 <= at,
        at + 4 <= filename.len(),
        filename[at] == '.' && filename[at + 1] == 'p' && filename[at + 2] == 'l' && filename[at
            + 3] == 'y',
    ensures
        file matches PickedFile::Ply { bytes: kept } && kept@ == bytes,
{
    reveal_strlit(".ply");
    assert(filename.subrange(at, at + 4) =~= ".ply"@);
    assert(crate::text::holds_part(filename, ".ply"@));
}

} // verus!
