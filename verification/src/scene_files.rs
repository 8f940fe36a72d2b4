//! Scenes that are picked as files: single ones, lists of tiles, and archives of tiles with motion
//! in its older form.

use crate::basis_bank_motion::numbers_in_groups;
use crate::catmull_rom_loading::CatmullRomMotionZipEntry;
use crate::catmull_rom_motion::{detect_motion_file, CATMULL_ROM_META_FILENAME};
use crate::name_match::capture;
use crate::scene::Scene;
use crate::scene_archive::{insert_tile, list_entries, EntryName, SceneFileEntry};
use crate::text::{contains_text, ends_with, same_text, to_ascii_lowercase};
use vstd::prelude::*;
use vstd::string::*;

verus! {

/// Names of tiles in an archive.
pub const ARCHIVE_TILE_PATTERN: &'static str = r"tile(\d+)_lod(\d+)";

/// Names of tiles that are picked one by one.
pub const PICKED_TILE_PATTERN: &'static str = r"lod(\d+)_tile_(\d+)";

/// Numbers of picked tiles that can be told apart.
pub const MAX_PICKED_NUMBER: usize = 0x7fff_ffff;

/// What a file of an archive is.
#[derive(Debug, Clone, Copy, PartialEq, Eq, Structural)]
pub enum FileKind {
    Weights,
    MotionMeta,
    Motion { tile: usize, lod: usize },
    Scene { tile: usize, lod: usize },
    /// A tile whose numbers cannot be represented.
    SceneNumber,
    Other,
}

/// What a file is, by its name. Case counts only in the numbers of a tile.
pub open spec fn file_kind(name: Seq<char>) -> FileKind {
    let lower = crate::text::lowered(name);
    let motion = crate::basis_bank_motion::two_numbers(
        crate::name_match::regex_captures(crate::catmull_rom_motion::MOTION_PATTERN@, lower),
    );
    let scene = crate::name_match::regex_captures(ARCHIVE_TILE_PATTERN@, name);
    if lower == "deformation_weights.bin"@ {
        FileKind::Weights
    } else if lower == CATMULL_ROM_META_FILENAME@ {
        FileKind::MotionMeta
    } else if motion is Some {
        FileKind::Motion { tile: (motion->0).0, lod: (motion->0).1 }
    } else if !(".ply"@.is_suffix_of(lower) || ".splat"@.is_suffix_of(lower)) || scene is None {
        FileKind::Other
    } else {
        match crate::basis_bank_motion::two_numbers(scene) {
            Some((tile, lod)) => FileKind::Scene { tile, lod },
            None => FileKind::SceneNumber,
        }
    }
}

/// Says what a file is.
pub fn classify_file(name: &str) -> (r: FileKind)
    ensures
        r == file_kind(name@),
{
    let lower: String = to_ascii_lowercase(name);
    if same_text(lower.as_str(), "deformation_weights.bin") {
        return FileKind::Weights;
    }
    if same_text(lower.as_str(), CATMULL_ROM_META_FILENAME) {
        return FileKind::MotionMeta;
    }
    if let Some((tile, lod)) = detect_motion_file(lower.as_str()) {
        return FileKind::Motion { tile, lod };
    }
    if !(ends_with(lower.as_str(), ".ply") || ends_with(lower.as_str(), ".splat")) {
        return FileKind::Other;
    }
    let groups: Option<Vec<Option<String>>> = capture(ARCHIVE_TILE_PATTERN, name);
    if groups.is_none() {
        return FileKind::Other;
    }
    match numbers_in_groups(&groups) {
        Some((tile, lod)) => FileKind::Scene { tile, lod },
        None => FileKind::SceneNumber,
    }
}

/// Why files cannot be loaded.
#[derive(Debug, Clone, PartialEq, Eq)]
pub enum SceneFilesError {
    /// The archive cannot be opened.
    Unopenable,
    /// An entry has no usable name, or a tile has numbers that cannot be represented.
    BadName { index: usize },
    /// There are fewer tiles than their numbers promise.
    MissingTile,
    /// A file is neither PLY nor a list of splats.
    UnknownFormat { filename: String },
}

/// The files of an archive that are of use, the tiles in order.
#[derive(Debug)]
pub struct SceneFiles {
    pub weights: Option<usize>,
    pub motion_meta: Option<usize>,
    pub motion: Vec<CatmullRomMotionZipEntry>,
    pub tiles: Vec<SceneFileEntry>,
}

/// What the first entries amount to.
pub struct FilesState {
    pub weights: Option<usize>,
    pub motion_meta: Option<usize>,
    pub motion: Seq<CatmullRomMotionZipEntry>,
    pub scenes: Seq<SceneFileEntry>,
}

/// What the first `n` entries amount to; of several weights or metadata the last counts. The first
/// entry with a bad name stops it.
pub open spec fn files_of(names: Seq<EntryName>, n: nat) -> Result<FilesState, usize>
    decreases n,
{
    if n == 0 {
        Ok(
            FilesState {
                weights: None,
                motion_meta: None,
                motion: Seq::empty(),
                scenes: Seq::empty(),
            },
        )
    } else {
        let index = (n - 1) as usize;
        match (files_of(names, (n - 1) as nat), names[n - 1]) {
            (Err(e), _) => Err(e),
            (Ok(state), EntryName::Name { name }) => match file_kind(name@) {
                FileKind::Weights => Ok(FilesState { weights: Some(index), ..state }),
                FileKind::MotionMeta => Ok(FilesState { motion_meta: Some(index), ..state }),
                FileKind::Motion { tile, lod } => Ok(
                    FilesState {
                        motion: state.motion.push(
                            CatmullRomMotionZipEntry {
                                index,
                                filename: name,
                                tile_id: tile,
                                lod_id: lod,
                            },
                        ),
                        ..state
                    },
                ),
                FileKind::Scene { tile, lod } => Ok(
                    FilesState {
                        scenes: state.scenes.push(
                            SceneFileEntry { index, filename: name, lod_id: lod, tile_id: tile },
                        ),
                        ..state
                    },
                ),
                FileKind::SceneNumber => Err(index),
                FileKind::Other => Ok(state),
            },
            (Ok(_), _) => Err(index),
        }
    }
}

/// The files are those of a state, the tiles by LoD and then by tile.
pub open spec fn files_hold(files: SceneFiles, state: FilesState) -> bool {
    &&& files.weights == state.weights
    &&& files.motion_meta == state.motion_meta
    &&& files.motion@ == state.motion
    &&& files.tiles@ == crate::scene_archive::sorted_tiles(state.scenes, state.scenes.len())
}

proof fn bad_name_stays(names: Seq<EntryName>, m: nat, n: nat)
    requires
        m <= n,
        files_of(names, m) is Err,
    ensures
        files_of(names, n) == files_of(names, m),
    decreases n,
{
    if m < n {
        bad_name_stays(names, m, (n - 1) as nat);
    }
}

/// Sorts out the files of an archive by their names.
pub fn sort_out_files(names: &Vec<EntryName>) -> (r: Result<SceneFiles, SceneFilesError>)
    ensures
        match (r, files_of(names@, names@.len())) {
            (Ok(files), Ok(state)) => files_hold(files, state),
            (Err(error), Err(index)) => error == (SceneFilesError::BadName { index }),
            _ => false,
        },
{
    let mut weights: Option<usize> = None;
    let mut motion_meta: Option<usize> = None;
    let mut motion: Vec<CatmullRomMotionZipEntry> = Vec::new();
    let mut tiles: Vec<SceneFileEntry> = Vec::new();
    let ghost mut scenes: Seq<SceneFileEntry> = Seq::empty();
    let mut index: usize = 0;
    while index < names.len()
        invariant
            index <= names@.len(),
            tiles@ == crate::scene_archive::sorted_tiles(scenes, scenes.len()),
            files_of(names@, index as nat) == Ok::<FilesState, usize>(
                FilesState { weights, motion_meta, motion: motion@, scenes },
            ),
        decreases names@.len() - index,
    {
        proof {
            if files_of(names@, (index + 1) as nat) is Err {
                bad_name_stays(names@, (index + 1) as nat, names@.len());
            }
        }
        let filename: &String = match &names[index] {
            EntryName::Name { name } => name,
            _ => {
                return Err(SceneFilesError::BadName { index });
            },
        };
        match classify_file(filename.as_str()) {
            FileKind::Weights => {
                weights = Some(index);
            },
            FileKind::MotionMeta => {
                motion_meta = Some(index);
            },
            FileKind::Motion { tile, lod } => {
                motion.push(
                    CatmullRomMotionZipEntry {
                        index,
                        filename: filename.clone(),
                        tile_id: tile,
                        lod_id: lod,
                    },
                );
            },
            FileKind::Scene { tile, lod } => {
                let entry: SceneFileEntry = SceneFileEntry {
                    index,
                    filename: filename.clone(),
                    lod_id: lod,
                    tile_id: tile,
                };
                proof {
                    crate::scene_archive::sorted_tiles_of_prefix(scenes, entry, scenes.len());
                    scenes = scenes.push(entry);
                }
                insert_tile(&mut tiles, entry);
            },
            FileKind::SceneNumber => {
                return Err(SceneFilesError::BadName { index });
            },
            FileKind::Other => {},
        }
        index = index + 1;
    }
    Ok(SceneFiles { weights, motion_meta, motion, tiles })
}

/// Lists the files of an archive and sorts them out. What is stated holds for some file names that
/// the entries can have.
pub fn open_scene_files(archive: &[u8]) -> (r: Result<SceneFiles, SceneFilesError>)
    ensures
        crate::zip_file::zip_len(archive@) is Err ==> r == Err::<SceneFiles, SceneFilesError>(
            SceneFilesError::Unopenable,
        ),
        crate::zip_file::zip_len(archive@) is Ok ==> exists|names: Seq<EntryName>|
            {
                &&& crate::scene_archive::names_of(names, archive@)
                &&& match (r, #[trigger] files_of(names, names.len())) {
                    (Ok(files), Ok(state)) => files_hold(files, state),
                    (Err(error), Err(index)) => error == (SceneFilesError::BadName { index }),
                    _ => false,
                }
            },
{
    let names: Vec<EntryName> = match list_entries(archive) {
        Ok(names) => names,
        Err(_) => {
            return Err(SceneFilesError::Unopenable);
        },
    };
    let ghost view = names@;
    let r: Result<SceneFiles, SceneFilesError> = sort_out_files(&names);
    assert(files_of(view, view.len()) is Ok || files_of(view, view.len()) is Err);
    r
}

/// The numbers in the name of a picked tile.
pub open spec fn picked_numbers(name: Seq<char>) -> Option<(usize, usize)> {
    match crate::basis_bank_motion::two_numbers(
        crate::name_match::regex_captures(PICKED_TILE_PATTERN@, name),
    ) {
        Some((lod, tile)) => if lod <= MAX_PICKED_NUMBER && tile <= MAX_PICKED_NUMBER {
            Some((lod, tile))
        } else {
            None
        },
        None => None,
    }
}

/// The first `n` picked files, with the numbers in their names; the first bad name stops it.
pub open spec fn picked_of(names: Seq<String>, n: nat) -> Result<Seq<SceneFileEntry>, usize>
    decreases n,
{
    if n == 0 {
        Ok(Seq::empty())
    } else {
        match (picked_of(names, (n - 1) as nat), picked_numbers(names[n - 1]@)) {
            (Err(e), _) => Err(e),
            (Ok(_), None) => Err((n - 1) as usize),
            (Ok(list), Some((lod, tile))) => Ok(
                list.push(
                    SceneFileEntry {
                        index: (n - 1) as usize,
                        filename: names[n - 1],
                        lod_id: lod,
                        tile_id: tile,
                    },
                ),
            ),
        }
    }
}

proof fn bad_pick_stays(names: Seq<String>, m: nat, n: nat)
    requires
        m <= n,
        picked_of(names, m) is Err,
    ensures
        picked_of(names, n) == picked_of(names, m),
    decreases n,
{
    if m < n {
        bad_pick_stays(names, m, (n - 1) as nat);
    }
}

/// Sorts picked files by the numbers in their names.
pub fn sort_picked_files(names: &Vec<String>) -> (r: Result<Vec<SceneFileEntry>, SceneFilesError>)
    ensures
        match (r, picked_of(names@, names@.len())) {
            (Ok(tiles), Ok(list)) => tiles@ == crate::scene_archive::sorted_tiles(list, list.len()),
            (Err(error), Err(index)) => error == (SceneFilesError::BadName { index }),
            _ => false,
        },
{
    let mut tiles: Vec<SceneFileEntry> = Vec::new();
    let ghost mut list: Seq<SceneFileEntry> = Seq::empty();
    let mut index: usize = 0;
    while index < names.len()
        invariant
            index <= names@.len(),
            tiles@ == crate::scene_archive::sorted_tiles(list, list.len()),
            picked_of(names@, index as nat) == Ok::<Seq<SceneFileEntry>, usize>(list),
        decreases names@.len() - index,
    {
        proof {
            if picked_of(names@, (index + 1) as nat) is Err {
                bad_pick_stays(names@, (index + 1) as nat, names@.len());
            }
        }
        let filename: &String = &names[index];
        let (lod, tile): (usize, usize) = match numbers_in_groups(
            &capture(PICKED_TILE_PATTERN, filename.as_str()),
        ) {
            Some(numbers) => numbers,
            None => {
                return Err(SceneFilesError::BadName { index });
            },
        };
        if lod > MAX_PICKED_NUMBER || tile > MAX_PICKED_NUMBER {
            return Err(SceneFilesError::BadName { index });
        }
        let entry: SceneFileEntry = SceneFileEntry {
            index,
            filename: filename.clone(),
            lod_id: lod,
            tile_id: tile,
        };
        proof {
            crate::scene_archive::sorted_tiles_of_prefix(list, entry, list.len());
            list = list.push(entry);
        }
        insert_tile(&mut tiles, entry);
        index = index + 1;
    }
    Ok(tiles)
}

/// LoDs from the first to the last, and tiles up to that of the last file.
pub open spec fn grid_size(tiles: Seq<SceneFileEntry>) -> (int, int) {
    if tiles.len() == 0 {
        (0, 0)
    } else {
        (tiles.last().lod_id - tiles[0].lod_id + 1, tiles.last().tile_id + 1)
    }
}

/// The size of the grid that sorted files fill, row by row: nothing for no files, an error if the
/// grid is larger than the list. Files beyond the grid are left over.
pub fn plan_grid(tiles: &Vec<SceneFileEntry>) -> (r: Result<(usize, usize), SceneFilesError>)
    requires
        tiles@.len() > 0 ==> tiles@[0].lod_id <= tiles@.last().lod_id,
    ensures
        match r {
            Ok((lods, columns)) => {
                &&& (lods as int, columns as int) == grid_size(tiles@)
                &&& lods * columns <= tiles@.len()
            },
            Err(error) => {
                &&& error == SceneFilesError::MissingTile
                &&& grid_size(tiles@).0 * grid_size(tiles@).1 > tiles@.len()
            },
        },
{
    let total: usize = tiles.len();
    if total == 0 {
        return Ok((0, 0));
    }
    let span: usize = tiles[total - 1].lod_id - tiles[0].lod_id;
    let last_tile: usize = tiles[total - 1].tile_id;
    proof {
        assert((span + 1) * (last_tile + 1) > span && (span + 1) * (last_tile + 1) > last_tile)
            by (nonlinear_arith)
            requires
                span >= 0,
                last_tile >= 0,
        ;
    }
    if span >= total || last_tile >= total {
        return Err(SceneFilesError::MissingTile);
    }
    match (span + 1).checked_mul(last_tile + 1) {
        Some(cells) => {
            if cells > total {
                Err(SceneFilesError::MissingTile)
            } else {
                Ok((span + 1, last_tile + 1))
            }
        },
        None => Err(SceneFilesError::MissingTile),
    }
}

/// The file of a place in the grid.
pub fn grid_file(
    tiles: &Vec<SceneFileEntry>,
    lods: usize,
    columns: usize,
    lod: usize,
    tile: usize,
) -> (r: &SceneFileEntry)
    requires
        lod < lods,
        tile < columns,
        lods * columns <= tiles@.len(),
    ensures
        lod * columns + tile < tiles@.len(),
        *r == tiles@[lod * columns + tile],
{
    let total: usize = tiles.len();
    proof {
        assert(lod * columns + columns <= lods * columns) by (nonlinear_arith)
            requires
                lod + 1 <= lods,
                columns >= 0,
        ;
        assert(0 <= lod * columns) by (nonlinear_arith)
            requires
                lod >= 0,
                columns >= 0,
        ;
    }
    &tiles[lod * columns + tile]
}

/// A file as it was picked.
pub enum PickedFile {
    /// A PLY file, still to be decoded.
    Ply { bytes: Vec<u8> },
    /// A list of 32-byte rows; a last row that is cut short does not count.
    Splats { scene: Scene },
}

pub open spec fn picked_holds(file: PickedFile, filename: Seq<char>, bytes: Seq<u8>) -> bool {
    match file {
        PickedFile::Ply { bytes: kept } => crate::text::holds_part(filename, ".ply"@) && kept@
            == bytes,
        PickedFile::Splats { scene } => {
            &&& !crate::text::holds_part(filename, ".ply"@)
            &&& crate::text::holds_part(filename, ".splat"@)
            &&& scene.splat_count == bytes.len() / 32
            &&& scene.buffer@ == bytes
            &&& scene.source_row_indices@.len() == 0
            &&& scene.tex_data@.len() == 0
            &&& scene.tex_width == 0
            &&& scene.tex_height == 0
            &&& scene.orig_means is None
            &&& scene.orig_quats is None
        },
    }
}

/// Takes the bytes of a picked file, by what its name says of it.
pub fn take_picked_file(
    filename: &String,
    bytes: Vec<u8>,
) -> (r: Result<PickedFile, SceneFilesError>)
    ensures
        match r {
            Ok(file) => picked_holds(file, filename@, bytes@),
            Err(error) => {
                &&& error == (SceneFilesError::UnknownFormat { filename: *filename })
                &&& !crate::text::holds_part(filename@, ".ply"@)
                &&& !crate::text::holds_part(filename@, ".splat"@)
            },
        },
{
    if contains_text(filename.as_str(), ".ply") {
        return Ok(PickedFile::Ply { bytes });
    }
    if !contains_text(filename.as_str(), ".splat") {
        return Err(SceneFilesError::UnknownFormat { filename: filename.clone() });
    }
    let mut scene: Scene = Scene::new();
    scene.splat_count = bytes.len() / 32;
    scene.buffer = bytes;
    Ok(PickedFile::Splats { scene })
}

/// When there is one file for every place, each place of the grid holds the file of its numbers.
pub proof fn complete_picks_fill_the_grid(
    tiles: Seq<SceneFileEntry>,
    lods: int,
    columns: int,
    lod: int,
    tile: int,
)
    requires
        tiles.len() == lods * columns,
        0 <= lod < lods,
        0 <= tile < columns,
        forall|i: int, j: int|
            0 <= i < j < tiles.len() ==> crate::scene_archive::tile_le(
                #[trigger] tiles[i],
                #[trigger] tiles[j],
            ) && !(tiles[i].lod_id == tiles[j].lod_id && tiles[i].tile_id == tiles[j].tile_id),
        forall|i: int|
            0 <= i < tiles.len() ==> (#[trigger] tiles[i]).tile_id < columns && tiles[0].lod_id
                <= tiles[i].lod_id < tiles[0].lod_id + lods,
    ensures
        0 <= lod * columns + tile < tiles.len(),
        tiles[lod * columns + tile].lod_id == tiles[0].lod_id + lod,
        tiles[lod * columns + tile].tile_id == tile,
{
    let at = lod * columns + tile;
    assert(0 <= at < lods * columns) by (nonlinear_arith)
        requires
            at == lod * columns + tile,
            0 <= lod < lods,
            0 <= tile < columns,
    ;
    ranks_rise(tiles, columns, 0, at);
    ranks_rise(tiles, columns, at, tiles.len() - 1);
    let rank = rank_of(tiles, columns, at);
    let last = rank_of(tiles, columns, tiles.len() - 1);
    let a = tiles[tiles.len() - 1];
    let r = a.lod_id - tiles[0].lod_id;
    assert(r * columns + a.tile_id < lods * columns) by (nonlinear_arith)
        requires
            0 <= r < lods,
            0 <= a.tile_id < columns,
    ;
    assert(rank == at);
    let e = tiles[at].lod_id - tiles[0].lod_id;
    vstd::arithmetic::div_mod::lemma_fundamental_div_mod_converse(at, columns, lod, tile);
    assert(e * columns == columns * e) by (nonlinear_arith);
    assert(lod * columns == columns * lod) by (nonlinear_arith);
    vstd::arithmetic::div_mod::lemma_fundamental_div_mod_converse(
        at,
        columns,
        e,
        tiles[at].tile_id as int,
    );
}

spec fn rank_of(tiles: Seq<SceneFileEntry>, columns: int, i: int) -> int {
    (tiles[i].lod_id - tiles[0].lod_id) * columns + tiles[i].tile_id
}

/// Ranks of tiles that are all different rise by at least one from each to the next.
proof fn ranks_rise(tiles: Seq<SceneFileEntry>, columns: int, i: int, j: int)
    requires
        0 <= i <= j < tiles.len(),
        forall|i: int, j: int|
            0 <= i < j < tiles.len() ==> crate::scene_archive::tile_le(
                #[trigger] tiles[i],
                #[trigger] tiles[j],
            ) && !(tiles[i].lod_id == tiles[j].lod_id && tiles[i].tile_id == tiles[j].tile_id),
        forall|i: int| 0 <= i < tiles.len() ==> (#[trigger] tiles[i]).tile_id < columns,
    ensures
        rank_of(tiles, columns, j) >= rank_of(tiles, columns, i) + (j - i),
    decreases j - i,
{
    if i < j {
        ranks_rise(tiles, columns, i, j - 1);
        let p = tiles[j - 1];
        let q = tiles[j];
        assert(crate::scene_archive::tile_le(p, q));
        let a = p.lod_id - tiles[0].lod_id;
        let b = q.lod_id - tiles[0].lod_id;
        if a < b {
            assert(b * columns + q.tile_id >= a * columns + p.tile_id + 1) by (nonlinear_arith)
                requires
                    a + 1 <= b,
                    0 <= q.tile_id,
                    p.tile_id < columns,
            ;
        }
    }
}

} // verus!
