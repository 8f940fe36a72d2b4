//! Scene archives: which files of a ZIP are tiles and motion assets, the complete tile grid they
//! have to form, and the order in which they are loaded.

use crate::basis_bank_motion::{
    detect_basis_coeffs_file, detect_basis_lod_file, BasisBankCoeffZipEntry, BasisBankLodZipEntry,
    BasisBankMotionMeta, BasisBankMotionSet, MotionError, BASIS_BANK_META_FILENAME,
};
use crate::basis_motion_graph::{BasisMotionGraph, BASIS_MOTION_GRAPH_FILENAME};
use crate::name_match::{fault_in_group, number_in_group, NumberFault};
use crate::scene::Scene;
use crate::text::{decimal, ends_with, same_text, to_ascii_lowercase};
use crate::zip_file::EntryError;
use vstd::prelude::*;
use vstd::string::*;

verus! {

/// Names of scene tiles.
pub const SCENE_PATTERN: &'static str = r"^tile(\d+)_lod(\d+)\.(ply|splat)$";

/// The file name of an archive entry.
#[derive(Debug, Clone)]
pub enum EntryName {
    /// The entry cannot be opened.
    Unreadable,
    /// The path leads out of the archive.
    UnsafePath,
    /// There is no file name, or it is not text.
    NotText,
    Name { name: String },
}

/// A scene tile of an archive.
#[derive(Debug, Clone)]
pub struct SceneFileEntry {
    pub index: usize,
    pub filename: String,
    pub lod_id: usize,
    pub tile_id: usize,
}

/// What a file name stands for.
#[derive(Debug, Clone, Copy, PartialEq, Eq, Structural)]
pub enum EntryKind {
    Deformation,
    LegacyMotion,
    BasisMeta,
    BasisGraph,
    Basis { lod: usize },
    Coefficients { tile: usize, lod: usize },
    Scene { tile: usize, lod: usize },
    /// A scene tile whose numbers cannot be represented.
    SceneNumber { fault: NumberFault },
    Other,
}

/// What a lower-case file name stands for.
pub open spec fn kind_of(name: Seq<char>) -> EntryKind {
    let lod = crate::name_match::group_number(
        crate::name_match::regex_captures(crate::basis_bank_motion::LOD_PATTERN@, name),
        1,
    );
    let coeffs = crate::basis_bank_motion::two_numbers(
        crate::name_match::regex_captures(crate::basis_bank_motion::COEFFS_PATTERN@, name),
    );
    let scene = crate::name_match::regex_captures(SCENE_PATTERN@, name);
    if name == "deformation_weights.bin"@ {
        EntryKind::Deformation
    } else if name == "motion_catmull_rom_meta.pt"@ || "_motion_catmull_rom.pt"@.is_suffix_of(name) {
        EntryKind::LegacyMotion
    } else if name == BASIS_BANK_META_FILENAME@ {
        EntryKind::BasisMeta
    } else if name == BASIS_MOTION_GRAPH_FILENAME@ {
        EntryKind::BasisGraph
    } else if lod is Some {
        EntryKind::Basis { lod: lod->0 }
    } else if coeffs is Some {
        EntryKind::Coefficients { tile: (coeffs->0).0, lod: (coeffs->0).1 }
    } else if scene is Some {
        match crate::basis_bank_motion::two_numbers(scene) {
            Some((tile, lod)) => EntryKind::Scene { tile, lod },
            None => EntryKind::SceneNumber { fault: scene_fault(scene) },
        }
    } else {
        EntryKind::Other
    }
}

/// Why the first number of a scene tile that is none is none.
pub open spec fn scene_fault(groups: Option<Seq<Option<Seq<char>>>>) -> NumberFault {
    if crate::name_match::group_number(groups, 1) is None {
        crate::name_match::group_fault(groups, 1)
    } else {
        crate::name_match::group_fault(groups, 2)
    }
}

/// Says what a lower-case file name stands for.
pub fn classify(name: &str) -> (r: EntryKind)
    ensures
        r == kind_of(name@),
{
    if same_text(name, "deformation_weights.bin") {
        return EntryKind::Deformation;
    }
    if same_text(name, "motion_catmull_rom_meta.pt") || ends_with(name, "_motion_catmull_rom.pt") {
        return EntryKind::LegacyMotion;
    }
    if same_text(name, BASIS_BANK_META_FILENAME) {
        return EntryKind::BasisMeta;
    }
    if same_text(name, BASIS_MOTION_GRAPH_FILENAME) {
        return EntryKind::BasisGraph;
    }
    if let Some(lod) = detect_basis_lod_file(name) {
        return EntryKind::Basis { lod };
    }
    if let Some((tile, lod)) = detect_basis_coeffs_file(name) {
        return EntryKind::Coefficients { tile, lod };
    }
    let groups: Option<Vec<Option<String>>> = crate::name_match::capture(SCENE_PATTERN, name);
    if groups.is_some() {
        match crate::basis_bank_motion::numbers_in_groups(&groups) {
            Some((tile, lod)) => EntryKind::Scene { tile, lod },
            None => {
                let group: usize = if number_in_group(&groups, 1).is_none() {
                    1
                } else {
                    2
                };
                EntryKind::SceneNumber { fault: fault_in_group(&groups, group) }
            },
        }
    } else {
        EntryKind::Other
    }
}

/// Why an archive is refused.
#[derive(Debug)]
pub enum SceneArchiveError {
    Unopenable,
    EntryUnreadable { index: usize },
    UnsafePath { index: usize },
    NotText { index: usize },
    DuplicateDeformation,
    DuplicateMeta,
    DuplicateGraph,
    SceneNumber { index: usize, fault: NumberFault },
    LegacyMotion,
    NoScenes,
    /// The tiles are fewer or more than their greatest LoD and tile numbers ask for.
    GridSize { found: usize, max_lod: usize, max_tile: usize },
    GridTile { tile: usize, lod: usize, filename: String },
    Read { filename: String, error: EntryError },
    SplatLength { filename: String },
    BasisFiles,
    CoefficientFiles { found: usize, expected: usize },
    CoefficientOutsideGrid { filename: String },
    DuplicateCoefficients { tile: usize, lod: usize },
    MetaMissing,
    DeformationOnly,
    /// The metadata lists other LoDs than those of the tiles.
    IncludeLods { found: Vec<usize>, lod_count: usize },
    Motion { error: MotionError },
}

/// How many tiles a grid lacks or has too many; the numbers of one that is too large to count are
/// left as they stand in the file names.
pub open spec fn grid_size_text(found: usize, max_lod: usize, max_tile: usize) -> Seq<char> {
    let cells = (max_lod + 1) * (max_tile + 1);
    "incomplete tile grid: found "@ + crate::text::decimal_text(found as nat) + (if cells
        <= u64::MAX {
        " scene files, expected "@ + crate::text::decimal_text((max_lod + 1) as nat) + " LoDs x "@
            + crate::text::decimal_text((max_tile + 1) as nat) + " tiles = "@
            + crate::text::decimal_text(cells as nat) + " files"@
    } else {
        " scene files for LoDs up to "@ + crate::text::decimal_text(max_lod as nat)
            + " and tiles up to "@ + crate::text::decimal_text(max_tile as nat)
    })
}

fn grid_size_message(found: usize, max_lod: usize, max_tile: usize) -> (r: String)
    ensures
        r@ == grid_size_text(found, max_lod, max_tile),
{
    let mut s: String = "incomplete tile grid: found ".to_owned();
    s.append(decimal(found as u64).as_str());
    let lods: Option<u64> = (max_lod as u64).checked_add(1);
    let tiles: Option<u64> = (max_tile as u64).checked_add(1);
    proof {
        assert((max_lod + 1) * (max_tile + 1) >= max_lod + 1 && (max_lod + 1) * (max_tile + 1)
            >= max_tile + 1) by (nonlinear_arith)
            requires
                max_lod >= 0,
                max_tile >= 0,
        ;
    }
    let cells: Option<u64> = match (lods, tiles) {
        (Some(l), Some(t)) => l.checked_mul(t),
        _ => None,
    };
    match (lods, tiles, cells) {
        (Some(l), Some(t), Some(c)) => {
            s.append(" scene files, expected ");
            s.append(decimal(l).as_str());
            s.append(" LoDs x ");
            s.append(decimal(t).as_str());
            s.append(" tiles = ");
            s.append(decimal(c).as_str());
            s.append(" files");
        },
        _ => {
            s.append(" scene files for LoDs up to ");
            s.append(decimal(max_lod as u64).as_str());
            s.append(" and tiles up to ");
            s.append(decimal(max_tile as u64).as_str());
        },
    }
    assert(s@ =~= grid_size_text(found, max_lod, max_tile));
    s
}

impl SceneArchiveError {
    pub open spec fn text(self, archive: Seq<u8>) -> Seq<char> {
        match self {
            SceneArchiveError::Unopenable => {
                "failed to open GSWT ZIP archive: "@ + match crate::zip_file::zip_len(archive) {
                    Err(said) => said,
                    Ok(_) => Seq::empty(),
                }
            },
            SceneArchiveError::EntryUnreadable { index } => {
                (EntryError::Open { index }).cause_text(archive)
            },
            SceneArchiveError::UnsafePath { index } => {
                "ZIP entry "@ + crate::text::decimal_text(index as nat) + " has an unsafe path"@
            },
            SceneArchiveError::NotText { index } => {
                "ZIP entry "@ + crate::text::decimal_text(index as nat)
                    + " has a non-UTF-8 filename"@
            },
            SceneArchiveError::DuplicateDeformation => "duplicate deformation_weights.bin entries"@,
            SceneArchiveError::DuplicateMeta => "duplicate motion_basis_meta.bin entries"@,
            SceneArchiveError::DuplicateGraph => "duplicate motion_graph_basis.json entries"@,
            SceneArchiveError::SceneNumber { index: _, fault } => fault.text(),
            SceneArchiveError::LegacyMotion => {
                "legacy dense Catmull-Rom motion assets are unsupported; rebuild the archive with the current gswt_constructor"@
            },
            SceneArchiveError::NoScenes => {
                "archive contains no tile{id}_lod{id}.ply or .splat files"@
            },
            SceneArchiveError::GridSize { found, max_lod, max_tile } => grid_size_text(
                found,
                max_lod,
                max_tile,
            ),
            SceneArchiveError::GridTile { tile, lod, filename } => {
                "incomplete tile grid: expected tile"@ + crate::text::decimal_text(tile as nat)
                    + "_lod"@ + crate::text::decimal_text(lod as nat) + ", found "@ + filename@
            },
            SceneArchiveError::Read { filename, error } => {
                error.text(""@, "failed to read "@ + filename@ + ": "@, ""@, archive)
            },
            SceneArchiveError::SplatLength { filename } => {
                filename@ + " byte length is not a multiple of 32"@
            },
            SceneArchiveError::BasisFiles => {
                "shared-LoD0 motion requires exactly lod0_motion_basis.bin; rebuild with the current gswt_constructor"@
            },
            SceneArchiveError::CoefficientFiles { found, expected } => {
                "shared-LoD0 motion has "@ + crate::text::decimal_text(found as nat)
                    + " coefficient files, expected "@ + crate::text::decimal_text(expected as nat)
            },
            SceneArchiveError::CoefficientOutsideGrid { filename } => {
                filename@ + " addresses a tile outside the scene grid"@
            },
            SceneArchiveError::DuplicateCoefficients { tile, lod } => {
                "duplicate basis coefficients for tile"@ + crate::text::decimal_text(tile as nat)
                    + "_lod"@ + crate::text::decimal_text(lod as nat)
            },
            SceneArchiveError::MetaMissing => {
                "basis-bank files are present but motion_basis_meta.bin is missing; rebuild with the current gswt_constructor"@
            },
            SceneArchiveError::DeformationOnly => {
                "deformation_weights.bin is present without required shared-LoD0 basis assets; rebuild with the current gswt_constructor"@
            },
            SceneArchiveError::IncludeLods { found, lod_count } => {
                "basis metadata include_lods "@ + crate::text::list_text(found@)
                    + " does not match scene LoDs "@ + crate::text::list_text(
                    Seq::new(lod_count as nat, |i: int| i as usize),
                )
            },
            SceneArchiveError::Motion { error } => error.text(archive),
        }
    }

    /// The error in words; the archive is the one that the error came from.
    pub fn message(&self, archive: &[u8]) -> (r: String)
        ensures
            r@ == self.text(archive@),
    {
        match self {
            SceneArchiveError::Unopenable => {
                let mut s: String = "failed to open GSWT ZIP archive: ".to_owned();
                if let Err(said) = crate::zip_file::entry_count(archive) {
                    s.append(said.as_str());
                } else {
                    assert(s@ + Seq::<char>::empty() =~= s@);
                }
                s
            },
            SceneArchiveError::EntryUnreadable { index } => {
                EntryError::Open { index: *index }.cause(archive)
            },
            SceneArchiveError::UnsafePath { index } => {
                let mut s: String = "ZIP entry ".to_owned();
                s.append(decimal(*index as u64).as_str());
                s.append(" has an unsafe path");
                s
            },
            SceneArchiveError::NotText { index } => {
                let mut s: String = "ZIP entry ".to_owned();
                s.append(decimal(*index as u64).as_str());
                s.append(" has a non-UTF-8 filename");
                s
            },
            SceneArchiveError::DuplicateDeformation => {
                "duplicate deformation_weights.bin entries".to_owned()
            },
            SceneArchiveError::DuplicateMeta => {
                "duplicate motion_basis_meta.bin entries".to_owned()
            },
            SceneArchiveError::DuplicateGraph => {
                "duplicate motion_graph_basis.json entries".to_owned()
            },
            SceneArchiveError::SceneNumber { index: _, fault } => fault.message().to_owned(),
            SceneArchiveError::LegacyMotion => {
                "legacy dense Catmull-Rom motion assets are unsupported; rebuild the archive with the current gswt_constructor".to_owned()
            },
            SceneArchiveError::NoScenes => {
                "archive contains no tile{id}_lod{id}.ply or .splat files".to_owned()
            },
            SceneArchiveError::GridSize { found, max_lod, max_tile } => grid_size_message(
                *found,
                *max_lod,
                *max_tile,
            ),
            SceneArchiveError::GridTile { tile, lod, filename } => {
                let mut s: String = "incomplete tile grid: expected tile".to_owned();
                s.append(decimal(*tile as u64).as_str());
                s.append("_lod");
                s.append(decimal(*lod as u64).as_str());
                s.append(", found ");
                s.append(filename.as_str());
                s
            },
            SceneArchiveError::Read { filename, error } => {
                let mut reading: String = "failed to read ".to_owned();
                reading.append(filename.as_str());
                reading.append(": ");
                error.message("", reading.as_str(), "", archive)
            },
            SceneArchiveError::SplatLength { filename } => {
                let mut s: String = filename.clone();
                s.append(" byte length is not a multiple of 32");
                s
            },
            SceneArchiveError::BasisFiles => {
                "shared-LoD0 motion requires exactly lod0_motion_basis.bin; rebuild with the current gswt_constructor".to_owned()
            },
            SceneArchiveError::CoefficientFiles { found, expected } => {
                let mut s: String = "shared-LoD0 motion has ".to_owned();
                s.append(decimal(*found as u64).as_str());
                s.append(" coefficient files, expected ");
                s.append(decimal(*expected as u64).as_str());
                s
            },
            SceneArchiveError::CoefficientOutsideGrid { filename } => {
                let mut s: String = filename.clone();
                s.append(" addresses a tile outside the scene grid");
                s
            },
            SceneArchiveError::DuplicateCoefficients { tile, lod } => {
                let mut s: String = "duplicate basis coefficients for tile".to_owned();
                s.append(decimal(*tile as u64).as_str());
                s.append("_lod");
                s.append(decimal(*lod as u64).as_str());
                s
            },
            SceneArchiveError::MetaMissing => {
                "basis-bank files are present but motion_basis_meta.bin is missing; rebuild with the current gswt_constructor".to_owned()
            },
            SceneArchiveError::DeformationOnly => {
                "deformation_weights.bin is present without required shared-LoD0 basis assets; rebuild with the current gswt_constructor".to_owned()
            },
            SceneArchiveError::IncludeLods { found, lod_count } => {
                let mut expected: Vec<usize> = Vec::new();
                for i in 0..*lod_count
                    invariant
                        expected@ == Seq::new(i as nat, |k: int| k as usize),
                {
                    expected.push(i);
                }
                let mut s: String = "basis metadata include_lods ".to_owned();
                s.append(crate::text::list_decimal(found.as_slice()).as_str());
                s.append(" does not match scene LoDs ");
                s.append(crate::text::list_decimal(expected.as_slice()).as_str());
                s
            },
            SceneArchiveError::Motion { error } => error.message(archive),
        }
    }
}

/// What the entries read so far amount to.
pub struct ScanState {
    pub deformation: Option<usize>,
    pub legacy_motion: bool,
    pub meta: Option<usize>,
    pub graph: Option<usize>,
    pub basis: Seq<BasisBankLodZipEntry>,
    pub coefficients: Seq<BasisBankCoeffZipEntry>,
    pub scenes: Seq<SceneFileEntry>,
}

pub open spec fn scan_start() -> ScanState {
    ScanState {
        deformation: None,
        legacy_motion: false,
        meta: None,
        graph: None,
        basis: Seq::empty(),
        coefficients: Seq::empty(),
        scenes: Seq::empty(),
    }
}

/// What one entry adds.
pub open spec fn scan_entry(state: ScanState, index: usize, name: EntryName) -> Result<
    ScanState,
    SceneArchiveError,
> {
    match name {
        EntryName::Unreadable => Err(SceneArchiveError::EntryUnreadable { index }),
        EntryName::UnsafePath => Err(SceneArchiveError::UnsafePath { index }),
        EntryName::NotText => Err(SceneArchiveError::NotText { index }),
        EntryName::Name { name: filename } => match kind_of(crate::text::lowered(filename@)) {
            EntryKind::Deformation => if state.deformation is Some {
                Err(SceneArchiveError::DuplicateDeformation)
            } else {
                Ok(ScanState { deformation: Some(index), ..state })
            },
            EntryKind::LegacyMotion => Ok(ScanState { legacy_motion: true, ..state }),
            EntryKind::BasisMeta => if state.meta is Some {
                Err(SceneArchiveError::DuplicateMeta)
            } else {
                Ok(ScanState { meta: Some(index), ..state })
            },
            EntryKind::BasisGraph => if state.graph is Some {
                Err(SceneArchiveError::DuplicateGraph)
            } else {
                Ok(ScanState { graph: Some(index), ..state })
            },
            EntryKind::Basis { lod } => Ok(
                ScanState {
                    basis: state.basis.push(
                        BasisBankLodZipEntry { index, filename, lod_id: lod },
                    ),
                    ..state
                },
            ),
            EntryKind::Coefficients { tile, lod } => Ok(
                ScanState {
                    coefficients: state.coefficients.push(
                        BasisBankCoeffZipEntry { index, filename, tile_id: tile, lod_id: lod },
                    ),
                    ..state
                },
            ),
            EntryKind::Scene { tile, lod } => Ok(
                ScanState {
                    scenes: state.scenes.push(
                        SceneFileEntry { index, filename, lod_id: lod, tile_id: tile },
                    ),
                    ..state
                },
            ),
            EntryKind::SceneNumber { fault } => Err(
                SceneArchiveError::SceneNumber { index, fault },
            ),
            EntryKind::Other => Ok(state),
        },
    }
}

/// What the first `n` entries amount to.
pub open spec fn scan_of(names: Seq<EntryName>, n: nat) -> Result<ScanState, SceneArchiveError>
    decreases n,
{
    if n == 0 {
        Ok(scan_start())
    } else {
        match scan_of(names, (n - 1) as nat) {
            Err(error) => Err(error),
            Ok(state) => scan_entry(state, (n - 1) as usize, names[n - 1]),
        }
    }
}

proof fn scan_failure_stays(names: Seq<EntryName>, n: nat, m: nat)
    requires
        n <= m,
        scan_of(names, n) is Err,
    ensures
        scan_of(names, m) == scan_of(names, n),
    decreases m,
{
    if n < m {
        scan_failure_stays(names, n, (m - 1) as nat);
    }
}

pub open spec fn tile_le(a: SceneFileEntry, b: SceneFileEntry) -> bool {
    a.lod_id < b.lod_id || (a.lod_id == b.lod_id && a.tile_id <= b.tile_id)
}

/// Where an entry goes among sorted ones: behind those that do not come after it.
pub open spec fn tile_place(sorted: Seq<SceneFileEntry>, entry: SceneFileEntry, n: nat) -> int
    decreases n,
{
    if n == 0 {
        0
    } else if tile_le(sorted[n - 1], entry) {
        n as int
    } else {
        tile_place(sorted, entry, (n - 1) as nat)
    }
}

/// The first `n` tiles by LoD, then by tile; tiles of the same numbers keep their order.
pub open spec fn sorted_tiles(scenes: Seq<SceneFileEntry>, n: nat) -> Seq<SceneFileEntry>
    decreases n,
{
    if n == 0 {
        Seq::empty()
    } else {
        let before = sorted_tiles(scenes, (n - 1) as nat);
        before.insert(tile_place(before, scenes[n - 1], before.len()), scenes[n - 1])
    }
}

pub open spec fn max_tile(scenes: Seq<SceneFileEntry>, n: nat) -> int
    decreases n,
{
    if n == 0 {
        0
    } else if scenes[n - 1].tile_id > max_tile(scenes, (n - 1) as nat) {
        scenes[n - 1].tile_id as int
    } else {
        max_tile(scenes, (n - 1) as nat)
    }
}

/// The first place from `from` on where sorted tiles leave the grid of `tile_count` tiles per LoD.
pub open spec fn first_misplaced(tiles: Seq<SceneFileEntry>, tile_count: int, from: nat) -> Option<
    int,
>
    decreases tiles.len() - from,
{
    if from >= tiles.len() {
        None
    } else if tiles[from as int].lod_id != from as int / tile_count || tiles[from as int].tile_id
        != from as int % tile_count {
        Some(from as int)
    } else {
        first_misplaced(tiles, tile_count, from + 1)
    }
}

/// Why tiles do not form a complete grid.
pub open spec fn grid_error(scenes: Seq<SceneFileEntry>) -> Option<SceneArchiveError> {
    if scenes.len() == 0 {
        Some(SceneArchiveError::NoScenes)
    } else {
        let tiles = sorted_tiles(scenes, scenes.len());
        let lod = tiles.last().lod_id;
        let tile = max_tile(tiles, tiles.len());
        if tiles.len() != (lod + 1) * (tile + 1) {
            Some(
                SceneArchiveError::GridSize {
                    found: tiles.len() as usize,
                    max_lod: lod,
                    max_tile: tile as usize,
                },
            )
        } else {
            match first_misplaced(tiles, tile + 1, 0) {
                Some(i) => Some(
                    SceneArchiveError::GridTile {
                        tile: (i % (tile + 1)) as usize,
                        lod: (i / (tile + 1)) as usize,
                        filename: tiles[i].filename,
                    },
                ),
                None => None,
            }
        }
    }
}

/// The files of an archive whose tiles form a complete grid.
#[derive(Debug)]
pub struct SceneZipScan {
    pub deformation_weights: Option<usize>,
    pub meta: Option<usize>,
    pub graph: Option<usize>,
    pub basis_entries: Vec<BasisBankLodZipEntry>,
    pub coeff_entries: Vec<BasisBankCoeffZipEntry>,
    /// The tiles, LoD by LoD.
    pub tiles: Vec<SceneFileEntry>,
    pub lod_count: usize,
    pub tile_count: usize,
}

/// Tile `i` is tile `i % tile_count` of LoD `i / tile_count`.
pub open spec fn is_tile_grid(tiles: Seq<SceneFileEntry>, lod_count: int, tile_count: int) -> bool {
    &&& lod_count > 0
    &&& tile_count > 0
    &&& tiles.len() == lod_count * tile_count
    &&& forall|i: int|
        0 <= i < tiles.len() ==> (#[trigger] tiles[i]).lod_id == i / tile_count && tiles[i].tile_id
            == i % tile_count
}

/// Why the entries of an archive are refused.
pub open spec fn scan_error(names: Seq<EntryName>) -> Option<SceneArchiveError> {
    match scan_of(names, names.len()) {
        Err(error) => Some(error),
        Ok(state) => if state.legacy_motion {
            Some(SceneArchiveError::LegacyMotion)
        } else {
            grid_error(state.scenes)
        },
    }
}

/// The scan holds what the entries amount to.
pub open spec fn scan_holds(scan: SceneZipScan, state: ScanState) -> bool {
    &&& scan.deformation_weights == state.deformation
    &&& scan.meta == state.meta
    &&& scan.graph == state.graph
    &&& scan.basis_entries@ == state.basis
    &&& scan.coeff_entries@ == state.coefficients
    &&& scan.tiles@ == sorted_tiles(state.scenes, state.scenes.len())
    &&& is_tile_grid(scan.tiles@, scan.lod_count as int, scan.tile_count as int)
}

pub(crate) fn insert_tile(sorted: &mut Vec<SceneFileEntry>, entry: SceneFileEntry)
    ensures
        final(sorted)@ == old(sorted)@.insert(
            tile_place(old(sorted)@, entry, old(sorted)@.len()),
            entry,
        ),
{
    let mut at: usize = sorted.len();
    while at > 0 && (sorted[at - 1].lod_id > entry.lod_id || (sorted[at - 1].lod_id == entry.lod_id
        && sorted[at - 1].tile_id > entry.tile_id))
        invariant
            at <= sorted@.len(),
            sorted@ == old(sorted)@,
            tile_place(sorted@, entry, sorted@.len()) == tile_place(sorted@, entry, at as nat),
        decreases at,
    {
        at = at - 1;
    }
    sorted.insert(at, entry);
}

/// Sorted tiles are all there and in order.
pub proof fn sorted_tiles_ordered(scenes: Seq<SceneFileEntry>, n: nat)
    requires
        n <= scenes.len(),
    ensures
        sorted_tiles(scenes, n).len() == n,
        forall|i: int, j: int|
            0 <= i < j < n ==> tile_le(
                #[trigger] sorted_tiles(scenes, n)[i],
                #[trigger] sorted_tiles(scenes, n)[j],
            ),
    decreases n,
{
    if n > 0 {
        let m = (n - 1) as nat;
        sorted_tiles_ordered(scenes, m);
        let before = sorted_tiles(scenes, m);
        let entry = scenes[n - 1];
        let at = tile_place(before, entry, before.len());
        tile_place_splits(before, entry, before.len());
        let after = sorted_tiles(scenes, n);
        assert forall|i: int, j: int| 0 <= i < j < n implies tile_le(
            #[trigger] after[i],
            #[trigger] after[j],
        ) by {
            if j == at {
                if i < at - 1 {
                    assert(tile_le(before[i], before[at - 1]));
                }
            } else if i == at {
                assert(after[j] == before[j - 1]);
                if j - 1 > at {
                    assert(tile_le(before[at], before[j - 1]));
                }
            } else {
                let a = if i < at {
                    i
                } else {
                    i - 1
                };
                let b = if j < at {
                    j
                } else {
                    j - 1
                };
                assert(tile_le(before[a], before[b]));
            }
        }
    }
}

proof fn tile_place_splits(sorted: Seq<SceneFileEntry>, entry: SceneFileEntry, n: nat)
    requires
        n <= sorted.len(),
    ensures
        0 <= tile_place(sorted, entry, n) <= n,
        tile_place(sorted, entry, n) > 0 ==> tile_le(
            sorted[tile_place(sorted, entry, n) - 1],
            entry,
        ),
        tile_place(sorted, entry, n) < n ==> !tile_le(
            sorted[tile_place(sorted, entry, n)],
            entry,
        ),
    decreases n,
{
    if n > 0 && !tile_le(sorted[n - 1], entry) {
        tile_place_splits(sorted, entry, (n - 1) as nat);
    }
}

proof fn not_misplaced(tiles: Seq<SceneFileEntry>, tile_count: int, from: nat, i: int)
    requires
        first_misplaced(tiles, tile_count, from) is None,
        from <= i < tiles.len(),
    ensures
        tiles[i].lod_id == i / tile_count,
        tiles[i].tile_id == i % tile_count,
    decreases i - from,
{
    if from < i {
        not_misplaced(tiles, tile_count, from + 1, i);
    }
}

fn check_grid(tiles: &Vec<SceneFileEntry>) -> (r: Result<(usize, usize), SceneArchiveError>)
    requires
        tiles@.len() > 0,
    ensures
        ({
            let lod = tiles@.last().lod_id;
            let tile = max_tile(tiles@, tiles@.len());
            match r {
                Ok((lod_count, tile_count)) => {
                    &&& lod_count == lod + 1
                    &&& tile_count == tile + 1
                    &&& tiles@.len() == (lod + 1) * (tile + 1)
                    &&& first_misplaced(tiles@, tile + 1, 0) is None
                    &&& is_tile_grid(tiles@, lod_count as int, tile_count as int)
                },
                Err(error) => if tiles@.len() != (lod + 1) * (tile + 1) {
                    error == SceneArchiveError::GridSize {
                        found: tiles@.len() as usize,
                        max_lod: lod,
                        max_tile: tile as usize,
                    }
                } else {
                    match first_misplaced(tiles@, tile + 1, 0) {
                        Some(i) => error == SceneArchiveError::GridTile {
                            tile: (i % (tile + 1)) as usize,
                            lod: (i / (tile + 1)) as usize,
                            filename: tiles@[i].filename,
                        },
                        None => false,
                    }
                },
            }
        }),
{
    let max_lod: usize = tiles[tiles.len() - 1].lod_id;
    let mut greatest: usize = 0;
    for i in 0..tiles.len()
        invariant
            greatest == max_tile(tiles@, i as nat),
    {
        if tiles[i].tile_id > greatest {
            greatest = tiles[i].tile_id;
        }
    }
    let found: usize = tiles.len();
    let size_error: SceneArchiveError = SceneArchiveError::GridSize {
        found,
        max_lod,
        max_tile: greatest,
    };
    proof {
        assert((max_lod + 1) * (greatest + 1) >= max_lod + 1) by (nonlinear_arith)
            requires
                max_lod >= 0,
                greatest >= 0,
        ;
        assert((max_lod + 1) * (greatest + 1) >= greatest + 1) by (nonlinear_arith)
            requires
                max_lod >= 0,
                greatest >= 0,
        ;
    }
    if max_lod >= found || greatest >= found {
        return Err(size_error);
    }
    let lod_count: usize = max_lod + 1;
    let tile_count: usize = greatest + 1;
    match lod_count.checked_mul(tile_count) {
        Some(expected) => {
            if expected != found {
                return Err(size_error);
            }
        },
        None => {
            return Err(size_error);
        },
    }
    for i in 0..tiles.len()
        invariant
            tile_count > 0,
            tile_count == greatest + 1,
            greatest == max_tile(tiles@, tiles@.len()),
            max_lod == tiles@.last().lod_id,
            tiles@.len() == (max_lod + 1) * (greatest + 1),
            first_misplaced(tiles@, tile_count as int, 0) == first_misplaced(
                tiles@,
                tile_count as int,
                i as nat,
            ),
    {
        let lod: usize = i / tile_count;
        let tile: usize = i % tile_count;
        if tiles[i].lod_id != lod || tiles[i].tile_id != tile {
            return Err(
                SceneArchiveError::GridTile { tile, lod, filename: tiles[i].filename.clone() },
            );
        }
    }
    proof {
        assert forall|i: int| 0 <= i < tiles@.len() implies (#[trigger] tiles@[i]).lod_id == i
            / tile_count as int && tiles@[i].tile_id == i % tile_count as int by {
            not_misplaced(tiles@, tile_count as int, 0, i);
        }
    }
    Ok((lod_count, tile_count))
}

/// Sorts out the entries of an archive by their names and checks that the tiles form a complete
/// grid.
pub fn scan_entries(names: &Vec<EntryName>) -> (r: Result<SceneZipScan, SceneArchiveError>)
    ensures
        match r {
            Ok(scan) => {
                &&& scan_error(names@) is None
                &&& scan_of(names@, names@.len()) is Ok
                &&& scan_holds(scan, scan_of(names@, names@.len())->Ok_0)
            },
            Err(error) => scan_error(names@) == Some(error),
        },
{
    let mut deformation: Option<usize> = None;
    let mut legacy_motion: bool = false;
    let mut meta: Option<usize> = None;
    let mut graph: Option<usize> = None;
    let mut basis: Vec<BasisBankLodZipEntry> = Vec::new();
    let mut coefficients: Vec<BasisBankCoeffZipEntry> = Vec::new();
    let mut tiles: Vec<SceneFileEntry> = Vec::new();
    let ghost mut scenes: Seq<SceneFileEntry> = Seq::empty();
    let mut index: usize = 0;
    while index < names.len()
        invariant
            index <= names@.len(),
            tiles@ == sorted_tiles(scenes, scenes.len()),
            scan_of(names@, index as nat) == Ok::<ScanState, SceneArchiveError>(
                ScanState {
                    deformation,
                    legacy_motion,
                    meta,
                    graph,
                    basis: basis@,
                    coefficients: coefficients@,
                    scenes,
                },
            ),
        decreases names@.len() - index,
    {
        proof {
            if scan_of(names@, (index + 1) as nat) is Err {
                scan_failure_stays(names@, (index + 1) as nat, names@.len());
            }
        }
        let filename: &String = match &names[index] {
            EntryName::Unreadable => {
                return Err(SceneArchiveError::EntryUnreadable { index });
            },
            EntryName::UnsafePath => {
                return Err(SceneArchiveError::UnsafePath { index });
            },
            EntryName::NotText => {
                return Err(SceneArchiveError::NotText { index });
            },
            EntryName::Name { name } => name,
        };
        let lower: String = to_ascii_lowercase(filename.as_str());
        match classify(lower.as_str()) {
            EntryKind::Deformation => {
                if deformation.is_some() {
                    return Err(SceneArchiveError::DuplicateDeformation);
                }
                deformation = Some(index);
            },
            EntryKind::LegacyMotion => {
                legacy_motion = true;
            },
            EntryKind::BasisMeta => {
                if meta.is_some() {
                    return Err(SceneArchiveError::DuplicateMeta);
                }
                meta = Some(index);
            },
            EntryKind::BasisGraph => {
                if graph.is_some() {
                    return Err(SceneArchiveError::DuplicateGraph);
                }
                graph = Some(index);
            },
            EntryKind::Basis { lod } => {
                basis.push(BasisBankLodZipEntry { index, filename: filename.clone(), lod_id: lod });
            },
            EntryKind::Coefficients { tile, lod } => {
                coefficients.push(
                    BasisBankCoeffZipEntry {
                        index,
                        filename: filename.clone(),
                        tile_id: tile,
                        lod_id: lod,
                    },
                );
            },
            EntryKind::Scene { tile, lod } => {
                let entry: SceneFileEntry = SceneFileEntry {
                    index,
                    filename: filename.clone(),
                    lod_id: lod,
                    tile_id: tile,
                };
                proof {
                    sorted_tiles_of_prefix(scenes, entry, scenes.len());
                    scenes = scenes.push(entry);
                }
                insert_tile(&mut tiles, entry);
            },
            EntryKind::SceneNumber { fault } => {
                return Err(SceneArchiveError::SceneNumber { index, fault });
            },
            EntryKind::Other => {},
        }
        index = index + 1;
    }
    if legacy_motion {
        return Err(SceneArchiveError::LegacyMotion);
    }
    proof {
        sorted_tiles_ordered(scenes, scenes.len());
    }
    if tiles.len() == 0 {
        return Err(SceneArchiveError::NoScenes);
    }
    match check_grid(&tiles) {
        Ok((lod_count, tile_count)) => Ok(
            SceneZipScan {
                deformation_weights: deformation,
                meta,
                graph,
                basis_entries: basis,
                coeff_entries: coefficients,
                tiles,
                lod_count,
                tile_count,
            },
        ),
        Err(error) => Err(error),
    }
}

/// Sorting the first tiles does not depend on those behind them.
pub proof fn sorted_tiles_of_prefix(scenes: Seq<SceneFileEntry>, entry: SceneFileEntry, n: nat)
    requires
        n <= scenes.len(),
    ensures
        sorted_tiles(scenes.push(entry), n) == sorted_tiles(scenes, n),
    decreases n,
{
    if n > 0 {
        sorted_tiles_of_prefix(scenes, entry, (n - 1) as nat);
    }
}

/// A complete grid holds every tile of every LoD, and each once.
pub proof fn grid_holds_every_tile(
    tiles: Seq<SceneFileEntry>,
    lod_count: int,
    tile_count: int,
    lod: int,
    tile: int,
)
    requires
        is_tile_grid(tiles, lod_count, tile_count),
        0 <= lod < lod_count,
        0 <= tile < tile_count,
    ensures
        0 <= lod * tile_count + tile < tiles.len(),
        tiles[lod * tile_count + tile].lod_id == lod,
        tiles[lod * tile_count + tile].tile_id == tile,
        forall|i: int|
            0 <= i < tiles.len() && (#[trigger] tiles[i]).lod_id == lod && tiles[i].tile_id == tile
                ==> i == lod * tile_count + tile,
{
    let at = lod * tile_count + tile;
    assert(0 <= at < lod_count * tile_count) by (nonlinear_arith)
        requires
            at == lod * tile_count + tile,
            0 <= lod < lod_count,
            0 <= tile < tile_count,
    ;
    vstd::arithmetic::div_mod::lemma_fundamental_div_mod_converse(at, tile_count, lod, tile);
    assert(tiles[at].lod_id == at / tile_count);
    assert forall|i: int|
        0 <= i < tiles.len() && (#[trigger] tiles[i]).lod_id == lod && tiles[i].tile_id
            == tile implies i == at by {
        vstd::arithmetic::div_mod::lemma_fundamental_div_mod(i, tile_count);
        assert(tile_count * lod == lod * tile_count) by (nonlinear_arith);
    }
}

/// Rows of tiles: place `tile` of row `lod` holds tile `lod * tile_count + tile`.
pub open spec fn are_rows_of(
    rows: Seq<Vec<Scene>>,
    tiles: Seq<Scene>,
    lod_count: int,
    tile_count: int,
) -> bool {
    &&& rows.len() == lod_count
    &&& forall|lod: int| 0 <= lod < lod_count ==> (#[trigger] rows[lod])@.len() == tile_count
    &&& forall|lod: int, tile: int|
        0 <= lod < lod_count && 0 <= tile < tile_count ==> #[trigger] rows[lod]@[tile]
            == tiles[lod * tile_count + tile]
}

/// Arranges tiles that come LoD by LoD into one row for each LoD.
pub fn arrange_tiles(tiles: Vec<Scene>, lod_count: usize, tile_count: usize) -> (r: Vec<Vec<Scene>>)
    requires
        tiles@.len() == lod_count * tile_count,
        tile_count > 0,
    ensures
        are_rows_of(r@, tiles@, lod_count as int, tile_count as int),
{
    let ghost given = tiles@;
    let mut rows: Vec<Vec<Scene>> = Vec::with_capacity(lod_count);
    let mut row: Vec<Scene> = Vec::with_capacity(tile_count);
    assert(0 * tile_count == 0);
    for scene in it: tiles.into_iter()
        invariant
            it.seq() == given,
            tile_count > 0,
            given.len() == lod_count * tile_count,
            it.index() == rows@.len() * tile_count + row@.len(),
            row@.len() < tile_count,
            row@ == given.subrange(rows@.len() * tile_count, it.index() as int),
            are_rows_of(rows@, given, rows@.len() as int, tile_count as int),
    {
        let ghost done = rows@;
        let ghost start = done.len() * tile_count;
        assert(start >= 0) by (nonlinear_arith)
            requires
                start == done.len() * tile_count,
        ;
        row.push(scene);
        assert(row@ =~= given.subrange(start, start + row@.len()));
        if row.len() == tile_count {
            let mut next: Vec<Scene> = Vec::with_capacity(tile_count);
            std::mem::swap(&mut next, &mut row);
            rows.push(next);
            proof {
                assert(rows@.len() * tile_count == start + tile_count) by (nonlinear_arith)
                    requires
                        rows@.len() == done.len() + 1,
                        start == done.len() * tile_count,
                ;
                assert forall|lod: int, tile: int|
                    0 <= lod < rows@.len() && 0 <= tile < tile_count implies #[trigger] rows@[lod]@[
                    tile] == given[lod * tile_count + tile] by {
                    if lod < done.len() {
                        assert(rows@[lod] == done[lod]);
                    } else {
                        assert(rows@[lod] == next);
                        assert(lod * tile_count == start) by (nonlinear_arith)
                            requires
                                lod == done.len(),
                                start == done.len() * tile_count,
                        ;
                    }
                }
            }
        }
    }
    proof {
        let n = rows@.len() as int;
        assert(n == lod_count) by (nonlinear_arith)
            requires
                lod_count * tile_count == n * tile_count + row@.len(),
                0 <= row@.len() < tile_count,
                n >= 0,
        ;
    }
    rows
}

/// What is known of the file name of an entry from the name that the archive stores for it: a plain
/// path that leaves the archive is unsafe, and else its file is the last name on the way, if there is
/// one; any path that starts with `..` is unsafe, and only an entry that can be opened has a name.
pub open spec fn reads_as(name: EntryName, archive: Seq<u8>, index: usize) -> bool {
    &&& name is Unreadable <==> crate::zip_file::zip_size(archive, index) is Err
    &&& match crate::zip_file::zip_name(archive, index) {
        Ok(stored) => {
            &&& !(name is Unreadable)
            &&& crate::zip_file::plain_path(stored) ==> match crate::zip_file::destination(stored) {
                None => name is UnsafePath,
                Some(way) => if way.len() > 0 {
                    name matches EntryName::Name { name: file } && file@ == way.last()
                } else {
                    name is NotText
                },
            }
            &&& crate::zip_file::leaves_archive(stored) ==> name is UnsafePath
        },
        Err(_) => name is Unreadable || name is UnsafePath,
    }
}

/// File names that the entries of an archive can have.
pub open spec fn names_of(names: Seq<EntryName>, archive: Seq<u8>) -> bool {
    &&& crate::zip_file::zip_len(archive) == Ok::<usize, Seq<char>>(names.len() as usize)
    &&& names.len() <= usize::MAX
    &&& forall|i: int|
        0 <= i < names.len() ==> reads_as(#[trigger] names[i], archive, i as usize)
}

/// Lists the file names of an archive, as the archive reader gives them.
pub fn list_entries(archive: &[u8]) -> (r: Result<Vec<EntryName>, SceneArchiveError>)
    ensures
        match r {
            Ok(names) => names_of(names@, archive@),
            Err(error) => error == SceneArchiveError::Unopenable && crate::zip_file::zip_len(
                archive@,
            ) is Err,
        },
{
    let count: usize = match crate::zip_file::entry_count(archive) {
        Ok(count) => count,
        Err(_) => {
            return Err(SceneArchiveError::Unopenable);
        },
    };
    let mut names: Vec<EntryName> = Vec::new();
    for index in 0..count
        invariant
            names@.len() == index,
            forall|i: int|
                0 <= i < index ==> reads_as(#[trigger] names@[i], archive@, i as usize),
    {
        names.push(entry_name(crate::zip_file::entry_filename(archive, index)));
    }
    Ok(names)
}

/// What the archive reader said of the path of an entry.
pub open spec fn name_of(reply: Result<Option<Option<String>>, ()>) -> EntryName {
    match reply {
        Err(_) => EntryName::Unreadable,
        Ok(None) => EntryName::UnsafePath,
        Ok(Some(None)) => EntryName::NotText,
        Ok(Some(Some(name))) => EntryName::Name { name },
    }
}

/// Turns the reply of the archive reader into a name.
pub fn entry_name(reply: Result<Option<Option<String>>, ()>) -> (r: EntryName)
    ensures
        r == name_of(reply),
{
    match reply {
        Err(_) => EntryName::Unreadable,
        Ok(path) => match path {
            None => EntryName::UnsafePath,
            Some(file) => match file {
                None => EntryName::NotText,
                Some(name) => EntryName::Name { name },
            },
        },
    }
}

/// Opens an archive: lists its entries and sorts them out. What is stated holds for some file names
/// that the entries can have.
pub fn open_scene_zip(archive: &[u8]) -> (r: Result<SceneZipScan, SceneArchiveError>)
    ensures
        crate::zip_file::zip_len(archive@) is Err ==> r == Err::<SceneZipScan, SceneArchiveError>(
            SceneArchiveError::Unopenable,
        ),
        crate::zip_file::zip_len(archive@) is Ok ==> exists|names: Seq<EntryName>|
            {
                &&& names_of(names, archive@)
                &&& match r {
                    Ok(scan) => {
                        &&& #[trigger] scan_error(names) is None
                        &&& scan_of(names, names.len()) is Ok
                        &&& scan_holds(scan, scan_of(names, names.len())->Ok_0)
                    },
                    Err(error) => scan_error(names) == Some(error),
                }
            },
{
    let names: Vec<EntryName> = match list_entries(archive) {
        Ok(names) => names,
        Err(error) => {
            return Err(error);
        },
    };
    let ghost view = names@;
    let r: Result<SceneZipScan, SceneArchiveError> = scan_entries(&names);
    assert(scan_error(view) is None || scan_error(view) is Some);
    r
}

/// A tile as its file holds it.
pub enum TilePayload {
    /// A PLY file, still to be decoded.
    Ply { bytes: Vec<u8> },
    /// A finished scene.
    Splats { scene: Scene },
}

/// The tile is a PLY file.
pub open spec fn is_ply(filename: Seq<char>) -> bool {
    ".ply"@.is_suffix_of(crate::text::lowered(filename))
}

/// What the bytes of a tile file amount to.
pub open spec fn tile_holds(payload: TilePayload, filename: Seq<char>, bytes: Seq<u8>) -> bool {
    match payload {
        TilePayload::Ply { bytes: kept } => is_ply(filename) && kept@ == bytes,
        TilePayload::Splats { scene } => {
            &&& !is_ply(filename)
            &&& bytes.len() % 32 == 0
            &&& scene.splat_count == bytes.len() / 32
            &&& scene.buffer@ == bytes
            &&& scene.source_row_indices@ == crate::scene::identity_rows(scene.splat_count as nat)
            &&& scene.orig_means is None
            &&& scene.orig_quats is None
            &&& scene.tex_data@.len() == 0
        },
    }
}

/// A file name ends in `.ply`, in capitals or small letters.
pub open spec fn ends_in_ply(name: Seq<char>) -> bool {
    let n = name.len() as int;
    &&& n >= 4
    &&& name[n - 4] == '.'
    &&& name[n - 3] == 'p' || name[n - 3] == 'P'
    &&& name[n - 2] == 'l' || name[n - 2] == 'L'
    &&& name[n - 1] == 'y' || name[n - 1] == 'Y'
}

/// A file name ends in `.splat`, in capitals or small letters.
pub open spec fn ends_in_splat(name: Seq<char>) -> bool {
    let n = name.len() as int;
    &&& n >= 6
    &&& name[n - 6] == '.'
    &&& name[n - 5] == 's' || name[n - 5] == 'S'
    &&& name[n - 4] == 'p' || name[n - 4] == 'P'
    &&& name[n - 3] == 'l' || name[n - 3] == 'L'
    &&& name[n - 2] == 'a' || name[n - 2] == 'A'
    &&& name[n - 1] == 't' || name[n - 1] == 'T'
}

/// The end of its name tells what a tile file is: `.ply` in any letters names a PLY file, and
/// nothing else does, `.splat` in particular.
pub proof fn names_tell_the_format(name: Seq<char>)
    ensures
        is_ply(name) <==> ends_in_ply(name),
        ends_in_splat(name) ==> !is_ply(name),
{
    reveal_strlit(".ply");
    let n = name.len() as int;
    let lower = crate::text::lowered(name);
    let end = ".ply"@;
    if is_ply(name) {
        let last = lower.subrange(n - 4, n);
        assert(last =~= end);
        assert(last[0] == lower[n - 4] && last[1] == lower[n - 3] && last[2] == lower[n - 2]
            && last[3] == lower[n - 1]);
    }
    if ends_in_ply(name) {
        assert(lower.subrange(n - 4, n) =~= end);
    }
}

/// Takes the bytes of a tile file: a PLY file is kept for decoding, any other is a list of 32-byte
/// rows.
pub fn decode_tile(filename: &String, bytes: Vec<u8>) -> (r: Result<TilePayload, SceneArchiveError>)
    requires
        bytes@.len() / 32 <= u32::MAX,
    ensures
        match r {
            Ok(payload) => tile_holds(payload, filename@, bytes@),
            Err(error) => {
                &&& error == SceneArchiveError::SplatLength { filename: *filename }
                &&& !is_ply(filename@)
                &&& bytes@.len() % 32 != 0
            },
        },
        ends_in_ply(filename@) ==> (r matches Ok(TilePayload::Ply { bytes: kept }) && kept@
            == bytes@),
        !ends_in_ply(filename@) && bytes@.len() % 32 == 0 ==> (r matches Ok(
            TilePayload::Splats { scene },
        ) && scene.buffer@ == bytes@ && 32 * scene.splat_count == bytes@.len()),
        !ends_in_ply(filename@) && bytes@.len() % 32 != 0 ==> r is Err,
{
    proof {
        names_tell_the_format(filename@);
    }
    let lower: String = to_ascii_lowercase(filename.as_str());
    if ends_with(lower.as_str(), ".ply") {
        return Ok(TilePayload::Ply { bytes });
    }
    match Scene::from_splat_rows(bytes) {
        Some(scene) => Ok(TilePayload::Splats { scene }),
        None => Err(SceneArchiveError::SplatLength { filename: filename.clone() }),
    }
}

/// Reads the bytes of a tile out of its archive.
pub fn read_tile_bytes(archive: &[u8], entry: &SceneFileEntry) -> (r: Result<
    Vec<u8>,
    SceneArchiveError,
>)
    ensures
        match r {
            Ok(bytes) => {
                crate::zip_file::whole_entry(archive@, entry.index) == Ok::<Seq<u8>, EntryError>(bytes@)
            },
            Err(error) => exists|e: EntryError|
                {
                    &&& error == SceneArchiveError::Read { filename: entry.filename, error: e }
                    &&& #[trigger] crate::zip_file::whole_entry(archive@, entry.index) == Err::<Seq<u8>, EntryError>(e)
                },
        },
{
    match crate::zip_file::read_zip_entry(archive, entry.index) {
        Ok(bytes) => Ok(bytes),
        Err(error) => Err(SceneArchiveError::Read { filename: entry.filename.clone(), error }),
    }
}

/// The first coefficient file from `from` on that lies outside the grid or repeats a tile.
pub open spec fn coefficient_fault(
    entries: Seq<BasisBankCoeffZipEntry>,
    lod_count: int,
    tile_count: int,
    from: nat,
) -> Option<SceneArchiveError>
    decreases entries.len() - from,
{
    if from >= entries.len() {
        None
    } else {
        let entry = entries[from as int];
        if entry.lod_id >= lod_count || entry.tile_id >= tile_count {
            Some(SceneArchiveError::CoefficientOutsideGrid { filename: entry.filename })
        } else if crate::basis_bank_motion::repeats_tile(entries, from as int) {
            Some(
                SceneArchiveError::DuplicateCoefficients {
                    tile: entry.tile_id,
                    lod: entry.lod_id,
                },
            )
        } else {
            coefficient_fault(entries, lod_count, tile_count, from + 1)
        }
    }
}

/// Whether an archive has motion, and if it does not have all of it, why it is refused.
pub open spec fn motion_assets(scan: SceneZipScan) -> Result<Option<usize>, SceneArchiveError> {
    let expected = scan.lod_count * scan.tile_count;
    match scan.meta {
        Some(meta) => if scan.basis_entries@.len() != 1 || scan.basis_entries@[0].lod_id != 0 {
            Err(SceneArchiveError::BasisFiles)
        } else if scan.coeff_entries@.len() != expected {
            Err(
                SceneArchiveError::CoefficientFiles {
                    found: scan.coeff_entries@.len() as usize,
                    expected: expected as usize,
                },
            )
        } else {
            match coefficient_fault(
                scan.coeff_entries@,
                scan.lod_count as int,
                scan.tile_count as int,
                0,
            ) {
                Some(error) => Err(error),
                None => Ok(Some(meta)),
            }
        },
        None => if scan.basis_entries@.len() > 0 || scan.coeff_entries@.len() > 0
            || scan.graph is Some {
            Err(SceneArchiveError::MetaMissing)
        } else if scan.deformation_weights is Some {
            Err(SceneArchiveError::DeformationOnly)
        } else {
            Ok(None)
        },
    }
}

fn tile_repeats(entries: &Vec<BasisBankCoeffZipEntry>, i: usize) -> (r: bool)
    requires
        i < entries@.len(),
    ensures
        r == crate::basis_bank_motion::repeats_tile(entries@, i as int),
{
    for j in 0..i
        invariant
            i < entries@.len(),
            forall|k: int|
                0 <= k < j ==> !crate::basis_bank_motion::same_tile(
                    #[trigger] entries@[k],
                    entries@[i as int],
                ),
    {
        if entries[j].lod_id == entries[i].lod_id && entries[j].tile_id == entries[i].tile_id {
            assert(crate::basis_bank_motion::same_tile(entries@[j as int], entries@[i as int]));
            return true;
        }
    }
    false
}

/// Checks which motion assets an archive has: all of them (the place of the metadata), none, or a
/// part, which is refused.
pub fn check_motion_assets(scan: &SceneZipScan) -> (r: Result<Option<usize>, SceneArchiveError>)
    requires
        is_tile_grid(scan.tiles@, scan.lod_count as int, scan.tile_count as int),
    ensures
        r == motion_assets(*scan),
{
    match scan.meta {
        Some(meta) => {
            if scan.basis_entries.len() != 1 || scan.basis_entries[0].lod_id != 0 {
                return Err(SceneArchiveError::BasisFiles);
            }
            let expected: usize = scan.tiles.len();
            if scan.coeff_entries.len() != expected {
                return Err(
                    SceneArchiveError::CoefficientFiles {
                        found: scan.coeff_entries.len(),
                        expected,
                    },
                );
            }
            for i in 0..scan.coeff_entries.len()
                invariant
                    scan.meta == Some(meta),
                    scan.basis_entries@.len() == 1,
                    scan.basis_entries@[0].lod_id == 0,
                    scan.coeff_entries@.len() == scan.lod_count * scan.tile_count,
                    coefficient_fault(
                        scan.coeff_entries@,
                        scan.lod_count as int,
                        scan.tile_count as int,
                        0,
                    ) == coefficient_fault(
                        scan.coeff_entries@,
                        scan.lod_count as int,
                        scan.tile_count as int,
                        i as nat,
                    ),
            {
                let entry: &BasisBankCoeffZipEntry = &scan.coeff_entries[i];
                if entry.lod_id >= scan.lod_count || entry.tile_id >= scan.tile_count {
                    return Err(
                        SceneArchiveError::CoefficientOutsideGrid {
                            filename: entry.filename.clone(),
                        },
                    );
                }
                if tile_repeats(&scan.coeff_entries, i) {
                    return Err(
                        SceneArchiveError::DuplicateCoefficients {
                            tile: entry.tile_id,
                            lod: entry.lod_id,
                        },
                    );
                }
            }
            Ok(Some(meta))
        },
        None => {
            if scan.basis_entries.len() > 0 || scan.coeff_entries.len() > 0 || scan.graph.is_some() {
                return Err(SceneArchiveError::MetaMissing);
            }
            if scan.deformation_weights.is_some() {
                return Err(SceneArchiveError::DeformationOnly);
            }
            Ok(None)
        },
    }
}

/// LoDs `0` to `n - 1`.
pub open spec fn lods_in_order(lods: Seq<usize>, n: int) -> bool {
    &&& lods.len() == n
    &&& forall|i: int| 0 <= i < lods.len() ==> #[trigger] lods[i] == i
}

fn are_lods_in_order(lods: &Vec<usize>, n: usize) -> (r: bool)
    ensures
        r == lods_in_order(lods@, n as int),
{
    if lods.len() != n {
        return false;
    }
    for i in 0..lods.len()
        invariant
            lods@.len() == n,
            forall|k: int| 0 <= k < i ==> #[trigger] lods@[k] == k,
    {
        if lods[i] != i {
            assert(lods@[i as int] != i);
            return false;
        }
    }
    true
}

/// What an archive amounts to.
pub struct SceneZipData {
    pub scene_vec: Vec<Vec<Scene>>,
    pub basis_bank_motion: Option<BasisBankMotionSet>,
}

/// Loads the motion of an archive whose assets are complete, from decoded metadata and graph, and
/// checks that the metadata covers exactly the LoDs of the scene.
pub fn load_archive_motion(
    archive: &[u8],
    scan: &SceneZipScan,
    meta: BasisBankMotionMeta,
    graph: Option<BasisMotionGraph>,
    scenes: &Vec<Vec<Scene>>,
) -> (r: Result<BasisBankMotionSet, SceneArchiveError>)
    requires
        crate::basis_bank_motion::grid_splats(scenes@) <= usize::MAX,
    ensures
        ({
            let failure = crate::basis_bank_motion::motion_error(
                archive@,
                meta,
                scan.basis_entries@,
                scan.coeff_entries@,
                scenes@,
            );
            match r {
                Ok(motion) => {
                    &&& failure is None
                    &&& lods_in_order(meta.include_lods@, scan.lod_count as int)
                    &&& motion.meta == meta
                    &&& motion.motion_graph == crate::basis_bank_motion::usable_graph(graph, meta)
                    &&& motion.total_splats == crate::basis_bank_motion::grid_splats(scenes@)
                    &&& motion.basis_count == meta.basis_count
                    &&& crate::basis_bank_motion::bank_knots(archive@, meta, scan.basis_entries@)
                        == Ok::<Seq<u32>, MotionError>(motion.basis_knots@)
                    &&& crate::basis_bank_motion::coefficients_before(
                        archive@,
                        meta,
                        scan.coeff_entries@,
                        scenes@,
                        scenes@.len(),
                        0,
                    ) == Ok::<(Seq<u32>, Seq<u32>), MotionError>(
                        (motion.basis_ids@, motion.global_weights@),
                    )
                    &&& crate::basis_bank_motion::coefficients_aligned(
                        motion.basis_ids@,
                        motion.global_weights@,
                        motion.total_splats as int,
                        meta,
                    )
                },
                Err(error) => match failure {
                    Some(e) => error == SceneArchiveError::Motion { error: e },
                    None => {
                        &&& error == SceneArchiveError::IncludeLods {
                            found: meta.include_lods,
                            lod_count: scan.lod_count,
                        }
                        &&& !lods_in_order(meta.include_lods@, scan.lod_count as int)
                    },
                },
            }
        }),
{
    match crate::basis_bank_motion::load_basis_bank_motion_from_zip(
        archive,
        meta,
        graph,
        scan.basis_entries.as_slice(),
        scan.coeff_entries.as_slice(),
        scenes,
    ) {
        Ok(motion) => {
            if !are_lods_in_order(&motion.meta.include_lods, scan.lod_count) {
                return Err(
                    SceneArchiveError::IncludeLods {
                        found: motion.meta.include_lods,
                        lod_count: scan.lod_count,
                    },
                );
            }
            Ok(motion)
        },
        Err(error) => Err(SceneArchiveError::Motion { error }),
    }
}

/// Complete motion assets hold one coefficient file for every tile of every LoD, and no more.
pub proof fn complete_assets_cover_grid(scan: SceneZipScan, lod: int, tile: int) -> (at: int)
    requires
        motion_assets(scan) matches Ok(Some(_)),
        0 <= lod < scan.lod_count,
        0 <= tile < scan.tile_count,
    ensures
        scan.coeff_entries@.len() == scan.lod_count * scan.tile_count,
        0 <= at < scan.coeff_entries@.len(),
        scan.coeff_entries@[at].lod_id == lod,
        scan.coeff_entries@[at].tile_id == tile,
        forall|i: int|
            0 <= i < scan.coeff_entries@.len() && (#[trigger] scan.coeff_entries@[i]).lod_id == lod
                && scan.coeff_entries@[i].tile_id == tile ==> i == at,
{
    let entries = scan.coeff_entries@;
    let width = scan.tile_count as int;
    let total = scan.lod_count * scan.tile_count;
    let cells = Seq::new(entries.len(), |i: int| cell_of(entries[i], width));
    assert forall|i: int| 0 <= i < entries.len() implies 0 <= #[trigger] cells[i] < total by {
        no_coefficient_fault(entries, scan.lod_count as int, width, 0, i);
        cell_in_grid(entries[i].lod_id as int, entries[i].tile_id as int, scan.lod_count as int, width);
    }
    assert forall|i: int, j: int| 0 <= i < entries.len() && 0 <= j < entries.len() && i != j implies
        cells[i] != cells[j] by {
        no_coefficient_fault(entries, scan.lod_count as int, width, 0, i);
        no_coefficient_fault(entries, scan.lod_count as int, width, 0, j);
        if cells[i] == cells[j] {
            cell_tells_tile(entries[i], entries[j], width);
            if i < j {
                assert(crate::basis_bank_motion::same_tile(entries[i], entries[j]));
            } else {
                assert(crate::basis_bank_motion::same_tile(entries[j], entries[i]));
            }
        }
    }
    assert(cells.no_duplicates());
    cells.unique_seq_to_set();
    vstd::set_lib::lemma_int_range(0, total);
    let range = vstd::set_lib::set_int_range(0, total);
    assert(cells.to_set().subset_of(range));
    vstd::set_lib::lemma_subset_equality(cells.to_set(), range);
    cell_in_grid(lod, tile, scan.lod_count as int, width);
    let cell = lod * width + tile;
    assert(range.contains(cell));
    assert(cells.to_set().contains(cell));
    let at = choose|i: int| 0 <= i < cells.len() && cells[i] == cell;
    assert(0 <= at < cells.len() && cells[at] == cell);
    no_coefficient_fault(entries, scan.lod_count as int, width, 0, at);
    vstd::arithmetic::div_mod::lemma_fundamental_div_mod_converse(cell, width, lod, tile);
    vstd::arithmetic::div_mod::lemma_fundamental_div_mod_converse(
        cell,
        width,
        entries[at].lod_id as int,
        entries[at].tile_id as int,
    );
    assert forall|i: int|
        0 <= i < entries.len() && (#[trigger] entries[i]).lod_id == lod && entries[i].tile_id
            == tile implies i == at by {
        assert(cells[i] == cell);
    }
    at
}

/// The place of the tile of a coefficient file in the grid.
spec fn cell_of(entry: BasisBankCoeffZipEntry, tile_count: int) -> int {
    entry.lod_id * tile_count + entry.tile_id
}

proof fn cell_in_grid(lod: int, tile: int, lod_count: int, tile_count: int)
    requires
        0 <= lod < lod_count,
        0 <= tile < tile_count,
    ensures
        0 <= lod * tile_count + tile < lod_count * tile_count,
{
    assert(0 <= lod * tile_count + tile < lod_count * tile_count) by (nonlinear_arith)
        requires
            0 <= lod < lod_count,
            0 <= tile < tile_count,
    ;
}

proof fn cell_tells_tile(a: BasisBankCoeffZipEntry, b: BasisBankCoeffZipEntry, tile_count: int)
    requires
        a.tile_id < tile_count,
        b.tile_id < tile_count,
        cell_of(a, tile_count) == cell_of(b, tile_count),
    ensures
        a.lod_id == b.lod_id,
        a.tile_id == b.tile_id,
{
    let cell = cell_of(a, tile_count);
    vstd::arithmetic::div_mod::lemma_fundamental_div_mod_converse(
        cell,
        tile_count,
        a.lod_id as int,
        a.tile_id as int,
    );
    vstd::arithmetic::div_mod::lemma_fundamental_div_mod_converse(
        cell,
        tile_count,
        b.lod_id as int,
        b.tile_id as int,
    );
}

proof fn no_coefficient_fault(
    entries: Seq<BasisBankCoeffZipEntry>,
    lod_count: int,
    tile_count: int,
    from: nat,
    i: int,
)
    requires
        coefficient_fault(entries, lod_count, tile_count, from) is None,
        from <= i < entries.len(),
    ensures
        entries[i].lod_id < lod_count,
        entries[i].tile_id < tile_count,
        !crate::basis_bank_motion::repeats_tile(entries, i),
    decreases i - from,
{
    if from < i {
        no_coefficient_fault(entries, lod_count, tile_count, from + 1, i);
    }
}

/// An archive without motion assets is a static scene: only tiles count.
pub proof fn static_archive_has_no_motion_assets(scan: SceneZipScan)
    requires
        motion_assets(scan) matches Ok(None),
    ensures
        scan.meta is None,
        scan.graph is None,
        scan.deformation_weights is None,
        scan.basis_entries@.len() == 0,
        scan.coeff_entries@.len() == 0,
{
}

/// Archives that are packed in part are refused: motion assets of any kind without metadata, and
/// metadata without exactly one bank of bases, that of LoD 0.
pub proof fn partial_archives_are_refused(scan: SceneZipScan)
    ensures
        scan.meta is None && (scan.graph is Some || scan.deformation_weights is Some
            || scan.basis_entries@.len() > 0 || scan.coeff_entries@.len() > 0)
            ==> motion_assets(scan) is Err,
        scan.meta is Some && (scan.basis_entries@.len() != 1 || scan.basis_entries@[0].lod_id != 0)
            ==> motion_assets(scan) is Err,
        scan.meta is Some && scan.coeff_entries@.len() != scan.lod_count * scan.tile_count
            ==> motion_assets(scan) is Err,
{
}

/// An archive that holds a file of dense motion is refused, whatever else it holds.
pub proof fn dense_motion_is_refused(names: Seq<EntryName>, i: int)
    requires
        0 <= i < names.len(),
        names[i] matches EntryName::Name { name } && kind_of(crate::text::lowered(name@))
            == EntryKind::LegacyMotion,
    ensures
        scan_error(names) is Some,
{
    dense_motion_stays(names, i, names.len());
}

proof fn dense_motion_stays(names: Seq<EntryName>, i: int, n: nat)
    requires
        0 <= i < n,
        names[i] matches EntryName::Name { name } && kind_of(crate::text::lowered(name@))
            == EntryKind::LegacyMotion,
    ensures
        scan_of(names, n) matches Ok(state) ==> state.legacy_motion,
    decreases n,
{
    if i < n - 1 {
        dense_motion_stays(names, i, (n - 1) as nat);
    }
}

} // verus!
