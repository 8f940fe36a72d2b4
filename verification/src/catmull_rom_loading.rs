//! Dense Catmull-Rom motion of a whole scene, in the order of its splats.

use crate::catmull_rom_files::{
    parse_catmull_rom_meta_pt, parse_catmull_rom_tile_pt, CatmullRomError, CatmullRomFault,
    CatmullRomMotionMeta, CatmullRomTileMotion,
};
use crate::catmull_rom_motion::CATMULL_ROM_META_FILENAME;
use crate::scene::Scene;
use crate::text::decimal;
use crate::zip_file::{read_zip_entry, EntryError};
use vstd::prelude::*;

verus! {

/// An archive entry with the motion of a tile.
#[derive(Debug, Clone)]
pub struct CatmullRomMotionZipEntry {
    pub index: usize,
    pub filename: String,
    pub tile_id: usize,
    pub lod_id: usize,
}

/// The motion of a scene, `((splat * knot_count + knot) * 3 + axis)`.
#[derive(Debug)]
pub struct CatmullRomMotionSet {
    pub meta: CatmullRomMotionMeta,
    pub total_splats: usize,
    pub global_knots: Vec<u32>,
}

/// Why knots cannot be put in the order of a scene.
#[derive(Debug, Clone, Copy, PartialEq, Eq, Structural)]
pub enum ReorderError {
    RowCount { rows: usize, splats: usize },
    Row { row: usize, splats: usize },
}

impl ReorderError {
    pub open spec fn text(self) -> Seq<char> {
        match self {
            ReorderError::RowCount { rows, splats } => "source-row permutation length "@
                + crate::text::decimal_text(rows as nat) + " != motion splat count "@
                + crate::text::decimal_text(splats as nat),
            ReorderError::Row { row, splats } =>
                "source-row permutation contains out-of-range row "@ + crate::text::decimal_text(
                row as nat,
            ) + " for "@ + crate::text::decimal_text(splats as nat) + " splats"@,
        }
    }

    /// The error in words.
    pub fn message(&self) -> (r: String)
        ensures
            r@ == self.text(),
    {
        match self {
            ReorderError::RowCount { rows, splats } => {
                let mut s: String = "source-row permutation length ".to_owned();
                s.append(decimal(*rows as u64).as_str());
                s.append(" != motion splat count ");
                s.append(decimal(*splats as u64).as_str());
                s
            },
            ReorderError::Row { row, splats } => {
                let mut s: String =
                    "source-row permutation contains out-of-range row ".to_owned();
                s.append(decimal(*row as u64).as_str());
                s.append(" for ");
                s.append(decimal(*splats as u64).as_str());
                s.append(" splats");
                s
            },
        }
    }
}

/// The first `n` knots of a splat.
pub open spec fn knot_run(knots: Seq<u32>, splats: int, splat: int, n: nat) -> Seq<u32>
    decreases n,
{
    if n == 0 {
        Seq::empty()
    } else {
        let at = ((n - 1) * splats + splat) * 3;
        knot_run(knots, splats, splat, (n - 1) as nat) + seq![
            knots[at],
            knots[at + 1],
            knots[at + 2],
        ]
    }
}

/// The knots of the splats that the first `n` rows name.
pub open spec fn reordered(
    knots: Seq<u32>,
    splats: int,
    knot_count: nat,
    rows: Seq<u32>,
    n: nat,
) -> Seq<u32>
    decreases n,
{
    if n == 0 {
        Seq::empty()
    } else {
        reordered(knots, splats, knot_count, rows, (n - 1) as nat) + knot_run(
            knots,
            splats,
            rows[n - 1] as int,
            knot_count,
        )
    }
}

/// The first row from `from` on that names no splat.
pub open spec fn first_bad_row(rows: Seq<u32>, splats: int, from: nat) -> Option<int>
    decreases rows.len() - from,
{
    if from >= rows.len() {
        None
    } else if rows[from as int] >= splats {
        Some(from as int)
    } else {
        first_bad_row(rows, splats, from + 1)
    }
}

/// Why rows cannot order the knots of a tile.
pub open spec fn reorder_fault(rows: Seq<u32>, splats: usize) -> Option<ReorderError> {
    if rows.len() != splats {
        Some(ReorderError::RowCount { rows: rows.len() as usize, splats })
    } else {
        match first_bad_row(rows, splats as int, 0) {
            Some(i) => Some(ReorderError::Row { row: rows[i] as usize, splats }),
            None => None,
        }
    }
}

/// Rows that are copied before a fault stops the copy.
pub open spec fn rows_copied(rows: Seq<u32>, splats: usize) -> int {
    if rows.len() != splats {
        0
    } else {
        match first_bad_row(rows, splats as int, 0) {
            Some(i) => i,
            None => rows.len() as int,
        }
    }
}

proof fn knot_is_there(knots: int, splats: int, splat: int, knot: int, knot_count: int)
    requires
        0 <= splat < splats,
        0 <= knot < knot_count,
        knots >= knot_count * splats * 3,
    ensures
        0 <= (knot * splats + splat) * 3,
        (knot * splats + splat) * 3 + 3 <= knots,
        0 <= knot * splats <= knots,
{
    assert((knot * splats + splat + 1) <= knot_count * splats && 0 <= knot * splats)
        by (nonlinear_arith)
        requires
            0 <= splat < splats,
            0 <= knot < knot_count,
    ;
}

/// Appends the knots of a tile, splat by splat in the order of the rows of a scene.
pub fn append_tile_knots_splat_major(
    out: &mut Vec<u32>,
    motion: &CatmullRomTileMotion,
    knot_count: usize,
    rows: &[u32],
) -> (r: Result<(), ReorderError>)
    requires
        motion.knots@.len() >= knot_count * motion.splat_count * 3,
    ensures
        match r {
            Ok(_) => reorder_fault(rows@, motion.splat_count) is None,
            Err(error) => reorder_fault(rows@, motion.splat_count) == Some(error),
        },
        final(out)@ == old(out)@ + reordered(
            motion.knots@,
            motion.splat_count as int,
            knot_count as nat,
            rows@,
            rows_copied(rows@, motion.splat_count) as nat,
        ),
{
    let ghost start = out@;
    let ghost knots = motion.knots@;
    let total: usize = motion.knots.len();
    let splats: usize = motion.splat_count;
    if rows.len() != splats {
        assert(start + Seq::<u32>::empty() =~= start);
        return Err(ReorderError::RowCount { rows: rows.len(), splats });
    }
    assert(start + Seq::<u32>::empty() =~= start);
    for i in 0..splats
        invariant
            start == old(out)@,
            splats == motion.splat_count,
            knots == motion.knots@,
            total == knots.len(),
            rows@.len() == splats,
            knots.len() >= knot_count * splats * 3,
            first_bad_row(rows@, splats as int, 0) == first_bad_row(
                rows@,
                splats as int,
                i as nat,
            ),
            out@ == start + reordered(knots, splats as int, knot_count as nat, rows@, i as nat),
    {
        let source: usize = rows[i] as usize;
        if source >= splats {
            return Err(ReorderError::Row { row: source, splats });
        }
        let ghost before = out@;
        assert(before + Seq::<u32>::empty() =~= before);
        for k in 0..knot_count
            invariant
                splats == motion.splat_count,
                knots == motion.knots@,
                total == knots.len(),
                source < splats,
                knots.len() >= knot_count * splats * 3,
                out@ == before + knot_run(knots, splats as int, source as int, k as nat),
        {
            proof {
                knot_is_there(
                    total as int,
                    splats as int,
                    source as int,
                    k as int,
                    knot_count as int,
                );
            }
            let at: usize = (k * splats + source) * 3;
            let ghost so_far = out@;
            out.push(motion.knots[at]);
            out.push(motion.knots[at + 1]);
            out.push(motion.knots[at + 2]);
            assert(out@ =~= before + knot_run(
                knots,
                splats as int,
                source as int,
                (k + 1) as nat,
            ));
        }
        assert(out@ =~= start + reordered(
            knots,
            splats as int,
            knot_count as nat,
            rows@,
            (i + 1) as nat,
        ));
    }
    Ok(())
}

proof fn knot_run_len(knots: Seq<u32>, splats: int, splat: int, n: nat)
    ensures
        knot_run(knots, splats, splat, n).len() == 3 * n,
    decreases n,
{
    if n > 0 {
        knot_run_len(knots, splats, splat, (n - 1) as nat);
    }
}

proof fn knot_run_value(knots: Seq<u32>, splats: int, splat: int, n: nat, knot: int, axis: int)
    requires
        0 <= knot < n,
        0 <= axis < 3,
    ensures
        knot_run(knots, splats, splat, n)[3 * knot + axis] == knots[(knot * splats + splat) * 3
            + axis],
    decreases n,
{
    knot_run_len(knots, splats, splat, (n - 1) as nat);
    if knot < n - 1 {
        knot_run_value(knots, splats, splat, (n - 1) as nat, knot, axis);
    }
}

proof fn reordered_len(knots: Seq<u32>, splats: int, knot_count: nat, rows: Seq<u32>, n: nat)
    ensures
        reordered(knots, splats, knot_count, rows, n).len() == n * knot_count * 3,
    decreases n,
{
    if n > 0 {
        reordered_len(knots, splats, knot_count, rows, (n - 1) as nat);
        knot_run_len(knots, splats, rows[n - 1] as int, knot_count);
        assert(n * knot_count * 3 == (n - 1) * knot_count * 3 + 3 * knot_count) by (nonlinear_arith)
            requires
                n > 0,
        ;
    } else {
        assert(0 * knot_count * 3 == 0);
    }
}

/// Knot `knot` of the splat at place `i` is that knot of the splat that row `i` names.
pub proof fn reordered_knots_follow_rows(
    knots: Seq<u32>,
    splats: int,
    knot_count: nat,
    rows: Seq<u32>,
    n: nat,
    i: int,
    knot: int,
    axis: int,
)
    requires
        0 <= i < n,
        0 <= knot < knot_count,
        0 <= axis < 3,
    ensures
        reordered(knots, splats, knot_count, rows, n).len() == n * knot_count * 3,
        reordered(knots, splats, knot_count, rows, n)[(i * knot_count + knot) * 3 + axis]
            == knots[(knot * splats + rows[i]) * 3 + axis],
    decreases n,
{
    reordered_len(knots, splats, knot_count, rows, n);
    reordered_len(knots, splats, knot_count, rows, (n - 1) as nat);
    knot_run_len(knots, splats, rows[n - 1] as int, knot_count);
    let front = reordered(knots, splats, knot_count, rows, (n - 1) as nat);
    if i < n - 1 {
        reordered_knots_follow_rows(
            knots,
            splats,
            knot_count,
            rows,
            (n - 1) as nat,
            i,
            knot,
            axis,
        );
        assert((i * knot_count + knot) * 3 + axis < (n - 1) * knot_count * 3) by (nonlinear_arith)
            requires
                i < n - 1,
                0 <= knot < knot_count,
                0 <= axis < 3,
        ;
        assert(0 <= (i * knot_count + knot) * 3 + axis) by (nonlinear_arith)
            requires
                0 <= i,
                0 <= knot,
                0 <= axis,
        ;
    } else {
        knot_run_value(knots, splats, rows[i] as int, knot_count, knot, axis);
        assert((i * knot_count + knot) * 3 + axis == (n - 1) * knot_count * 3 + (3 * knot + axis))
            by (nonlinear_arith)
            requires
                i == n - 1,
        ;
    }
}

/// The last entry for a tile.
pub open spec fn last_entry(
    entries: Seq<CatmullRomMotionZipEntry>,
    n: nat,
    lod: int,
    tile: int,
) -> Option<int>
    decreases n,
{
    if n == 0 {
        None
    } else if entries[n - 1].lod_id == lod && entries[n - 1].tile_id == tile {
        Some(n - 1)
    } else {
        last_entry(entries, (n - 1) as nat, lod, tile)
    }
}

fn find_last_entry(
    entries: &[CatmullRomMotionZipEntry],
    lod: usize,
    tile: usize,
) -> (r: Option<usize>)
    ensures
        match r {
            Some(i) => i < entries@.len() && last_entry(
                entries@,
                entries@.len(),
                lod as int,
                tile as int,
            ) == Some(i as int),
            None => last_entry(entries@, entries@.len(), lod as int, tile as int) is None,
        },
{
    let mut n: usize = entries.len();
    while n > 0
        invariant
            n <= entries@.len(),
            last_entry(entries@, entries@.len(), lod as int, tile as int) == last_entry(
                entries@,
                n as nat,
                lod as int,
                tile as int,
            ),
        decreases n,
    {
        if entries[n - 1].lod_id == lod && entries[n - 1].tile_id == tile {
            return Some(n - 1);
        }
        n = n - 1;
    }
    None
}

/// Why the motion of a scene cannot be loaded.
#[derive(Debug, Clone)]
pub enum CatmullRomLoadError {
    MetaEntry { error: EntryError },
    /// The metadata, which is entry `index`, is refused.
    Meta { index: usize, error: CatmullRomError },
    TileEntry { filename: String, error: EntryError },
    /// A tile, which is entry `index`, is refused.
    Tile { index: usize, filename: String, error: CatmullRomError },
}

/// The contents of an error.
pub enum CatmullRomLoadFault {
    MetaEntry { error: EntryError },
    Meta { index: usize, error: CatmullRomFault },
    TileEntry { filename: Seq<char>, error: EntryError },
    Tile { index: usize, filename: Seq<char>, error: CatmullRomFault },
}

/// What an entry holds, as far as it can be read.
pub open spec fn entry_contents(archive: Seq<u8>, index: usize) -> Seq<u8> {
    match crate::zip_file::whole_entry(archive, index) {
        Ok(bytes) => bytes,
        Err(_) => Seq::empty(),
    }
}

fn contents_of(archive: &[u8], index: usize) -> (r: Vec<u8>)
    ensures
        r@ == entry_contents(archive@, index),
{
    match read_zip_entry(archive, index) {
        Ok(bytes) => bytes,
        Err(_) => Vec::new(),
    }
}

/// What fails with an entry, and why.
pub open spec fn entry_text(label: Seq<char>, error: EntryError, archive: Seq<u8>) -> Seq<char> {
    error.text(
        "failed to open zip entry "@ + label + ": "@,
        "failed to read zip entry "@ + label + ": "@,
        ""@,
        archive,
    )
}

fn entry_message(label: &str, error: &EntryError, archive: &[u8]) -> (r: String)
    ensures
        r@ == entry_text(label@, *error, archive@),
{
    let mut opening: String = "failed to open zip entry ".to_owned();
    opening.append(label);
    opening.append(": ");
    let mut reading: String = "failed to read zip entry ".to_owned();
    reading.append(label);
    reading.append(": ");
    error.message(opening.as_str(), reading.as_str(), "", archive)
}

impl CatmullRomLoadError {
    pub open spec fn model(self) -> CatmullRomLoadFault {
        match self {
            CatmullRomLoadError::MetaEntry { error } => CatmullRomLoadFault::MetaEntry { error },
            CatmullRomLoadError::Meta { index, error } => CatmullRomLoadFault::Meta {
                index,
                error: error.model(),
            },
            CatmullRomLoadError::TileEntry { filename, error } => CatmullRomLoadFault::TileEntry {
                filename: filename@,
                error,
            },
            CatmullRomLoadError::Tile { index, filename, error } => CatmullRomLoadFault::Tile {
                index,
                filename: filename@,
                error: error.model(),
            },
        }
    }

    pub open spec fn text(self, archive: Seq<u8>) -> Seq<char> {
        match self {
            CatmullRomLoadError::MetaEntry { error } => {
                entry_text(CATMULL_ROM_META_FILENAME@, error, archive)
            },
            CatmullRomLoadError::Meta { index, error } => {
                "failed to parse Catmull-Rom meta: "@ + error.text(entry_contents(archive, index))
            },
            CatmullRomLoadError::TileEntry { filename, error } => {
                entry_text(filename@, error, archive)
            },
            CatmullRomLoadError::Tile { index, filename, error } => {
                "failed to parse "@ + filename@ + ": "@ + error.text(
                    entry_contents(archive, index),
                )
            },
        }
    }

    /// The error in words; the archive is the one that the error came from.
    pub fn message(&self, archive: &[u8]) -> (r: String)
        ensures
            r@ == self.text(archive@),
    {
        match self {
            CatmullRomLoadError::MetaEntry { error } => {
                entry_message(CATMULL_ROM_META_FILENAME, error, archive)
            },
            CatmullRomLoadError::Meta { index, error } => {
                let mut s: String = "failed to parse Catmull-Rom meta: ".to_owned();
                s.append(error.message(contents_of(archive, *index).as_slice()).as_str());
                s
            },
            CatmullRomLoadError::TileEntry { filename, error } => {
                entry_message(filename.as_str(), error, archive)
            },
            CatmullRomLoadError::Tile { index, filename, error } => {
                let mut s: String = "failed to parse ".to_owned();
                s.append(filename.as_str());
                s.append(": ");
                s.append(error.message(contents_of(archive, *index).as_slice()).as_str());
                s
            },
        }
    }
}

/// The knots that the file of a tile adds: nothing can be played if the file is for another tile,
/// has another number of splats, or the rows of the scene do not order it.
pub open spec fn file_knots(
    bytes: Seq<u8>,
    index: usize,
    filename: Seq<char>,
    knot_count: usize,
    lod: usize,
    tile: usize,
    scene: Scene,
) -> Result<Option<Seq<u32>>, CatmullRomLoadFault> {
    match crate::catmull_rom_files::tile_of_file(bytes, knot_count) {
        Err(error) => Err(CatmullRomLoadFault::Tile { index, filename, error }),
        Ok((found_tile, found_lod, splats, knots)) => if found_tile != tile || found_lod != lod
            || splats != scene.splat_count || reorder_fault(
            scene.source_row_indices@,
            scene.splat_count,
        ) is Some {
            Ok(None)
        } else {
            Ok(
                Some(
                    reordered(
                        knots,
                        splats,
                        knot_count as nat,
                        scene.source_row_indices@,
                        scene.splat_count as nat,
                    ),
                ),
            )
        },
    }
}

/// The knots that a tile adds: none that move, where its LoD has no motion.
pub open spec fn tile_knots(
    archive: Seq<u8>,
    knot_count: usize,
    included: Seq<usize>,
    entries: Seq<CatmullRomMotionZipEntry>,
    lod: usize,
    tile: usize,
    scene: Scene,
) -> Result<Option<Seq<u32>>, CatmullRomLoadFault> {
    if !included.contains(lod) {
        Ok(Some(zeros(scene.splat_count * knot_count * 3)))
    } else {
        match last_entry(entries, entries.len(), lod as int, tile as int) {
            None => Ok(None),
            Some(i) => match crate::zip_file::whole_entry(archive, entries[i].index) {
                Err(error) => Err(
                    CatmullRomLoadFault::TileEntry { filename: entries[i].filename@, error },
                ),
                Ok(bytes) => file_knots(
                    bytes,
                    entries[i].index,
                    entries[i].filename@,
                    knot_count,
                    lod,
                    tile,
                    scene,
                ),
            },
        }
    }
}

pub open spec fn zeros(n: int) -> Seq<u32> {
    Seq::new(n as nat, |i: int| crate::float_bits::ZERO)
}

/// The knots of all tiles before tile `tile` of LoD `lod`; the first tile that cannot be played, or
/// that fails, decides for all.
pub open spec fn knots_before(
    archive: Seq<u8>,
    knot_count: usize,
    included: Seq<usize>,
    entries: Seq<CatmullRomMotionZipEntry>,
    scenes: Seq<Vec<Scene>>,
    lod: nat,
    tile: nat,
) -> Result<Option<Seq<u32>>, CatmullRomLoadFault>
    decreases lod, tile,
{
    if tile > 0 {
        match knots_before(
            archive,
            knot_count,
            included,
            entries,
            scenes,
            lod,
            (tile - 1) as nat,
        ) {
            Ok(Some(front)) => match tile_knots(
                archive,
                knot_count,
                included,
                entries,
                lod as usize,
                (tile - 1) as usize,
                scenes[lod as int]@[tile - 1],
            ) {
                Ok(Some(more)) => Ok(Some(front + more)),
                other => other,
            },
            other => other,
        }
    } else if lod > 0 {
        knots_before(
            archive,
            knot_count,
            included,
            entries,
            scenes,
            (lod - 1) as nat,
            scenes[lod - 1]@.len(),
        )
    } else {
        Ok(Some(Seq::empty()))
    }
}

/// There are knots.
pub open spec fn playable(r: Result<Option<Seq<u32>>, CatmullRomLoadFault>) -> bool {
    r matches Ok(Some(_))
}

proof fn stop_spreads_over_tiles(
    archive: Seq<u8>,
    knot_count: usize,
    included: Seq<usize>,
    entries: Seq<CatmullRomMotionZipEntry>,
    scenes: Seq<Vec<Scene>>,
    lod: nat,
    tile: nat,
    to: nat,
)
    requires
        tile <= to,
        !playable(knots_before(archive, knot_count, included, entries, scenes, lod, tile)),
    ensures
        knots_before(archive, knot_count, included, entries, scenes, lod, to) == knots_before(
            archive,
            knot_count,
            included,
            entries,
            scenes,
            lod,
            tile,
        ),
    decreases to,
{
    if tile < to {
        stop_spreads_over_tiles(
            archive,
            knot_count,
            included,
            entries,
            scenes,
            lod,
            tile,
            (to - 1) as nat,
        );
    }
}

proof fn stop_spreads_over_lods(
    archive: Seq<u8>,
    knot_count: usize,
    included: Seq<usize>,
    entries: Seq<CatmullRomMotionZipEntry>,
    scenes: Seq<Vec<Scene>>,
    lod: nat,
    tile: nat,
)
    requires
        lod < scenes.len(),
        tile <= scenes[lod as int]@.len(),
        !playable(knots_before(archive, knot_count, included, entries, scenes, lod, tile)),
    ensures
        knots_before(archive, knot_count, included, entries, scenes, scenes.len(), 0)
            == knots_before(archive, knot_count, included, entries, scenes, lod, tile),
    decreases scenes.len() - lod,
{
    stop_spreads_over_tiles(
        archive,
        knot_count,
        included,
        entries,
        scenes,
        lod,
        tile,
        scenes[lod as int]@.len(),
    );
    if lod + 1 < scenes.len() {
        stop_spreads_over_lods(
            archive,
            knot_count,
            included,
            entries,
            scenes,
            (lod + 1) as nat,
            0,
        );
    }
}

fn contains(lods: &Vec<usize>, lod: usize) -> (r: bool)
    ensures
        r == lods@.contains(lod),
{
    for i in 0..lods.len()
        invariant
            forall|k: int| 0 <= k < i ==> lods@[k] != lod,
    {
        if lods[i] == lod {
            assert(lods@[i as int] == lod);
            return true;
        }
    }
    false
}

/// Appends the knots of a file, in the order of the splats of its tile. Nothing is promised of what
/// was appended where the result is not `true`.
pub fn append_file_knots(
    out: &mut Vec<u32>,
    bytes: &[u8],
    index: usize,
    filename: &String,
    knot_count: usize,
    lod: usize,
    tile: usize,
    scene: &Scene,
) -> (r: Result<bool, CatmullRomLoadError>)
    ensures
        ({
            let expected = file_knots(bytes@, index, filename@, knot_count, lod, tile, *scene);
            match r {
                Ok(true) => expected matches Ok(Some(more)) && final(out)@ == old(out)@ + more,
                Ok(false) => {
                    &&& expected == Ok::<Option<Seq<u32>>, CatmullRomLoadFault>(None)
                    &&& old(out)@.is_prefix_of(final(out)@)
                },
                Err(error) => {
                    &&& expected == Err::<Option<Seq<u32>>, CatmullRomLoadFault>(error.model())
                    &&& final(out)@ == old(out)@
                },
            }
        }),
{
    let motion: CatmullRomTileMotion = match parse_catmull_rom_tile_pt(bytes, knot_count) {
        Ok(motion) => motion,
        Err(error) => {
            return Err(CatmullRomLoadError::Tile { index, filename: filename.clone(), error });
        },
    };
    if motion.tile_index != tile || motion.lod_index != lod {
        return Ok(false);
    }
    if motion.splat_count != scene.splat_count {
        return Ok(false);
    }
    match append_tile_knots_splat_major(
        out,
        &motion,
        knot_count,
        scene.source_row_indices.as_slice(),
    ) {
        Ok(_) => Ok(true),
        Err(_) => Ok(false),
    }
}

fn append_zeros(out: &mut Vec<u32>, splats: usize, knot_count: usize)
    ensures
        final(out)@ == old(out)@ + zeros(splats * knot_count * 3),
{
    let ghost start = out@;
    proof {
        assert(0 * knot_count * 3 == 0);
        assert(start + zeros(0) =~= start);
    }
    for i in 0..splats
        invariant
            out@ == start + zeros(i * knot_count * 3),
    {
        let ghost before = out@;
        assert(before + zeros(0) =~= before);
        for k in 0..knot_count
            invariant
                out@ == before + zeros(3 * k),
        {
            out.push(crate::float_bits::ZERO);
            out.push(crate::float_bits::ZERO);
            out.push(crate::float_bits::ZERO);
            assert(out@ =~= before + zeros(3 * (k + 1)));
        }
        proof {
            assert((i + 1) * knot_count * 3 == i * knot_count * 3 + 3 * knot_count)
                by (nonlinear_arith);
            assert(0 <= i * knot_count * 3) by (nonlinear_arith);
            assert(out@ =~= start + zeros((i + 1) * knot_count * 3));
        }
    }
}

/// Appends the knots of a tile. Nothing is promised of what was appended where the result is not
/// `true`.
fn append_tile(
    out: &mut Vec<u32>,
    archive: &[u8],
    meta: &CatmullRomMotionMeta,
    entries: &[CatmullRomMotionZipEntry],
    lod: usize,
    tile: usize,
    scene: &Scene,
) -> (r: Result<bool, CatmullRomLoadError>)
    ensures
        ({
            let expected = tile_knots(
                archive@,
                meta.knot_count,
                meta.include_lods@,
                entries@,
                lod,
                tile,
                *scene,
            );
            match r {
                Ok(true) => expected matches Ok(Some(more)) && final(out)@ == old(out)@ + more,
                Ok(false) => expected == Ok::<Option<Seq<u32>>, CatmullRomLoadFault>(None),
                Err(error) => expected == Err::<Option<Seq<u32>>, CatmullRomLoadFault>(
                    error.model(),
                ),
            }
        }),
{
    if !contains(&meta.include_lods, lod) {
        append_zeros(out, scene.splat_count, meta.knot_count);
        return Ok(true);
    }
    let entry: &CatmullRomMotionZipEntry = match find_last_entry(entries, lod, tile) {
        Some(i) => &entries[i],
        None => {
            return Ok(false);
        },
    };
    match read_zip_entry(archive, entry.index) {
        Ok(bytes) => append_file_knots(
            out,
            bytes.as_slice(),
            entry.index,
            &entry.filename,
            meta.knot_count,
            lod,
            tile,
            scene,
        ),
        Err(error) => Err(
            CatmullRomLoadError::TileEntry { filename: entry.filename.clone(), error },
        ),
    }
}

/// Loads the motion of a scene from its archive; nothing if a tile has no motion that fits it.
pub fn load_catmull_rom_motion_from_zip(
    archive: &[u8],
    meta_index: usize,
    entries: &[CatmullRomMotionZipEntry],
    scenes: &Vec<Vec<Scene>>,
) -> (r: Result<Option<CatmullRomMotionSet>, CatmullRomLoadError>)
    requires
        crate::basis_bank_motion::grid_splats(scenes@) <= usize::MAX,
    ensures
        ({
            let data = crate::zip_file::whole_entry(archive@, meta_index);
            match r {
                Ok(Some(motion)) => {
                    &&& data matches Ok(bytes) && crate::catmull_rom_files::is_file_meta(
                        motion.meta,
                        bytes,
                    )
                    &&& motion.total_splats == crate::basis_bank_motion::grid_splats(scenes@)
                    &&& knots_before(
                        archive@,
                        motion.meta.knot_count,
                        motion.meta.include_lods@,
                        entries@,
                        scenes@,
                        scenes@.len(),
                        0,
                    ) == Ok::<Option<Seq<u32>>, CatmullRomLoadFault>(Some(motion.global_knots@))
                },
                Ok(None) => data is Ok && exists|meta: CatmullRomMotionMeta|
                    {
                        &&& #[trigger] crate::catmull_rom_files::is_file_meta(meta, data->Ok_0)
                        &&& knots_before(
                            archive@,
                            meta.knot_count,
                            meta.include_lods@,
                            entries@,
                            scenes@,
                            scenes@.len(),
                            0,
                        ) == Ok::<Option<Seq<u32>>, CatmullRomLoadFault>(None)
                    },
                Err(error) => match data {
                    Err(e) => error.model() == (CatmullRomLoadFault::MetaEntry { error: e }),
                    Ok(bytes) => match crate::catmull_rom_files::meta_file_fault(bytes) {
                        Some(fault) => error.model() == (CatmullRomLoadFault::Meta {
                            index: meta_index,
                            error: fault,
                        }),
                        None => exists|meta: CatmullRomMotionMeta|
                            {
                                &&& #[trigger] crate::catmull_rom_files::is_file_meta(meta, bytes)
                                &&& knots_before(
                                    archive@,
                                    meta.knot_count,
                                    meta.include_lods@,
                                    entries@,
                                    scenes@,
                                    scenes@.len(),
                                    0,
                                ) == Err::<Option<Seq<u32>>, CatmullRomLoadFault>(error.model())
                            },
                    },
                },
            }
        }),
{
    let meta_bytes: Vec<u8> = match read_zip_entry(archive, meta_index) {
        Ok(bytes) => bytes,
        Err(error) => {
            return Err(CatmullRomLoadError::MetaEntry { error });
        },
    };
    let meta: CatmullRomMotionMeta = match parse_catmull_rom_meta_pt(meta_bytes.as_slice()) {
        Ok(meta) => meta,
        Err(error) => {
            return Err(CatmullRomLoadError::Meta { index: meta_index, error });
        },
    };
    assert(crate::catmull_rom_files::is_file_meta(meta, meta_bytes@));
    let mut total_splats: usize = 0;
    let mut global_knots: Vec<u32> = Vec::new();
    let mut lod: usize = 0;
    while lod < scenes.len()
        invariant
            lod <= scenes@.len(),
            crate::basis_bank_motion::grid_splats(scenes@) <= usize::MAX,
            crate::zip_file::whole_entry(archive@, meta_index) == Ok::<Seq<u8>, EntryError>(meta_bytes@),
            crate::catmull_rom_files::meta_file_fault(meta_bytes@) is None,
            crate::catmull_rom_files::is_file_meta(meta, meta_bytes@),
            total_splats == crate::basis_bank_motion::splats_before(scenes@, lod as nat, 0),
            knots_before(
                archive@,
                meta.knot_count,
                meta.include_lods@,
                entries@,
                scenes@,
                lod as nat,
                0,
            ) == Ok::<Option<Seq<u32>>, CatmullRomLoadFault>(Some(global_knots@)),
        decreases scenes@.len() - lod,
    {
        let tiles: &Vec<Scene> = &scenes[lod];
        let mut tile: usize = 0;
        while tile < tiles.len()
            invariant
                lod < scenes@.len(),
                *tiles == scenes@[lod as int],
                tile <= tiles@.len(),
                crate::basis_bank_motion::grid_splats(scenes@) <= usize::MAX,
                crate::zip_file::whole_entry(archive@, meta_index) == Ok::<Seq<u8>, EntryError>(meta_bytes@),
                crate::catmull_rom_files::meta_file_fault(meta_bytes@) is None,
                crate::catmull_rom_files::is_file_meta(meta, meta_bytes@),
                total_splats == crate::basis_bank_motion::splats_before(
                    scenes@,
                    lod as nat,
                    tile as nat,
                ),
                knots_before(
                    archive@,
                    meta.knot_count,
                    meta.include_lods@,
                    entries@,
                    scenes@,
                    lod as nat,
                    tile as nat,
                ) == Ok::<Option<Seq<u32>>, CatmullRomLoadFault>(Some(global_knots@)),
            decreases tiles@.len() - tile,
        {
            let scene: &Scene = &tiles[tile];
            proof {
                crate::basis_bank_motion::splats_before_grows(
                    scenes@,
                    lod as nat,
                    (tile + 1) as nat,
                );
            }
            total_splats = total_splats + scene.splat_count;
            let outcome: Result<bool, CatmullRomLoadError> = append_tile(
                &mut global_knots,
                archive,
                &meta,
                entries,
                lod,
                tile,
                scene,
            );
            match outcome {
                Ok(true) => {},
                Ok(false) => {
                    proof {
                        stop_spreads_over_lods(
                            archive@,
                            meta.knot_count,
                            meta.include_lods@,
                            entries@,
                            scenes@,
                            lod as nat,
                            (tile + 1) as nat,
                        );
                    }
                    return Ok(None);
                },
                Err(error) => {
                    proof {
                        stop_spreads_over_lods(
                            archive@,
                            meta.knot_count,
                            meta.include_lods@,
                            entries@,
                            scenes@,
                            lod as nat,
                            (tile + 1) as nat,
                        );
                    }
                    return Err(error);
                },
            }
            tile = tile + 1;
        }
        lod = lod + 1;
    }
    Ok(Some(CatmullRomMotionSet { meta, total_splats, global_knots }))
}

} // verus!
