//! The files of dense Catmull-Rom motion: metadata, one file for each tile, and the motion of a
//! whole scene put together from them.

use crate::catmull_rom_motion::{
    CatmullRomMotionTeacher, CatmullRomTimeSampling, CATMULL_ROM_FORMAT,
};
use crate::pickle::{ParsedPt, PickleNumber};
use crate::text::{decimal, same_text};
use crate::torch_archive::PtError;
use vstd::prelude::*;
use vstd::string::*;

verus! {

/// Fields that a file must have.
#[derive(Debug, Clone, Copy, PartialEq, Eq, Structural)]
pub enum RequiredField {
    KnotCount,
    IncludeLods,
    TileIndex,
    LodIndex,
}

/// Why a motion file is refused.
#[derive(Debug, Clone)]
pub enum CatmullRomError {
    Container { error: PtError },
    Format,
    Version,
    DeltaField,
    Periodic,
    Missing { field: RequiredField },
    SampleTimes { found: usize, expected: usize },
    TileSampleTimes { found: usize, expected: usize },
    TimeSampling { value: String },
    Teacher { value: String },
    KnotOverflow,
    NoKnots,
    KnotValues { found: usize, per_splat: usize },
}

/// The contents of an error.
pub enum CatmullRomFault {
    Container { error: PtError },
    Format,
    Version,
    DeltaField,
    Periodic,
    Missing { field: RequiredField },
    SampleTimes { found: int, expected: int },
    TileSampleTimes { found: int, expected: int },
    TimeSampling { value: Seq<char> },
    Teacher { value: Seq<char> },
    KnotOverflow,
    NoKnots,
    KnotValues { found: int, per_splat: int },
}

impl RequiredField {
    pub open spec fn text(self) -> Seq<char> {
        match self {
            RequiredField::KnotCount => "knot_count"@,
            RequiredField::IncludeLods => "include_lods"@,
            RequiredField::TileIndex => "tile_index"@,
            RequiredField::LodIndex => "lod_index"@,
        }
    }

    pub fn as_str(self) -> (r: &'static str)
        ensures
            r@ == self.text(),
    {
        match self {
            RequiredField::KnotCount => "knot_count",
            RequiredField::IncludeLods => "include_lods",
            RequiredField::TileIndex => "tile_index",
            RequiredField::LodIndex => "lod_index",
        }
    }
}

impl CatmullRomError {
    pub open spec fn model(self) -> CatmullRomFault {
        match self {
            CatmullRomError::Container { error } => CatmullRomFault::Container { error },
            CatmullRomError::Format => CatmullRomFault::Format,
            CatmullRomError::Version => CatmullRomFault::Version,
            CatmullRomError::DeltaField => CatmullRomFault::DeltaField,
            CatmullRomError::Periodic => CatmullRomFault::Periodic,
            CatmullRomError::Missing { field } => CatmullRomFault::Missing { field },
            CatmullRomError::SampleTimes { found, expected } => CatmullRomFault::SampleTimes {
                found: found as int,
                expected: expected as int,
            },
            CatmullRomError::TileSampleTimes {
                found,
                expected,
            } => CatmullRomFault::TileSampleTimes {
                found: found as int,
                expected: expected as int,
            },
            CatmullRomError::TimeSampling { value } => CatmullRomFault::TimeSampling {
                value: value@,
            },
            CatmullRomError::Teacher { value } => CatmullRomFault::Teacher { value: value@ },
            CatmullRomError::KnotOverflow => CatmullRomFault::KnotOverflow,
            CatmullRomError::NoKnots => CatmullRomFault::NoKnots,
            CatmullRomError::KnotValues { found, per_splat } => CatmullRomFault::KnotValues {
                found: found as int,
                per_splat: per_splat as int,
            },
        }
    }
}

impl CatmullRomError {
    pub open spec fn text(self, container: Seq<u8>) -> Seq<char> {
        match self {
            CatmullRomError::Container { error } => error.text(container),
            CatmullRomError::Format => "unsupported Catmull-Rom motion format"@,
            CatmullRomError::Version => "unsupported Catmull-Rom motion format_version"@,
            CatmullRomError::DeltaField => "unsupported Catmull-Rom delta field"@,
            CatmullRomError::Periodic => "Catmull-Rom motion must declare periodic"@,
            CatmullRomError::Missing { field } => "missing "@ + field.text(),
            CatmullRomError::SampleTimes { found, expected } => {
                "sample_times length "@ + crate::text::decimal_text(found as nat)
                    + " != knot_count "@ + crate::text::decimal_text(expected as nat)
            },
            CatmullRomError::TileSampleTimes { found, expected } => {
                "sample_times length "@ + crate::text::decimal_text(found as nat)
                    + " != expected knot_count "@ + crate::text::decimal_text(expected as nat)
            },
            CatmullRomError::TimeSampling { value } => {
                "unsupported Catmull-Rom time_sampling '"@ + value@ + "'"@
            },
            CatmullRomError::Teacher { value } => {
                "unsupported Catmull-Rom motion_teacher '"@ + value@ + "'"@
            },
            CatmullRomError::KnotOverflow => "knot_count overflow"@,
            CatmullRomError::NoKnots => "knot_count is zero"@,
            CatmullRomError::KnotValues { found, per_splat } => {
                "knots value count "@ + crate::text::decimal_text(found as nat)
                    + " is not divisible by knot_count*3 ("@
                    + crate::text::decimal_text(per_splat as nat) + ")"@
            },
        }
    }

    /// The error in words; the container is the one that the error came from.
    pub fn message(&self, container: &[u8]) -> (r: String)
        ensures
            r@ == self.text(container@),
    {
        match self {
            CatmullRomError::Container { error } => error.message(container),
            CatmullRomError::Format => "unsupported Catmull-Rom motion format".to_owned(),
            CatmullRomError::Version => "unsupported Catmull-Rom motion format_version".to_owned(),
            CatmullRomError::DeltaField => "unsupported Catmull-Rom delta field".to_owned(),
            CatmullRomError::Periodic => "Catmull-Rom motion must declare periodic".to_owned(),
            CatmullRomError::Missing { field } => {
                let mut s: String = "missing ".to_owned();
                s.append(field.as_str());
                s
            },
            CatmullRomError::SampleTimes { found, expected } => {
                let mut s: String = "sample_times length ".to_owned();
                s.append(decimal(*found as u64).as_str());
                s.append(" != knot_count ");
                s.append(decimal(*expected as u64).as_str());
                s
            },
            CatmullRomError::TileSampleTimes { found, expected } => {
                let mut s: String = "sample_times length ".to_owned();
                s.append(decimal(*found as u64).as_str());
                s.append(" != expected knot_count ");
                s.append(decimal(*expected as u64).as_str());
                s
            },
            CatmullRomError::TimeSampling { value } => {
                let mut s: String = "unsupported Catmull-Rom time_sampling '".to_owned();
                s.append(value.as_str());
                s.append("'");
                s
            },
            CatmullRomError::Teacher { value } => {
                let mut s: String = "unsupported Catmull-Rom motion_teacher '".to_owned();
                s.append(value.as_str());
                s.append("'");
                s
            },
            CatmullRomError::KnotOverflow => "knot_count overflow".to_owned(),
            CatmullRomError::NoKnots => "knot_count is zero".to_owned(),
            CatmullRomError::KnotValues { found, per_splat } => {
                let mut s: String = "knots value count ".to_owned();
                s.append(decimal(*found as u64).as_str());
                s.append(" is not divisible by knot_count*3 (");
                s.append(decimal(*per_splat as u64).as_str());
                s.append(")");
                s
            },
        }
    }
}

/// What a motion file says of the whole motion. Times are bit patterns.
#[derive(Debug, Clone)]
pub struct CatmullRomMotionMeta {
    pub knot_count: usize,
    pub include_lods: Vec<usize>,
    pub sample_times: Vec<u32>,
    pub time_sampling: CatmullRomTimeSampling,
    pub has_time_sampling_field: bool,
    pub periodic_flag: bool,
    pub motion_teacher: CatmullRomMotionTeacher,
    pub volume_res: Option<usize>,
    pub volume_key_count: Option<usize>,
    pub source_knot_count: Option<usize>,
    pub exported_knot_count: Option<usize>,
    pub loop_closure_knots: Option<usize>,
    pub loop_closure_method: Option<String>,
    pub source_frame_count: Option<usize>,
    pub source_fps: Option<PickleNumber>,
    pub duration_seconds: Option<PickleNumber>,
}

/// The motion of one tile, `((knot * splat_count + splat) * 3 + axis)`.
#[derive(Debug)]
pub struct CatmullRomTileMotion {
    pub tile_index: usize,
    pub lod_index: usize,
    pub splat_count: usize,
    pub knots: Vec<u32>,
}

/// What every motion file must say.
pub open spec fn common_fault(pkl: Seq<u8>) -> Option<CatmullRomFault> {
    if crate::pickle::string_field(pkl, "format".spec_bytes()) != Some(CATMULL_ROM_FORMAT@) {
        Some(CatmullRomFault::Format)
    } else if crate::pickle::int_field(pkl, "format_version".spec_bytes()) != Some(1int) {
        Some(CatmullRomFault::Version)
    } else if crate::pickle::string_field(pkl, "delta_field".spec_bytes()) != Some("delta_xyz"@) {
        Some(CatmullRomFault::DeltaField)
    } else if crate::pickle::bool_field(pkl, "periodic".spec_bytes()) is None {
        Some(CatmullRomFault::Periodic)
    } else {
        None
    }
}

fn says(value: &Option<String>, text: &str) -> (r: bool)
    ensures
        r == (crate::pickle::text_view(*value) == Some(text@)),
{
    match value {
        Some(v) => same_text(v.as_str(), text),
        None => false,
    }
}

/// Checks what every motion file must say.
pub fn validate_common_fields(parsed: &ParsedPt) -> (r: Result<(), CatmullRomError>)
    ensures
        match r {
            Ok(_) => common_fault(parsed.pkl@) is None,
            Err(error) => common_fault(parsed.pkl@) == Some(error.model()),
        },
{
    if !says(&parsed.string_field("format"), CATMULL_ROM_FORMAT) {
        return Err(CatmullRomError::Format);
    }
    match parsed.int_field("format_version") {
        Some(1) => {},
        _ => {
            return Err(CatmullRomError::Version);
        },
    }
    if !says(&parsed.string_field("delta_field"), "delta_xyz") {
        return Err(CatmullRomError::DeltaField);
    }
    if parsed.bool_field("periodic").is_none() {
        return Err(CatmullRomError::Periodic);
    }
    Ok(())
}

/// A field that is a count.
pub open spec fn size_field(pkl: Seq<u8>, key: Seq<u8>) -> Option<usize> {
    match crate::pickle::int_field(pkl, key) {
        Some(v) => Some((v as i64) as usize),
        None => None,
    }
}

fn read_size(parsed: &ParsedPt, key: &str) -> (r: Option<usize>)
    ensures
        r == size_field(parsed.pkl@, key.spec_bytes()),
{
    match parsed.int_field(key) {
        Some(v) => Some(v as usize),
        None => None,
    }
}

pub open spec fn sizes_of(values: Seq<int>) -> Seq<usize> {
    Seq::new(values.len(), |i: int| (values[i] as i64) as usize)
}

/// The LoDs that a file lists.
pub open spec fn lods_field(pkl: Seq<u8>) -> Option<Seq<usize>> {
    match crate::pickle::int_tuple_field(pkl, "include_lods".spec_bytes()) {
        Some(values) => Some(sizes_of(values)),
        None => None,
    }
}

fn read_lods(parsed: &ParsedPt) -> (r: Option<Vec<usize>>)
    ensures
        match r {
            Some(lods) => lods_field(parsed.pkl@) == Some(lods@),
            None => lods_field(parsed.pkl@) is None,
        },
{
    let values: Vec<i64> = match parsed.int_tuple_field("include_lods") {
        Some(values) => values,
        None => {
            return None;
        },
    };
    let ghost ints = Seq::new(values@.len(), |i: int| values@[i] as int);
    let mut lods: Vec<usize> = Vec::new();
    for i in 0..values.len()
        invariant
            ints == Seq::new(values@.len(), |i: int| values@[i] as int),
            lods@ == sizes_of(ints).take(i as int),
    {
        lods.push(values[i] as usize);
        assert(lods@ =~= sizes_of(ints).take(i + 1));
    }
    assert(lods@ =~= sizes_of(ints));
    Some(lods)
}

/// The sampling that a file asks for; periodic if it says nothing.
pub open spec fn sampling_named(name: Option<Seq<char>>) -> Option<CatmullRomTimeSampling> {
    match name {
        None => Some(CatmullRomTimeSampling::Periodic),
        Some(n) => if n == "volume_keys"@ {
            Some(CatmullRomTimeSampling::VolumeKeys)
        } else if n == "periodic"@ {
            Some(CatmullRomTimeSampling::Periodic)
        } else {
            None
        },
    }
}

/// The teacher that a file names; an old file names none.
pub open spec fn teacher_named(name: Option<Seq<char>>) -> Option<CatmullRomMotionTeacher> {
    match name {
        None => Some(CatmullRomMotionTeacher::Legacy),
        Some(n) => if n == "volume"@ {
            Some(CatmullRomMotionTeacher::Volume)
        } else if n == "direct_network"@ {
            Some(CatmullRomMotionTeacher::DirectNetwork)
        } else {
            None
        },
    }
}

/// Why metadata is refused.
pub open spec fn meta_fault(pkl: Seq<u8>, storages: Seq<Seq<u8>>) -> Option<CatmullRomFault> {
    let knots = size_field(pkl, "knot_count".spec_bytes());
    let times = crate::torch_archive::array_numbers(storages, 0);
    let sampling = crate::pickle::string_field(pkl, "time_sampling".spec_bytes());
    let teacher = crate::pickle::string_field(pkl, "motion_teacher".spec_bytes());
    if common_fault(pkl) is Some {
        common_fault(pkl)
    } else if knots is None {
        Some(CatmullRomFault::Missing { field: RequiredField::KnotCount })
    } else if lods_field(pkl) is None {
        Some(CatmullRomFault::Missing { field: RequiredField::IncludeLods })
    } else if times is Err {
        Some(CatmullRomFault::Container { error: times->Err_0 })
    } else if times->Ok_0.len() != knots->0 {
        Some(
            CatmullRomFault::SampleTimes {
                found: times->Ok_0.len() as int,
                expected: knots->0 as int,
            },
        )
    } else if sampling_named(sampling) is None {
        Some(CatmullRomFault::TimeSampling { value: sampling->0 })
    } else if teacher_named(teacher) is None {
        Some(CatmullRomFault::Teacher { value: teacher->0 })
    } else {
        None
    }
}

/// The metadata that a file holds.
pub open spec fn is_meta(meta: CatmullRomMotionMeta, pkl: Seq<u8>, storages: Seq<Seq<u8>>) -> bool {
    let sampling = crate::pickle::string_field(pkl, "time_sampling".spec_bytes());
    let teacher = crate::pickle::string_field(pkl, "motion_teacher".spec_bytes());
    &&& size_field(pkl, "knot_count".spec_bytes()) == Some(meta.knot_count)
    &&& lods_field(pkl) == Some(meta.include_lods@)
    &&& crate::torch_archive::array_numbers(storages, 0) == Ok::<Seq<u32>, PtError>(
        meta.sample_times@,
    )
    &&& meta.sample_times@.len() == meta.knot_count
    &&& sampling_named(sampling) == Some(meta.time_sampling)
    &&& meta.has_time_sampling_field == (sampling is Some)
    &&& crate::pickle::bool_field(pkl, "periodic".spec_bytes()) == Some(meta.periodic_flag)
    &&& teacher_named(teacher) == Some(meta.motion_teacher)
    &&& meta.volume_res == size_field(pkl, "volume_res".spec_bytes())
    &&& meta.volume_key_count == size_field(pkl, "volume_key_count".spec_bytes())
    &&& meta.source_knot_count == size_field(pkl, "source_knot_count".spec_bytes())
    &&& meta.exported_knot_count == size_field(pkl, "exported_knot_count".spec_bytes())
    &&& meta.loop_closure_knots == size_field(pkl, "loop_closure_knots".spec_bytes())
    &&& crate::pickle::text_view(meta.loop_closure_method) == crate::pickle::string_field(
        pkl,
        "loop_closure_method".spec_bytes(),
    )
    &&& meta.source_frame_count == size_field(pkl, "source_frame_count".spec_bytes())
    &&& crate::pickle::number_view(meta.source_fps) == crate::pickle::number_field(
        pkl,
        "source_fps".spec_bytes(),
    )
    &&& crate::pickle::number_view(meta.duration_seconds) == crate::pickle::number_field(
        pkl,
        "duration_seconds".spec_bytes(),
    )
}

/// Reads metadata out of its dictionary.
pub fn read_meta(parsed: &ParsedPt) -> (r: Result<CatmullRomMotionMeta, CatmullRomError>)
    ensures
        ({
            let storages = crate::torch_archive::list_view(parsed.storages@);
            match r {
                Ok(meta) => meta_fault(parsed.pkl@, storages) is None && is_meta(
                    meta,
                    parsed.pkl@,
                    storages,
                ),
                Err(error) => meta_fault(parsed.pkl@, storages) == Some(error.model()),
            }
        }),
{
    match validate_common_fields(parsed) {
        Ok(_) => {},
        Err(error) => {
            return Err(error);
        },
    }
    let knot_count: usize = match read_size(parsed, "knot_count") {
        Some(v) => v,
        None => {
            return Err(CatmullRomError::Missing { field: RequiredField::KnotCount });
        },
    };
    let include_lods: Vec<usize> = match read_lods(parsed) {
        Some(v) => v,
        None => {
            return Err(CatmullRomError::Missing { field: RequiredField::IncludeLods });
        },
    };
    let sample_times: Vec<u32> = match parsed.storage_f32(0) {
        Ok(v) => v,
        Err(error) => {
            return Err(CatmullRomError::Container { error });
        },
    };
    if sample_times.len() != knot_count {
        return Err(
            CatmullRomError::SampleTimes { found: sample_times.len(), expected: knot_count },
        );
    }
    let sampling: Option<String> = parsed.string_field("time_sampling");
    let has_time_sampling_field: bool = sampling.is_some();
    let time_sampling: CatmullRomTimeSampling = match sampling {
        None => CatmullRomTimeSampling::Periodic,
        Some(name) => {
            if same_text(name.as_str(), "volume_keys") {
                CatmullRomTimeSampling::VolumeKeys
            } else if same_text(name.as_str(), "periodic") {
                CatmullRomTimeSampling::Periodic
            } else {
                return Err(CatmullRomError::TimeSampling { value: name });
            }
        },
    };
    let periodic_flag: bool = match parsed.bool_field("periodic") {
        Some(flag) => flag,
        None => false,
    };
    let motion_teacher: CatmullRomMotionTeacher = match parsed.string_field("motion_teacher") {
        None => CatmullRomMotionTeacher::Legacy,
        Some(name) => {
            if same_text(name.as_str(), "volume") {
                CatmullRomMotionTeacher::Volume
            } else if same_text(name.as_str(), "direct_network") {
                CatmullRomMotionTeacher::DirectNetwork
            } else {
                return Err(CatmullRomError::Teacher { value: name });
            }
        },
    };
    Ok(
        CatmullRomMotionMeta {
            knot_count,
            include_lods,
            sample_times,
            time_sampling,
            has_time_sampling_field,
            periodic_flag,
            motion_teacher,
            volume_res: read_size(parsed, "volume_res"),
            volume_key_count: read_size(parsed, "volume_key_count"),
            source_knot_count: read_size(parsed, "source_knot_count"),
            exported_knot_count: read_size(parsed, "exported_knot_count"),
            loop_closure_knots: read_size(parsed, "loop_closure_knots"),
            loop_closure_method: parsed.string_field("loop_closure_method"),
            source_frame_count: read_size(parsed, "source_frame_count"),
            source_fps: parsed.float_field("source_fps"),
            duration_seconds: parsed.float_field("duration_seconds"),
        },
    )
}

/// Why a metadata file is refused.
pub open spec fn meta_file_fault(bytes: Seq<u8>) -> Option<CatmullRomFault> {
    match crate::torch_archive::parsed_pt(bytes) {
        Err(error) => Some(CatmullRomFault::Container { error }),
        Ok((pkl, storages)) => meta_fault(pkl, storages),
    }
}

/// The metadata that a file holds.
pub open spec fn is_file_meta(meta: CatmullRomMotionMeta, bytes: Seq<u8>) -> bool {
    crate::torch_archive::parsed_pt(bytes) matches Ok((pkl, storages)) && is_meta(
        meta,
        pkl,
        storages,
    )
}

/// Reads a metadata file.
pub fn parse_catmull_rom_meta_pt(bytes: &[u8]) -> (r: Result<
    CatmullRomMotionMeta,
    CatmullRomError,
>)
    ensures
        match r {
            Ok(meta) => meta_file_fault(bytes@) is None && is_file_meta(meta, bytes@),
            Err(error) => meta_file_fault(bytes@) == Some(error.model()),
        },
{
    match ParsedPt::from_bytes(bytes) {
        Ok(parsed) => read_meta(&parsed),
        Err(error) => Err(CatmullRomError::Container { error }),
    }
}

/// What a tile file holds, or why it is refused: tile, LoD, splats and knots.
pub open spec fn tile_of(pkl: Seq<u8>, storages: Seq<Seq<u8>>, knot_count: usize) -> Result<
    (usize, usize, int, Seq<u32>),
    CatmullRomFault,
> {
    let tile = size_field(pkl, "tile_index".spec_bytes());
    let lod = size_field(pkl, "lod_index".spec_bytes());
    let times = crate::torch_archive::array_numbers(storages, 1);
    let knots = crate::torch_archive::array_numbers(storages, 0);
    if common_fault(pkl) is Some {
        Err(common_fault(pkl)->0)
    } else if tile is None {
        Err(CatmullRomFault::Missing { field: RequiredField::TileIndex })
    } else if lod is None {
        Err(CatmullRomFault::Missing { field: RequiredField::LodIndex })
    } else if times is Err {
        Err(CatmullRomFault::Container { error: times->Err_0 })
    } else if times->Ok_0.len() != knot_count {
        Err(
            CatmullRomFault::TileSampleTimes {
                found: times->Ok_0.len() as int,
                expected: knot_count as int,
            },
        )
    } else if knots is Err {
        Err(CatmullRomFault::Container { error: knots->Err_0 })
    } else if knot_count * 3 > usize::MAX {
        Err(CatmullRomFault::KnotOverflow)
    } else if knot_count == 0 {
        Err(CatmullRomFault::NoKnots)
    } else if knots->Ok_0.len() as int % (knot_count * 3) != 0 {
        Err(
            CatmullRomFault::KnotValues {
                found: knots->Ok_0.len() as int,
                per_splat: knot_count * 3,
            },
        )
    } else {
        Ok((tile->0, lod->0, knots->Ok_0.len() as int / (knot_count * 3), knots->Ok_0))
    }
}

/// Reads the motion of a tile out of its dictionary.
pub fn read_tile(parsed: &ParsedPt, expected_knot_count: usize) -> (r: Result<
    CatmullRomTileMotion,
    CatmullRomError,
>)
    ensures
        ({
            let expected = tile_of(
                parsed.pkl@,
                crate::torch_archive::list_view(parsed.storages@),
                expected_knot_count,
            );
            match r {
                Ok(motion) => {
                    &&& expected == Ok::<(usize, usize, int, Seq<u32>), CatmullRomFault>(
                        (
                            motion.tile_index,
                            motion.lod_index,
                            motion.splat_count as int,
                            motion.knots@,
                        ),
                    )
                    &&& motion.knots@.len() == expected_knot_count * motion.splat_count * 3
                },
                Err(error) => expected == Err::<(usize, usize, int, Seq<u32>), CatmullRomFault>(
                    error.model(),
                ),
            }
        }),
{
    match validate_common_fields(parsed) {
        Ok(_) => {},
        Err(error) => {
            return Err(error);
        },
    }
    let tile_index: usize = match read_size(parsed, "tile_index") {
        Some(v) => v,
        None => {
            return Err(CatmullRomError::Missing { field: RequiredField::TileIndex });
        },
    };
    let lod_index: usize = match read_size(parsed, "lod_index") {
        Some(v) => v,
        None => {
            return Err(CatmullRomError::Missing { field: RequiredField::LodIndex });
        },
    };
    let sample_times: Vec<u32> = match parsed.storage_f32(1) {
        Ok(v) => v,
        Err(error) => {
            return Err(CatmullRomError::Container { error });
        },
    };
    if sample_times.len() != expected_knot_count {
        return Err(
            CatmullRomError::TileSampleTimes {
                found: sample_times.len(),
                expected: expected_knot_count,
            },
        );
    }
    let knots: Vec<u32> = match parsed.storage_f32(0) {
        Ok(v) => v,
        Err(error) => {
            return Err(CatmullRomError::Container { error });
        },
    };
    let per_splat: usize = match expected_knot_count.checked_mul(3) {
        Some(v) => v,
        None => {
            return Err(CatmullRomError::KnotOverflow);
        },
    };
    if expected_knot_count == 0 {
        return Err(CatmullRomError::NoKnots);
    }
    let total: usize = knots.len();
    if total % per_splat != 0 {
        return Err(CatmullRomError::KnotValues { found: total, per_splat });
    }
    let splat_count: usize = total / per_splat;
    proof {
        vstd::arithmetic::div_mod::lemma_fundamental_div_mod(total as int, per_splat as int);
        assert(expected_knot_count * splat_count * 3 == total) by (nonlinear_arith)
            requires
                total == per_splat * splat_count,
                per_splat == expected_knot_count * 3,
        ;
    }
    Ok(CatmullRomTileMotion { tile_index, lod_index, splat_count, knots })
}

/// What a tile file holds, or why it is refused.
pub open spec fn tile_of_file(bytes: Seq<u8>, knot_count: usize) -> Result<
    (usize, usize, int, Seq<u32>),
    CatmullRomFault,
> {
    match crate::torch_archive::parsed_pt(bytes) {
        Err(error) => Err(CatmullRomFault::Container { error }),
        Ok((pkl, storages)) => tile_of(pkl, storages, knot_count),
    }
}

/// Reads a tile file.
pub fn parse_catmull_rom_tile_pt(bytes: &[u8], expected_knot_count: usize) -> (r: Result<
    CatmullRomTileMotion,
    CatmullRomError,
>)
    ensures
        match r {
            Ok(motion) => {
                &&& tile_of_file(bytes@, expected_knot_count) == Ok::<
                    (usize, usize, int, Seq<u32>),
                    CatmullRomFault,
                >(
                    (
                        motion.tile_index,
                        motion.lod_index,
                        motion.splat_count as int,
                        motion.knots@,
                    ),
                )
                &&& motion.knots@.len() == expected_knot_count * motion.splat_count * 3
            },
            Err(error) => tile_of_file(bytes@, expected_knot_count) == Err::<
                (usize, usize, int, Seq<u32>),
                CatmullRomFault,
            >(error.model()),
        },
{
    match ParsedPt::from_bytes(bytes) {
        Ok(parsed) => read_tile(&parsed, expected_knot_count),
        Err(error) => Err(CatmullRomError::Container { error }),
    }
}

} // verus!
