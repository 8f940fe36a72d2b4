//! Dense Catmull-Rom motion: a closed curve of knots for every splat, and the modes that choose
//! between kinds of motion.

use crate::basis_bank_motion::numbers_in_groups;
use crate::name_match::capture;
use crate::text::{chars_of, same_text, to_ascii_lowercase};
use vstd::prelude::*;
use vstd::string::*;

verus! {

pub const CATMULL_ROM_FORMAT: &'static str = "periodic_catmull_rom_delta_xyz";

pub const CATMULL_ROM_META_FILENAME: &'static str = "motion_catmull_rom_meta.pt";

/// Names of tile motion files.
pub const MOTION_PATTERN: &'static str = r"^tile(\d+)_lod(\d+)_motion_catmull_rom\.pt$";

/// Bit pattern of `1.0e-5`, how far a sample time may be off its grid.
pub const SAMPLE_TIME_EPS: u32 = 0x3727_c5ac;

/// Which times the knots of a curve stand for.
#[derive(Debug, Clone, Copy, PartialEq, Eq, Structural)]
pub enum CatmullRomTimeSampling {
    Periodic,
    VolumeKeys,
}

impl CatmullRomTimeSampling {
    pub open spec fn label(self) -> Seq<char> {
        match self {
            CatmullRomTimeSampling::Periodic => "periodic"@,
            CatmullRomTimeSampling::VolumeKeys => "volume_keys"@,
        }
    }

    pub fn as_str(self) -> (r: &'static str)
        ensures
            r@ == self.label(),
    {
        match self {
            CatmullRomTimeSampling::Periodic => "periodic",
            CatmullRomTimeSampling::VolumeKeys => "volume_keys",
        }
    }

    /// The number that the shader knows the sampling by.
    pub fn shader_value(self) -> (r: u32)
        ensures
            r == match self {
                CatmullRomTimeSampling::Periodic => 0u32,
                CatmullRomTimeSampling::VolumeKeys => 1u32,
            },
    {
        match self {
            CatmullRomTimeSampling::Periodic => 0,
            CatmullRomTimeSampling::VolumeKeys => 1,
        }
    }
}

/// The grid that sample times lie on.
#[derive(Debug, Clone, Copy, PartialEq, Eq, Structural)]
pub enum CatmullRomSampleTimeGrid {
    Periodic,
    VolumeKeys,
    Irregular,
}

impl CatmullRomSampleTimeGrid {
    pub open spec fn label(self) -> Seq<char> {
        match self {
            CatmullRomSampleTimeGrid::Periodic => "periodic"@,
            CatmullRomSampleTimeGrid::VolumeKeys => "volume_keys"@,
            CatmullRomSampleTimeGrid::Irregular => "irregular"@,
        }
    }

    pub fn as_str(self) -> (r: &'static str)
        ensures
            r@ == self.label(),
    {
        match self {
            CatmullRomSampleTimeGrid::Periodic => "periodic",
            CatmullRomSampleTimeGrid::VolumeKeys => "volume_keys",
            CatmullRomSampleTimeGrid::Irregular => "irregular",
        }
    }
}

/// What a curve was fitted to.
#[derive(Debug, Clone, Copy, PartialEq, Eq, Structural)]
pub enum CatmullRomMotionTeacher {
    Legacy,
    Volume,
    DirectNetwork,
}

impl CatmullRomMotionTeacher {
    pub open spec fn label(self) -> Seq<char> {
        match self {
            CatmullRomMotionTeacher::Legacy => "legacy"@,
            CatmullRomMotionTeacher::Volume => "volume"@,
            CatmullRomMotionTeacher::DirectNetwork => "direct_network"@,
        }
    }

    pub fn as_str(self) -> (r: &'static str)
        ensures
            r@ == self.label(),
    {
        match self {
            CatmullRomMotionTeacher::Legacy => "legacy",
            CatmullRomMotionTeacher::Volume => "volume",
            CatmullRomMotionTeacher::DirectNetwork => "direct_network",
        }
    }
}

/// The kind of motion that is played.
#[derive(Debug, Clone, Copy, PartialEq, Eq, Structural)]
pub enum MotionMode {
    Auto,
    BasisBank,
    CatmullRom,
    DeformationNetwork,
    Static,
}

/// A mode by one of its names.
pub open spec fn mode_named(name: Seq<char>) -> Option<MotionMode> {
    if name == "auto"@ {
        Some(MotionMode::Auto)
    } else if name == "basis_bank"@ || name == "basis-bank"@ || name == "basis"@ {
        Some(MotionMode::BasisBank)
    } else if name == "catmull_rom"@ || name == "catmull-rom"@ || name == "spline"@ {
        Some(MotionMode::CatmullRom)
    } else if name == "deformation_network"@ || name == "deformation-network"@ || name
        == "network"@ || name == "volume"@ {
        Some(MotionMode::DeformationNetwork)
    } else if name == "static"@ || name == "none"@ {
        Some(MotionMode::Static)
    } else {
        None
    }
}

/// A mode by the name of a deformation mode; these are matched as they are.
pub open spec fn deform_mode_named(name: Seq<char>) -> Option<MotionMode> {
    if name == "basis_bank"@ || name == "basis-bank"@ || name == "basis"@ {
        Some(MotionMode::BasisBank)
    } else if name == "catmull_rom"@ || name == "catmull-rom"@ || name == "spline"@ {
        Some(MotionMode::CatmullRom)
    } else if name == "static"@ || name == "none"@ {
        Some(MotionMode::Static)
    } else if name == "volume"@ || name == "hexplane_mlp"@ || name == "identity"@ {
        Some(MotionMode::DeformationNetwork)
    } else {
        None
    }
}

/// The mode after a parameter of a query: a parameter with another key or an unknown value changes
/// nothing.
pub open spec fn mode_after(part: Seq<char>, mode: MotionMode) -> MotionMode {
    let chosen = if "motion_mode="@.is_prefix_of(part) {
        mode_named(crate::text::lowered(part.skip("motion_mode="@.len() as int)))
    } else if "deform_mode="@.is_prefix_of(part) {
        deform_mode_named(part.skip("deform_mode="@.len() as int))
    } else {
        None
    };
    match chosen {
        Some(m) => m,
        None => mode,
    }
}

/// The first `&` from `from` on, or the end.
pub open spec fn part_end(s: Seq<char>, from: int) -> int
    decreases s.len() - from,
{
    if from >= s.len() {
        s.len() as int
    } else if s[from] == '&' {
        from
    } else {
        part_end(s, from + 1)
    }
}

/// The mode after the parameters of a query from `from` on.
pub open spec fn query_mode(s: Seq<char>, from: int, mode: MotionMode) -> MotionMode
    decreases s.len() - from,
{
    let end = part_end(s, from);
    if from > s.len() {
        mode
    } else {
        let next = mode_after(s.subrange(from, end), mode);
        if end >= s.len() || end < from {
            next
        } else {
            query_mode(s, end + 1, next)
        }
    }
}

/// The place behind the question marks at the start.
pub open spec fn query_start(s: Seq<char>, from: int) -> int
    decreases s.len() - from,
{
    if from < s.len() && s[from] == '?' {
        query_start(s, from + 1)
    } else {
        from
    }
}

fn strip_prefix<'a>(part: &'a str, prefix: &str) -> (r: Option<&'a str>)
    ensures
        match r {
            Some(rest) => prefix@.is_prefix_of(part@) && rest@ == part@.skip(prefix@.len() as int),
            None => !prefix@.is_prefix_of(part@),
        },
{
    let p: Vec<char> = chars_of(part);
    let q: Vec<char> = chars_of(prefix);
    if p.len() < q.len() {
        return None;
    }
    for i in 0..q.len()
        invariant
            p@ == part@,
            q@ == prefix@,
            q@.len() <= p@.len(),
            forall|k: int| 0 <= k < i ==> p@[k] == q@[k],
    {
        if p[i] != q[i] {
            assert(part@.subrange(0, prefix@.len() as int)[i as int] != prefix@[i as int]);
            return None;
        }
    }
    assert(part@.subrange(0, prefix@.len() as int) =~= prefix@);
    let rest: &'a str = part.substring_char(q.len(), p.len());
    assert(rest@ =~= part@.skip(prefix@.len() as int));
    Some(rest)
}

impl MotionMode {
    pub open spec fn label(self) -> Seq<char> {
        match self {
            MotionMode::Auto => "auto"@,
            MotionMode::BasisBank => "basis_bank"@,
            MotionMode::CatmullRom => "catmull_rom"@,
            MotionMode::DeformationNetwork => "deformation_network"@,
            MotionMode::Static => "static"@,
        }
    }

    pub fn as_str(self) -> (r: &'static str)
        ensures
            r@ == self.label(),
    {
        match self {
            MotionMode::Auto => "auto",
            MotionMode::BasisBank => "basis_bank",
            MotionMode::CatmullRom => "catmull_rom",
            MotionMode::DeformationNetwork => "deformation_network",
            MotionMode::Static => "static",
        }
    }

    /// A mode by one of its names, whatever the case.
    pub fn parse(value: &str) -> (r: Option<MotionMode>)
        ensures
            r == mode_named(crate::text::lowered(value@)),
    {
        let lower: String = to_ascii_lowercase(value);
        let name: &str = lower.as_str();
        if same_text(name, "auto") {
            Some(MotionMode::Auto)
        } else if same_text(name, "basis_bank") || same_text(name, "basis-bank") || same_text(
            name,
            "basis",
        ) {
            Some(MotionMode::BasisBank)
        } else if same_text(name, "catmull_rom") || same_text(name, "catmull-rom") || same_text(
            name,
            "spline",
        ) {
            Some(MotionMode::CatmullRom)
        } else if same_text(name, "deformation_network") || same_text(name, "deformation-network")
            || same_text(name, "network") || same_text(name, "volume") {
            Some(MotionMode::DeformationNetwork)
        } else if same_text(name, "static") || same_text(name, "none") {
            Some(MotionMode::Static)
        } else {
            None
        }
    }

    fn parse_deform_mode(name: &str) -> (r: Option<MotionMode>)
        ensures
            r == deform_mode_named(name@),
    {
        if same_text(name, "basis_bank") || same_text(name, "basis-bank") || same_text(
            name,
            "basis",
        ) {
            Some(MotionMode::BasisBank)
        } else if same_text(name, "catmull_rom") || same_text(name, "catmull-rom") || same_text(
            name,
            "spline",
        ) {
            Some(MotionMode::CatmullRom)
        } else if same_text(name, "static") || same_text(name, "none") {
            Some(MotionMode::Static)
        } else if same_text(name, "volume") || same_text(name, "hexplane_mlp") || same_text(
            name,
            "identity",
        ) {
            Some(MotionMode::DeformationNetwork)
        } else {
            None
        }
    }

    fn after_part(part: &str, mode: MotionMode) -> (r: MotionMode)
        ensures
            r == mode_after(part@, mode),
    {
        let chosen: Option<MotionMode> = match strip_prefix(part, "motion_mode=") {
            Some(raw) => MotionMode::parse(raw),
            None => match strip_prefix(part, "deform_mode=") {
                Some(raw) => MotionMode::parse_deform_mode(raw),
                None => None,
            },
        };
        match chosen {
            Some(m) => m,
            None => mode,
        }
    }

    /// The mode that the query of a URL asks for, the last one that is known; without any, the
    /// automatic one.
    pub fn from_url_query(search: &str) -> (r: MotionMode)
        ensures
            r == query_mode(search@, query_start(search@, 0), MotionMode::Auto),
    {
        let chars: Vec<char> = chars_of(search);
        let total: usize = chars.len();
        let mut from: usize = 0;
        while from < total && chars[from] == '?'
            invariant
                from <= total,
                total == chars@.len(),
                chars@ == search@,
                query_start(search@, 0) == query_start(search@, from as int),
            decreases total - from,
        {
            from = from + 1;
        }
        let ghost start = from as int;
        let mut mode: MotionMode = MotionMode::Auto;
        loop
            invariant
                from <= total,
                total == chars@.len(),
                chars@ == search@,
                query_mode(search@, start, MotionMode::Auto) == query_mode(
                    search@,
                    from as int,
                    mode,
                ),
                start == query_start(search@, 0),
            decreases total - from,
        {
            let mut end: usize = from;
            while end < total && chars[end] != '&'
                invariant
                    from <= end <= total,
                    total == chars@.len(),
                    chars@ == search@,
                    part_end(search@, from as int) == part_end(search@, end as int),
                decreases total - end,
            {
                end = end + 1;
            }
            mode = MotionMode::after_part(search.substring_char(from, end), mode);
            if end >= total {
                return mode;
            }
            from = end + 1;
        }
    }
}

/// Tile and LoD of a tile motion file, by its name.
pub fn detect_motion_file(filename: &str) -> (r: Option<(usize, usize)>)
    ensures
        r == crate::basis_bank_motion::two_numbers(
            crate::name_match::regex_captures(MOTION_PATTERN@, filename@),
        ),
{
    numbers_in_groups(&capture(MOTION_PATTERN, filename))
}

/// A sample is on its grid.
pub open spec fn on_grid(errors: Seq<u32>) -> bool {
    forall|i: int|
        0 <= i < errors.len() ==> crate::float_bits::less_or_same(
            #[trigger] errors[i],
            SAMPLE_TIME_EPS,
        )
}

fn is_on_grid(errors: &[u32]) -> (r: bool)
    ensures
        r == on_grid(errors@),
{
    for i in 0..errors.len()
        invariant
            forall|k: int|
                0 <= k < i ==> crate::float_bits::less_or_same(
                    #[trigger] errors@[k],
                    SAMPLE_TIME_EPS,
                ),
    {
        if !crate::float_bits::is_less_or_same(errors[i], SAMPLE_TIME_EPS) {
            assert(!crate::float_bits::less_or_same(errors@[i as int], SAMPLE_TIME_EPS));
            return false;
        }
    }
    true
}

/// The grid that sample times lie on, from how far each is off the periodic grid and off the grid
/// of volume keys. Fewer than two samples lie on none.
pub fn classify_catmull_rom_sample_times(periodic_errors: &[u32], key_errors: &[u32]) -> (r:
    CatmullRomSampleTimeGrid)
    requires
        periodic_errors@.len() == key_errors@.len(),
    ensures
        r == if periodic_errors@.len() < 2 {
            CatmullRomSampleTimeGrid::Irregular
        } else if on_grid(periodic_errors@) {
            CatmullRomSampleTimeGrid::Periodic
        } else if on_grid(key_errors@) {
            CatmullRomSampleTimeGrid::VolumeKeys
        } else {
            CatmullRomSampleTimeGrid::Irregular
        },
{
    if periodic_errors.len() < 2 {
        return CatmullRomSampleTimeGrid::Irregular;
    }
    if is_on_grid(periodic_errors) {
        return CatmullRomSampleTimeGrid::Periodic;
    }
    if is_on_grid(key_errors) {
        CatmullRomSampleTimeGrid::VolumeKeys
    } else {
        CatmullRomSampleTimeGrid::Irregular
    }
}

/// The four knots that shape a segment of a closed curve.
pub fn periodic_segment(knot_count: usize, segment: usize) -> (r: [usize; 4])
    requires
        knot_count >= 4,
    ensures
        ({
            let k = knot_count as int;
            let s = segment as int % k;
            &&& r@[0] == (s + k - 1) % k
            &&& r@[1] == s
            &&& r@[2] == (s + 1) % k
            &&& r@[3] == (s + 2) % k
        }),
        forall|i: int| 0 <= i < 4 ==> #[trigger] r@[i] < knot_count,
{
    let s: usize = segment % knot_count;
    let before: usize = if s == 0 {
        knot_count - 1
    } else {
        s - 1
    };
    let next: usize = if s == knot_count - 1 {
        0
    } else {
        s + 1
    };
    let after: usize = if next == knot_count - 1 {
        0
    } else {
        next + 1
    };
    proof {
        let k = knot_count as int;
        if s == 0 {
            vstd::arithmetic::div_mod::lemma_small_mod((k - 1) as nat, k as nat);
        } else {
            vstd::arithmetic::div_mod::lemma_fundamental_div_mod_converse(s + k - 1, k, 1, s - 1);
        }
        if s == k - 1 {
            vstd::arithmetic::div_mod::lemma_fundamental_div_mod_converse(s + 1, k, 1, 0);
            vstd::arithmetic::div_mod::lemma_fundamental_div_mod_converse(s + 2, k, 1, 1);
        } else if s == k - 2 {
            vstd::arithmetic::div_mod::lemma_small_mod((s + 1) as nat, k as nat);
            vstd::arithmetic::div_mod::lemma_fundamental_div_mod_converse(s + 2, k, 1, 0);
        } else {
            vstd::arithmetic::div_mod::lemma_small_mod((s + 1) as nat, k as nat);
            vstd::arithmetic::div_mod::lemma_small_mod((s + 2) as nat, k as nat);
        }
    }
    [before, s, next, after]
}

/// The four knots that shape a segment of an open curve: the ends stand in for what is beyond them.
pub fn volume_key_segment(knot_count: usize, segment: usize) -> (r: [usize; 4])
    requires
        knot_count >= 4,
    ensures
        ({
            let last = knot_count - 1;
            let s = if segment > last {
                last
            } else {
                segment as int
            };
            &&& r@[0] == if s > 0 {
                s - 1
            } else {
                0
            }
            &&& r@[1] == s
            &&& r@[2] == if s + 1 > last {
                last
            } else {
                s + 1
            }
            &&& r@[3] == if s + 2 > last {
                last
            } else {
                s + 2
            }
        }),
{
    let last: usize = knot_count - 1;
    let s: usize = if segment > last {
        last
    } else {
        segment
    };
    [
        if s > 0 {
            s - 1
        } else {
            0
        },
        s,
        if s >= last {
            last
        } else {
            s + 1
        },
        if s >= last - 1 {
            last
        } else {
            s + 2
        },
    ]
}

} // verus!
