//! Sizes, checks and buffer contents for dense Catmull-Rom motion on the GPU, and the comparison of
//! that motion with a baked volume.

use crate::catmull_rom_files::CatmullRomMotionMeta;
use crate::catmull_rom_loading::CatmullRomMotionSet;
use crate::catmull_rom_motion::CatmullRomMotionTeacher;
use crate::deformation_gpu::{ceil_div, workgroup_count, WORKGROUP_SIZE};
use crate::ordering::order_ascending;
use crate::text::decimal;
use vstd::prelude::*;

verus! {

pub const PREFERRED_KNOT_TEXTURE_WIDTH: u32 = 4096;

pub const MAX_KNOT_TEXTURE_UPLOAD_BYTES: u64 = 67_108_864;

pub const MAX_COMPATIBILITY_SAMPLE_ERRORS: u32 = 131_072;

/// Bytes of the partial results of a workgroup.
pub const COMPATIBILITY_PARTIAL_BYTES: u64 = 64;

pub const TEXTURE_PARTIAL_BYTES: u64 = 48;

/// Why motion cannot be uploaded or compared.
#[derive(Debug, Clone, Copy, PartialEq, Eq, Structural)]
pub enum CatmullRomGpuError {
    TooManySplats,
    KnotCount { count: usize },
    ValueOverflow,
    ValueCount { found: usize, expected: usize },
    KnotOverflow,
    TooManyKnots,
    TextureLimit { limit: u32 },
    TextureWidth { width: u32, limit: u32 },
    TextureHeight { height: u32, limit: u32 },
    KnotData { found: usize, expected: usize },
    NoVolume,
    VolumeSize,
    ItemOverflow,
    NoCompatibilityItems,
    NoTextureItems,
}

impl CatmullRomGpuError {
    pub open spec fn text(self) -> Seq<char> {
        match self {
            CatmullRomGpuError::TooManySplats => "Catmull-Rom splat count exceeds u32"@,
            CatmullRomGpuError::KnotCount { count } => {
                "invalid Catmull-Rom knot count "@ + crate::text::decimal_text(count as nat)
            },
            CatmullRomGpuError::ValueOverflow => "Catmull-Rom knot value count overflow"@,
            CatmullRomGpuError::ValueCount { found, expected } => {
                "Catmull-Rom global knot length mismatch: got "@
                    + crate::text::decimal_text(found as nat) + ", expected "@
                    + crate::text::decimal_text(expected as nat)
            },
            CatmullRomGpuError::KnotOverflow => "Catmull-Rom knot count overflow"@,
            CatmullRomGpuError::TooManyKnots => "Catmull-Rom knot count exceeds u32"@,
            CatmullRomGpuError::TextureLimit { limit } => {
                "max_texture_dimension_2d "@ + crate::text::decimal_text(limit as nat)
                    + " is too small for Catmull-Rom knot texture"@
            },
            CatmullRomGpuError::TextureWidth { width, limit } => {
                "Catmull-Rom knot texture requires width "@
                    + crate::text::decimal_text(width as nat)
                    + ", exceeding max_texture_dimension_2d "@
                    + crate::text::decimal_text(limit as nat)
            },
            CatmullRomGpuError::TextureHeight { height, limit } => {
                "Catmull-Rom knot texture height "@ + crate::text::decimal_text(height as nat)
                    + " exceeds max_texture_dimension_2d "@
                    + crate::text::decimal_text(limit as nat)
            },
            CatmullRomGpuError::KnotData { found, expected } => {
                "catmull_rom_delta_xyz_knots knot float count "@
                    + crate::text::decimal_text(found as nat) + " does not match layout total "@
                    + crate::text::decimal_text(expected as nat)
            },
            CatmullRomGpuError::NoVolume => {
                "compatibility comparison requires deform_mode=volume cache"@
            },
            CatmullRomGpuError::VolumeSize => {
                "invalid volume cache dimensions for compatibility comparison"@
            },
            CatmullRomGpuError::ItemOverflow => "compatibility item count overflow"@,
            CatmullRomGpuError::NoCompatibilityItems => {
                "no splats available for compatibility comparison"@
            },
            CatmullRomGpuError::NoTextureItems => "no splats available for texture comparison"@,
        }
    }

    /// The error in words.
    pub fn message(&self) -> (r: String)
        ensures
            r@ == self.text(),
    {
        match self {
            CatmullRomGpuError::TooManySplats => "Catmull-Rom splat count exceeds u32".to_owned(),
            CatmullRomGpuError::KnotCount { count } => {
                let mut s: String = "invalid Catmull-Rom knot count ".to_owned();
                s.append(decimal(*count as u64).as_str());
                s
            },
            CatmullRomGpuError::ValueOverflow => "Catmull-Rom knot value count overflow".to_owned(),
            CatmullRomGpuError::ValueCount { found, expected } => {
                let mut s: String = "Catmull-Rom global knot length mismatch: got ".to_owned();
                s.append(decimal(*found as u64).as_str());
                s.append(", expected ");
                s.append(decimal(*expected as u64).as_str());
                s
            },
            CatmullRomGpuError::KnotOverflow => "Catmull-Rom knot count overflow".to_owned(),
            CatmullRomGpuError::TooManyKnots => "Catmull-Rom knot count exceeds u32".to_owned(),
            CatmullRomGpuError::TextureLimit { limit } => {
                let mut s: String = "max_texture_dimension_2d ".to_owned();
                s.append(decimal(*limit as u64).as_str());
                s.append(" is too small for Catmull-Rom knot texture");
                s
            },
            CatmullRomGpuError::TextureWidth { width, limit } => {
                let mut s: String = "Catmull-Rom knot texture requires width ".to_owned();
                s.append(decimal(*width as u64).as_str());
                s.append(", exceeding max_texture_dimension_2d ");
                s.append(decimal(*limit as u64).as_str());
                s
            },
            CatmullRomGpuError::TextureHeight { height, limit } => {
                let mut s: String = "Catmull-Rom knot texture height ".to_owned();
                s.append(decimal(*height as u64).as_str());
                s.append(" exceeds max_texture_dimension_2d ");
                s.append(decimal(*limit as u64).as_str());
                s
            },
            CatmullRomGpuError::KnotData { found, expected } => {
                let mut s: String = "catmull_rom_delta_xyz_knots knot float count ".to_owned();
                s.append(decimal(*found as u64).as_str());
                s.append(" does not match layout total ");
                s.append(decimal(*expected as u64).as_str());
                s
            },
            CatmullRomGpuError::NoVolume => {
                "compatibility comparison requires deform_mode=volume cache".to_owned()
            },
            CatmullRomGpuError::VolumeSize => {
                "invalid volume cache dimensions for compatibility comparison".to_owned()
            },
            CatmullRomGpuError::ItemOverflow => "compatibility item count overflow".to_owned(),
            CatmullRomGpuError::NoCompatibilityItems => {
                "no splats available for compatibility comparison".to_owned()
            },
            CatmullRomGpuError::NoTextureItems => {
                "no splats available for texture comparison".to_owned()
            },
        }
    }
}

/// The texture that knots are stored in, row by row.
#[derive(Debug, Clone, Copy, PartialEq, Eq, Structural)]
pub struct KnotTextureLayout {
    pub width: u32,
    pub height: u32,
    pub total_knots: u32,
}

/// `n / d`, rounded up.
pub open spec fn ceiling(n: int, d: int) -> int {
    if n % d > 0 {
        n / d + 1
    } else {
        n / d
    }
}

/// The width of a knot texture: the preferred one or as much as the device has, more where the
/// height would not fit, and a multiple of 16.
pub open spec fn knot_texture_width(total: int, limit: u32) -> int {
    let preferred = if PREFERRED_KNOT_TEXTURE_WIDTH < limit {
        PREFERRED_KNOT_TEXTURE_WIDTH as int
    } else {
        limit as int
    };
    let needed = ceiling(total, limit as int);
    let width = if preferred < needed {
        needed
    } else {
        preferred
    };
    (width + 15) / 16 * 16
}

/// The layout of a knot texture on a device, or why there is none.
pub open spec fn planned_layout(splats: usize, knots: usize, limit: u32) -> Result<
    KnotTextureLayout,
    CatmullRomGpuError,
> {
    let total = splats * knots;
    let width = knot_texture_width(total, limit);
    let height = ceiling(total, width);
    if total > usize::MAX {
        Err(CatmullRomGpuError::KnotOverflow)
    } else if total > u32::MAX {
        Err(CatmullRomGpuError::TooManyKnots)
    } else if limit < 16 {
        Err(CatmullRomGpuError::TextureLimit { limit })
    } else if width > limit {
        Err(CatmullRomGpuError::TextureWidth { width: width as u32, limit })
    } else if height > limit {
        Err(CatmullRomGpuError::TextureHeight { height: height as u32, limit })
    } else {
        Ok(
            KnotTextureLayout {
                width: width as u32,
                height: height as u32,
                total_knots: total as u32,
            },
        )
    }
}

/// What a quotient that was rounded up is.
proof fn ceiling_is(n: int, d: int, r: int)
    requires
        d > 0,
        n >= 0,
        r >= 0,
        r * d >= n,
        r > 0 ==> (r - 1) * d < n,
        n == 0 ==> r == 0,
    ensures
        ceiling(n, d) == r,
{
    vstd::arithmetic::div_mod::lemma_fundamental_div_mod(n, d);
    vstd::arithmetic::div_mod::lemma_mod_bound(n, d);
    let q = n / d;
    assert(ceiling(n, d) == r) by (nonlinear_arith)
        requires
            ceiling(n, d) == if n % d > 0 {
                q + 1
            } else {
                q
            },
            n == d * q + n % d,
            0 <= n % d < d,
            r >= 0,
            r * d >= n,
            r > 0 ==> (r - 1) * d < n,
            n == 0 ==> r == 0,
            n >= 0,
    ;
}

/// Lays out a knot texture.
pub fn knot_texture_layout(
    splat_count: usize,
    knot_count: usize,
    max_texture_dimension_2d: u32,
) -> (r: Result<KnotTextureLayout, CatmullRomGpuError>)
    ensures
        r == planned_layout(splat_count, knot_count, max_texture_dimension_2d),
{
    let limit: u32 = max_texture_dimension_2d;
    let total: usize = match splat_count.checked_mul(knot_count) {
        Some(total) => total,
        None => {
            return Err(CatmullRomGpuError::KnotOverflow);
        },
    };
    if total as u64 > u32::MAX as u64 {
        return Err(CatmullRomGpuError::TooManyKnots);
    }
    if limit < 16 {
        return Err(CatmullRomGpuError::TextureLimit { limit });
    }
    let total_knots: u32 = total as u32;
    let preferred: u32 = if PREFERRED_KNOT_TEXTURE_WIDTH < limit {
        PREFERRED_KNOT_TEXTURE_WIDTH
    } else {
        limit
    };
    let needed: u32 = ceil_div(total_knots, limit);
    proof {
        ceiling_is(total_knots as int, limit as int, needed as int);
        assert(needed <= 0x1000_0000) by (nonlinear_arith)
            requires
                needed > 0 ==> (needed - 1) * limit < total_knots,
                total_knots <= u32::MAX,
                limit >= 16,
        ;
    }
    let width: u32 = if preferred < needed {
        needed
    } else {
        preferred
    };
    let width: u32 = (width + 15) / 16 * 16;
    if width > limit {
        return Err(CatmullRomGpuError::TextureWidth { width, limit });
    }
    let height: u32 = ceil_div(total_knots, width);
    proof {
        ceiling_is(total_knots as int, width as int, height as int);
    }
    if height > limit {
        return Err(CatmullRomGpuError::TextureHeight { height, limit });
    }
    Ok(KnotTextureLayout { width, height, total_knots })
}

/// A knot texture has room for all knots, and its size fits the device.
pub proof fn knot_textures_cover_all_knots(splats: usize, knots: usize, limit: u32)
    requires
        planned_layout(splats, knots, limit) is Ok,
    ensures
        ({
            let layout = planned_layout(splats, knots, limit)->Ok_0;
            &&& layout.width * layout.height >= splats * knots
            &&& layout.total_knots == splats * knots
            &&& 0 < layout.width <= limit
            &&& layout.height <= limit
            &&& layout.width % 16 == 0
        }),
{
    let total = splats * knots;
    let width = knot_texture_width(total, limit);
    assert(0 <= total) by (nonlinear_arith)
        requires
            total == splats * knots,
    ;
    vstd::arithmetic::div_mod::lemma_fundamental_div_mod(total, width);
    vstd::arithmetic::div_mod::lemma_mod_bound(total, width);
    let q = total / width;
    assert(width * ceiling(total, width) >= total) by (nonlinear_arith)
        requires
            ceiling(total, width) == if total % width > 0 {
                q + 1
            } else {
                q
            },
            total == width * q + total % width,
            0 <= total % width < width,
    ;
    assert(0 <= ceiling(total, width)) by (nonlinear_arith)
        requires
            width * ceiling(total, width) >= total,
            total >= 0,
            width > 0,
    ;
}

/// The sizes that the shader gets.
#[derive(Debug, Clone, Copy, PartialEq, Eq, Structural)]
pub struct CatmullRomRuntimeSizes {
    pub splat_count: u32,
    pub knot_count: u32,
    pub volume_comparison_knot_count: u32,
    pub source_volume_key_count: u32,
    pub time_sampling: u32,
}

/// Knots that can be compared with a volume: those of the source, at least one.
pub open spec fn comparison_knots(meta: CatmullRomMotionMeta) -> u32 {
    let source = match meta.source_knot_count {
        Some(n) => n,
        None => meta.knot_count,
    };
    let within = if source < meta.knot_count {
        source
    } else {
        meta.knot_count
    };
    if within < 1 {
        1
    } else {
        within as u32
    }
}

pub fn volume_comparison_knot_count(meta: &CatmullRomMotionMeta) -> (r: u32)
    ensures
        r == comparison_knots(*meta),
{
    let source: usize = match meta.source_knot_count {
        Some(n) => n,
        None => meta.knot_count,
    };
    let within: usize = if source < meta.knot_count {
        source
    } else {
        meta.knot_count
    };
    if within < 1 {
        1
    } else {
        within as u32
    }
}

/// Keys of the volume that a motion was fitted to; none if it was not.
pub open spec fn source_keys(meta: CatmullRomMotionMeta) -> u32 {
    if meta.motion_teacher != CatmullRomMotionTeacher::Volume {
        0
    } else {
        match (meta.source_knot_count, meta.volume_key_count) {
            (Some(n), _) => n as u32,
            (None, Some(n)) => n as u32,
            (None, None) => 0,
        }
    }
}

pub fn source_volume_key_count(meta: &CatmullRomMotionMeta) -> (r: u32)
    ensures
        r == source_keys(*meta),
{
    if meta.motion_teacher != CatmullRomMotionTeacher::Volume {
        return 0;
    }
    match (meta.source_knot_count, meta.volume_key_count) {
        (Some(n), _) => n as u32,
        (None, Some(n)) => n as u32,
        (None, None) => 0,
    }
}

/// Why motion cannot be uploaded.
pub open spec fn upload_error(motion: CatmullRomMotionSet) -> Option<CatmullRomGpuError> {
    let knots = motion.meta.knot_count;
    let values = motion.total_splats * knots * 3;
    if motion.total_splats > u32::MAX {
        Some(CatmullRomGpuError::TooManySplats)
    } else if knots == 0 || knots > u32::MAX {
        Some(CatmullRomGpuError::KnotCount { count: knots })
    } else if values > usize::MAX {
        Some(CatmullRomGpuError::ValueOverflow)
    } else if motion.global_knots@.len() != values {
        Some(
            CatmullRomGpuError::ValueCount {
                found: motion.global_knots@.len() as usize,
                expected: values as usize,
            },
        )
    } else {
        None
    }
}

/// Checks that motion can be uploaded.
pub fn check_upload(motion: &CatmullRomMotionSet) -> (r: Result<
    CatmullRomRuntimeSizes,
    CatmullRomGpuError,
>)
    ensures
        match r {
            Ok(sizes) => {
                &&& upload_error(*motion) is None
                &&& sizes.splat_count == motion.total_splats
                &&& sizes.knot_count == motion.meta.knot_count
                &&& sizes.volume_comparison_knot_count == comparison_knots(motion.meta)
                &&& sizes.source_volume_key_count == source_keys(motion.meta)
                &&& sizes.time_sampling == match motion.meta.time_sampling {
                    crate::catmull_rom_motion::CatmullRomTimeSampling::Periodic => 0u32,
                    crate::catmull_rom_motion::CatmullRomTimeSampling::VolumeKeys => 1u32,
                }
            },
            Err(error) => upload_error(*motion) == Some(error),
        },
{
    let knots: usize = motion.meta.knot_count;
    if motion.total_splats as u64 > u32::MAX as u64 {
        return Err(CatmullRomGpuError::TooManySplats);
    }
    if knots == 0 || knots as u64 > u32::MAX as u64 {
        return Err(CatmullRomGpuError::KnotCount { count: knots });
    }
    let rows: usize = match motion.total_splats.checked_mul(knots) {
        Some(rows) => rows,
        None => {
            return Err(CatmullRomGpuError::ValueOverflow);
        },
    };
    let values: usize = match rows.checked_mul(3) {
        Some(values) => values,
        None => {
            return Err(CatmullRomGpuError::ValueOverflow);
        },
    };
    if motion.global_knots.len() != values {
        return Err(
            CatmullRomGpuError::ValueCount { found: motion.global_knots.len(), expected: values },
        );
    }
    Ok(
        CatmullRomRuntimeSizes {
            splat_count: motion.total_splats as u32,
            knot_count: knots as u32,
            volume_comparison_knot_count: volume_comparison_knot_count(&motion.meta),
            source_volume_key_count: source_volume_key_count(&motion.meta),
            time_sampling: motion.meta.time_sampling.shader_value(),
        },
    )
}

/// The words of the motion uniform.
pub fn motion_uniform(
    time01: u32,
    texture_width: u32,
    knot_texture_width: u32,
    sizes: CatmullRomRuntimeSizes,
) -> (r: [u32; 8])
    ensures
        r@ == seq![
            time01,
            sizes.splat_count,
            texture_width,
            sizes.knot_count,
            knot_texture_width,
            sizes.time_sampling,
            0u32,
            0u32,
        ],
{
    let r: [u32; 8] = [
        time01,
        sizes.splat_count,
        texture_width,
        sizes.knot_count,
        knot_texture_width,
        sizes.time_sampling,
        0,
        0,
    ];
    assert(r@ =~= seq![
        time01,
        sizes.splat_count,
        texture_width,
        sizes.knot_count,
        knot_texture_width,
        sizes.time_sampling,
        0u32,
        0u32,
    ]);
    r
}

/// A knot and what its time is a fraction of: `numerator / denominator`.
pub open spec fn preview_fraction(
    selected: u32,
    knots: u32,
    volume_keys: bool,
) -> Option<(int, int)> {
    if knots == 0 {
        None
    } else {
        let knot = if selected < knots - 1 {
            selected as int
        } else {
            knots - 1
        };
        Some(
            (
                knot,
                if volume_keys {
                    if knots - 1 < 1 {
                        1
                    } else {
                        knots - 1
                    }
                } else {
                    knots as int
                },
            ),
        )
    }
}

/// The time of a knot as a fraction; nothing without knots.
pub fn knot_preview_fraction(
    selected_knot: u32,
    knot_count: u32,
    uses_volume_keys: bool,
) -> (r: Option<(u32, u32)>)
    ensures
        match r {
            Some(f) => preview_fraction(selected_knot, knot_count, uses_volume_keys) == Some(
                (f.0 as int, f.1 as int),
            ) && f.1 > 0 && f.0 <= f.1,
            None => preview_fraction(selected_knot, knot_count, uses_volume_keys) is None,
        },
{
    if knot_count == 0 {
        return None;
    }
    let knot: u32 = if selected_knot < knot_count - 1 {
        selected_knot
    } else {
        knot_count - 1
    };
    let denominator: u32 = if uses_volume_keys {
        if knot_count - 1 < 1 {
            1
        } else {
            knot_count - 1
        }
    } else {
        knot_count
    };
    Some((knot, denominator))
}

/// The time at which a knot is compared with the volume, as a fraction: among the keys of the
/// volume that the motion was fitted to, where there are several, else the time of the knot.
pub fn volume_comparison_fraction(sizes: CatmullRomRuntimeSizes, selected_knot: u32) -> (r: Option<
    (u32, u32),
>)
    ensures
        if sizes.source_volume_key_count > 1 {
            r == Some(
                (
                    (if sizes.volume_comparison_knot_count == 0 {
                        0u32
                    } else if selected_knot < sizes.volume_comparison_knot_count - 1 {
                        selected_knot
                    } else {
                        (sizes.volume_comparison_knot_count - 1) as u32
                    }),
                    (sizes.source_volume_key_count - 1) as u32,
                ),
            )
        } else {
            match r {
                Some(f) => preview_fraction(
                    selected_knot,
                    sizes.knot_count,
                    sizes.time_sampling == 1,
                ) == Some((f.0 as int, f.1 as int)),
                None => sizes.knot_count == 0,
            }
        },
{
    if sizes.source_volume_key_count > 1 {
        let last: u32 = if sizes.volume_comparison_knot_count == 0 {
            0
        } else {
            sizes.volume_comparison_knot_count - 1
        };
        let knot: u32 = if selected_knot < last {
            selected_knot
        } else {
            last
        };
        Some((knot, sizes.source_volume_key_count - 1))
    } else {
        knot_preview_fraction(selected_knot, sizes.knot_count, sizes.time_sampling == 1)
    }
}

/// Rows of a knot texture, with sixteen bytes for each texel, that are uploaded together: at least
/// one.
pub open spec fn chunk_rows(width: u32) -> int {
    let rows = MAX_KNOT_TEXTURE_UPLOAD_BYTES as int / (16 * width);
    if rows < 1 {
        1
    } else {
        rows
    }
}

/// Rows of a knot texture that are uploaded together.
pub fn knot_chunk_rows(width: u32) -> (r: u32)
    requires
        width > 0,
    ensures
        r == chunk_rows(width),
        r >= 1,
{
    let row_bytes: u64 = 16 * width as u64;
    let rows: u64 = MAX_KNOT_TEXTURE_UPLOAD_BYTES / row_bytes;
    proof {
        vstd::arithmetic::div_mod::lemma_fundamental_div_mod(
            MAX_KNOT_TEXTURE_UPLOAD_BYTES as int,
            row_bytes as int,
        );
        assert(rows <= MAX_KNOT_TEXTURE_UPLOAD_BYTES) by (nonlinear_arith)
            requires
                MAX_KNOT_TEXTURE_UPLOAD_BYTES == row_bytes * rows + MAX_KNOT_TEXTURE_UPLOAD_BYTES
                    as int % row_bytes as int,
                MAX_KNOT_TEXTURE_UPLOAD_BYTES as int % row_bytes as int >= 0,
                row_bytes >= 1,
        ;
    }
    if rows < 1 {
        1
    } else {
        rows as u32
    }
}

/// The uploads of a texture: rows `i * per_chunk` on, `per_chunk` of them or what is left.
pub open spec fn are_uploads(uploads: Seq<(u32, u32)>, height: int, per_chunk: int) -> bool {
    &&& forall|i: int|
        0 <= i < uploads.len() ==> (#[trigger] uploads[i]).0 == i * per_chunk && uploads[i].1
            == crate::deformation_gpu::chunk_samples_from(i * per_chunk, height, per_chunk)
    &&& uploads.len() * per_chunk >= height
    &&& uploads.len() > 0 ==> (uploads.len() - 1) * per_chunk < height
}

/// Splits a texture into uploads: first row and number of rows of each.
pub fn knot_uploads(layout: KnotTextureLayout) -> (r: Vec<(u32, u32)>)
    requires
        layout.width > 0,
    ensures
        are_uploads(r@, layout.height as int, chunk_rows(layout.width)),
{
    let per_chunk: u32 = knot_chunk_rows(layout.width);
    let height: u32 = layout.height;
    let mut uploads: Vec<(u32, u32)> = Vec::new();
    let mut row: u32 = 0;
    proof {
        assert(0 * per_chunk == 0);
    }
    while row < height
        invariant
            row <= height,
            per_chunk >= 1,
            forall|i: int|
                0 <= i < uploads@.len() ==> (#[trigger] uploads@[i]).0 == i * per_chunk
                    && uploads@[i].1 == crate::deformation_gpu::chunk_samples_from(
                    i * per_chunk,
                    height as int,
                    per_chunk as int,
                ),
            row < height ==> row == uploads@.len() * per_chunk,
            uploads@.len() * per_chunk >= row,
            uploads@.len() > 0 ==> (uploads@.len() - 1) * per_chunk < height,
        decreases height - row,
    {
        let left: u32 = height - row;
        let count: u32 = if left < per_chunk {
            left
        } else {
            per_chunk
        };
        proof {
            assert((uploads@.len() + 1) * per_chunk == uploads@.len() * per_chunk + per_chunk)
                by (nonlinear_arith);
        }
        uploads.push((row, count));
        row = row + count;
    }
    uploads
}

/// The texel of a knot: its three numbers and a zero; zeros behind the last knot.
pub open spec fn knot_texel(knots: Seq<u32>, total: int, flat: int) -> Seq<u32> {
    if flat < total {
        seq![
            knots[3 * flat],
            knots[3 * flat + 1],
            knots[3 * flat + 2],
            crate::float_bits::ZERO,
        ]
    } else {
        seq![
            crate::float_bits::ZERO,
            crate::float_bits::ZERO,
            crate::float_bits::ZERO,
            crate::float_bits::ZERO,
        ]
    }
}

/// Checks that there are as many knots as a layout has room for.
pub fn check_knot_data(
    layout: KnotTextureLayout,
    knots: usize,
) -> (r: Result<(), CatmullRomGpuError>)
    ensures
        r == if knots == layout.total_knots * 3 {
            Ok(())
        } else {
            Err::<(), CatmullRomGpuError>(
                CatmullRomGpuError::KnotData {
                    found: knots,
                    expected: crate::basis_bank_edit::saturated(layout.total_knots * 3) as usize,
                },
            )
        },
{
    let expected: u64 = layout.total_knots as u64 * 3;
    if knots as u64 != expected {
        return Err(
            CatmullRomGpuError::KnotData {
                found: knots,
                expected: crate::basis_bank_edit::saturating_product(
                    layout.total_knots as usize,
                    3,
                ),
            },
        );
    }
    Ok(())
}

/// The texels of an upload.
pub fn knot_texels(knots: &[u32], layout: KnotTextureLayout, first_row: u32, rows: u32) -> (r: Vec<
    [u32; 4],
>)
    requires
        knots@.len() == layout.total_knots * 3,
        (first_row + rows) * layout.width <= usize::MAX,
    ensures
        r@.len() == rows * layout.width,
        forall|i: int|
            0 <= i < r@.len() ==> (#[trigger] r@[i])@ == knot_texel(
                knots@,
                layout.total_knots as int,
                first_row * layout.width + i,
            ),
{
    let total: usize = knots.len();
    let width: usize = layout.width as usize;
    proof {
        assert((first_row + rows) * layout.width == first_row * layout.width + rows * layout.width)
            by (nonlinear_arith);
        assert(0 <= first_row * layout.width && 0 <= rows * layout.width) by (nonlinear_arith);
    }
    let start: usize = first_row as usize * width;
    let count: usize = rows as usize * width;
    let mut texels: Vec<[u32; 4]> = Vec::new();
    for i in 0..count
        invariant
            total == knots@.len(),
            knots@.len() == layout.total_knots * 3,
            start == first_row * layout.width,
            start + count <= usize::MAX,
            texels@.len() == i,
            forall|k: int|
                0 <= k < i ==> (#[trigger] texels@[k])@ == knot_texel(
                    knots@,
                    layout.total_knots as int,
                    first_row * layout.width + k,
                ),
    {
        let flat: usize = start + i;
        let texel: [u32; 4] = if flat < layout.total_knots as usize {
            [
                knots[3 * flat],
                knots[3 * flat + 1],
                knots[3 * flat + 2],
                crate::float_bits::ZERO,
            ]
        } else {
            [
                crate::float_bits::ZERO,
                crate::float_bits::ZERO,
                crate::float_bits::ZERO,
                crate::float_bits::ZERO,
            ]
        };
        assert(texel@ =~= knot_texel(knots@, layout.total_knots as int, flat as int));
        texels.push(texel);
    }
    texels
}

/// What is compared with the volume.
#[derive(Debug, Clone, Copy, PartialEq, Eq, Structural)]
pub enum MotionCompatibilityScope {
    SelectedKnot,
    AllKnots,
}

/// How a comparison is spread over workgroups and sampled. Sizes are in bytes.
#[derive(Debug, Clone, Copy, PartialEq, Eq, Structural)]
pub struct ComparisonPlan {
    pub item_count: u32,
    pub partial_count: u32,
    pub sample_stride: u32,
    pub sample_count: u32,
    pub partial_bytes: u64,
    pub sample_bytes: u64,
}

impl ComparisonPlan {
    /// Bytes that are read back.
    pub fn readback_bytes(&self) -> (r: u64)
        requires
            self.partial_bytes + self.sample_bytes <= u64::MAX,
        ensures
            r == self.partial_bytes + self.sample_bytes,
    {
        self.partial_bytes + self.sample_bytes
    }
}

/// One partial result for each workgroup, and at most so many samples as are allowed, evenly
/// spaced.
pub open spec fn is_plan(plan: ComparisonPlan, items: u32, partial_size: u64) -> bool {
    &&& plan.item_count == items
    &&& plan.partial_count == ceiling(items as int, WORKGROUP_SIZE as int)
    &&& plan.sample_stride == ceiling(items as int, MAX_COMPATIBILITY_SAMPLE_ERRORS as int)
    &&& plan.sample_count == ceiling(items as int, plan.sample_stride as int)
    &&& plan.partial_bytes == plan.partial_count * partial_size
    &&& plan.sample_bytes == plan.sample_count * 4
}

fn plan_items(items: u32, partial_size: u64) -> (r: ComparisonPlan)
    requires
        items > 0,
        partial_size <= 64,
    ensures
        is_plan(r, items, partial_size),
        r.sample_stride >= 1,
        r.partial_bytes + r.sample_bytes <= u64::MAX,
{
    let partial_count: u32 = workgroup_count(items);
    let sample_stride: u32 = ceil_div(items, MAX_COMPATIBILITY_SAMPLE_ERRORS);
    let sample_count: u32 = ceil_div(items, sample_stride);
    proof {
        ceiling_is(items as int, WORKGROUP_SIZE as int, partial_count as int);
        ceiling_is(items as int, MAX_COMPATIBILITY_SAMPLE_ERRORS as int, sample_stride as int);
        ceiling_is(items as int, sample_stride as int, sample_count as int);
        assert(partial_count * partial_size <= partial_count * 64) by (nonlinear_arith)
            requires
                partial_size <= 64,
        ;
    }
    ComparisonPlan {
        item_count: items,
        partial_count,
        sample_stride,
        sample_count,
        partial_bytes: partial_count as u64 * partial_size,
        sample_bytes: sample_count as u64 * 4,
    }
}

/// A comparison takes at most so many samples as are allowed.
pub proof fn comparisons_keep_the_sample_limit(plan: ComparisonPlan, items: u32, partial_size: u64)
    requires
        items > 0,
        is_plan(plan, items, partial_size),
    ensures
        1 <= plan.sample_count <= MAX_COMPATIBILITY_SAMPLE_ERRORS,
        plan.sample_stride >= 1,
        plan.sample_count * plan.sample_stride >= items,
{
    let limit = MAX_COMPATIBILITY_SAMPLE_ERRORS as int;
    let n = items as int;
    let stride = plan.sample_stride as int;
    let count = plan.sample_count as int;
    vstd::arithmetic::div_mod::lemma_fundamental_div_mod(n, limit);
    vstd::arithmetic::div_mod::lemma_mod_bound(n, limit);
    assert(stride >= 1 && stride * limit >= n);
    vstd::arithmetic::div_mod::lemma_fundamental_div_mod(n, stride);
    vstd::arithmetic::div_mod::lemma_mod_bound(n, stride);
    let q = n / stride;
    assert(count * stride >= n && 1 <= count <= limit) by (nonlinear_arith)
        requires
            count == if n % stride > 0 {
                q + 1
            } else {
                q
            },
            n == stride * q + n % stride,
            0 <= n % stride < stride,
            n > 0,
            stride >= 1,
            stride * limit >= n,
    ;
}

/// The knots that a comparison covers, and the knot that is selected.
pub open spec fn compared_knots(sizes: CatmullRomRuntimeSizes, selected: u32) -> (u32, u32) {
    let wanted = if sizes.volume_comparison_knot_count < 1 {
        1u32
    } else {
        sizes.volume_comparison_knot_count
    };
    let knots = if wanted < sizes.knot_count {
        wanted
    } else {
        sizes.knot_count
    };
    let last = if knots == 0 {
        0u32
    } else {
        (knots - 1) as u32
    };
    (
        knots,
        if selected < last {
            selected
        } else {
            last
        },
    )
}

/// Items that are compared, or why nothing is.
pub open spec fn compared_items(
    sizes: CatmullRomRuntimeSizes,
    volume: Option<(u32, u32)>,
    scope: MotionCompatibilityScope,
    selected: u32,
) -> Result<u32, CatmullRomGpuError> {
    let items = if scope == MotionCompatibilityScope::AllKnots {
        sizes.splat_count * compared_knots(sizes, selected).0
    } else {
        sizes.splat_count as int
    };
    match volume {
        None => Err(CatmullRomGpuError::NoVolume),
        Some((res, keys)) => if keys == 0 || res < 2 {
            Err(CatmullRomGpuError::VolumeSize)
        } else if items > u32::MAX {
            Err(CatmullRomGpuError::ItemOverflow)
        } else if items == 0 {
            Err(CatmullRomGpuError::NoCompatibilityItems)
        } else {
            Ok(items as u32)
        },
    }
}

/// A comparison with a volume: the knots it covers, the knot that is selected and its plan.
#[derive(Debug, Clone, Copy, PartialEq, Eq, Structural)]
pub struct CompatibilityPlan {
    pub comparison_knot_count: u32,
    pub selected_knot: u32,
    pub plan: ComparisonPlan,
}

/// Plans the comparison of knots with a volume of the given resolution and number of keys.
pub fn plan_compatibility(
    sizes: CatmullRomRuntimeSizes,
    volume: Option<(u32, u32)>,
    scope: MotionCompatibilityScope,
    selected_knot: u32,
) -> (r: Result<CompatibilityPlan, CatmullRomGpuError>)
    ensures
        match r {
            Ok(p) => {
                &&& compared_items(sizes, volume, scope, selected_knot) == Ok::<
                    u32,
                    CatmullRomGpuError,
                >(p.plan.item_count)
                &&& (p.comparison_knot_count, p.selected_knot) == compared_knots(
                    sizes,
                    selected_knot,
                )
                &&& is_plan(p.plan, p.plan.item_count, COMPATIBILITY_PARTIAL_BYTES)
                &&& p.plan.partial_bytes + p.plan.sample_bytes <= u64::MAX
            },
            Err(error) => compared_items(sizes, volume, scope, selected_knot) == Err::<
                u32,
                CatmullRomGpuError,
            >(error),
        },
{
    match volume {
        None => {
            return Err(CatmullRomGpuError::NoVolume);
        },
        Some((res, keys)) => {
            if keys == 0 || res < 2 {
                return Err(CatmullRomGpuError::VolumeSize);
            }
        },
    }
    let wanted: u32 = if sizes.volume_comparison_knot_count < 1 {
        1
    } else {
        sizes.volume_comparison_knot_count
    };
    let knots: u32 = if wanted < sizes.knot_count {
        wanted
    } else {
        sizes.knot_count
    };
    let last: u32 = if knots == 0 {
        0
    } else {
        knots - 1
    };
    let selected: u32 = if selected_knot < last {
        selected_knot
    } else {
        last
    };
    let items: u32 = match scope {
        MotionCompatibilityScope::AllKnots => match sizes.splat_count.checked_mul(knots) {
            Some(items) => items,
            None => {
                return Err(CatmullRomGpuError::ItemOverflow);
            },
        },
        MotionCompatibilityScope::SelectedKnot => sizes.splat_count,
    };
    if items == 0 {
        return Err(CatmullRomGpuError::NoCompatibilityItems);
    }
    Ok(
        CompatibilityPlan {
            comparison_knot_count: knots,
            selected_knot: selected,
            plan: plan_items(items, COMPATIBILITY_PARTIAL_BYTES),
        },
    )
}

/// Plans the comparison of final positions.
pub fn plan_texture_comparison(splat_count: u32) -> (r: Result<ComparisonPlan, CatmullRomGpuError>)
    ensures
        match r {
            Ok(plan) => {
                &&& splat_count > 0
                &&& is_plan(plan, splat_count, TEXTURE_PARTIAL_BYTES)
                &&& plan.partial_bytes + plan.sample_bytes <= u64::MAX
            },
            Err(error) => splat_count == 0 && error == CatmullRomGpuError::NoTextureItems,
        },
{
    if splat_count == 0 {
        return Err(CatmullRomGpuError::NoTextureItems);
    }
    Ok(plan_items(splat_count, TEXTURE_PARTIAL_BYTES))
}

/// The words of the uniform of a comparison with a volume.
pub fn compatibility_uniform(
    p: CompatibilityPlan,
    sizes: CatmullRomRuntimeSizes,
    knot_texture_width: u32,
    scope: MotionCompatibilityScope,
) -> (r: [u32; 12])
    ensures
        r@ == seq![
            p.plan.item_count,
            sizes.splat_count,
            sizes.knot_count,
            knot_texture_width,
            p.selected_knot,
            if scope == MotionCompatibilityScope::AllKnots {
                1u32
            } else {
                0u32
            },
            p.plan.sample_stride,
            p.plan.sample_count,
            p.comparison_knot_count,
            sizes.source_volume_key_count,
            0u32,
            0u32,
        ],
{
    let compare_all: u32 = match scope {
        MotionCompatibilityScope::AllKnots => 1,
        MotionCompatibilityScope::SelectedKnot => 0,
    };
    let r: [u32; 12] = [
        p.plan.item_count,
        sizes.splat_count,
        sizes.knot_count,
        knot_texture_width,
        p.selected_knot,
        compare_all,
        p.plan.sample_stride,
        p.plan.sample_count,
        p.comparison_knot_count,
        sizes.source_volume_key_count,
        0,
        0,
    ];
    assert(r@ =~= seq![
        p.plan.item_count,
        sizes.splat_count,
        sizes.knot_count,
        knot_texture_width,
        p.selected_knot,
        compare_all,
        p.plan.sample_stride,
        p.plan.sample_count,
        p.comparison_knot_count,
        sizes.source_volume_key_count,
        0u32,
        0u32,
    ]);
    r
}

/// The words of the uniform of a comparison of positions.
pub fn texture_compare_uniform(
    plan: ComparisonPlan,
    splat_count: u32,
    texture_width: u32,
) -> (r: [u32; 8])
    ensures
        r@ == seq![
            plan.item_count,
            splat_count,
            texture_width,
            plan.sample_stride,
            plan.sample_count,
            0u32,
            0u32,
            0u32,
        ],
{
    let r: [u32; 8] = [
        plan.item_count,
        splat_count,
        texture_width,
        plan.sample_stride,
        plan.sample_count,
        0,
        0,
        0,
    ];
    assert(r@ =~= seq![
        plan.item_count,
        splat_count,
        texture_width,
        plan.sample_stride,
        plan.sample_count,
        0u32,
        0u32,
        0u32,
    ]);
    r
}

/// What a workgroup found. Sums and magnitudes are bit patterns; `first` is the motion and `second`
/// the volume.
#[derive(Debug, Clone, Copy, PartialEq, Eq, Structural)]
pub struct PartialStats {
    pub count: u32,
    pub worst_item: u32,
    pub nonzero_error_count: u32,
    pub nonzero_first_count: u32,
    pub nonzero_second_count: u32,
    pub sum_error: u32,
    pub sum_error_sq: u32,
    pub max_error: u32,
    pub sum_first_magnitude: u32,
    pub max_first_magnitude: u32,
    pub sum_second_magnitude: u32,
    pub max_second_magnitude: u32,
}

impl PartialStats {
    /// The result of a workgroup of a comparison with a volume, out of its sixteen words.
    pub fn from_compatibility_words(w: &[u32; 16]) -> (r: PartialStats)
        ensures
            r == (PartialStats {
                count: w@[0],
                worst_item: w@[1],
                nonzero_error_count: w@[2],
                nonzero_first_count: w@[3],
                nonzero_second_count: w@[4],
                sum_error: w@[8],
                sum_error_sq: w@[9],
                max_error: w@[10],
                sum_first_magnitude: w@[11],
                max_first_magnitude: w@[12],
                sum_second_magnitude: w@[13],
                max_second_magnitude: w@[14],
            }),
    {
        PartialStats {
            count: w[0],
            worst_item: w[1],
            nonzero_error_count: w[2],
            nonzero_first_count: w[3],
            nonzero_second_count: w[4],
            sum_error: w[8],
            sum_error_sq: w[9],
            max_error: w[10],
            sum_first_magnitude: w[11],
            max_first_magnitude: w[12],
            sum_second_magnitude: w[13],
            max_second_magnitude: w[14],
        }
    }

    /// The result of a workgroup of a comparison of positions, out of its twelve words.
    pub fn from_texture_words(w: &[u32; 12]) -> (r: PartialStats)
        ensures
            r == (PartialStats {
                count: w@[0],
                worst_item: w@[1],
                nonzero_error_count: w@[2],
                nonzero_first_count: 0,
                nonzero_second_count: 0,
                sum_error: w@[4],
                sum_error_sq: w@[5],
                max_error: w@[6],
                sum_first_magnitude: w@[7],
                max_first_magnitude: w@[8],
                sum_second_magnitude: w@[9],
                max_second_magnitude: w@[10],
            }),
    {
        PartialStats {
            count: w[0],
            worst_item: w[1],
            nonzero_error_count: w[2],
            nonzero_first_count: 0,
            nonzero_second_count: 0,
            sum_error: w[4],
            sum_error_sq: w[5],
            max_error: w[6],
            sum_first_magnitude: w[7],
            max_first_magnitude: w[8],
            sum_second_magnitude: w[9],
            max_second_magnitude: w[10],
        }
    }
}

/// What the workgroups found together: counts, the greatest error with its item, and the greatest
/// magnitudes.
#[derive(Debug, Clone, Copy, PartialEq, Eq, Structural)]
pub struct ComparisonTotals {
    pub count: u64,
    pub nonzero_error_count: u64,
    pub nonzero_first_count: u64,
    pub nonzero_second_count: u64,
    pub max_error: u32,
    pub worst_item: u32,
    pub max_first_magnitude: u32,
    pub max_second_magnitude: u32,
}

/// The greater of two numbers, the first if the second is none.
pub open spec fn greater(a: u32, b: u32) -> u32 {
    if crate::float_bits::less(a, b) || (crate::float_bits::nan(a) && !crate::float_bits::nan(b)) {
        b
    } else {
        a
    }
}

fn greater_of(a: u32, b: u32) -> (r: u32)
    ensures
        r == greater(a, b),
{
    if crate::float_bits::is_less(a, b) || (crate::float_bits::is_nan(a)
        && !crate::float_bits::is_nan(b)) {
        b
    } else {
        a
    }
}

/// What the first `n` workgroups found together.
pub open spec fn totals_of(partials: Seq<PartialStats>, n: nat) -> ComparisonTotals
    decreases n,
{
    if n == 0 {
        ComparisonTotals {
            count: 0,
            nonzero_error_count: 0,
            nonzero_first_count: 0,
            nonzero_second_count: 0,
            max_error: crate::float_bits::ZERO,
            worst_item: 0,
            max_first_magnitude: crate::float_bits::ZERO,
            max_second_magnitude: crate::float_bits::ZERO,
        }
    } else {
        let t = totals_of(partials, (n - 1) as nat);
        let p = partials[n - 1];
        let worse = crate::float_bits::less(t.max_error, p.max_error);
        ComparisonTotals {
            count: (t.count + p.count) as u64,
            nonzero_error_count: (t.nonzero_error_count + p.nonzero_error_count) as u64,
            nonzero_first_count: (t.nonzero_first_count + p.nonzero_first_count) as u64,
            nonzero_second_count: (t.nonzero_second_count + p.nonzero_second_count) as u64,
            max_error: if worse {
                p.max_error
            } else {
                t.max_error
            },
            worst_item: if worse {
                p.worst_item
            } else {
                t.worst_item
            },
            max_first_magnitude: greater(t.max_first_magnitude, p.max_first_magnitude),
            max_second_magnitude: greater(t.max_second_magnitude, p.max_second_magnitude),
        }
    }
}

/// Puts together what the workgroups found.
pub fn reduce_partials(partials: &[PartialStats]) -> (r: ComparisonTotals)
    requires
        partials@.len() <= u32::MAX,
    ensures
        r == totals_of(partials@, partials@.len()),
{
    let mut t: ComparisonTotals = ComparisonTotals {
        count: 0,
        nonzero_error_count: 0,
        nonzero_first_count: 0,
        nonzero_second_count: 0,
        max_error: crate::float_bits::ZERO,
        worst_item: 0,
        max_first_magnitude: crate::float_bits::ZERO,
        max_second_magnitude: crate::float_bits::ZERO,
    };
    for i in 0..partials.len()
        invariant
            partials@.len() <= u32::MAX,
            t == totals_of(partials@, i as nat),
            t.count <= i * u32::MAX,
            t.nonzero_error_count <= i * u32::MAX,
            t.nonzero_first_count <= i * u32::MAX,
            t.nonzero_second_count <= i * u32::MAX,
    {
        let p: PartialStats = partials[i];
        let worse: bool = crate::float_bits::is_less(t.max_error, p.max_error);
        t = ComparisonTotals {
            count: t.count + p.count as u64,
            nonzero_error_count: t.nonzero_error_count + p.nonzero_error_count as u64,
            nonzero_first_count: t.nonzero_first_count + p.nonzero_first_count as u64,
            nonzero_second_count: t.nonzero_second_count + p.nonzero_second_count as u64,
            max_error: if worse {
                p.max_error
            } else {
                t.max_error
            },
            worst_item: if worse {
                p.worst_item
            } else {
                t.worst_item
            },
            max_first_magnitude: greater_of(t.max_first_magnitude, p.max_first_magnitude),
            max_second_magnitude: greater_of(t.max_second_magnitude, p.max_second_magnitude),
        };
    }
    t
}

/// The knot and splat of the worst item.
pub open spec fn worst_of(
    scope: MotionCompatibilityScope,
    item: u32,
    splats: u32,
    selected: u32,
) -> (u32, u32) {
    let row = if splats < 1 {
        1u32
    } else {
        splats
    };
    match scope {
        MotionCompatibilityScope::AllKnots => (item / row, item % row),
        MotionCompatibilityScope::SelectedKnot => (selected, item),
    }
}

pub fn worst_knot_and_splat(
    scope: MotionCompatibilityScope,
    item: u32,
    splats: u32,
    selected: u32,
) -> (r: (u32, u32))
    ensures
        r == worst_of(scope, item, splats, selected),
{
    let row: u32 = if splats < 1 {
        1
    } else {
        splats
    };
    match scope {
        MotionCompatibilityScope::AllKnots => (item / row, item % row),
        MotionCompatibilityScope::SelectedKnot => (selected, item),
    }
}

/// A splat number within the scene.
pub fn worst_splat_within(item: u32, splats: u32) -> (r: u32)
    ensures
        r == if splats == 0 {
            0
        } else if item < splats - 1 {
            item as int
        } else {
            splats - 1
        },
{
    let last: u32 = if splats == 0 {
        0
    } else {
        splats - 1
    };
    if item < last {
        item
    } else {
        last
    }
}

pub open spec fn is_finite_bits() -> spec_fn(u32) -> bool {
    |bits: u32| crate::float_bits::finite(bits)
}

/// The samples that are finite.
pub fn finite_samples(samples: &[u32]) -> (r: Vec<u32>)
    ensures
        r@ == samples@.filter(is_finite_bits()),
{
    let mut out: Vec<u32> = Vec::new();
    proof {
        reveal(Seq::filter);
        assert(samples@.take(0) =~= Seq::empty());
    }
    for i in 0..samples.len()
        invariant
            out@ == samples@.take(i as int).filter(is_finite_bits()),
    {
        proof {
            assert(samples@.take(i + 1) =~= samples@.take(i as int).push(samples@[i as int]));
            samples@.take(i as int).lemma_filter_push(samples@[i as int], is_finite_bits());
        }
        if crate::float_bits::is_finite(samples[i]) {
            out.push(samples[i]);
        }
    }
    assert(samples@.take(samples@.len() as int) =~= samples@);
    out
}

/// The sample at a place of the samples in ascending order, the last beyond their end; zero without
/// samples.
pub fn sample_at_rank(samples: &Vec<u32>, rank: usize) -> (r: u32)
    ensures
        samples@.len() == 0 ==> r == crate::float_bits::ZERO,
        samples@.len() > 0 ==> exists|order: Seq<usize>|
            {
                &&& #[trigger] crate::ordering::is_smallest_first(order, samples@)
                &&& r == samples@[order[if rank < samples@.len() {
                    rank as int
                } else {
                    samples@.len() - 1
                }] as int]
            },
{
    let total: usize = samples.len();
    if total == 0 {
        return crate::float_bits::ZERO;
    }
    let order: Vec<usize> = order_ascending(samples.as_slice());
    let at: usize = if rank < total {
        rank
    } else {
        total - 1
    };
    assert(crate::ordering::is_smallest_first(order@, samples@));
    samples[order[at]]
}

} // verus!
