//! Regions of a scene that choose branches independently of each other.

use vstd::prelude::*;

verus! {

/// Where branches are chosen: once for a basis, or once for a basis in each region.
#[derive(Clone, Copy, Debug, PartialEq, Eq, Structural)]
pub enum BasisGraphBranchDomain {
    GlobalBasis,
    FbmRegions,
}

impl BasisGraphBranchDomain {
    /// Both domains, in the order they are offered.
    pub fn all() -> (r: [BasisGraphBranchDomain; 2])
        ensures
            r[0] == BasisGraphBranchDomain::GlobalBasis,
            r[1] == BasisGraphBranchDomain::FbmRegions,
    {
        [BasisGraphBranchDomain::GlobalBasis, BasisGraphBranchDomain::FbmRegions]
    }

    pub open spec fn label(self) -> Seq<char> {
        match self {
            BasisGraphBranchDomain::GlobalBasis => "Global"@,
            BasisGraphBranchDomain::FbmRegions => "Spatial Variation"@,
        }
    }

    pub fn as_str(self) -> (r: &'static str)
        ensures
            r@ == self.label(),
    {
        match self {
            BasisGraphBranchDomain::GlobalBasis => "Global",
            BasisGraphBranchDomain::FbmRegions => "Spatial Variation",
        }
    }
}

/// Bit pattern of the default region size, `8.0`.
pub const DEFAULT_REGION_SIZE: u32 = 0x4100_0000;

/// Bit pattern of the smallest region size, `0.001`.
pub const MIN_REGION_SIZE: u32 = 0x3a83_126f;

/// Bit pattern of the default warp strength, `0.35`.
pub const DEFAULT_WARP: u32 = 0x3eb3_3333;

/// Bit pattern of the greatest warp strength, `4.0`.
pub const MAX_WARP: u32 = 0x4080_0000;

/// How a scene is divided into regions. Size and warp strength are bit patterns.
#[derive(Clone, Copy, Debug)]
pub struct BasisGraphRegionConfig {
    pub domain: BasisGraphBranchDomain,
    pub region_count: u32,
    pub region_size_world: u32,
    pub octaves: u32,
    pub warp_strength: u32,
    pub seed: u32,
}

pub const MAX_REGION_COUNT: u32 = 64;

pub open spec fn default_region_config() -> BasisGraphRegionConfig {
    BasisGraphRegionConfig {
        domain: BasisGraphBranchDomain::GlobalBasis,
        region_count: 8,
        region_size_world: DEFAULT_REGION_SIZE,
        octaves: 2,
        warp_strength: DEFAULT_WARP,
        seed: 13,
    }
}

impl Default for BasisGraphRegionConfig {
    fn default() -> (r: BasisGraphRegionConfig)
        ensures
            r == default_region_config(),
    {
        BasisGraphRegionConfig {
            domain: BasisGraphBranchDomain::GlobalBasis,
            region_count: 8,
            region_size_world: DEFAULT_REGION_SIZE,
            octaves: 2,
            warp_strength: DEFAULT_WARP,
            seed: 13,
        }
    }
}

pub open spec fn between(v: u32, low: u32, high: u32) -> u32 {
    if v < low {
        low
    } else if v > high {
        high
    } else {
        v
    }
}

fn clamp_to(v: u32, low: u32, high: u32) -> (r: u32)
    ensures
        r == between(v, low, high),
{
    if v < low {
        low
    } else if v > high {
        high
    } else {
        v
    }
}

impl BasisGraphRegionConfig {
    /// The configuration with every value in its range.
    pub open spec fn in_range(self) -> BasisGraphRegionConfig {
        BasisGraphRegionConfig {
            domain: self.domain,
            region_count: between(self.region_count, 1, MAX_REGION_COUNT),
            region_size_world: if !crate::float_bits::finite(self.region_size_world) {
                DEFAULT_REGION_SIZE
            } else if crate::float_bits::less(self.region_size_world, MIN_REGION_SIZE) {
                MIN_REGION_SIZE
            } else {
                self.region_size_world
            },
            octaves: between(self.octaves, 1, 4),
            warp_strength: if !crate::float_bits::finite(self.warp_strength) {
                DEFAULT_WARP
            } else {
                crate::float_bits::clamped(self.warp_strength, crate::float_bits::ZERO, MAX_WARP)
            },
            seed: self.seed,
        }
    }

    pub fn sanitized(self) -> (r: BasisGraphRegionConfig)
        ensures
            r == self.in_range(),
    {
        BasisGraphRegionConfig {
            domain: self.domain,
            region_count: clamp_to(self.region_count, 1, MAX_REGION_COUNT),
            region_size_world: if !crate::float_bits::is_finite(self.region_size_world) {
                DEFAULT_REGION_SIZE
            } else if crate::float_bits::is_less(self.region_size_world, MIN_REGION_SIZE) {
                MIN_REGION_SIZE
            } else {
                self.region_size_world
            },
            octaves: clamp_to(self.octaves, 1, 4),
            warp_strength: if !crate::float_bits::is_finite(self.warp_strength) {
                DEFAULT_WARP
            } else {
                crate::float_bits::clamp(self.warp_strength, crate::float_bits::ZERO, MAX_WARP)
            },
            seed: self.seed,
        }
    }

    pub open spec fn region_total(self) -> u32 {
        match self.domain {
            BasisGraphBranchDomain::GlobalBasis => 1,
            BasisGraphBranchDomain::FbmRegions => between(self.region_count, 1, MAX_REGION_COUNT),
        }
    }

    /// Regions that are told apart: one unless the scene is divided.
    pub fn effective_region_count(self) -> (r: u32)
        ensures
            r == self.region_total(),
            1 <= r <= MAX_REGION_COUNT,
    {
        let config: BasisGraphRegionConfig = self.sanitized();
        match config.domain {
            BasisGraphBranchDomain::GlobalBasis => 1,
            BasisGraphBranchDomain::FbmRegions => config.region_count,
        }
    }

    /// Equal as values: numbers compare by value, not by bit pattern.
    pub open spec fn same_config(self, other: BasisGraphRegionConfig) -> bool {
        &&& self.domain == other.domain
        &&& self.region_count == other.region_count
        &&& crate::float_bits::same_value(self.region_size_world, other.region_size_world)
        &&& self.octaves == other.octaves
        &&& crate::float_bits::same_value(self.warp_strength, other.warp_strength)
        &&& self.seed == other.seed
    }

    pub fn equals(self, other: BasisGraphRegionConfig) -> (r: bool)
        ensures
            r == self.same_config(other),
    {
        self.domain == other.domain && self.region_count == other.region_count
            && crate::float_bits::is_same_value(self.region_size_world, other.region_size_world)
            && self.octaves == other.octaves && crate::float_bits::is_same_value(
            self.warp_strength,
            other.warp_strength,
        ) && self.seed == other.seed
    }
}

impl PartialEq for BasisGraphRegionConfig {
    /// Numbers compare by value, not by bit pattern.
    fn eq(&self, other: &BasisGraphRegionConfig) -> (r: bool) {
        self.equals(*other)
    }
}

impl vstd::std_specs::cmp::PartialEqSpecImpl for BasisGraphRegionConfig {
    open spec fn obeys_eq_spec() -> bool {
        true
    }

    open spec fn eq_spec(&self, other: &BasisGraphRegionConfig) -> bool {
        self.same_config(*other)
    }
}

/// Bringing a configuration into range twice is the same as once, and changes neither the number of
/// regions nor a configuration that is in range.
pub proof fn sanitizing_is_idempotent(config: BasisGraphRegionConfig)
    ensures
        config.in_range().in_range() == config.in_range(),
        config.in_range().region_total() == config.region_total(),
        1 <= config.in_range().region_count <= MAX_REGION_COUNT,
        1 <= config.in_range().octaves <= 4,
        crate::float_bits::finite(config.in_range().region_size_world),
        crate::float_bits::less(crate::float_bits::ZERO, config.in_range().region_size_world),
        crate::float_bits::finite(config.in_range().warp_strength),
{
}

/// The place of a region's basis: row-major by region, then basis.
pub open spec fn state_index(
    region_id: usize,
    basis_id: usize,
    basis_count: usize,
) -> Option<usize> {
    if basis_count == 0 || basis_id >= basis_count || region_id * basis_count + basis_id
        > usize::MAX {
        None
    } else {
        Some((region_id * basis_count + basis_id) as usize)
    }
}

/// The place of a region's basis among all playback states.
pub fn graph_state_index(
    region_id: usize,
    basis_id: usize,
    global_basis_count: usize,
) -> (r: Option<usize>)
    ensures
        r == state_index(region_id, basis_id, global_basis_count),
{
    if global_basis_count == 0 || basis_id >= global_basis_count {
        return None;
    }
    match region_id.checked_mul(global_basis_count) {
        Some(base) => base.checked_add(basis_id),
        None => None,
    }
}

/// Different bases and regions have different places.
pub proof fn state_index_is_injective(
    region_a: usize,
    basis_a: usize,
    region_b: usize,
    basis_b: usize,
    basis_count: usize,
)
    requires
        state_index(region_a, basis_a, basis_count) is Some,
        state_index(region_a, basis_a, basis_count) == state_index(region_b, basis_b, basis_count),
    ensures
        region_a == region_b,
        basis_a == basis_b,
{
    let k = state_index(region_a, basis_a, basis_count)->0 as int;
    vstd::arithmetic::div_mod::lemma_fundamental_div_mod_converse(
        k,
        basis_count as int,
        region_a as int,
        basis_a as int,
    );
    vstd::arithmetic::div_mod::lemma_fundamental_div_mod_converse(
        k,
        basis_count as int,
        region_b as int,
        basis_b as int,
    );
}

/// The places of `regions` regions are below `regions * basis_count`.
pub proof fn state_index_is_bounded(
    region_id: usize,
    basis_id: usize,
    basis_count: usize,
    regions: int,
)
    requires
        state_index(region_id, basis_id, basis_count) is Some,
        region_id < regions,
    ensures
        state_index(region_id, basis_id, basis_count)->0 < regions * basis_count,
{
    assert(region_id * basis_count + basis_count <= regions * basis_count) by (nonlinear_arith)
        requires
            0 <= region_id < regions,
            0 <= basis_count,
    ;
}

/// The region of every splat: all in one where the scene is not divided. Else `scaled[i]` is the
/// noise at splat `i`, brought to the range from zero to the number of regions, and its integer part
/// is the region.
pub fn assign_branch_regions(
    splats: usize,
    scaled: &[u32],
    config: BasisGraphRegionConfig,
) -> (r: Vec<u32>)
    requires
        config.domain == BasisGraphBranchDomain::FbmRegions ==> scaled@.len() == splats,
    ensures
        r@ == assigned_regions(splats, scaled@, config),
{
    let mut out: Vec<u32> = Vec::new();
    for i in 0..splats
        invariant
            config.domain == BasisGraphBranchDomain::FbmRegions ==> scaled@.len() == splats,
            out@.len() == i,
            forall|k: int|
                0 <= k < i ==> #[trigger] out@[k] == assigned_regions(splats, scaled@, config)[k],
    {
        match config.domain {
            BasisGraphBranchDomain::GlobalBasis => {
                out.push(0);
            },
            BasisGraphBranchDomain::FbmRegions => {
                out.push(crate::float_bits::to_integer(scaled[i]));
            },
        }
    }
    assert(out@ =~= assigned_regions(splats, scaled@, config));
    out
}

pub open spec fn assigned_regions(
    splats: usize,
    scaled: Seq<u32>,
    config: BasisGraphRegionConfig,
) -> Seq<u32> {
    Seq::new(
        splats as nat,
        |i: int|
            match config.domain {
                BasisGraphBranchDomain::GlobalBasis => 0u32,
                BasisGraphBranchDomain::FbmRegions => crate::float_bits::whole_part(
                    scaled[i],
                ) as u32,
            },
    )
}

/// Noise below the number of regions gives regions that there are.
pub proof fn assigned_regions_are_bounded(
    splats: usize,
    scaled: Seq<u32>,
    config: BasisGraphRegionConfig,
    i: int,
)
    requires
        0 <= i < splats,
        crate::float_bits::less(
            scaled[i],
            crate::float_bits::integer_bits(config.region_total() as nat) as u32,
        ),
    ensures
        assigned_regions(splats, scaled, config)[i] < config.region_total(),
{
    crate::float_bits::whole_part_stays_below(scaled[i], config.region_total() as nat);
}

/// The hash of a lattice point, before it is scaled to a number.
pub open spec fn lattice_hash_of(x: i32, y: i32, z: i32, seed: u32) -> u32 {
    let h0 = seed ^ (x as u32).wrapping_mul(0x8DA6_B343u32) ^ (y as u32).wrapping_mul(0xD816_3841u32)
        ^ (z as u32).wrapping_mul(0xCB1A_B31Fu32);
    let h1 = (h0 ^ (h0 >> 16u32)).wrapping_mul(0x7FEB_352Du32);
    let h2 = (h1 ^ (h1 >> 15u32)).wrapping_mul(0x846C_A68Bu32);
    h2 ^ (h2 >> 16u32)
}

/// Hashes a lattice point of the noise field.
pub fn lattice_hash(x: i32, y: i32, z: i32, seed: u32) -> (r: u32)
    ensures
        r == lattice_hash_of(x, y, z, seed),
{
    let h0: u32 = seed ^ (x as u32).wrapping_mul(0x8DA6_B343) ^ (y as u32).wrapping_mul(
        0xD816_3841,
    ) ^ (z as u32).wrapping_mul(0xCB1A_B31F);
    let h1: u32 = (h0 ^ (h0 >> 16u32)).wrapping_mul(0x7FEB_352D);
    let h2: u32 = (h1 ^ (h1 >> 15u32)).wrapping_mul(0x846C_A68B);
    h2 ^ (h2 >> 16u32)
}

/// The seed of an octave of the noise field.
pub fn octave_seed(seed: u32, octave: u32) -> (r: u32)
    ensures
        r == seed.wrapping_add(octave.wrapping_mul(1013)),
{
    seed.wrapping_add(octave.wrapping_mul(1013))
}

} // verus!
