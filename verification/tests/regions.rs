use gswt::basis_branch_regions::{
    assign_branch_regions, graph_state_index, lattice_hash, octave_seed, BasisGraphBranchDomain,
    BasisGraphRegionConfig,
};
use gswt::float_bits::{from_integer, to_integer};

fn hash_noise(x: i32, y: i32, z: i32, seed: u32) -> f32 {
    (lattice_hash(x, y, z, seed) as f32 / u32::MAX as f32) * 2.0 - 1.0
}

fn fade(t: f32) -> f32 {
    let t = t.clamp(0.0, 1.0);
    t * t * t * (t * (t * 6.0 - 15.0) + 10.0)
}

fn lerp(a: f32, b: f32, t: f32) -> f32 {
    a + (b - a) * t
}

fn value_noise3(p: [f32; 3], seed: u32) -> f32 {
    let base = [p[0].floor() as i32, p[1].floor() as i32, p[2].floor() as i32];
    let u = [
        fade(p[0] - base[0] as f32),
        fade(p[1] - base[1] as f32),
        fade(p[2] - base[2] as f32),
    ];
    let corner = |dx, dy, dz| hash_noise(base[0] + dx, base[1] + dy, base[2] + dz, seed);
    let x00 = lerp(corner(0, 0, 0), corner(1, 0, 0), u[0]);
    let x10 = lerp(corner(0, 1, 0), corner(1, 1, 0), u[0]);
    let x01 = lerp(corner(0, 0, 1), corner(1, 0, 1), u[0]);
    let x11 = lerp(corner(0, 1, 1), corner(1, 1, 1), u[0]);
    lerp(lerp(x00, x10, u[1]), lerp(x01, x11, u[1]), u[2])
}

fn fbm_noise3(p: [f32; 3], octaves: u32, warp_strength: f32, seed: u32) -> f32 {
    let warp = [
        value_noise3(
            [p[0] * 0.5 + 11.3, p[1] * 0.5 - 7.1, p[2] * 0.5 + 3.7],
            seed ^ 0xA511_E9B3,
        ),
        value_noise3(
            [p[0] * 0.5 - 5.9, p[1] * 0.5 + 13.5, p[2] * 0.5 - 2.1],
            seed ^ 0x63D8_35F1,
        ),
        value_noise3(
            [p[0] * 0.5 + 2.4, p[1] * 0.5 + 8.2, p[2] * 0.5 - 10.6],
            seed ^ 0xB529_7A4D,
        ),
    ];
    let mut q = [
        p[0] + warp[0] * warp_strength,
        p[1] + warp[1] * warp_strength,
        p[2] + warp[2] * warp_strength,
    ];
    let (mut amp, mut sum, mut norm) = (0.5, 0.0, 0.0);
    for octave in 0..octaves {
        sum += amp * value_noise3(q, octave_seed(seed, octave));
        norm += amp;
        q = [q[0] * 2.0, q[1] * 2.0, q[2] * 2.0];
        amp *= 0.5;
    }
    (sum / norm).clamp(-1.0, 1.0)
}

fn assign(means: &[[f32; 3]], config: BasisGraphRegionConfig) -> Vec<u32> {
    let config = config.sanitized();
    let scaled: Vec<u32> = means
        .iter()
        .map(|mean| {
            let inv = 1.0 / f32::from_bits(config.region_size_world);
            let n = fbm_noise3(
                [mean[0] * inv, mean[1] * inv, mean[2] * inv],
                config.octaves,
                f32::from_bits(config.warp_strength),
                config.seed,
            );
            let n01 = (n * 0.5 + 0.5).clamp(0.0, 0.999_999);
            (n01 * config.region_count.max(1) as f32).to_bits()
        })
        .collect();
    assign_branch_regions(means.len(), &scaled, config)
}

fn fbm_config(region_count: u32, size: f32, seed: u32) -> BasisGraphRegionConfig {
    BasisGraphRegionConfig {
        domain: BasisGraphBranchDomain::FbmRegions,
        region_count,
        region_size_world: size.to_bits(),
        octaves: 2,
        warp_strength: 0.35_f32.to_bits(),
        seed,
    }
}

#[test]
fn default_region_config_uses_global_basis_domain() {
    let config = BasisGraphRegionConfig::default();

    assert_eq!(config.domain, BasisGraphBranchDomain::GlobalBasis);
    assert_eq!(config.effective_region_count(), 1);
}

#[test]
fn fbm_noise_is_deterministic_for_same_position_and_seed() {
    let a = fbm_noise3([0.25, -0.5, 1.75], 2, 0.35, 13);
    let b = fbm_noise3([0.25, -0.5, 1.75], 2, 0.35, 13);

    assert!((a - b).abs() < 1e-6);
}

#[test]
fn assigned_region_ids_are_bounded_and_stable() {
    let config = fbm_config(8, 4.0, 13);
    let means = vec![[0.0, 0.0, 0.0], [2.0, 1.0, -0.5], [9.0, 0.25, 3.0]];

    let a = assign(means.as_slice(), config);
    let b = assign(means.as_slice(), config);

    assert_eq!(a, b);
    assert_eq!(a.len(), means.len());
    assert!(a.iter().all(|region| *region < config.region_count));
}

#[test]
fn changing_seed_or_region_size_can_change_assignment() {
    let base = fbm_config(16, 4.0, 13);
    let means = vec![[1.5, 2.0, 3.0], [5.0, 2.5, -1.0], [8.0, -3.0, 0.5]];

    let seed_changed = assign(means.as_slice(), BasisGraphRegionConfig { seed: 99, ..base });
    let size_changed = assign(
        means.as_slice(),
        BasisGraphRegionConfig {
            region_size_world: 1.25_f32.to_bits(),
            ..base
        },
    );
    let original = assign(means.as_slice(), base);

    assert!(seed_changed != original || size_changed != original);
}

#[test]
fn graph_state_index_is_row_major_by_region_then_basis() {
    assert_eq!(graph_state_index(0, 2, 4), Some(2));
    assert_eq!(graph_state_index(1, 0, 4), Some(4));
    assert_eq!(graph_state_index(2, 3, 4), Some(11));
    assert_eq!(graph_state_index(0, 4, 4), None);
    assert_eq!(graph_state_index(1, 0, 0), None);
    assert_eq!(graph_state_index(usize::MAX, 3, 4), None);
}

#[test]
fn undivided_scenes_have_one_region() {
    let config = BasisGraphRegionConfig::default();
    assert_eq!(assign_branch_regions(3, &[], config), vec![0, 0, 0]);
}

#[test]
fn region_configs_are_put_in_range() {
    let mut config = fbm_config(500, 0.0, 1);
    config.octaves = 9;
    config.warp_strength = 40.0_f32.to_bits();
    let tidy = config.sanitized();
    assert_eq!(tidy.region_count, 64);
    assert_eq!(f32::from_bits(tidy.region_size_world), 0.001);
    assert_eq!(tidy.octaves, 4);
    assert_eq!(f32::from_bits(tidy.warp_strength), 4.0);
    assert!(tidy.sanitized().equals(tidy));
    assert!(!tidy.equals(config));
    config.region_size_world = f32::NAN.to_bits();
    assert_eq!(f32::from_bits(config.sanitized().region_size_world), 8.0);
    assert_eq!(BasisGraphBranchDomain::GlobalBasis.as_str(), "Global");
    assert_eq!(BasisGraphBranchDomain::all().len(), 2);
}

#[test]
fn integer_conversions_round_as_casts_do() {
    for n in [0_u64, 1, 7, 16_777_217, 16_777_219, 4_294_967_295, u64::MAX, 1 << 40] {
        assert_eq!(f32::from_bits(from_integer(n)), n as f32);
    }
    for v in [0.0_f32, 0.99, 1.0, 7.5, 63.999, 3.0e9, 5.0e9, -2.0, f32::NAN, f32::INFINITY] {
        assert_eq!(to_integer(v.to_bits()), v as u32);
    }
}
