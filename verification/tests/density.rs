use gasfield::space::density::{
    asteroid_distribution, chunk_subdivisions, explosive_orb_distribution, isqrt, smoothstep,
    DENSITY_ONE,
};
use gasfield::space::populate::{CHUNK_CELLS, CHUNK_SUBDIV, MAX_CLOUD_DENSITY};

#[test]
fn smoothstep_is_flat_outside_the_edges() {
    assert_eq!(smoothstep(0, 1_000_000, -5), 0);
    assert_eq!(smoothstep(0, 1_000_000, 0), 0);
    assert_eq!(smoothstep(0, 1_000_000, 1_000_000), DENSITY_ONE);
    assert_eq!(smoothstep(0, 1_000_000, i32::MAX), DENSITY_ONE);
    assert_eq!(smoothstep(0, 1_000_000, i32::MIN), 0);
}

#[test]
fn smoothstep_follows_the_cubic() {
    // t = 1/2: 1/4 * (3 - 1) = 1/2
    assert_eq!(smoothstep(0, 1_000_000, 500_000), 500_000);
    // t = 1/4: 1/16 * (3 - 1/2) = 5/32
    assert_eq!(smoothstep(0, 1_000_000, 250_000), 156_250);
    // t = 3/4: 9/16 * (3 - 3/2) = 27/32
    assert_eq!(smoothstep(0, 1_000_000, 750_000), 843_750);
    // t = 1/3: 1/9 * (3 - 2/3) = 7/27 = 0.259259..., rounded down
    assert_eq!(smoothstep(0, 3, 1), 259_259);
}

#[test]
fn smoothstep_with_edges_in_falling_order() {
    assert_eq!(smoothstep(1_000_000, 0, 1_000_000), 0);
    assert_eq!(smoothstep(1_000_000, 0, 2_000_000), 0);
    assert_eq!(smoothstep(1_000_000, 0, 0), DENSITY_ONE);
    assert_eq!(smoothstep(1_000_000, 0, -7), DENSITY_ONE);
    assert_eq!(smoothstep(1_000_000, 0, 750_000), 156_250);
}

#[test]
fn smoothstep_over_the_widest_ramp() {
    assert_eq!(smoothstep(i32::MIN, i32::MAX, i32::MIN), 0);
    assert_eq!(smoothstep(i32::MIN, i32::MAX, i32::MAX), DENSITY_ONE);
    assert_eq!(smoothstep(i32::MAX, i32::MIN, i32::MAX), 0);
}

#[test]
fn asteroid_band_peaks_at_its_middle() {
    assert_eq!(asteroid_distribution(-300_000), DENSITY_ONE);
    assert_eq!(asteroid_distribution(-400_000), 500_000);
    assert_eq!(asteroid_distribution(-200_000), 500_000);
    assert_eq!(asteroid_distribution(-500_000), 0);
    assert_eq!(asteroid_distribution(-100_000), 0);
    assert_eq!(asteroid_distribution(0), 0);
    assert_eq!(asteroid_distribution(-900_000), 0);
}

#[test]
fn explosive_orb_band_peaks_at_its_middle() {
    assert_eq!(explosive_orb_distribution(350_000), DENSITY_ONE);
    // rising side: t = 1/2 on the ramp from 0.3 to 0.35
    assert_eq!(explosive_orb_distribution(325_000), 500_000);
    // falling side: t = 1/2 on the ramp from 0.5 to 0.35
    assert_eq!(explosive_orb_distribution(425_000), 500_000);
    assert_eq!(explosive_orb_distribution(300_000), 0);
    assert_eq!(explosive_orb_distribution(500_000), 0);
    assert_eq!(explosive_orb_distribution(-350_000), 0);
}

#[test]
fn isqrt_rounds_down() {
    assert_eq!(isqrt(0), 0);
    assert_eq!(isqrt(1), 1);
    assert_eq!(isqrt(3), 1);
    assert_eq!(isqrt(4), 2);
    assert_eq!(isqrt(120), 10);
    assert_eq!(isqrt(121), 11);
    assert_eq!(isqrt(122), 11);
    assert_eq!(isqrt(143), 11);
    assert_eq!(isqrt(144), 12);
    assert_eq!(isqrt(u64::MAX), 4_294_967_295);
}

#[test]
fn a_chunk_has_eleven_cells_along_each_axis() {
    // 0.03 orbs on a square unit, 64 * 64 square units: 122 cells wanted
    assert_eq!(chunk_subdivisions(MAX_CLOUD_DENSITY, 64), 11);
    assert_eq!(chunk_subdivisions(MAX_CLOUD_DENSITY, 64), CHUNK_SUBDIV);
    assert_eq!(CHUNK_CELLS, 11 * 11);
    assert_eq!(chunk_subdivisions(3_000, 8), 13);
    assert_eq!(chunk_subdivisions(0, 64), 0);
    assert_eq!(chunk_subdivisions(u16::MAX, u16::MAX), 530_530);
}
