use gasfield::geometry::ChunkCoord;
use gasfield::space::ledger::PopulatedChunks;
use gasfield::space::populate::{
    cell_content, near_origin, populate_chunk, sieve, CellSample, PopulateError, Sieve, Spawn,
    SpawnKind, ASTEROID_BAR, ASTEROID_LEVEL, CHUNK_CELLS, EXPLOSIVE_ORB_BAR, EXPLOSIVE_ORB_LEVEL,
    INTRO_EXPLOSIVE_ORB_BAR, INTRO_EXPLOSIVE_ORB_LEVEL, INTRO_SCENE_RADIUS, ORB_THRESHOLD,
};
use gasfield::space::PopulateChunk;

fn sample(density: i32) -> CellSample {
    CellSample {
        density,
        intro_density: 0,
        asteroid_draw: 0,
        explosive_draw: 0,
        intro_explosive_draw: 0,
    }
}

fn quiet_chunk() -> Vec<CellSample> {
    vec![sample(0); CHUNK_CELLS]
}

#[test]
fn the_constants_of_placement() {
    assert_eq!(ORB_THRESHOLD, 100_000);
    assert_eq!(ASTEROID_LEVEL, 600_000);
    assert_eq!(EXPLOSIVE_ORB_LEVEL, 700_000);
    assert_eq!(INTRO_EXPLOSIVE_ORB_LEVEL, 500_000);
    assert_eq!(ASTEROID_BAR, 999);
    assert_eq!(EXPLOSIVE_ORB_BAR, 990);
    assert_eq!(INTRO_EXPLOSIVE_ORB_BAR, 950);
    assert_eq!(INTRO_SCENE_RADIUS, 2000);
}

#[test]
fn a_draw_lets_through_from_its_bar_on() {
    assert_eq!(sieve(600_001, 600_000, 999, 999), Sieve::Place);
    assert_eq!(sieve(600_001, 600_000, 998, 999), Sieve::Stop);
    assert_eq!(sieve(600_000, 600_000, 999, 999), Sieve::Pass);
    assert_eq!(sieve(600_000, 600_000, 0, 999), Sieve::Pass);
    assert_eq!(sieve(1_000_000, 0, u16::MAX, 999), Sieve::Place);
    assert_eq!(sieve(1, 0, 0, 0), Sieve::Place);
}

#[test]
fn a_gas_orb_needs_more_than_the_threshold() {
    assert_eq!(cell_content(&sample(100_000), false), Vec::<SpawnKind>::new());
    assert_eq!(cell_content(&sample(100_001), false), vec![SpawnKind::GasOrb(100_001)]);
    assert_eq!(cell_content(&sample(600_000), false), vec![SpawnKind::GasOrb(600_000)]);
    assert_eq!(cell_content(&sample(i32::MAX), false), vec![SpawnKind::GasOrb(i32::MAX)]);
    assert_eq!(cell_content(&sample(i32::MIN), false), Vec::<SpawnKind>::new());
}

#[test]
fn an_asteroid_needs_its_band_and_its_draw() {
    let mut s = sample(-300_000);
    s.asteroid_draw = 999;
    assert_eq!(cell_content(&s, false), vec![SpawnKind::Asteroid]);
    s.asteroid_draw = 998;
    assert_eq!(cell_content(&s, false), Vec::<SpawnKind>::new());
    // outside the band the draw does not matter
    let mut out = sample(-450_000);
    out.asteroid_draw = 999;
    assert_eq!(cell_content(&out, false), Vec::<SpawnKind>::new());
}

#[test]
fn an_explosive_orb_needs_its_band_and_its_draw() {
    let mut s = sample(350_000);
    s.explosive_draw = 990;
    assert_eq!(cell_content(&s, false), vec![SpawnKind::GasOrb(350_000), SpawnKind::RedGasOrb]);
    s.explosive_draw = 989;
    assert_eq!(cell_content(&s, false), vec![SpawnKind::GasOrb(350_000)]);
    // 0.325 gives one half on the curve, which is not above the level
    let mut low = sample(325_000);
    low.explosive_draw = 999;
    assert_eq!(cell_content(&low, false), vec![SpawnKind::GasOrb(325_000)]);
}

#[test]
fn the_intro_region_places_its_own_content() {
    let mut s = sample(0);
    s.intro_density = 350_000;
    s.intro_explosive_draw = 950;
    assert_eq!(cell_content(&s, true), vec![SpawnKind::GasOrb(350_000), SpawnKind::RedGasOrb]);
    assert_eq!(cell_content(&s, false), Vec::<SpawnKind>::new());
    s.intro_explosive_draw = 949;
    assert_eq!(cell_content(&s, true), vec![SpawnKind::GasOrb(350_000)]);
    // 0.325 gives one half on the curve: not above the intro level either
    s.intro_density = 325_000;
    s.intro_explosive_draw = 999;
    assert_eq!(cell_content(&s, true), vec![SpawnKind::GasOrb(325_000)]);
    s.intro_density = 330_000;
    assert_eq!(cell_content(&s, true), vec![SpawnKind::GasOrb(330_000), SpawnKind::RedGasOrb]);
    s.intro_density = 100_000;
    assert_eq!(cell_content(&s, true), Vec::<SpawnKind>::new());
}

#[test]
fn a_draw_that_holds_back_ends_the_cell() {
    // the asteroid is called for and held back: the intro content is lost too
    let mut s = sample(-300_000);
    s.asteroid_draw = 998;
    s.intro_density = 350_000;
    s.intro_explosive_draw = 999;
    assert_eq!(cell_content(&s, true), Vec::<SpawnKind>::new());
    s.asteroid_draw = 999;
    assert_eq!(
        cell_content(&s, true),
        vec![SpawnKind::Asteroid, SpawnKind::GasOrb(350_000), SpawnKind::RedGasOrb]
    );
    // the explosive orb is called for and held back: the gas orb stays
    let mut e = sample(350_000);
    e.explosive_draw = 0;
    e.intro_density = 900_000;
    assert_eq!(cell_content(&e, true), vec![SpawnKind::GasOrb(350_000)]);
    e.explosive_draw = 990;
    assert_eq!(
        cell_content(&e, true),
        vec![SpawnKind::GasOrb(350_000), SpawnKind::RedGasOrb, SpawnKind::GasOrb(900_000)]
    );
}

#[test]
fn which_cells_qualify_does_not_depend_on_the_draws() {
    for density in [-600_000, -300_000, -250_000, 0, 100_001, 340_000, 350_000, 900_000] {
        let mut placed_gas: Vec<bool> = Vec::new();
        for draw in [0u16, 500, 949, 950, 989, 990, 998, 999, 1000] {
            let s = CellSample {
                density,
                intro_density: 200_000,
                asteroid_draw: draw,
                explosive_draw: 999 - draw.min(999),
                intro_explosive_draw: draw / 2,
            };
            let kinds = cell_content(&s, true);
            placed_gas.push(kinds.contains(&SpawnKind::GasOrb(density)));
        }
        assert!(placed_gas.iter().all(|g| *g == (density > ORB_THRESHOLD)));
    }
}

#[test]
fn cells_near_the_origin() {
    let origin = ChunkCoord::new(0, 0);
    assert!(near_origin(&origin, 0, 0));
    assert!(near_origin(&origin, 10, 10));
    // 31 * 64 = 1984 units from the origin
    assert!(near_origin(&ChunkCoord::new(31, 0), 0, 0));
    // 31 * 64 + 2 * 64 / 11 = 1995.6 units
    assert!(near_origin(&ChunkCoord::new(31, 0), 2, 0));
    // 31 * 64 + 3 * 64 / 11 = 2001.5 units
    assert!(!near_origin(&ChunkCoord::new(31, 0), 3, 0));
    assert!(!near_origin(&ChunkCoord::new(32, 0), 0, 0));
    // the corner of the chunk decides: (-32, 0) starts at -2048
    assert!(!near_origin(&ChunkCoord::new(-32, 0), 0, 0));
    assert!(near_origin(&ChunkCoord::new(-32, 0), 9, 0));
    // 1408 * 1408 + 1408 * 1408 < 2000 * 2000 < 1472 * 1472 + 1408 * 1408
    assert!(near_origin(&ChunkCoord::new(22, 22), 0, 0));
    assert!(!near_origin(&ChunkCoord::new(23, 22), 0, 0));
    assert!(!near_origin(&ChunkCoord::new(i32::MAX, i32::MIN), 10, 10));
    // cells are counted on from the chunk's corner, beyond the chunk too
    assert!(near_origin(&ChunkCoord::new(-32, 0), 11 * 32, 0));
    assert!(!near_origin(&ChunkCoord::new(0, 0), u32::MAX, u32::MAX));
}

#[test]
fn populating_places_cell_by_cell() {
    let mut ledger = PopulatedChunks::new();
    let mut samples = quiet_chunk();
    samples[0] = sample(200_000);
    samples[12] = sample(-300_000);
    samples[12].asteroid_draw = 999;
    samples[13] = sample(350_000);
    samples[13].explosive_draw = 995;
    samples[120] = sample(150_000);
    let event = PopulateChunk(ChunkCoord::new(100, -100));
    let spawns = populate_chunk(&event, 9, &samples, &mut ledger);
    assert_eq!(
        spawns,
        Ok(vec![
            Spawn { cell_x: 0, cell_y: 0, kind: SpawnKind::GasOrb(200_000) },
            Spawn { cell_x: 1, cell_y: 1, kind: SpawnKind::Asteroid },
            Spawn { cell_x: 2, cell_y: 1, kind: SpawnKind::GasOrb(350_000) },
            Spawn { cell_x: 2, cell_y: 1, kind: SpawnKind::RedGasOrb },
            Spawn { cell_x: 10, cell_y: 10, kind: SpawnKind::GasOrb(150_000) },
        ])
    );
    assert_eq!(ledger.get(&ChunkCoord::new(100, -100)), Some(9));
    assert_eq!(ledger.entries().len(), 1);
}

#[test]
fn only_chunks_near_the_origin_get_intro_content() {
    let mut samples = quiet_chunk();
    for s in samples.iter_mut() {
        s.intro_density = 400_000;
    }
    let mut ledger = PopulatedChunks::new();
    let near = populate_chunk(&PopulateChunk(ChunkCoord::new(-1, 0)), 1, &samples, &mut ledger);
    assert_eq!(near.unwrap().len(), CHUNK_CELLS);
    let far = populate_chunk(&PopulateChunk(ChunkCoord::new(40, 0)), 2, &samples, &mut ledger);
    assert_eq!(far, Ok(Vec::<Spawn>::new()));
    // the chunk (31, 0) is cut by the rim: three columns of eleven cells are near
    let cut = populate_chunk(&PopulateChunk(ChunkCoord::new(31, 0)), 3, &samples, &mut ledger);
    let cut = cut.unwrap();
    assert_eq!(cut.len(), 3 * 11);
    assert!(cut.iter().all(|s| s.cell_x <= 2 && s.kind == SpawnKind::GasOrb(400_000)));
    assert_eq!(cut[0], Spawn { cell_x: 0, cell_y: 0, kind: SpawnKind::GasOrb(400_000) });
    assert_eq!(cut[3], Spawn { cell_x: 0, cell_y: 1, kind: SpawnKind::GasOrb(400_000) });
    assert_eq!(cut[32], Spawn { cell_x: 2, cell_y: 10, kind: SpawnKind::GasOrb(400_000) });
    assert_eq!(ledger.entries().len(), 3);
}

#[test]
fn a_populated_chunk_is_not_populated_again() {
    let mut ledger = PopulatedChunks::new();
    let event = PopulateChunk(ChunkCoord::new(2, 3));
    let mut samples = quiet_chunk();
    samples[5] = sample(500_000);
    assert!(populate_chunk(&event, 1, &samples, &mut ledger).is_ok());
    assert_eq!(
        populate_chunk(&event, 2, &samples, &mut ledger),
        Err(PopulateError::AlreadyPopulated)
    );
    assert_eq!(ledger.get(&ChunkCoord::new(2, 3)), Some(1));
    // reported before the samples are looked at
    assert_eq!(
        populate_chunk(&event, 2, &Vec::new(), &mut ledger),
        Err(PopulateError::AlreadyPopulated)
    );
}

#[test]
fn samples_must_be_one_per_cell() {
    let mut ledger = PopulatedChunks::new();
    let event = PopulateChunk(ChunkCoord::new(0, 0));
    let short = vec![sample(500_000); CHUNK_CELLS - 1];
    assert_eq!(populate_chunk(&event, 1, &short, &mut ledger), Err(PopulateError::SampleCount));
    let long = vec![sample(500_000); CHUNK_CELLS + 1];
    assert_eq!(populate_chunk(&event, 1, &long, &mut ledger), Err(PopulateError::SampleCount));
    let none: Vec<CellSample> = Vec::new();
    assert_eq!(populate_chunk(&event, 1, &none, &mut ledger), Err(PopulateError::SampleCount));
    assert!(ledger.entries().is_empty());
    assert!(!ledger.contains_key(&ChunkCoord::new(0, 0)));
}
