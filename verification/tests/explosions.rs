use gasfield::geometry::Point;
use gasfield::red_gas::logic::{
    check_explosion_interactions, explode_orbs, Detonation, LiveExplosion, MAX_EXPLOSION_COUNT,
    MAX_EXPLOSION_COUNT_INTRO,
};
use gasfield::red_gas::ranking::{nearest_mask, prune_by_distance};
use gasfield::red_gas::{
    ExplosionDamage, RedGasOrb, RedOrbExplosion, RedOrbExplosionEvent, RedOrbRegistry,
    EXPLOSION_CLEANUP_RADIUS, EXPLOSION_DURATION_SECS, INTERACTION_BUDGET, LETHAL_EXPOSURE,
    MAX_EXPLOSION_RADIUS,
};
use gasfield::space::intro::IntroState;
use gasfield::spatial::{IndexEntry, SpatialIndex};

fn red_orb(x: i32, y: i32, radius: u32) -> RedGasOrb {
    RedGasOrb { radius, pos: Point::new(x, y) }
}

fn live(entity: u64, x: i32, y: i32, radius: u32, interactions: usize) -> LiveExplosion {
    LiveExplosion {
        entity,
        explosion: RedOrbExplosion { radius, pos: Point::new(x, y), interactions },
    }
}

fn event(entity: u64) -> RedOrbExplosionEvent {
    RedOrbExplosionEvent { entity }
}

fn at(x: i32, y: i32, id: u64) -> IndexEntry {
    IndexEntry { pos: Point::new(x, y), id }
}

fn entities(explosions: &Vec<LiveExplosion>) -> Vec<u64> {
    explosions.iter().map(|l| l.entity).collect()
}

const AFTER_INTRO: IntroState = IntroState(false);

#[test]
fn the_constants_of_explosions() {
    assert_eq!(MAX_EXPLOSION_RADIUS, 1_500_000);
    assert_eq!(EXPLOSION_DURATION_SECS, 10);
    assert_eq!(EXPLOSION_CLEANUP_RADIUS, 3_000_000);
    assert_eq!(INTERACTION_BUDGET, 7);
    assert_eq!(LETHAL_EXPOSURE, 3_000);
    assert_eq!(MAX_EXPLOSION_COUNT, 20);
    assert_eq!(MAX_EXPLOSION_COUNT_INTRO, 60);
    assert_eq!(IntroState::default(), IntroState(false));
}

#[test]
fn the_registry_knows_the_armed_orbs() {
    let mut orbs = RedOrbRegistry::new();
    assert!(!orbs.contains(4));
    orbs.insert(4, red_orb(1, 2, 3_000));
    assert!(orbs.contains(4));
    assert!(!orbs.contains(5));
    orbs.insert(4, red_orb(7, 8, 9_000));
    assert_eq!(orbs.remove(4), Some(red_orb(7, 8, 9_000)));
    assert_eq!(orbs.remove(4), None);
    assert!(!orbs.contains(4));
}

#[test]
fn an_armed_orb_turns_into_an_explosion() {
    let mut orbs = RedOrbRegistry::new();
    orbs.insert(10, red_orb(100, -200, 4_500));
    orbs.insert(11, red_orb(0, 0, 2_000));
    let detonations = explode_orbs(&vec![event(10)], &mut orbs);
    assert_eq!(
        detonations,
        vec![Detonation {
            entity: 10,
            explosion: RedOrbExplosion {
                radius: 4_500,
                pos: Point::new(100, -200),
                interactions: 0,
            },
        }]
    );
    assert!(!orbs.contains(10));
    assert!(orbs.contains(11));
}

#[test]
fn an_orb_explodes_once() {
    let mut orbs = RedOrbRegistry::new();
    orbs.insert(10, red_orb(1, 1, 2_000));
    orbs.insert(11, red_orb(2, 2, 3_000));
    let detonations = explode_orbs(&vec![event(11), event(99), event(10), event(11)], &mut orbs);
    assert_eq!(detonations.iter().map(|d| d.entity).collect::<Vec<u64>>(), vec![11, 10]);
    assert_eq!(detonations[0].explosion.radius, 3_000);
    assert_eq!(detonations[1].explosion.pos, Point::new(1, 1));
    assert_eq!(explode_orbs(&vec![event(10), event(11)], &mut orbs), Vec::<Detonation>::new());
    assert_eq!(explode_orbs(&Vec::new(), &mut orbs), Vec::<Detonation>::new());
}

#[test]
fn an_explosion_sets_off_the_orbs_in_its_disc() {
    let mut orbs = RedOrbRegistry::new();
    orbs.insert(1, red_orb(3_000, 0, 2_000));
    orbs.insert(2, red_orb(0, 4_999, 2_000));
    orbs.insert(3, red_orb(0, 5_000, 2_000));
    let index =
        SpatialIndex::build(vec![at(3_000, 0, 1), at(0, 4_999, 2), at(0, 5_000, 3)]);
    let mut explosions = vec![live(100, 0, 0, 5_000, 0)];
    let mut damage = ExplosionDamage(0);
    let report = check_explosion_interactions(
        &mut explosions,
        &index,
        &orbs,
        &Point::new(1_000_000, 0),
        &mut damage,
        &AFTER_INTRO,
        16,
    );
    assert_eq!(report.red_orb_events, vec![event(1), event(2)]);
    assert!(report.destroyed.is_empty());
    assert!(!report.inside);
    assert_eq!(explosions, vec![live(100, 0, 0, 5_000, 2)]);
    assert_eq!(damage, ExplosionDamage(0));
}

#[test]
fn an_orb_is_set_off_once_in_a_pass() {
    let mut orbs = RedOrbRegistry::new();
    orbs.insert(1, red_orb(0, 0, 2_000));
    orbs.insert(2, red_orb(9_000, 0, 2_000));
    // the snapshot names the first orb twice
    let index = SpatialIndex::build(vec![at(0, 0, 1), at(10, 0, 1), at(9_000, 0, 2)]);
    let mut explosions = vec![live(100, 0, 0, 5_000, 3), live(101, 5_000, 0, 6_000, 0)];
    let mut damage = ExplosionDamage(0);
    let report = check_explosion_interactions(
        &mut explosions,
        &index,
        &orbs,
        &Point::new(0, 900_000),
        &mut damage,
        &AFTER_INTRO,
        16,
    );
    assert_eq!(report.red_orb_events, vec![event(1), event(2)]);
    assert_eq!(explosions, vec![live(100, 0, 0, 5_000, 4), live(101, 5_000, 0, 6_000, 1)]);
}

#[test]
fn an_orb_that_is_gone_is_not_set_off() {
    let mut orbs = RedOrbRegistry::new();
    orbs.insert(2, red_orb(10, 0, 2_000));
    // the snapshot lags: it still names orb 1
    let index = SpatialIndex::build(vec![at(0, 0, 1), at(10, 0, 2)]);
    let mut explosions = vec![live(100, 0, 0, 5_000, 0)];
    let mut damage = ExplosionDamage(0);
    let report = check_explosion_interactions(
        &mut explosions,
        &index,
        &orbs,
        &Point::new(0, 900_000),
        &mut damage,
        &AFTER_INTRO,
        16,
    );
    assert_eq!(report.red_orb_events, vec![event(2)]);
    assert_eq!(explosions[0].explosion.interactions, 1);
}

#[test]
fn a_spent_explosion_is_destroyed_on_the_next_pass() {
    // an orb at the origin with eight neighbours in reach
    let mut orbs = RedOrbRegistry::new();
    orbs.insert(1, red_orb(0, 0, 3_000));
    let mut entries: Vec<IndexEntry> = vec![at(0, 0, 1)];
    for k in 0..8 {
        let id = 10 + k as u64;
        orbs.insert(id, red_orb(1_000 * (k + 1), 0, 3_000));
        entries.push(at(1_000 * (k + 1), 0, id));
    }
    let index = SpatialIndex::build(entries);
    let player = Point::new(0, 500_000);
    let mut damage = ExplosionDamage(0);

    let detonations = explode_orbs(&vec![event(1)], &mut orbs);
    let mut explosions: Vec<LiveExplosion> = detonations
        .iter()
        .map(|d| LiveExplosion { entity: 500, explosion: d.explosion })
        .collect();
    assert_eq!(explosions, vec![live(500, 0, 0, 3_000, 0)]);
    // the host lets the radius grow
    explosions[0].explosion.radius = 20_000;

    let first = check_explosion_interactions(
        &mut explosions,
        &index,
        &orbs,
        &player,
        &mut damage,
        &AFTER_INTRO,
        16,
    );
    assert_eq!(first.red_orb_events.len(), 8);
    assert!(first.destroyed.is_empty());
    assert_eq!(explosions, vec![live(500, 0, 0, 20_000, 8)]);

    // the animation of the explosion is far from over: it is destroyed all the same
    let second = check_explosion_interactions(
        &mut explosions,
        &index,
        &orbs,
        &player,
        &mut damage,
        &AFTER_INTRO,
        16,
    );
    assert!(second.red_orb_events.is_empty());
    assert_eq!(second.destroyed, vec![live(500, 0, 0, 20_000, 8)]);
    assert!(explosions.is_empty());
}

#[test]
fn the_budget_allows_seven_interactions() {
    let orbs = RedOrbRegistry::new();
    let index = SpatialIndex::new();
    let mut explosions = vec![live(1, 0, 0, 1_000, 7), live(2, 0, 0, 1_000, 8)];
    let mut damage = ExplosionDamage(0);
    let report = check_explosion_interactions(
        &mut explosions,
        &index,
        &orbs,
        &Point::new(0, 500_000),
        &mut damage,
        &AFTER_INTRO,
        16,
    );
    assert_eq!(entities(&report.destroyed), vec![2]);
    assert_eq!(entities(&explosions), vec![1]);
}

#[test]
fn a_spent_explosion_does_no_harm() {
    let orbs = RedOrbRegistry::new();
    let index = SpatialIndex::new();
    let mut explosions = vec![live(1, 0, 0, 1_000, 8)];
    let mut damage = ExplosionDamage(100);
    let report = check_explosion_interactions(
        &mut explosions,
        &index,
        &orbs,
        &Point::new(0, 0),
        &mut damage,
        &AFTER_INTRO,
        16,
    );
    assert!(!report.inside);
    assert_eq!(damage, ExplosionDamage(0));
}

#[test]
fn an_explosion_out_of_reach_is_destroyed() {
    let mut orbs = RedOrbRegistry::new();
    orbs.insert(1, red_orb(3_000_001, 0, 1_000));
    orbs.insert(2, red_orb(3_000_000, 0, 1_000));
    let index = SpatialIndex::build(vec![at(3_000_001, 0, 1), at(3_000_000, 0, 2)]);
    let mut explosions =
        vec![live(100, 3_000_001, 0, 5_000, 0), live(101, 3_000_000, 0, 5_000, 0)];
    let mut damage = ExplosionDamage(0);
    let report = check_explosion_interactions(
        &mut explosions,
        &index,
        &orbs,
        &Point::new(0, 0),
        &mut damage,
        &AFTER_INTRO,
        16,
    );
    assert_eq!(entities(&report.destroyed), vec![100]);
    assert_eq!(explosions, vec![live(101, 3_000_000, 0, 5_000, 2)]);
    assert_eq!(report.red_orb_events, vec![event(1), event(2)]);
}

#[test]
fn the_player_is_inside_a_disc_but_not_on_its_rim() {
    let orbs = RedOrbRegistry::new();
    let index = SpatialIndex::new();
    let mut damage = ExplosionDamage(0);
    let mut explosions = vec![live(1, 0, 0, 5_000, 0), live(2, 50_000, 0, 1_000, 0)];
    let inside = check_explosion_interactions(
        &mut explosions,
        &index,
        &orbs,
        &Point::new(3_000, 3_999),
        &mut damage,
        &AFTER_INTRO,
        16,
    );
    assert!(inside.inside);
    assert_eq!(damage, ExplosionDamage(16));
    let rim = check_explosion_interactions(
        &mut explosions,
        &index,
        &orbs,
        &Point::new(3_000, 4_000),
        &mut damage,
        &AFTER_INTRO,
        16,
    );
    assert!(!rim.inside);
    assert_eq!(damage, ExplosionDamage(0));
}

#[test]
fn damage_grows_inside_and_is_gone_outside() {
    let mut damage = ExplosionDamage(0);
    damage.accumulate(true, 1_000);
    damage.accumulate(true, 1_999);
    assert_eq!(damage, ExplosionDamage(2_999));
    assert!(!damage.is_lethal());
    damage.accumulate(true, 1);
    assert_eq!(damage, ExplosionDamage(3_000));
    assert!(damage.is_lethal());
    damage.accumulate(false, 1);
    assert_eq!(damage, ExplosionDamage(0));
    assert!(!damage.is_lethal());
    damage.accumulate(false, 0);
    assert_eq!(damage, ExplosionDamage(0));
    damage.accumulate(true, 0);
    assert_eq!(damage, ExplosionDamage(0));
}

#[test]
fn damage_stops_at_the_largest_value() {
    let mut damage = ExplosionDamage(u32::MAX - 5);
    damage.accumulate(true, 5);
    assert_eq!(damage, ExplosionDamage(u32::MAX));
    damage.accumulate(true, u32::MAX);
    assert_eq!(damage, ExplosionDamage(u32::MAX));
    assert!(damage.is_lethal());
}

#[test]
fn the_nearest_are_marked() {
    assert_eq!(nearest_mask(&vec![5, 1, 9, 3], 2), vec![false, true, false, true]);
    assert_eq!(nearest_mask(&vec![5, 1, 9, 3], 0), vec![false, false, false, false]);
    assert_eq!(nearest_mask(&vec![5, 1, 9, 3], 4), vec![true, true, true, true]);
    assert_eq!(nearest_mask(&vec![5, 1, 9, 3], usize::MAX), vec![true, true, true, true]);
    assert_eq!(nearest_mask(&Vec::new(), 3), Vec::<bool>::new());
    assert_eq!(nearest_mask(&vec![u128::MAX, 0], 1), vec![false, true]);
}

#[test]
fn equally_near_ones_rank_in_list_order() {
    assert_eq!(nearest_mask(&vec![4, 4, 4, 4], 2), vec![true, true, false, false]);
    assert_eq!(nearest_mask(&vec![7, 4, 7, 4, 7], 3), vec![true, true, false, true, false]);
}

#[test]
fn the_farthest_explosions_are_destroyed() {
    let player = Point::new(0, 0);
    let mut explosions: Vec<LiveExplosion> = Vec::new();
    // 25 explosions, the farthest first
    for k in 0..25 {
        explosions.push(live(k as u64, 0, (25 - k) * 1_000, 10, 0));
    }
    let destroyed = prune_by_distance(&mut explosions, &player, 20);
    assert_eq!(entities(&destroyed), vec![0, 1, 2, 3, 4]);
    assert_eq!(explosions.len(), 20);
    assert_eq!(entities(&explosions), (5..25).collect::<Vec<u64>>());
    // again: nothing more to destroy
    assert!(prune_by_distance(&mut explosions, &player, 20).is_empty());
    assert_eq!(explosions.len(), 20);
    assert_eq!(prune_by_distance(&mut explosions, &player, 0).len(), 20);
    assert!(explosions.is_empty());
}

#[test]
fn a_pass_keeps_twenty_explosions() {
    let orbs = RedOrbRegistry::new();
    let index = SpatialIndex::new();
    let player = Point::new(0, 0);
    let mut explosions: Vec<LiveExplosion> = Vec::new();
    for k in 0..33 {
        // distances 0, 33, 1, 32, 2, ...: 0 to 16 and 18 to 33
        let away = if k % 2 == 0 { k / 2 } else { 33 - k / 2 };
        explosions.push(live(k as u64, away * 10_000, 0, 10, 0));
    }
    let mut damage = ExplosionDamage(0);
    let report = check_explosion_interactions(
        &mut explosions,
        &index,
        &orbs,
        &player,
        &mut damage,
        &AFTER_INTRO,
        16,
    );
    assert_eq!(explosions.len(), MAX_EXPLOSION_COUNT);
    assert_eq!(report.destroyed.len(), 33 - MAX_EXPLOSION_COUNT);
    let nearest_destroyed =
        report.destroyed.iter().map(|l| l.explosion.pos.x).min().unwrap();
    let farthest_kept = explosions.iter().map(|l| l.explosion.pos.x).max().unwrap();
    assert_eq!(farthest_kept, 200_000);
    assert_eq!(nearest_destroyed, 210_000);
    // those that stay keep their order
    let kept = entities(&explosions);
    let mut in_order = kept.clone();
    in_order.sort();
    assert_eq!(kept, in_order);
}

#[test]
fn the_intro_keeps_sixty_explosions() {
    let orbs = RedOrbRegistry::new();
    let index = SpatialIndex::new();
    let player = Point::new(0, 0);
    let mut explosions: Vec<LiveExplosion> = Vec::new();
    for k in 0..70 {
        explosions.push(live(k as u64, 1_000 * k, 0, 10, 0));
    }
    let mut damage = ExplosionDamage(0);
    let report = check_explosion_interactions(
        &mut explosions,
        &index,
        &orbs,
        &player,
        &mut damage,
        &IntroState(true),
        16,
    );
    assert_eq!(explosions.len(), MAX_EXPLOSION_COUNT_INTRO);
    assert_eq!(entities(&report.destroyed), (60..70).collect::<Vec<u64>>());
    let report = check_explosion_interactions(
        &mut explosions,
        &index,
        &orbs,
        &player,
        &mut damage,
        &AFTER_INTRO,
        16,
    );
    assert_eq!(explosions.len(), MAX_EXPLOSION_COUNT);
    assert_eq!(entities(&report.destroyed), (20..60).collect::<Vec<u64>>());
}

#[test]
fn spent_and_far_explosions_leave_before_the_ranking() {
    let orbs = RedOrbRegistry::new();
    let index = SpatialIndex::new();
    let player = Point::new(0, 0);
    let mut explosions: Vec<LiveExplosion> = Vec::new();
    for k in 0..22 {
        explosions.push(live(k as u64, 1_000 * k, 0, 10, 0));
    }
    explosions[3].explosion.interactions = 9;
    explosions[5].explosion.pos = Point::new(0, -3_000_001);
    let mut damage = ExplosionDamage(0);
    let report = check_explosion_interactions(
        &mut explosions,
        &index,
        &orbs,
        &player,
        &mut damage,
        &AFTER_INTRO,
        16,
    );
    // twenty are left after the sweep: the ranking destroys none
    assert_eq!(entities(&report.destroyed), vec![3, 5]);
    assert_eq!(explosions.len(), 20);
}

#[test]
fn a_chain_of_explosions_runs_through_the_orbs() {
    // five orbs in a row, 4 units apart; each explosion grows to 5 units
    let mut orbs = RedOrbRegistry::new();
    let mut entries: Vec<IndexEntry> = Vec::new();
    for k in 0..5 {
        orbs.insert(k as u64, red_orb(4_000 * k, 0, 1_000));
        entries.push(at(4_000 * k, 0, k as u64));
    }
    let index = SpatialIndex::build(entries);
    let player = Point::new(0, 100_000);
    let mut damage = ExplosionDamage(0);
    let mut explosions: Vec<LiveExplosion> = Vec::new();
    let mut events = vec![event(0)];
    let mut next_entity: u64 = 1_000;
    let mut order: Vec<u64> = Vec::new();
    for _tick in 0..10 {
        for detonation in explode_orbs(&events, &mut orbs) {
            order.push(detonation.entity);
            let mut explosion = detonation.explosion;
            explosion.radius = 5_000;
            explosions.push(LiveExplosion { entity: next_entity, explosion });
            next_entity += 1;
        }
        let report = check_explosion_interactions(
            &mut explosions,
            &index,
            &orbs,
            &player,
            &mut damage,
            &AFTER_INTRO,
            16,
        );
        events = report.red_orb_events;
    }
    assert_eq!(order, vec![0, 1, 2, 3, 4]);
    assert_eq!(explosions.len(), 5);
    let counts: Vec<usize> = explosions.iter().map(|l| l.explosion.interactions).collect();
    assert_eq!(counts, vec![1, 1, 1, 1, 0]);
    assert!(events.is_empty());
}
