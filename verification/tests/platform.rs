use platformer_core::entity::EntityId;
use platformer_core::ground::{ContactEvent, Ground, Grounded};
use platformer_core::platform::{
    carried_displacement, find_cube, move_cubes, Cubeovator, OSCILLATION_PERIOD,
};
use platformer_core::timer::RepeatingTimer;

const SENSOR: EntityId = EntityId(1);
const FLOOR: EntityId = EntityId(10);
const DECK: EntityId = EntityId(11);
const LEDGE: EntityId = EntityId(12);
const ORPHAN: EntityId = EntityId(13);
const BLUE: EntityId = EntityId(100);
const RED: EntityId = EntityId(101);

fn grounds() -> Vec<Ground> {
    vec![
        Ground { entity: FLOOR, parent: None },
        Ground { entity: DECK, parent: Some(BLUE) },
        Ground { entity: LEDGE, parent: Some(RED) },
        Ground { entity: ORPHAN, parent: Some(EntityId(999)) },
    ]
}

fn standing_on(touched: &[EntityId]) -> Grounded {
    let mut grounded = Grounded::new();
    for ground in touched {
        grounded.on_event(ContactEvent::Started(SENSOR, *ground), SENSOR, &grounds());
    }
    grounded
}

fn wave(phase: u64) -> f32 {
    (phase as f32 / 1.0e9).sin() / 6.0
}

#[test]
fn new_platform_rests_at_the_start_of_its_period() {
    let cube = Cubeovator::new(BLUE, 0.0f32);
    assert_eq!(cube.entity, BLUE);
    assert_eq!(cube.phase, RepeatingTimer { duration: 6_283_185_307, elapsed: 0 });
    assert_eq!(cube.oscillator, 0.0);
    assert_eq!(OSCILLATION_PERIOD, 6_283_185_307);
}

#[test]
fn find_cube_gives_the_first_record() {
    let cubes = vec![Cubeovator::new(BLUE, 1), Cubeovator::new(RED, 2), Cubeovator::new(BLUE, 3)];
    assert_eq!(find_cube(&cubes, BLUE), Some(0));
    assert_eq!(find_cube(&cubes, RED), Some(1));
    assert_eq!(find_cube(&cubes, FLOOR), None);
    assert_eq!(find_cube(&Vec::<Cubeovator<i32>>::new(), BLUE), None);
}

#[test]
fn move_cubes_advances_each_phase_and_stores_the_wave() {
    let mut cubes = vec![Cubeovator::new(BLUE, 0u64), Cubeovator::new(RED, 0u64)];
    cubes[1].phase.elapsed = 6_000_000_000;
    move_cubes(&mut cubes, 500_000_000, |phase: u64| phase / 1000);
    assert_eq!(cubes[0].entity, BLUE);
    assert_eq!(cubes[0].phase.elapsed, 500_000_000);
    assert_eq!(cubes[0].oscillator, 500_000);
    assert_eq!(cubes[1].entity, RED);
    assert_eq!(cubes[1].phase.elapsed, 216_814_693);
    assert_eq!(cubes[1].oscillator, 216_814);
    assert_eq!(cubes[1].phase.duration, OSCILLATION_PERIOD);
}

#[test]
fn move_cubes_on_no_platform_does_nothing() {
    let mut cubes: Vec<Cubeovator<u64>> = Vec::new();
    move_cubes(&mut cubes, 5, |phase: u64| phase);
    assert!(cubes.is_empty());
}

#[test]
fn phase_never_reaches_the_period() {
    let mut cubes = vec![Cubeovator::new(BLUE, 0u64)];
    let mut given: u64 = 0;
    for tick in 0..2000u64 {
        let delta = 16_666_667 + tick;
        move_cubes(&mut cubes, delta, |phase: u64| phase);
        given += delta;
        assert!(cubes[0].phase.elapsed < OSCILLATION_PERIOD);
        assert_eq!(cubes[0].phase.elapsed, given % OSCILLATION_PERIOD);
        assert_eq!(cubes[0].oscillator, cubes[0].phase.elapsed);
    }
}

#[test]
fn rider_takes_the_displacement_of_its_platform() {
    let mut cubes = vec![Cubeovator::new(BLUE, 0.0f32), Cubeovator::new(RED, 0.0f32)];
    cubes[0].oscillator = 0.125;
    cubes[1].oscillator = -0.5;
    assert_eq!(carried_displacement(&standing_on(&[DECK]), &grounds(), &cubes), Some(0.125));
    assert_eq!(carried_displacement(&standing_on(&[LEDGE]), &grounds(), &cubes), Some(-0.5));
}

#[test]
fn nobody_is_carried_without_a_single_platform_ground() {
    let mut cubes = vec![Cubeovator::new(BLUE, 0.0f32)];
    cubes[0].oscillator = 0.125;
    assert_eq!(carried_displacement(&Grounded::new(), &grounds(), &cubes), None);
    assert_eq!(carried_displacement(&standing_on(&[FLOOR]), &grounds(), &cubes), None);
    assert_eq!(carried_displacement(&standing_on(&[ORPHAN]), &grounds(), &cubes), None);
    assert_eq!(carried_displacement(&standing_on(&[LEDGE]), &grounds(), &cubes), None);
    assert_eq!(carried_displacement(&standing_on(&[DECK, FLOOR]), &grounds(), &cubes), None);
    assert_eq!(carried_displacement(&standing_on(&[DECK]), &Vec::new(), &cubes), None);
}

#[test]
fn rider_does_not_drift_over_a_thousand_ticks() {
    let grounded = standing_on(&[DECK]);
    let mut cubes = vec![Cubeovator::new(BLUE, 0.0f32)];
    let mut platform_height: f32 = 1.0;
    let mut rider_height: f32 = 1.0;
    let mut moved = false;
    for _ in 0..1000 {
        move_cubes(&mut cubes, 16_666_667, wave);
        platform_height += cubes[0].oscillator;
        match carried_displacement(&grounded, &grounds(), &cubes) {
            Some(displacement) => {
                assert_eq!(displacement.to_bits(), cubes[0].oscillator.to_bits());
                rider_height += displacement;
            }
            None => panic!("the rider stands on the platform"),
        }
        assert_eq!(rider_height.to_bits(), platform_height.to_bits());
        moved = moved || cubes[0].oscillator != 0.0;
    }
    assert!(moved);
}
