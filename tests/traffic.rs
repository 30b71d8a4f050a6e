use cars::config::{Car, Config, LaneScoreStrategy, StepLog, RATE_SCALE};
use cars::kinematics::{calculate_appropriate_velocity, calculate_break_distance, calculate_distance, isqrt};
use cars::locator::{find_nearest_car, lane_parameters, LaneParameters, RoadDirection};
use cars::motion::{forced_stop_count, random_breaking, update_position};
use cars::simulation::CarsSimulation;
use cars::velocity::{calculate_lane_score, evaluate_lane_change, update_car_velocity, update_velocity, LaneDirection};
use rand::rngs::StdRng;
use rand::SeedableRng;

fn config(road_length: u64, car_length: u64, num_lanes: i32, max_velocity: u64) -> Config {
    Config {
        road_length,
        car_length,
        num_cars: 0,
        num_lanes,
        max_velocity,
        max_acceleration: 1,
        max_deceleration: 1,
        view_width: 1,
        random_stop_rate: 0,
        dt: 1,
        current_lane_bias: 0,
        lane_score_strategy: LaneScoreStrategy::BiDirectional,
    }
}

fn car(position: u64, velocity: u64, lane: i32) -> Car {
    Car { position, velocity, lane }
}

#[test]
fn distance_to_same_position_is_full_lap() {
    let c = config(10, 1, 1, 3);
    for p in 0..10 {
        assert_eq!(calculate_distance(p, p, &c), 10);
    }
}

#[test]
fn distance_wraps_around_the_ring() {
    let c = config(10, 1, 1, 3);
    assert_eq!(calculate_distance(2, 8, &c), 6);
    assert_eq!(calculate_distance(8, 2, &c), 4);
    assert_eq!(calculate_distance(9, 0, &c), 1);
}

#[test]
fn integer_square_root() {
    assert_eq!(isqrt(0), 0);
    assert_eq!(isqrt(1), 1);
    assert_eq!(isqrt(8), 2);
    assert_eq!(isqrt(9), 3);
    assert_eq!(isqrt(99), 9);
    assert_eq!(isqrt(1 << 60), 1 << 30);
    assert_eq!(isqrt((1 << 60) - 1), (1 << 30) - 1);
}

#[test]
fn safe_velocity_is_root_of_braking_distance_capped() {
    let c = config(100, 1, 1, 3);
    assert_eq!(calculate_appropriate_velocity(&c, 4), 2);
    assert_eq!(calculate_appropriate_velocity(&c, 0), 0);
    assert_eq!(calculate_appropriate_velocity(&c, 50), 3);
}

#[test]
fn braking_margin_is_signed() {
    let c = config(100, 1, 1, 5);
    assert_eq!(calculate_break_distance(&c, 1, 3), 8);
    assert_eq!(calculate_break_distance(&c, 3, 1), -8);
    assert_eq!(calculate_break_distance(&c, 2, 2), 0);
}

#[test]
fn nearest_car_scans_with_wraparound() {
    let cars = vec![car(0, 0, 0), car(2, 0, 1), car(4, 0, 0), car(6, 0, 1)];
    assert_eq!(find_nearest_car(&cars, 0, 1, RoadDirection::Forward), Some(1));
    assert_eq!(find_nearest_car(&cars, 0, 1, RoadDirection::Backward), Some(3));
    assert_eq!(find_nearest_car(&cars, 3, 0, RoadDirection::Forward), Some(0));
    assert_eq!(find_nearest_car(&cars, 0, 0, RoadDirection::Forward), Some(2));
    assert_eq!(find_nearest_car(&cars, 0, 5, RoadDirection::Forward), None);
}

#[test]
fn sole_occupant_is_its_own_neighbor() {
    let cars = vec![car(0, 0, 0), car(2, 0, 1), car(4, 0, 0)];
    assert_eq!(lane_parameters(&cars, 1, 1), Some(LaneParameters { forward: 1, backward: 1 }));
    assert_eq!(lane_parameters(&cars, 0, 0), Some(LaneParameters { forward: 2, backward: 2 }));
    assert_eq!(lane_parameters(&cars, 0, 3), None);
}

#[test]
fn two_cars_same_lane_move_toward_safe_velocity() {
    let c = config(10, 1, 1, 3);
    assert_eq!(calculate_appropriate_velocity(&c, 4), 2);
    let mut log = StepLog::new();
    let rear = car(0, 0, 0);
    let front = car(5, 3, 0);
    assert_eq!(update_car_velocity(&rear, &front, &c, &mut log), 1);
    assert_eq!(update_car_velocity(&front, &rear, &c, &mut log), 2);
    assert_eq!(log.collisions, 0);

    let mut cars = vec![rear, front];
    let mut log = StepLog::new();
    update_velocity(&mut cars, &c, &mut log);
    assert_eq!(cars[0].velocity, 1);
    assert_eq!(cars[1].velocity, 2);
    assert_eq!(log.collisions, 0);
}

#[test]
fn overlapping_cars_collide_and_rear_stops() {
    let c = config(10, 2, 1, 3);
    let mut log = StepLog::new();
    let rear = car(0, 3, 0);
    let front = car(2, 3, 0);
    assert_eq!(update_car_velocity(&rear, &front, &c, &mut log), 0);
    assert_eq!(log.collisions, 1);

    let mut cars = vec![car(0, 3, 0), car(1, 3, 0), car(6, 1, 0)];
    let mut log = StepLog::new();
    update_velocity(&mut cars, &c, &mut log);
    assert_eq!(cars[0].velocity, 0);
    assert_eq!(log.collisions, 1);
}

#[test]
fn free_road_reaches_max_velocity_in_bounded_ticks() {
    let mut c = config(1000, 1, 1, 10);
    c.max_acceleration = 3;
    let mut v = 0;
    let mut log = StepLog::new();
    let ticks = (10 + 3 - 1) / 3;
    for t in 0..ticks {
        let me = car(0, v, 0);
        let next = update_car_velocity(&me, &me, &c, &mut log);
        assert!(next >= v);
        assert_eq!(next, std::cmp::min(3 * (t + 1), 10));
        v = next;
    }
    assert_eq!(v, 10);
    assert_eq!(log.collisions, 0);
}

#[test]
fn forced_stop_count_splits_whole_and_fraction() {
    let p = RATE_SCALE + RATE_SCALE / 2;
    assert_eq!(forced_stop_count(p, 0), 2);
    assert_eq!(forced_stop_count(p, RATE_SCALE / 2 - 1), 2);
    assert_eq!(forced_stop_count(p, RATE_SCALE / 2), 1);
    assert_eq!(forced_stop_count(2 * RATE_SCALE, 0), 2);
    assert_eq!(forced_stop_count(0, 0), 0);
}

#[test]
fn forced_stops_average_one_and_a_half() {
    let mut rng = StdRng::seed_from_u64(42);
    let p = RATE_SCALE + RATE_SCALE / 2;
    let rounds = 20000;
    let mut total = 0u64;
    for _ in 0..rounds {
        let mut cars: Vec<Car> = (0..10).map(|i| car(i * 10, 5, 0)).collect();
        let count = random_breaking(&mut cars, p, &mut rng);
        assert!(count == 1 || count == 2);
        let stopped = cars.iter().filter(|c| c.velocity == 0).count() as u64;
        assert!(stopped >= 1 && stopped <= count);
        total += count;
    }
    let average = total as f64 / rounds as f64;
    assert!((average - 1.5).abs() < 0.03, "average {}", average);
}

#[test]
fn lane_change_picks_open_faster_lane() {
    let c = config(100, 1, 2, 10);
    let cars = vec![car(0, 0, 0), car(2, 0, 0)];
    assert_eq!(calculate_lane_score(&cars[0], &cars[1], &cars[1], &c), 12);
    assert_eq!(evaluate_lane_change(&cars, &c, 0, LaneDirection::Right), (20, 1));
    assert_eq!(evaluate_lane_change(&cars, &c, 0, LaneDirection::Left), (0, -1));
    let mut cars = cars;
    let mut log = StepLog::new();
    update_velocity(&mut cars, &c, &mut log);
    assert_eq!(cars[0].lane, 1);
}

#[test]
fn bias_keeps_car_in_its_lane() {
    let mut c = config(100, 1, 2, 10);
    c.current_lane_bias = 9;
    let mut cars = vec![car(0, 0, 0), car(2, 0, 0)];
    let mut log = StepLog::new();
    update_velocity(&mut cars, &c, &mut log);
    assert_eq!(cars[0].lane, 0);
}

#[test]
fn blocked_adjacent_lane_still_proposed_with_zero_score() {
    let c = config(100, 2, 2, 10);
    let cars = vec![car(0, 0, 0), car(1, 0, 1), car(99, 5, 1)];
    assert_eq!(evaluate_lane_change(&cars, &c, 0, LaneDirection::Right), (0, 1));
}

#[test]
fn config_validity_follows_bounds() {
    let c = config(10, 1, 1, 3);
    assert!(c.is_valid());
    assert!(!config(10, 10, 1, 3).is_valid());
    assert!(!config(10, 1, 0, 3).is_valid());
    assert!(!config(10, 1, 1, 0).is_valid());
}

#[test]
fn positions_advance_modulo_road_and_resort() {
    let c = config(10, 1, 1, 3);
    let mut cars = vec![car(1, 1, 0), car(8, 3, 0), car(9, 0, 0)];
    update_position(&mut cars, &c);
    assert_eq!(cars, vec![car(1, 3, 0), car(2, 1, 0), car(9, 0, 0)]);
}

#[test]
fn simulation_keeps_invariants_over_many_ticks() {
    let c = Config {
        road_length: 200_000,
        car_length: 1_000,
        num_cars: 60,
        num_lanes: 3,
        max_velocity: 200,
        max_acceleration: 2,
        max_deceleration: 20,
        view_width: 2,
        random_stop_rate: RATE_SCALE / 100,
        dt: 1,
        current_lane_bias: 40,
        lane_score_strategy: LaneScoreStrategy::BiDirectional,
    };
    assert!(c.is_valid());
    let mut sim = CarsSimulation::new(c, StdRng::seed_from_u64(7));
    assert_eq!(sim.cars().len(), 60);
    assert!(sim.cars().iter().all(|k| k.position < c.road_length - c.car_length));
    assert!(sim.cars().iter().all(|k| k.velocity < c.max_velocity && k.lane >= 0 && k.lane < c.num_lanes));
    let distinct: std::collections::BTreeSet<u64> = sim.cars().iter().map(|k| k.position).collect();
    assert!(distinct.len() > 1);
    for _ in 0..300 {
        let log = sim.update();
        let cars = sim.cars();
        assert!(cars.windows(2).all(|w| w[0].position <= w[1].position));
        assert!(cars.iter().all(|k| k.position < c.road_length));
        assert!(cars.iter().all(|k| k.velocity <= c.max_velocity));
        assert!(cars.iter().all(|k| k.lane >= 0 && k.lane < c.num_lanes));
        assert_eq!(log.velocity_sum, cars.iter().map(|k| k.velocity).sum::<u64>());
    }
    assert_eq!(sim.logs.len(), 300);
}
