use vstd::prelude::*;
use crate::config::{all_wf, Car, Config, StepLog, MAX_CARS, QUANTITY_LIMIT};
use crate::kinematics::{
    braking_margin, calculate_appropriate_velocity, calculate_break_distance, calculate_distance,
    circular_distance, lemma_sqrt_floor_bounds, safe_velocity, sqrt_floor,
};
use crate::locator::{lane_parameters, neighbors, LaneParameters};

verus! {

/// Direction of a scan across lanes.
#[derive(Clone, Copy, Debug, PartialEq, Eq)]
pub enum LaneDirection {
    Right,
    Left,
}

pub open spec fn lane_sign(dir: LaneDirection) -> int {
    match dir {
        LaneDirection::Right => 1,
        LaneDirection::Left => -1,
    }
}

/// The car-length-adjusted distance from `car` to the vehicle ahead of it.
pub open spec fn gap(cfg: Config, car: Car, front: Car) -> int {
    circular_distance(cfg, car.position as int, front.position as int) - cfg.car_length
}

/// The two vehicles overlap.
pub open spec fn collides(cfg: Config, car: Car, front: Car) -> bool {
    gap(cfg, car, front) <= 0
}

/// The car-following law: brake or accelerate toward the safe velocity for the
/// gap ahead, or stop dead on a collision.
pub open spec fn new_velocity(cfg: Config, car: Car, front: Car) -> int {
    let d = gap(cfg, car, front);
    if d > 0 {
        let target = safe_velocity(cfg, d);
        if target < car.velocity {
            let v = car.velocity - cfg.max_deceleration * cfg.dt;
            if v > target {
                v
            } else {
                target
            }
        } else {
            let v = car.velocity + cfg.max_acceleration * cfg.dt;
            if v < target {
                v
            } else {
                target
            }
        }
    } else {
        0
    }
}

/// Numerator of a lane score over `2 * max_velocity`: the safe velocities of
/// the gap behind `car` and of the gap ahead of it.
pub open spec fn lane_score(cfg: Config, car: Car, front: Car, behind: Car) -> int {
    safe_velocity(cfg, circular_distance(cfg, behind.position as int, car.position as int))
        + safe_velocity(cfg, circular_distance(cfg, car.position as int, front.position as int))
}

/// The gap a lane `lanes_away` lanes over must offer, before braking margins.
pub open spec fn required_gap(cfg: Config, lanes_away: int) -> int {
    cfg.car_length + cfg.max_velocity * cfg.dt * (lanes_away - 1)
}

/// Moving `car` between `behind` and `front`, `lanes_away` lanes over, is
/// unsafe on both sides. Both sides of each comparison are scaled by
/// `2 * max_deceleration`.
pub open spec fn blocked(cfg: Config, car: Car, front: Car, behind: Car, lanes_away: int) -> bool {
    let scale = 2 * cfg.max_deceleration;
    let need = scale * required_gap(cfg, lanes_away);
    let m_behind = braking_margin(car.velocity as int, behind.velocity as int);
    let m_front = braking_margin(front.velocity as int, car.velocity as int);
    &&& scale * circular_distance(cfg, behind.position as int, car.position as int) < need + (
    if m_behind > 0 {
        m_behind
    } else {
        0
    })
    &&& scale * circular_distance(cfg, car.position as int, front.position as int) < need + (
    if m_front > 0 {
        m_front
    } else {
        0
    })
}

/// The best score seen scanning lanes from `lanes_away` on in direction `dir`
/// from vehicle `i`, starting from `best`; the scan stops at the edge of the
/// road, beyond `view_width`, or at the first blocked lane.
pub open spec fn lane_scan(cfg: Config, cars: Seq<Car>, i: int, dir: LaneDirection, lanes_away: int, best: int) -> int
    decreases cfg.view_width + 1 - lanes_away,
{
    let lane = cars[i].lane + lane_sign(dir) * lanes_away;
    if lanes_away < 1 || lane < 0 || lane >= cfg.num_lanes || lanes_away > cfg.view_width {
        best
    } else {
        match neighbors(cars, i, lane as i32) {
            Some((f, b)) => if blocked(cfg, cars[i], cars[f], cars[b], lanes_away) {
                best
            } else {
                let s = lane_score(cfg, cars[i], cars[f], cars[b]);
                lane_scan(cfg, cars, i, dir, lanes_away + 1, if s > best { s } else { best })
            },
            None => {
                let s = lane_score(cfg, cars[i], cars[i], cars[i]);
                lane_scan(cfg, cars, i, dir, lanes_away + 1, if s > best { s } else { best })
            },
        }
    }
}

/// The lane picked from staying, the right-hand proposal and the left-hand
/// proposal: highest score first, then the smallest move, then the order given;
/// clamped to the road.
pub open spec fn decide_lane(cfg: Config, current: int, stay: int, right: (int, int), left: (int, int)) -> int {
    let lane = if stay >= right.0 && stay >= left.0 {
        current
    } else if right.0 >= left.0 {
        right.1
    } else {
        left.1
    };
    if lane < 0 {
        0
    } else if lane > cfg.num_lanes - 1 {
        cfg.num_lanes - 1
    } else {
        lane
    }
}

/// Vehicle `i` after its turn in the velocity pass: its velocity follows the
/// car-following law, then it takes the lane picked from staying and the two
/// lateral scans, which see its new velocity and every change made before it.
pub open spec fn step_car(cfg: Config, cars: Seq<Car>, i: int) -> Seq<Car> {
    match neighbors(cars, i, cars[i].lane) {
        Some((f, b)) => {
            let moved = Car {
                position: cars[i].position,
                velocity: new_velocity(cfg, cars[i], cars[f]) as u64,
                lane: cars[i].lane,
            };
            let c1 = cars.update(i, moved);
            let stay = lane_score(cfg, moved, c1[f], c1[b]) + cfg.current_lane_bias;
            let right = (lane_scan(cfg, c1, i, LaneDirection::Right, 1, 0), cars[i].lane + 1);
            let left = (lane_scan(cfg, c1, i, LaneDirection::Left, 1, 0), cars[i].lane - 1);
            let lane = decide_lane(cfg, cars[i].lane as int, stay, right, left);
            c1.update(i, Car { position: moved.position, velocity: moved.velocity, lane: lane as i32 })
        },
        None => cars,
    }
}

/// Whether vehicle `i`'s turn records a collision.
pub open spec fn step_collision(cfg: Config, cars: Seq<Car>, i: int) -> int {
    match neighbors(cars, i, cars[i].lane) {
        Some((f, _)) => if collides(cfg, cars[i], cars[f]) {
            1
        } else {
            0
        },
        None => 0,
    }
}

/// The vehicles after the first `k` of them have had their turn, in index order.
pub open spec fn velocity_pass(cfg: Config, cars: Seq<Car>, k: int) -> Seq<Car>
    decreases k,
{
    if k <= 0 {
        cars
    } else {
        step_car(cfg, velocity_pass(cfg, cars, k - 1), k - 1)
    }
}

/// The collisions recorded during the first `k` turns of the velocity pass.
pub open spec fn pass_collisions(cfg: Config, cars: Seq<Car>, k: int) -> int
    decreases k,
{
    if k <= 0 {
        0
    } else {
        pass_collisions(cfg, cars, k - 1) + step_collision(cfg, velocity_pass(cfg, cars, k - 1), k - 1)
    }
}

/// Velocity under the car-following law never leaves `[0, max_velocity]`.
pub proof fn lemma_new_velocity_bounds(cfg: Config, car: Car, front: Car)
    requires
        cfg.wf(),
        car.wf(cfg),
        front.wf(cfg),
    ensures
        0 <= new_velocity(cfg, car, front) <= cfg.max_velocity,
{
    let d = gap(cfg, car, front);
    if d > 0 {
        assert(0 <= safe_velocity(cfg, d) <= cfg.max_velocity);
    }
}

/// The velocity `car` takes under the car-following law behind `car_in_front`;
/// a collision is counted in `log` when the two overlap.
pub fn update_car_velocity(car: &Car, car_in_front: &Car, config: &Config, log: &mut StepLog) -> (r: u64)
    requires
        config.wf(),
        car.wf(*config),
        car_in_front.wf(*config),
        old(log).collisions < u64::MAX,
    ensures
        r == new_velocity(*config, *car, *car_in_front),
        r <= config.max_velocity,
        collides(*config, *car, *car_in_front) ==> r == 0,
        final(log).collisions == old(log).collisions + if collides(*config, *car, *car_in_front) {
            1int
        } else {
            0int
        },
        final(log).velocity_sum == old(log).velocity_sum,
{
    proof {
        lemma_new_velocity_bounds(*config, *car, *car_in_front);
    }
    let distance = calculate_distance(car.position, car_in_front.position, config);
    if distance > config.car_length {
        let target = calculate_appropriate_velocity(config, distance - config.car_length);
        if target < car.velocity {
            assert(config.max_deceleration * config.dt <= QUANTITY_LIMIT * QUANTITY_LIMIT) by (nonlinear_arith)
                requires
                    config.max_deceleration <= QUANTITY_LIMIT,
                    config.dt <= QUANTITY_LIMIT,
            ;
            let slowdown = config.max_deceleration * config.dt;
            if car.velocity > slowdown && car.velocity - slowdown > target {
                car.velocity - slowdown
            } else {
                target
            }
        } else {
            assert(config.max_acceleration * config.dt <= QUANTITY_LIMIT * QUANTITY_LIMIT) by (nonlinear_arith)
                requires
                    config.max_acceleration <= QUANTITY_LIMIT,
                    config.dt <= QUANTITY_LIMIT,
            ;
            let speedup = car.velocity + config.max_acceleration * config.dt;
            if speedup < target {
                speedup
            } else {
                target
            }
        }
    } else {
        log.collisions = log.collisions + 1;
        0
    }
}

/// Numerator over `2 * max_velocity` of how unconstrained `car` would be between
/// `car_behind` and `car_in_front`.
pub fn calculate_lane_score(car: &Car, car_in_front: &Car, car_behind: &Car, config: &Config) -> (r: u64)
    requires
        config.wf(),
        car.wf(*config),
        car_in_front.wf(*config),
        car_behind.wf(*config),
    ensures
        r == lane_score(*config, *car, *car_in_front, *car_behind),
        r <= 2 * config.max_velocity,
{
    let distance_front = calculate_distance(car.position, car_in_front.position, config);
    let distance_behind = calculate_distance(car_behind.position, car.position, config);
    let velocity_for_behind = calculate_appropriate_velocity(config, distance_behind);
    let velocity_for_front = calculate_appropriate_velocity(config, distance_front);
    velocity_for_behind + velocity_for_front
}

fn would_collide(cars: &Vec<Car>, config: &Config, i: usize, params: LaneParameters, lanes_away: i64) -> (r: bool)
    requires
        config.wf(),
        all_wf(cars@, *config),
        i < cars.len(),
        params.forward < cars.len(),
        params.backward < cars.len(),
        1 <= lanes_away <= config.view_width,
    ensures
        r == blocked(*config, cars@[i as int], cars@[params.forward as int], cars@[params.backward as int], lanes_away as int),
{
    let car = cars[i];
    let behind = cars[params.backward];
    let in_front = cars[params.forward];
    assert(car.wf(*config) && behind.wf(*config) && in_front.wf(*config));
    let scale: u128 = 2 * config.max_deceleration as u128;
    assert(config.max_velocity * config.dt <= 0x1000_0000_0000_0000) by (nonlinear_arith)
        requires
            config.max_velocity <= QUANTITY_LIMIT,
            config.dt <= QUANTITY_LIMIT,
    ;
    let step: u128 = config.max_velocity as u128 * config.dt as u128;
    assert(step * (lanes_away - 1) <= 0x1000_0000_0000_0000u128 * 0x8000_0000u128) by (nonlinear_arith)
        requires
            step <= 0x1000_0000_0000_0000u128,
            lanes_away - 1 <= 0x8000_0000,
            lanes_away >= 1,
    ;
    let extra: u128 = step * (lanes_away - 1) as u128;
    let required: u128 = config.car_length as u128 + extra;
    assert(scale * required <= 0x8000_0000u128 * 0x1000_0000_0000_0000_0000_0000u128) by (nonlinear_arith)
        requires
            scale <= 0x8000_0000u128,
            required <= 0x1000_0000_0000_0000_0000_0000u128,
    ;
    let need: u128 = scale * required;
    let distance_behind = calculate_distance(behind.position, car.position, config);
    let distance_in_front = calculate_distance(car.position, in_front.position, config);
    let m_behind = calculate_break_distance(config, car.velocity, behind.velocity);
    let m_front = calculate_break_distance(config, in_front.velocity, car.velocity);
    let allow_behind: u128 = need + if m_behind > 0 { m_behind as u128 } else { 0 };
    let allow_front: u128 = need + if m_front > 0 { m_front as u128 } else { 0 };
    assert(scale * distance_behind <= 0x1_0000_0000u128 * 0x1_0000_0000u128) by (nonlinear_arith)
        requires
            scale <= 0x1_0000_0000u128,
            distance_behind <= 0x1_0000_0000u128,
    ;
    assert(scale * distance_in_front <= 0x1_0000_0000u128 * 0x1_0000_0000u128) by (nonlinear_arith)
        requires
            scale <= 0x1_0000_0000u128,
            distance_in_front <= 0x1_0000_0000u128,
    ;
    scale * (distance_behind as u128) < allow_behind && scale * (distance_in_front as u128) < allow_front
}

/// Scans lanes outward in `direction` from vehicle `i` and returns the best
/// score found with the lane next to `i`'s own in that direction.
pub fn evaluate_lane_change(cars: &Vec<Car>, config: &Config, i: usize, direction: LaneDirection) -> (r: (u64, i32))
    requires
        config.wf(),
        all_wf(cars@, *config),
        i < cars.len(),
    ensures
        r.0 == lane_scan(*config, cars@, i as int, direction, 1, 0),
        r.0 <= 2 * config.max_velocity,
        r.1 == cars@[i as int].lane + lane_sign(direction),
{
    let current_lane = cars[i].lane;
    assert(cars@[i as int].wf(*config));
    let increment: i64 = match direction {
        LaneDirection::Right => 1,
        LaneDirection::Left => -1,
    };
    let mut score: u64 = 0;
    let mut lanes_away: i64 = 1;
    loop
        invariant
            config.wf(),
            all_wf(cars@, *config),
            i < cars.len(),
            current_lane == cars@[i as int].lane,
            increment == lane_sign(direction),
            1 <= lanes_away <= config.view_width + 1,
            score <= 2 * config.max_velocity,
            lane_scan(*config, cars@, i as int, direction, 1, 0) == lane_scan(
                *config,
                cars@,
                i as int,
                direction,
                lanes_away as int,
                score as int,
            ),
        ensures
            score <= 2 * config.max_velocity,
            lane_scan(*config, cars@, i as int, direction, 1, 0) == score,
        decreases config.view_width + 1 - lanes_away,
    {
        let lane: i64 = current_lane as i64 + increment * lanes_away;
        if lane < 0 || lane >= config.num_lanes as i64 {
            break;
        }
        if lanes_away > config.view_width as i64 {
            break;
        }
        let s = match lane_parameters(cars, i, lane as i32) {
            Some(parameters) => {
                if would_collide(cars, config, i, parameters, lanes_away) {
                    break;
                }
                calculate_lane_score(&cars[i], &cars[parameters.forward], &cars[parameters.backward], config)
            },
            None => calculate_lane_score(&cars[i], &cars[i], &cars[i], config),
        };
        if s > score {
            score = s;
        }
        lanes_away = lanes_away + 1;
    }
    (score, current_lane + increment as i32)
}

/// The velocity after `k` ticks of unobstructed acceleration from `v`.
pub open spec fn free_acceleration(cfg: Config, v: int, k: nat) -> int
    decreases k,
{
    if k == 0 {
        v
    } else {
        let w = free_acceleration(cfg, v, (k - 1) as nat) + cfg.max_acceleration * cfg.dt;
        if w < cfg.max_velocity {
            w
        } else {
            cfg.max_velocity as int
        }
    }
}

/// With a gap ahead long enough to stop from `max_velocity`, a vehicle
/// accelerates by `max_acceleration * dt`, up to `max_velocity`.
pub proof fn lemma_free_road_acceleration(cfg: Config, car: Car, front: Car)
    requires
        cfg.wf(),
        car.wf(cfg),
        gap(cfg, car, front) > 0,
        2 * cfg.max_deceleration * gap(cfg, car, front) >= cfg.max_velocity * cfg.max_velocity,
    ensures
        new_velocity(cfg, car, front) == free_acceleration(cfg, car.velocity as int, 1),
{
    let d = gap(cfg, car, front);
    let n = (2 * cfg.max_deceleration * d) as nat;
    lemma_sqrt_floor_bounds(n);
    let r = sqrt_floor(n);
    if r < cfg.max_velocity {
        assert((r + 1) * (r + 1) <= cfg.max_velocity * cfg.max_velocity) by (nonlinear_arith)
            requires
                0 <= r,
                r + 1 <= cfg.max_velocity,
        ;
    }
    assert(safe_velocity(cfg, d) == cfg.max_velocity);
    assert(free_acceleration(cfg, car.velocity as int, 0) == car.velocity);
}

/// Unobstructed acceleration never slows a vehicle down, and from any
/// velocity in `[0, max_velocity]` it reaches `max_velocity` within
/// `ceil(max_velocity / (max_acceleration * dt))` ticks and stays there.
pub proof fn lemma_reaches_max_velocity(cfg: Config, v: int, k: nat)
    requires
        cfg.wf(),
        0 <= v <= cfg.max_velocity,
    ensures
        v <= free_acceleration(cfg, v, k) <= free_acceleration(cfg, v, k + 1) <= cfg.max_velocity,
        k >= (cfg.max_velocity + cfg.max_acceleration * cfg.dt - 1) / (cfg.max_acceleration * cfg.dt)
            ==> free_acceleration(cfg, v, k) == cfg.max_velocity,
    decreases k,
{
    let step = cfg.max_acceleration * cfg.dt;
    assert(step >= 1) by (nonlinear_arith)
        requires
            step == cfg.max_acceleration * cfg.dt,
            cfg.max_acceleration >= 1,
            cfg.dt >= 1,
    ;
    lemma_free_acceleration_closed(cfg, v, k);
    lemma_free_acceleration_closed(cfg, v, k + 1);
    let c = (cfg.max_velocity + step - 1) / step;
    if k >= c {
        assert(k * step >= c * step) by (nonlinear_arith)
            requires
                k >= c,
                step >= 1,
        ;
        assert(c * step >= cfg.max_velocity) by (nonlinear_arith)
            requires
                c == (cfg.max_velocity + step - 1) / step,
                step >= 1,
        ;
    }
    assert(k * step <= (k + 1) * step) by (nonlinear_arith)
        requires
            step >= 1,
    ;
}

/// The velocity after `k` ticks of unobstructed acceleration is
/// `min(v + k * max_acceleration * dt, max_velocity)`.
proof fn lemma_free_acceleration_closed(cfg: Config, v: int, k: nat)
    requires
        cfg.wf(),
        0 <= v <= cfg.max_velocity,
    ensures
        free_acceleration(cfg, v, k) == if v + k * (cfg.max_acceleration * cfg.dt) < cfg.max_velocity {
            v + k * (cfg.max_acceleration * cfg.dt)
        } else {
            cfg.max_velocity as int
        },
    decreases k,
{
    let step = cfg.max_acceleration * cfg.dt;
    if k > 0 {
        lemma_free_acceleration_closed(cfg, v, (k - 1) as nat);
        assert((k - 1) * step + step == k * step) by (nonlinear_arith);
        assert(step >= 0) by (nonlinear_arith)
            requires
                step == cfg.max_acceleration * cfg.dt,
                cfg.max_acceleration >= 1,
                cfg.dt >= 1,
        ;
        assert((k - 1) * step <= k * step) by (nonlinear_arith)
            requires
                step >= 0,
        ;
    } else {
        assert(k * step == 0) by (nonlinear_arith)
            requires
                k == 0,
        ;
    }
}

/// When vehicle `i` overlaps its leader at its turn, its turn records exactly
/// one collision and leaves it stopped.
pub proof fn lemma_collision_stops_rear(cfg: Config, cars: Seq<Car>, i: int)
    requires
        0 <= i < cars.len(),
        match neighbors(cars, i, cars[i].lane) {
            Some((f, _)) => collides(cfg, cars[i], cars[f]),
            None => false,
        },
    ensures
        step_collision(cfg, cars, i) == 1,
        step_car(cfg, cars, i)[i].velocity == 0,
        step_car(cfg, cars, i)[i].position == cars[i].position,
{
}

fn pick_lane(config: &Config, current: i32, stay: u64, right: (u64, i32), left: (u64, i32)) -> (r: i32)
    requires
        config.wf(),
    ensures
        r == decide_lane(*config, current as int, stay as int, (right.0 as int, right.1 as int), (left.0 as int, left.1 as int)),
{
    let lane = if stay >= right.0 && stay >= left.0 {
        current
    } else if right.0 >= left.0 {
        right.1
    } else {
        left.1
    };
    if lane < 0 {
        0
    } else if lane > config.num_lanes - 1 {
        config.num_lanes - 1
    } else {
        lane
    }
}

/// One velocity pass: each vehicle in index order follows the car-following
/// law behind its leader, then changes lane if that scores better; later
/// vehicles see the changes made by earlier ones. Collisions are counted in
/// `log`.
pub fn update_velocity(cars: &mut Vec<Car>, config: &Config, log: &mut StepLog)
    requires
        config.wf(),
        all_wf(old(cars)@, *config),
        old(log).collisions + old(cars).len() <= u64::MAX,
    ensures
        final(cars)@ == velocity_pass(*config, old(cars)@, old(cars).len() as int),
        final(log).collisions == old(log).collisions + pass_collisions(*config, old(cars)@, old(cars).len() as int),
        final(log).velocity_sum == old(log).velocity_sum,
        final(cars).len() == old(cars).len(),
        all_wf(final(cars)@, *config),
        forall|j: int| 0 <= j < final(cars).len() ==> #[trigger] final(cars)@[j].position == old(cars)@[j].position,
{
    let n = cars.len();
    let mut i: usize = 0;
    while i < n
        invariant
            config.wf(),
            n == cars.len(),
            n == old(cars).len(),
            i <= n,
            cars@ == velocity_pass(*config, old(cars)@, i as int),
            log.collisions == old(log).collisions + pass_collisions(*config, old(cars)@, i as int),
            pass_collisions(*config, old(cars)@, i as int) <= i,
            old(log).collisions + n <= u64::MAX,
            log.velocity_sum == old(log).velocity_sum,
            all_wf(cars@, *config),
            forall|j: int| 0 <= j < n ==> #[trigger] cars@[j].position == old(cars)@[j].position,
        decreases n - i,
    {
        let ghost before = cars@;
        assert(velocity_pass(*config, old(cars)@, i + 1) == step_car(*config, before, i as int));
        assert(pass_collisions(*config, old(cars)@, i + 1) == pass_collisions(*config, old(cars)@, i as int)
            + step_collision(*config, before, i as int));
        let cur = cars[i];
        assert(cur.wf(*config));
        match lane_parameters(cars, i, cur.lane) {
            Some(p) => {
                let front = cars[p.forward];
                assert(front.wf(*config));
                let v = update_car_velocity(&cur, &front, config, log);
                let moved = Car { position: cur.position, velocity: v, lane: cur.lane };
                cars[i] = moved;
                assert(cars@ == before.update(i as int, moved));
                assert(all_wf(cars@, *config)) by {
                    assert forall|j: int| 0 <= j < n implies (#[trigger] cars@[j]).wf(*config) by {
                        if j != i {
                            assert(before[j].wf(*config));
                        }
                    }
                }
                let stay_score = calculate_lane_score(&cars[i], &cars[p.forward], &cars[p.backward], config);
                let stay = stay_score + config.current_lane_bias;
                let right = evaluate_lane_change(cars, config, i, LaneDirection::Right);
                let left = evaluate_lane_change(cars, config, i, LaneDirection::Left);
                let lane = pick_lane(config, cur.lane, stay, right, left);
                cars[i] = Car { position: moved.position, velocity: moved.velocity, lane };
                assert(all_wf(cars@, *config)) by {
                    assert forall|j: int| 0 <= j < n implies (#[trigger] cars@[j]).wf(*config) by {
                        if j != i {
                            assert(before[j].wf(*config));
                        }
                    }
                }
            },
            None => {},
        }
        i = i + 1;
    }
}

} // verus!
