use vstd::prelude::*;

verus! {

/// Upper bound on every length, velocity, acceleration, duration and bias of a
/// configuration, so that the product of any two of them fits in 64 bits.
pub const QUANTITY_LIMIT: u64 = 1073741824;

/// Upper bound on the number of vehicles, so that per-tick sums fit in 64 bits.
pub const MAX_CARS: usize = 4294967295;

/// Denominator of `Config::random_stop_rate`: a rate of `RATE_SCALE` is one
/// forced stop per vehicle per tick.
pub const RATE_SCALE: u64 = 1000000000;

/// How a lane is scored; carried with the configuration of a run.
#[derive(Clone, Copy, Debug, PartialEq, Eq)]
pub enum LaneScoreStrategy {
    BiDirectional,
    ForwardLooking,
    BackwardLooking,
}

/// The parameters of one simulation run.
///
/// Lane scores are kept as numerators over the fixed denominator
/// `2 * max_velocity`, so `current_lane_bias` is given in those units too: a
/// bias of `2 * max_velocity` adds one whole to the score of staying.
#[derive(Clone, Copy, Debug)]
pub struct Config {
    pub road_length: u64,
    pub car_length: u64,
    pub num_cars: usize,
    pub num_lanes: i32,
    pub max_velocity: u64,
    pub max_acceleration: u64,
    pub max_deceleration: u64,
    pub view_width: i32,
    /// Forced stops per vehicle per tick, in units of `1 / RATE_SCALE`.
    pub random_stop_rate: u64,
    pub dt: u64,
    pub current_lane_bias: u64,
    pub lane_score_strategy: LaneScoreStrategy,
}

impl Config {
    /// Every quantity is positive and within `QUANTITY_LIMIT`, a car is shorter
    /// than the road, and there is at least one lane.
    pub open spec fn wf(&self) -> bool {
        &&& 0 < self.car_length < self.road_length <= QUANTITY_LIMIT
        &&& 0 < self.max_velocity <= QUANTITY_LIMIT
        &&& 0 < self.max_acceleration <= QUANTITY_LIMIT
        &&& 0 < self.max_deceleration <= QUANTITY_LIMIT
        &&& 0 < self.dt <= QUANTITY_LIMIT
        &&& self.current_lane_bias <= QUANTITY_LIMIT
        &&& self.random_stop_rate <= RATE_SCALE
        &&& self.num_cars <= MAX_CARS
        &&& self.num_lanes >= 1
        &&& self.view_width >= 0
    }

    /// Whether the configuration is one a simulation can run on.
    pub fn is_valid(&self) -> (r: bool)
        ensures
            r == self.wf(),
    {
        0 < self.car_length && self.car_length < self.road_length && self.road_length <= QUANTITY_LIMIT
            && 0 < self.max_velocity && self.max_velocity <= QUANTITY_LIMIT && 0 < self.max_acceleration
            && self.max_acceleration <= QUANTITY_LIMIT && 0 < self.max_deceleration
            && self.max_deceleration <= QUANTITY_LIMIT && 0 < self.dt && self.dt <= QUANTITY_LIMIT
            && self.current_lane_bias <= QUANTITY_LIMIT && self.random_stop_rate <= RATE_SCALE
            && self.num_cars <= MAX_CARS && self.num_lanes >= 1 && self.view_width >= 0
    }
}

/// One vehicle on the ring road.
#[derive(Clone, Copy, Debug, PartialEq, Eq)]
pub struct Car {
    pub position: u64,
    pub velocity: u64,
    pub lane: i32,
}

impl Car {
    /// The vehicle is on the road, not faster than allowed, and on a lane.
    pub open spec fn wf(&self, cfg: Config) -> bool {
        &&& self.position < cfg.road_length
        &&& self.velocity <= cfg.max_velocity
        &&& 0 <= self.lane < cfg.num_lanes
    }
}

/// What one tick produced: the sum of all velocities after the tick (the flow
/// rate is this sum over the road length) and the number of collisions.
#[derive(Clone, Copy, Debug, PartialEq, Eq)]
pub struct StepLog {
    pub velocity_sum: u64,
    pub collisions: u64,
}

impl StepLog {
    pub fn new() -> (r: StepLog)
        ensures
            r.velocity_sum == 0,
            r.collisions == 0,
    {
        StepLog { velocity_sum: 0, collisions: 0 }
    }
}

/// Every vehicle of `cars` is well formed under `cfg`.
pub open spec fn all_wf(cars: Seq<Car>, cfg: Config) -> bool {
    forall|i: int| 0 <= i < cars.len() ==> (#[trigger] cars[i]).wf(cfg)
}

/// The vehicles are in ascending order of position.
pub open spec fn sorted_by_position(cars: Seq<Car>) -> bool {
    forall|i: int, j: int| 0 <= i < j < cars.len() ==> cars[i].position <= cars[j].position
}

} // verus!
