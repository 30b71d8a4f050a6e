use vstd::prelude::*;
use crate::config::{all_wf, sorted_by_position, Car, Config, StepLog, QUANTITY_LIMIT, MAX_CARS};
use crate::motion::{advanced, random_breaking, update_position};
use crate::random::random_below;
use crate::velocity::{pass_collisions, update_velocity, velocity_pass};

verus! {

/// The sum of the velocities of `cars`.
pub open spec fn velocity_total(cars: Seq<Car>) -> int
    decreases cars.len(),
{
    if cars.len() == 0 {
        0
    } else {
        velocity_total(cars.drop_last()) + cars.last().velocity
    }
}

/// `after` is `before` with some vehicles stopped dead.
pub open spec fn braked(before: Seq<Car>, after: Seq<Car>) -> bool {
    &&& after.len() == before.len()
    &&& forall|j: int|
        0 <= j < after.len() ==> {
            let (a, b) = (#[trigger] after[j], before[j]);
            a.position == b.position && a.lane == b.lane && (a.velocity == b.velocity || a.velocity == 0)
        }
}

/// One tick took `before` to `after` with `collisions` collisions: moved and
/// re-sorted it gave `sorted`, forced stops gave `stopped`, and the velocity
/// pass over that gave `after`.
pub open spec fn tick(
    cfg: Config,
    before: Seq<Car>,
    sorted: Seq<Car>,
    stopped: Seq<Car>,
    after: Seq<Car>,
    collisions: int,
) -> bool {
    &&& sorted.to_multiset() == advanced(cfg, before).to_multiset()
    &&& sorted_by_position(sorted)
    &&& braked(sorted, stopped)
    &&& after == velocity_pass(cfg, stopped, stopped.len() as int)
    &&& collisions == pass_collisions(cfg, stopped, stopped.len() as int)
}

/// The state of one simulation run.
pub struct CarsSimulation {
    pub cars: Vec<Car>,
    pub config: Config,
    pub logs: Vec<StepLog>,
    pub current_log: StepLog,
    pub rng: rand::rngs::StdRng,
}

impl CarsSimulation {
    /// The configuration is valid, every vehicle is well formed under it, and
    /// there are `num_cars` of them.
    pub open spec fn wf(&self) -> bool {
        &&& self.config.wf()
        &&& all_wf(self.cars@, self.config)
        &&& self.cars.len() == self.config.num_cars
    }

    /// `num_cars` vehicles, each with a position drawn below
    /// `road_length - car_length`, a velocity below `max_velocity` and a lane
    /// below `num_lanes`, all from `rng`.
    pub fn new(config: Config, rng: rand::rngs::StdRng) -> (r: CarsSimulation)
        requires
            config.wf(),
        ensures
            r.wf(),
            r.config == config,
            r.logs@.len() == 0,
            r.current_log == (StepLog { velocity_sum: 0, collisions: 0 }),
            forall|j: int|
                0 <= j < r.cars.len() ==> (#[trigger] r.cars@[j]).position < config.road_length
                    - config.car_length && r.cars@[j].velocity < config.max_velocity,
    {
        let mut rng = rng;
        let mut cars: Vec<Car> = Vec::new();
        let mut i: usize = 0;
        while i < config.num_cars
            invariant
                config.wf(),
                i <= config.num_cars,
                cars.len() == i,
                all_wf(cars@, config),
                forall|j: int|
                    0 <= j < cars.len() ==> (#[trigger] cars@[j]).position < config.road_length
                        - config.car_length && cars@[j].velocity < config.max_velocity,
            decreases config.num_cars - i,
        {
            let position = random_below(&mut rng, config.road_length - config.car_length);
            let velocity = random_below(&mut rng, config.max_velocity);
            let lane = random_below(&mut rng, config.num_lanes as u64) as i32;
            cars.push(Car { position, velocity, lane });
            i = i + 1;
        }
        CarsSimulation { cars, config, logs: Vec::new(), current_log: StepLog::new(), rng }
    }

    /// One tick: move every vehicle and restore position order, force random
    /// stops, then run the velocity pass. Returns the tick's log, which is also
    /// kept in `logs`.
    pub fn update(&mut self) -> (r: StepLog)
        requires
            old(self).wf(),
        ensures
            final(self).wf(),
            final(self).config == old(self).config,
            sorted_by_position(final(self).cars@),
            exists|s: Seq<Car>, b: Seq<Car>|
                #[trigger] tick(old(self).config, old(self).cars@, s, b, final(self).cars@, r.collisions as int),
            r.velocity_sum == velocity_total(final(self).cars@),
            final(self).current_log == r,
            final(self).logs@ == old(self).logs@.push(r),
    {
        self.current_log = StepLog::new();
        update_position(&mut self.cars, &self.config);
        let ghost s = self.cars@;
        assert(self.config.num_cars * self.config.random_stop_rate <= 0x1_0000_0000u64 * 0x4000_0000u64)
            by (nonlinear_arith)
            requires
                self.config.num_cars <= MAX_CARS,
                self.config.random_stop_rate <= 0x4000_0000u64,
        ;
        let probability = self.config.num_cars as u64 * self.config.random_stop_rate;
        assert(probability > 0 ==> self.config.num_cars > 0) by (nonlinear_arith)
            requires
                probability == self.config.num_cars * self.config.random_stop_rate,
        ;
        random_breaking(&mut self.cars, probability, &mut self.rng);
        let ghost b = self.cars@;
        assert(all_wf(b, self.config)) by {
            assert forall|j: int| 0 <= j < b.len() implies (#[trigger] b[j]).wf(self.config) by {
                assert(s[j].wf(self.config));
            }
        }
        assert(sorted_by_position(b)) by {
            assert forall|i: int, j: int| 0 <= i < j < b.len() implies b[i].position <= b[j].position by {
                assert(b[i].position == s[i].position);
                assert(b[j].position == s[j].position);
            }
        }
        update_velocity(&mut self.cars, &self.config, &mut self.current_log);
        assert(sorted_by_position(self.cars@)) by {
            assert forall|i: int, j: int| 0 <= i < j < self.cars.len() implies self.cars@[i].position
                <= self.cars@[j].position by {
                assert(self.cars@[i].position == b[i].position);
                assert(self.cars@[j].position == b[j].position);
            }
        }
        let n = self.cars.len();
        let mut sum: u64 = 0;
        let mut i: usize = 0;
        while i < n
            invariant
                n == self.cars.len(),
                self.config.wf(),
                n <= MAX_CARS,
                all_wf(self.cars@, self.config),
                i <= n,
                sum == velocity_total(self.cars@.subrange(0, i as int)),
                sum <= i * self.config.max_velocity,
            decreases n - i,
        {
            assert(self.cars@[i as int].wf(self.config));
            assert(sum + self.cars@[i as int].velocity <= (i + 1) * self.config.max_velocity) by (nonlinear_arith)
                requires
                    sum <= i * self.config.max_velocity,
                    self.cars@[i as int].velocity <= self.config.max_velocity,
            ;
            assert((i + 1) * self.config.max_velocity <= 0x1_0000_0000u64 * QUANTITY_LIMIT) by (nonlinear_arith)
                requires
                    i + 1 <= 0x1_0000_0000u64,
                    self.config.max_velocity <= QUANTITY_LIMIT,
            ;
            sum = sum + self.cars[i].velocity;
            assert(self.cars@.subrange(0, i + 1).drop_last() == self.cars@.subrange(0, i as int));
            i = i + 1;
        }
        assert(self.cars@.subrange(0, n as int) == self.cars@);
        self.current_log.velocity_sum = sum;
        self.logs.push(self.current_log);
        assert(tick(self.config, old(self).cars@, s, b, self.cars@, self.current_log.collisions as int));
        self.current_log
    }

    /// The vehicles, for rendering and logging.
    pub fn cars(&self) -> (r: &Vec<Car>)
        ensures
            r == &self.cars,
    {
        &self.cars
    }
}

} // verus!
