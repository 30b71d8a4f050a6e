use vstd::prelude::*;
use crate::config::{all_wf, sorted_by_position, Car, Config, QUANTITY_LIMIT, RATE_SCALE};
use crate::random::random_below;

verus! {

/// `car` after moving `velocity * dt` along the ring.
pub open spec fn advance(cfg: Config, car: Car) -> Car {
    Car {
        position: ((car.position + car.velocity * cfg.dt) % (cfg.road_length as int)) as u64,
        velocity: car.velocity,
        lane: car.lane,
    }
}

/// Every vehicle of `cars` moved along the ring, in the same order.
pub open spec fn advanced(cfg: Config, cars: Seq<Car>) -> Seq<Car> {
    Seq::new(cars.len(), |j: int| advance(cfg, cars[j]))
}

/// Moves every vehicle by `velocity * dt` around the ring, then puts the
/// vehicles back in ascending order of position.
pub fn update_position(cars: &mut Vec<Car>, config: &Config)
    requires
        config.wf(),
        all_wf(old(cars)@, *config),
    ensures
        final(cars)@.to_multiset() == advanced(*config, old(cars)@).to_multiset(),
        sorted_by_position(final(cars)@),
        all_wf(final(cars)@, *config),
        final(cars).len() == old(cars).len(),
{
    let n = cars.len();
    let mut i: usize = 0;
    while i < n
        invariant
            config.wf(),
            n == cars.len(),
            n == old(cars).len(),
            i <= n,
            all_wf(cars@, *config),
            forall|j: int| 0 <= j < i ==> #[trigger] cars@[j] == advance(*config, old(cars)@[j]),
            forall|j: int| i <= j < n ==> #[trigger] cars@[j] == old(cars)@[j],
        decreases n - i,
    {
        let car = cars[i];
        assert(car.wf(*config));
        assert(car.velocity * config.dt <= QUANTITY_LIMIT * QUANTITY_LIMIT) by (nonlinear_arith)
            requires
                car.velocity <= QUANTITY_LIMIT,
                config.dt <= QUANTITY_LIMIT,
        ;
        let position = (car.position + car.velocity * config.dt) % config.road_length;
        cars[i] = Car { position, velocity: car.velocity, lane: car.lane };
        i = i + 1;
    }
    assert(cars@ == advanced(*config, old(cars)@));
    let mut sorted: Vec<Car> = Vec::new();
    let mut k: usize = 0;
    proof {
        broadcast use vstd::seq_lib::group_to_multiset_ensures;
        assert(cars@.subrange(0, 0) == Seq::<Car>::empty());
        assert(sorted@ == Seq::<Car>::empty());
        assert(Seq::<Car>::empty().to_multiset().len() == 0);
    }
    while k < n
        invariant
            n == cars.len(),
            k <= n,
            all_wf(cars@, *config),
            all_wf(sorted@, *config),
            sorted_by_position(sorted@),
            sorted.len() == k,
            sorted@.to_multiset() == cars@.subrange(0, k as int).to_multiset(),
        decreases n - k,
    {
        let car = cars[k];
        let mut idx: usize = sorted.len();
        while idx > 0 && sorted[idx - 1].position > car.position
            invariant
                idx <= sorted.len(),
                sorted_by_position(sorted@),
                forall|j: int| idx <= j < sorted.len() ==> #[trigger] sorted@[j].position > car.position,
            decreases idx,
        {
            idx = idx - 1;
        }
        let ghost prev = sorted@;
        sorted.insert(idx, car);
        proof {
            vstd::seq_lib::to_multiset_insert(prev, idx as int, car);
            vstd::seq_lib::to_multiset_build(cars@.subrange(0, k as int), car);
            assert(cars@.subrange(0, k as int).push(car) == cars@.subrange(0, k + 1));
            assert(car.wf(*config));
        }
        k = k + 1;
    }
    assert(cars@.subrange(0, n as int) == cars@);
    *cars = sorted;
}

/// The number of forced stops for an expected count of `probability / RATE_SCALE`
/// per tick: its whole part, plus one more when `draw`, uniform below
/// `RATE_SCALE`, falls under its fractional part.
pub fn forced_stop_count(probability: u64, draw: u64) -> (r: u64)
    ensures
        r == probability / RATE_SCALE + if draw < probability % RATE_SCALE {
            1int
        } else {
            0int
        },
{
    let whole = probability / RATE_SCALE;
    if draw < probability % RATE_SCALE {
        whole + 1
    } else {
        whole
    }
}

/// Forces randomly chosen vehicles to a stop, `probability / RATE_SCALE` of
/// them per call on average (a vehicle may be chosen twice). Returns how many
/// stops were forced.
pub fn random_breaking(cars: &mut Vec<Car>, probability: u64, rng: &mut rand::rngs::StdRng) -> (r: u64)
    requires
        probability > 0 ==> old(cars).len() > 0,
    ensures
        probability / RATE_SCALE <= r <= probability / RATE_SCALE + 1,
        probability % RATE_SCALE == 0 ==> r == probability / RATE_SCALE,
        r > 0 ==> exists|j: int| 0 <= j < final(cars).len() && #[trigger] final(cars)@[j].velocity == 0,
        final(cars).len() == old(cars).len(),
        forall|j: int|
            0 <= j < final(cars).len() ==> {
                let (a, b) = (#[trigger] final(cars)@[j], old(cars)@[j]);
                a.position == b.position && a.lane == b.lane && (a.velocity == b.velocity || a.velocity == 0)
            },
{
    let mut count = probability / RATE_SCALE;
    if probability % RATE_SCALE > 0 {
        let draw = random_below(rng, RATE_SCALE);
        count = forced_stop_count(probability, draw);
    }
    let n = cars.len();
    let mut done: u64 = 0;
    while done < count
        invariant
            n == cars.len(),
            n == old(cars).len(),
            count > 0 ==> n > 0,
            done <= count,
            done > 0 ==> exists|j: int| 0 <= j < n && #[trigger] cars@[j].velocity == 0,
            forall|j: int|
                0 <= j < n ==> {
                    let (a, b) = (#[trigger] cars@[j], old(cars)@[j]);
                    a.position == b.position && a.lane == b.lane && (a.velocity == b.velocity || a.velocity == 0)
                },
        decreases count - done,
    {
        let index = random_below(rng, n as u64) as usize;
        let car = cars[index];
        cars[index] = Car { position: car.position, velocity: 0, lane: car.lane };
        assert(cars@[index as int].velocity == 0);
        done = done + 1;
    }
    count
}

} // verus!
