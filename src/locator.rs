use vstd::prelude::*;
use crate::config::Car;

verus! {

/// Direction of a scan along the road, by index in the position-sorted array.
#[derive(Clone, Copy, Debug, PartialEq, Eq)]
pub enum RoadDirection {
    Forward,
    Backward,
}

/// The nearest vehicles of a lane ahead of and behind a given vehicle, as
/// indices into the vehicle array.
#[derive(Clone, Copy, Debug, PartialEq, Eq)]
pub struct LaneParameters {
    pub forward: usize,
    pub backward: usize,
}

/// The index reached after `k` steps (`k <= n`) from `start` around a ring of
/// `n` indices.
pub open spec fn ring_index(n: int, start: int, k: int, dir: RoadDirection) -> int {
    match dir {
        RoadDirection::Forward => if start + k < n {
            start + k
        } else {
            start + k - n
        },
        RoadDirection::Backward => if k <= start {
            start - k
        } else {
            start + n - k
        },
    }
}

/// The first index on `lane` found at step `k` or later of a scan from `start`,
/// ending with the step that comes back to `start`.
pub open spec fn scan_from(cars: Seq<Car>, start: int, lane: i32, dir: RoadDirection, k: int) -> Option<int>
    decreases cars.len() + 1 - k,
{
    if k < 1 || k > cars.len() {
        None
    } else {
        let j = ring_index(cars.len() as int, start, k, dir);
        if cars[j].lane == lane {
            Some(j)
        } else {
            scan_from(cars, start, lane, dir, k + 1)
        }
    }
}

/// The nearest vehicle on `lane` from `start` in direction `dir`, `start`
/// itself being the last one looked at.
pub open spec fn nearest(cars: Seq<Car>, start: int, lane: i32, dir: RoadDirection) -> Option<int> {
    scan_from(cars, start, lane, dir, 1)
}

/// Some vehicle is on `lane`.
pub open spec fn occupied(cars: Seq<Car>, lane: i32) -> bool {
    exists|j: int| 0 <= j < cars.len() && #[trigger] cars[j].lane == lane
}

/// The nearest vehicles ahead of and behind `start` on `lane`, when it is
/// occupied.
pub open spec fn neighbors(cars: Seq<Car>, start: int, lane: i32) -> Option<(int, int)> {
    match (nearest(cars, start, lane, RoadDirection::Forward), nearest(cars, start, lane, RoadDirection::Backward)) {
        (Some(f), Some(b)) => Some((f, b)),
        _ => None,
    }
}

pub open spec fn index_of(o: Option<usize>) -> Option<int> {
    match o {
        Some(j) => Some(j as int),
        None => None,
    }
}

/// Scans the ring of vehicles from `start_index` in `direction` for the first
/// vehicle on `lane`, coming back to `start_index` last.
pub fn find_nearest_car(cars: &Vec<Car>, start_index: usize, lane: i32, direction: RoadDirection) -> (r: Option<usize>)
    requires
        start_index < cars.len(),
    ensures
        index_of(r) == nearest(cars@, start_index as int, lane, direction),
        r is None <==> !occupied(cars@, lane),
        r matches Some(j) ==> j < cars.len() && cars@[j as int].lane == lane,
{
    let n = cars.len();
    let mut index = start_index;
    let mut k: usize = 0;
    loop
        invariant
            n == cars.len(),
            start_index < n,
            k < n,
            index == ring_index(n as int, start_index as int, k as int, direction),
            nearest(cars@, start_index as int, lane, direction) == scan_from(
                cars@,
                start_index as int,
                lane,
                direction,
                k + 1,
            ),
            forall|k2: int|
                1 <= k2 <= k ==> #[trigger] cars@[ring_index(n as int, start_index as int, k2, direction)].lane
                    != lane,
        decreases n - k,
    {
        index = match direction {
            RoadDirection::Forward => if index + 1 == n {
                0
            } else {
                index + 1
            },
            RoadDirection::Backward => if index == 0 {
                n - 1
            } else {
                index - 1
            },
        };
        k = k + 1;
        if cars[index].lane == lane {
            return Some(index);
        }
        if k == n {
            assert forall|j: int| 0 <= j < n implies #[trigger] cars@[j].lane != lane by {
                let k2 = match direction {
                    RoadDirection::Forward => if j > start_index {
                        j - start_index
                    } else {
                        j + n - start_index
                    },
                    RoadDirection::Backward => if j < start_index {
                        start_index - j
                    } else {
                        start_index + n - j
                    },
                };
                assert(ring_index(n as int, start_index as int, k2, direction) == j);
            }
            return None;
        }
    }
}

/// The nearest vehicles on `lane` ahead of and behind `start_index`, or `None`
/// when the lane is empty.
pub fn lane_parameters(cars: &Vec<Car>, start_index: usize, lane: i32) -> (r: Option<LaneParameters>)
    requires
        start_index < cars.len(),
    ensures
        r is Some <==> occupied(cars@, lane),
        r is Some <==> neighbors(cars@, start_index as int, lane) is Some,
        r matches Some(p) ==> neighbors(cars@, start_index as int, lane) == Some(
            (p.forward as int, p.backward as int),
        ) && p.forward < cars.len() && p.backward < cars.len() && cars@[p.forward as int].lane == lane
            && cars@[p.backward as int].lane == lane,
{
    let next_car = find_nearest_car(cars, start_index, lane, RoadDirection::Forward);
    let prev_car = find_nearest_car(cars, start_index, lane, RoadDirection::Backward);
    match (next_car, prev_car) {
        (Some(forward), Some(backward)) => Some(LaneParameters { forward, backward }),
        _ => None,
    }
}

} // verus!
