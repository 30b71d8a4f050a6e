use vstd::prelude::*;
use crate::config::{Config, QUANTITY_LIMIT};

verus! {

/// The largest natural number whose square is at most `n`.
pub open spec fn sqrt_floor(n: nat) -> nat
    decreases n,
{
    if n == 0 {
        0
    } else {
        let r = sqrt_floor((n - 1) as nat);
        if (r + 1) * (r + 1) <= n {
            (r + 1) as nat
        } else {
            r
        }
    }
}

/// `sqrt_floor(n)` squared is at most `n`, and its successor squared exceeds `n`.
pub proof fn lemma_sqrt_floor_bounds(n: nat)
    ensures
        sqrt_floor(n) * sqrt_floor(n) <= n,
        n < (sqrt_floor(n) + 1) * (sqrt_floor(n) + 1),
    decreases n,
{
    if n > 0 {
        lemma_sqrt_floor_bounds((n - 1) as nat);
        let r = sqrt_floor((n - 1) as nat);
        let s = sqrt_floor(n);
        assert(r * r <= n - 1 < (r + 1) * (r + 1));
        if (r + 1) * (r + 1) <= n {
            assert(s == r + 1);
            assert(n <= (r + 1) * (r + 1));
            assert((r + 1) * (r + 1) < (r + 2) * (r + 2)) by (nonlinear_arith);
            assert((s + 1) * (s + 1) == (r + 2) * (r + 2));
            assert(s * s <= n);
            assert(n < (s + 1) * (s + 1));
        } else {
            assert(s == r);
            assert(s * s <= n);
            assert(n < (s + 1) * (s + 1));
        }
    } else {
        let s = sqrt_floor(n);
        assert(s == 0);
        assert((s + 1) * (s + 1) == 1) by (nonlinear_arith)
            requires s == 0;
    }
}

/// A number between whose square and whose successor's square `n` lies is
/// `sqrt_floor(n)`.
pub proof fn lemma_sqrt_floor_unique(n: nat, a: nat)
    requires
        a * a <= n < (a + 1) * (a + 1),
    ensures
        a == sqrt_floor(n),
{
    lemma_sqrt_floor_bounds(n);
    let r = sqrt_floor(n);
    if a < r {
        assert((a + 1) * (a + 1) <= r * r) by (nonlinear_arith)
            requires a + 1 <= r;
    } else if r < a {
        assert((r + 1) * (r + 1) <= a * a) by (nonlinear_arith)
            requires r + 1 <= a;
    }
}

/// Forward distance along the ring from `from` to `to`; a full lap when the two
/// coincide.
pub open spec fn circular_distance(cfg: Config, from: int, to: int) -> int {
    if from == to {
        cfg.road_length as int
    } else {
        (to - from + cfg.road_length) % (cfg.road_length as int)
    }
}

/// The largest velocity, up to `max_velocity`, from which a vehicle braking at
/// `max_deceleration` stops within `distance`.
pub open spec fn safe_velocity(cfg: Config, distance: int) -> int {
    let v = sqrt_floor((2 * cfg.max_deceleration * distance) as nat) as int;
    if v < cfg.max_velocity {
        v
    } else {
        cfg.max_velocity as int
    }
}

/// `v_front² − v_rear²`: the extra stopping distance that the rear vehicle
/// needs, scaled by `2 * max_deceleration`.
pub open spec fn braking_margin(v_rear: int, v_front: int) -> int {
    v_front * v_front - v_rear * v_rear
}

/// Floor of the square root of `n`.
pub fn isqrt(n: u64) -> (r: u64)
    requires
        n < 0x4000_0000_0000_0000,
    ensures
        r == sqrt_floor(n as nat),
        r <= 0x8000_0000,
{
    let mut lo: u64 = 0;
    let mut hi: u64 = 0x8000_0000;
    assert(0x8000_0000u64 * 0x8000_0000u64 == 0x4000_0000_0000_0000u64) by (nonlinear_arith);
    while hi - lo > 1
        invariant
            lo < hi <= 0x8000_0000,
            lo * lo <= n < hi * hi,
        decreases hi - lo,
    {
        let mid = lo + (hi - lo) / 2;
        assert(mid * mid <= 0x8000_0000u64 * 0x8000_0000u64) by (nonlinear_arith)
            requires mid <= 0x8000_0000u64;
        if mid * mid <= n {
            lo = mid;
        } else {
            hi = mid;
        }
    }
    proof {
        lemma_sqrt_floor_unique(n as nat, lo as nat);
    }
    lo
}

/// Forward distance along the ring from `pos1` to `pos2`.
pub fn calculate_distance(pos1: u64, pos2: u64, config: &Config) -> (r: u64)
    requires
        config.wf(),
        pos1 < config.road_length,
        pos2 < config.road_length,
    ensures
        r == circular_distance(*config, pos1 as int, pos2 as int),
        0 < r <= config.road_length,
{
    if pos1 == pos2 {
        return config.road_length;
    }
    let road = config.road_length;
    if pos1 < pos2 {
        assert((pos2 - pos1 + road) % (road as int) == pos2 - pos1) by (nonlinear_arith)
            requires 0 < pos2 - pos1 < road;
        pos2 - pos1
    } else {
        assert((pos2 - pos1 + road) % (road as int) == pos2 - pos1 + road) by (nonlinear_arith)
            requires 0 < pos2 - pos1 + road < road;
        pos2 + road - pos1
    }
}

/// Whatever the position, the distance from it to itself is a full lap.
pub proof fn lemma_distance_to_self(cfg: Config, p: int)
    ensures
        circular_distance(cfg, p, p) == cfg.road_length,
{
}

/// The velocity from which a vehicle stops exactly within `distance`, capped at
/// `max_velocity`.
pub fn calculate_appropriate_velocity(config: &Config, distance: u64) -> (r: u64)
    requires
        config.wf(),
        distance <= config.road_length,
    ensures
        r == safe_velocity(*config, distance as int),
        r <= config.max_velocity,
{
    assert(2 * config.max_deceleration * distance <= 2 * QUANTITY_LIMIT * QUANTITY_LIMIT)
        by (nonlinear_arith)
        requires
            config.max_deceleration <= QUANTITY_LIMIT,
            distance <= QUANTITY_LIMIT,
    ;
    let v = isqrt(2 * config.max_deceleration * distance);
    if v < config.max_velocity {
        v
    } else {
        config.max_velocity
    }
}

/// `vel2² − vel1²`: how much farther a vehicle at `vel1` must brake than one at
/// `vel2`, scaled by `2 * max_deceleration`.
pub fn calculate_break_distance(config: &Config, vel1: u64, vel2: u64) -> (r: i64)
    requires
        config.wf(),
        vel1 <= config.max_velocity,
        vel2 <= config.max_velocity,
    ensures
        r == braking_margin(vel1 as int, vel2 as int),
{
    assert(vel1 * vel1 <= QUANTITY_LIMIT * QUANTITY_LIMIT) by (nonlinear_arith)
        requires vel1 <= QUANTITY_LIMIT;
    assert(vel2 * vel2 <= QUANTITY_LIMIT * QUANTITY_LIMIT) by (nonlinear_arith)
        requires vel2 <= QUANTITY_LIMIT;
    (vel2 * vel2) as i64 - (vel1 * vel1) as i64
}

} // verus!
