//! Trapezoidal motion profile generator.
//!
//! Given a step count and kinematic limits, the generator yields one
//! inter-edge delay (in transmission-channel clock ticks) per step. The
//! delays form a "valley": they shrink while the pump accelerates, sit at
//! the cap implied by the maximum speed through the middle of the move,
//! and grow symmetrically while it decelerates, so the move ends as slowly
//! as it began.
//!
//! Speeds are modelled as whole steps per second. The ramp is linear in
//! steps: after `k` steps from the nearer end of the move the speed is
//! `ramp_rate * (k + 1)`, capped at `max_speed`. The delay for a step is
//! the clock frequency divided by that speed.

use vstd::prelude::*;

verus! {

/// Kinematic limits for one pump, already scaled by the microstepping
/// multiplier, together with the transmission channel's clock.
#[derive(Clone, Copy, Debug, PartialEq, Eq, Structural)]
pub struct KinematicConfig {
    /// Transmission clock, in ticks per second.
    pub clock_hz: u32,
    /// Speed gained per step while ramping, in steps per second.
    pub ramp_rate: u32,
    /// Speed cap, in steps per second.
    pub max_speed: u32,
}

impl KinematicConfig {
    /// All rates are positive; nothing else is needed to generate.
    pub open spec fn wf(self) -> bool {
        &&& self.clock_hz >= 1
        &&& self.ramp_rate >= 1
        &&& self.max_speed >= 1
    }

    /// The shortest delay the configuration can ever ask for: the delay
    /// of a step taken at the maximum speed.
    pub open spec fn spec_min_delay(self) -> int {
        self.clock_hz as int / self.max_speed as int
    }

    /// The longest delay the configuration can ever ask for: the delay of
    /// the first (and last) step of a move, taken at the slowest ramp
    /// speed.
    pub open spec fn spec_max_delay(self) -> int {
        if self.ramp_rate <= self.max_speed {
            self.clock_hz as int / self.ramp_rate as int
        } else {
            self.clock_hz as int / self.max_speed as int
        }
    }
}

/// How many steps separate step `i` from the nearer end of an `n`-step
/// move; the profile is symmetric in this distance.
pub open spec fn spec_ramp_index(n: int, i: int) -> int
    recommends
        0 <= i < n,
{
    if i <= n - 1 - i {
        i
    } else {
        n - 1 - i
    }
}

/// The speed of step `i` of an `n`-step move, in steps per second.
pub open spec fn spec_speed_at(cfg: KinematicConfig, n: int, i: int) -> int
    recommends
        0 <= i < n,
{
    let ramped = cfg.ramp_rate as int * (spec_ramp_index(n, i) + 1);
    if ramped >= cfg.max_speed as int {
        cfg.max_speed as int
    } else {
        ramped
    }
}

/// The delay of step `i` of an `n`-step move, in clock ticks.
pub open spec fn spec_delay_at(cfg: KinematicConfig, n: int, i: int) -> int
    recommends
        0 <= i < n,
{
    cfg.clock_hz as int / spec_speed_at(cfg, n, i)
}

/// The whole delay sequence of an `n`-step move.
pub open spec fn spec_profile(cfg: KinematicConfig, n: int) -> Seq<int>
    recommends
        0 <= n,
{
    Seq::new(n as nat, |i: int| spec_delay_at(cfg, n, i))
}

/// Speeds are positive for every step of every move.
pub proof fn lemma_speed_positive(cfg: KinematicConfig, n: int, i: int)
    requires
        cfg.wf(),
        0 <= i < n,
    ensures
        1 <= spec_speed_at(cfg, n, i),
        spec_speed_at(cfg, n, i) <= cfg.max_speed as int,
{
    let k = spec_ramp_index(n, i);
    assert(cfg.ramp_rate as int * (k + 1) >= 1) by (nonlinear_arith)
        requires
            cfg.ramp_rate >= 1,
            k >= 0,
    ;
}

/// Every delay of every move is at least the floor implied by the
/// configured maximum speed, and no delay exceeds the delay of the
/// slowest ramp step.
pub proof fn lemma_delay_bounds(cfg: KinematicConfig, n: int, i: int)
    requires
        cfg.wf(),
        0 <= i < n,
    ensures
        cfg.spec_min_delay() <= spec_delay_at(cfg, n, i),
        spec_delay_at(cfg, n, i) <= cfg.spec_max_delay(),
{
    let v = spec_speed_at(cfg, n, i);
    lemma_speed_positive(cfg, n, i);
    vstd::arithmetic::div_mod::lemma_div_is_ordered_by_denominator(
        cfg.clock_hz as int,
        v,
        cfg.max_speed as int,
    );
    let slowest = if cfg.ramp_rate <= cfg.max_speed {
        cfg.ramp_rate as int
    } else {
        cfg.max_speed as int
    };
    let k = spec_ramp_index(n, i);
    assert(cfg.ramp_rate as int * (k + 1) >= cfg.ramp_rate as int) by (nonlinear_arith)
        requires
            cfg.ramp_rate >= 1,
            k >= 0,
    ;
    assert(slowest <= v);
    vstd::arithmetic::div_mod::lemma_div_is_ordered_by_denominator(
        cfg.clock_hz as int,
        slowest,
        v,
    );
}

/// The profile is a valley: a step farther from the ends of the move
/// (deeper into the profile) never has a longer delay than a step nearer
/// to an end.
pub proof fn lemma_profile_valley(cfg: KinematicConfig, n: int, i: int, j: int)
    requires
        cfg.wf(),
        0 <= i < n,
        0 <= j < n,
        spec_ramp_index(n, i) <= spec_ramp_index(n, j),
    ensures
        spec_delay_at(cfg, n, j) <= spec_delay_at(cfg, n, i),
{
    let ki = spec_ramp_index(n, i);
    let kj = spec_ramp_index(n, j);
    assert(cfg.ramp_rate as int * (ki + 1) <= cfg.ramp_rate as int * (kj + 1)) by (nonlinear_arith)
        requires
            cfg.ramp_rate >= 1,
            0 <= ki <= kj,
    ;
    lemma_speed_positive(cfg, n, i);
    lemma_speed_positive(cfg, n, j);
    vstd::arithmetic::div_mod::lemma_div_is_ordered_by_denominator(
        cfg.clock_hz as int,
        spec_speed_at(cfg, n, i),
        spec_speed_at(cfg, n, j),
    );
}

/// Within the accelerating half the delays never grow from one step to
/// the next, and within the decelerating half they never shrink.
pub proof fn lemma_profile_shape(cfg: KinematicConfig, n: int, i: int)
    requires
        cfg.wf(),
        0 <= i,
        i + 1 < n,
    ensures
        i + 1 <= n - 1 - (i + 1) ==> spec_delay_at(cfg, n, i + 1) <= spec_delay_at(cfg, n, i),
        i >= n - 1 - i ==> spec_delay_at(cfg, n, i) <= spec_delay_at(cfg, n, i + 1),
{
    if i + 1 <= n - 1 - (i + 1) {
        lemma_profile_valley(cfg, n, i, i + 1);
    }
    if i >= n - 1 - i {
        lemma_profile_valley(cfg, n, i + 1, i);
    }
}

/// The lazy delay generator for one move: yields the `n` delays of
/// `spec_profile` in order, exactly once each, then `None` forever.
pub struct ProfileIter {
    cfg: KinematicConfig,
    n: u32,
    i: u32,
}

impl ProfileIter {
    pub closed spec fn wf(self) -> bool {
        &&& self.cfg.wf()
        &&& self.i <= self.n
    }

    pub closed spec fn spec_cfg(self) -> KinematicConfig {
        self.cfg
    }

    pub closed spec fn spec_total(self) -> int {
        self.n as int
    }

    pub closed spec fn spec_emitted(self) -> int {
        self.i as int
    }

    /// Starts a move of exactly `n` steps; with `n == 0` the iterator is
    /// immediately exhausted.
    pub fn new(cfg: KinematicConfig, n: u32) -> (it: ProfileIter)
        requires
            cfg.wf(),
        ensures
            it.wf(),
            it.spec_cfg() == cfg,
            it.spec_total() == n as int,
            it.spec_emitted() == 0,
    {
        ProfileIter { cfg, n, i: 0 }
    }

    /// Yields the next delay, or `None` once all `n` have been emitted.
    /// The sequence is consumed once, in order; it cannot be restarted.
    pub fn next(&mut self) -> (r: Option<u32>)
        requires
            old(self).wf(),
        ensures
            final(self).wf(),
            final(self).spec_cfg() == old(self).spec_cfg(),
            final(self).spec_total() == old(self).spec_total(),
            old(self).spec_emitted() < old(self).spec_total() ==> {
                &&& final(self).spec_emitted() == old(self).spec_emitted() + 1
                &&& r matches Some(d) && d as int == spec_delay_at(
                    old(self).spec_cfg(),
                    old(self).spec_total(),
                    old(self).spec_emitted(),
                )
            },
            old(self).spec_emitted() >= old(self).spec_total() ==> {
                &&& final(self).spec_emitted() == old(self).spec_emitted()
                &&& r is None
            },
    {
        if self.i < self.n {
            let k: u32 = if self.i <= self.n - 1 - self.i {
                self.i
            } else {
                self.n - 1 - self.i
            };
            proof {
                assert(self.cfg.ramp_rate as int * (k as int + 1) <= u64::MAX as int)
                    by (nonlinear_arith)
                    requires
                        self.cfg.ramp_rate <= u32::MAX,
                        0 <= k <= u32::MAX - 1,
                ;
            }
            let ramped: u64 = self.cfg.ramp_rate as u64 * (k as u64 + 1);
            let v: u32 = if ramped >= self.cfg.max_speed as u64 {
                self.cfg.max_speed
            } else {
                ramped as u32
            };
            proof {
                lemma_speed_positive(self.cfg, self.n as int, self.i as int);
                assert(v as int == spec_speed_at(self.cfg, self.n as int, self.i as int));
            }
            let d: u32 = self.cfg.clock_hz / v;
            self.i = self.i + 1;
            Some(d)
        } else {
            None
        }
    }
}

/// Materialises the whole profile of an `n`-step move: exactly `n`
/// delays, each the one `spec_profile` gives for its position.
pub fn generate(cfg: KinematicConfig, n: u32) -> (v: Vec<u32>)
    requires
        cfg.wf(),
    ensures
        v@.len() == n as int,
        forall|i: int| 0 <= i < n as int ==> v@[i] as int == spec_delay_at(cfg, n as int, i),
        v@.map(|i: int, d: u32| d as int) == spec_profile(cfg, n as int),
{
    let mut it = ProfileIter::new(cfg, n);
    let mut v: Vec<u32> = Vec::new();
    loop
        invariant
            it.wf(),
            it.spec_cfg() == cfg,
            it.spec_total() == n as int,
            it.spec_emitted() == v@.len(),
            v@.len() <= n as int,
            forall|i: int| 0 <= i < v@.len() ==> v@[i] as int == spec_delay_at(cfg, n as int, i),
        decreases n as int - v@.len(),
    {
        match it.next() {
            Some(d) => {
                v.push(d);
            }
            None => {
                proof {
                    assert(v@.map(|i: int, d: u32| d as int) =~= spec_profile(cfg, n as int));
                }
                return v;
            }
        }
    }
}

} // verus!
