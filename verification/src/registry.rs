//! The dosing domain model: the registry of logical pumps and the
//! device-wide status.
//!
//! Every operation that issues motion brackets its work in the `Running`
//! status and restores `Idle` afterwards, even on partial failure. The
//! registry is positional: a request names a pump by its index, and an
//! index outside the registry draws a client error without aborting the
//! rest of a batch. In the device the whole model sits behind one
//! exclusive lock, so operations on different pumps serialise at the
//! domain level; hardware-level exclusivity is enforced separately by the
//! channel.

use crate::channel::{TransmissionView, TxChannel};
use crate::dosing::{
    spec_dispense_pump, spec_ensure_primed, spec_unprime, CalibrationRecord, LogicalPump, MlPerStep,
};
use crate::driver::{spec_stepped, spec_step_transmission, DRV8825};
use crate::errors::{ClientError, DoseError, HardwareFault};
use crate::units::{spec_nutrient_volume, spec_solution_volume, VolUnit};
use vstd::prelude::*;

verus! {

/// The device-wide status, read by status-reporting collaborators.
#[derive(Clone, Copy, Debug, PartialEq, Eq, Structural)]
pub enum DeviceStatus {
    Idle,
    Running,
    Ota,
}

/// One item of a dispense request: which pump, and how many volume
/// units.
#[derive(Clone, Copy, Debug, PartialEq, Eq, Structural)]
pub struct DispenseSingle {
    pub motor_idx: usize,
    pub ml: u64,
}

/// One nutrient of a dose-solution request: its concentration is in
/// volume units per US gallon of solution.
#[derive(Debug)]
pub struct NutrientInfo {
    pub name: String,
    pub motor_idx: usize,
    pub ml_per_gal: u64,
}

/// The per-pump block of a full status report.
#[derive(Clone, Copy, Debug, PartialEq, Eq, Structural)]
pub struct MotorStatus {
    pub idx: usize,
    pub id: u32,
    pub position: i32,
    pub is_primed: bool,
    pub prime_steps: u32,
    pub ml_per_step: MlPerStep,
}

/// The full status report.
#[derive(Debug)]
pub struct FullStatus {
    pub num_motors: usize,
    pub motors: Vec<MotorStatus>,
    pub status: DeviceStatus,
}

/// What a status report says about one pump: an unbound pump reports
/// position zero and unprimed.
pub open spec fn spec_motor_status(p: LogicalPump, i: int) -> MotorStatus {
    MotorStatus {
        idx: i as usize,
        id: p.id,
        position: match p.driver {
            Some(d) => d.spec_position(),
            None => 0,
        },
        is_primed: p.spec_is_primed(),
        prime_steps: p.prime_steps,
        ml_per_step: p.ml_per_step,
    }
}

/// The persisted image of one pump.
pub open spec fn spec_record_of(p: LogicalPump) -> CalibrationRecord {
    CalibrationRecord { id: p.id, ml_per_step: p.ml_per_step, prime_steps: p.prime_steps }
}

/// A fresh registry entry for a newly detected driver: the factory
/// calibration bound to it.
pub open spec fn spec_default_pump(d: DRV8825) -> LogicalPump {
    LogicalPump {
        id: d.spec_id(),
        driver: Some(d),
        ml_per_step: MlPerStep { num: 32, den: 1 },
        prime_steps: 0,
    }
}

/// Grants one pump of the registry out for mutation.
fn pump_mut(pumps: &mut Vec<LogicalPump>, i: usize) -> (p: &mut LogicalPump)
    requires
        i < old(pumps).len(),
    ensures
        *p == old(pumps)@[i as int],
        final(pumps)@ == old(pumps)@.update(i as int, *final(p)),
{
    &mut pumps[i]
}

/// The in-memory registry of logical pumps and the device status.
pub struct DosingModel {
    pub pumps: Vec<LogicalPump>,
    pub status: DeviceStatus,
}

impl DosingModel {
    /// Every pump's calibration and driver are well formed.
    pub open spec fn wf(self) -> bool {
        forall|i: int| 0 <= i < self.pumps@.len() ==> (#[trigger] self.pumps@[i]).wf()
    }

    /// Every pump is bound to a driver (the reconciler establishes this
    /// and no operation unbinds one).
    pub open spec fn spec_all_bound(self) -> bool {
        forall|i: int| 0 <= i < self.pumps@.len() ==> (#[trigger] self.pumps@[i]).driver is Some
    }

    /// An empty, idle registry.
    pub fn new() -> (m: DosingModel)
        ensures
            m.pumps@.len() == 0,
            m.status == DeviceStatus::Idle,
            m.wf(),
            m.spec_all_bound(),
    {
        DosingModel { pumps: Vec::new(), status: DeviceStatus::Idle }
    }

    pub fn set_status(&mut self, status: DeviceStatus)
        ensures
            final(self).pumps@ == old(self).pumps@,
            final(self).status == status,
    {
        self.status = status;
    }

    pub fn get_status(&self) -> (s: DeviceStatus)
        ensures
            s == self.status,
    {
        self.status
    }

    pub fn num_pumps(&self) -> (n: usize)
        ensures
            n as int == self.pumps@.len(),
    {
        self.pumps.len()
    }

    /// Appends a registry entry for a newly detected driver, bound to it
    /// with the factory calibration.
    pub fn add_config_entry(&mut self, drv: DRV8825)
        requires
            drv.wf(),
            old(self).wf(),
        ensures
            final(self).wf(),
            final(self).pumps@ == old(self).pumps@.push(spec_default_pump(drv)),
            final(self).status == old(self).status,
            old(self).spec_all_bound() ==> final(self).spec_all_bound(),
    {
        let id = drv.id();
        self.pumps.push(
            LogicalPump {
                id,
                driver: Some(drv),
                ml_per_step: MlPerStep::default(),
                prime_steps: 0,
            },
        );
        proof {
            assert(final(self).pumps@ =~= old(self).pumps@.push(spec_default_pump(drv)));
        }
    }

    /// Builds a fresh registry from the detected drivers alone, in
    /// detection order.
    pub fn create_config(&mut self, drivers: Vec<DRV8825>)
        requires
            old(self).wf(),
            forall|i: int| 0 <= i < drivers@.len() ==> (#[trigger] drivers@[i]).wf(),
        ensures
            final(self).wf(),
            final(self).pumps@ == old(self).pumps@ + drivers@.map(
                |i: int, d: DRV8825| spec_default_pump(d),
            ),
            final(self).status == old(self).status,
            old(self).spec_all_bound() ==> final(self).spec_all_bound(),
    {
        let ghost pre = self.pumps@;
        let n = drivers.len();
        let mut k: usize = 0;
        while k < n
            invariant
                n as int == drivers@.len(),
                k <= n,
                forall|i: int| 0 <= i < drivers@.len() ==> (#[trigger] drivers@[i]).wf(),
                self.wf(),
                self.pumps@ == pre + drivers@.take(k as int).map(
                    |i: int, d: DRV8825| spec_default_pump(d),
                ),
                self.status == old(self).status,
                old(self).spec_all_bound() ==> self.spec_all_bound(),
            decreases n as int - k as int,
        {
            let drv = drivers[k];
            self.add_config_entry(drv);
            proof {
                assert(self.pumps@ =~= pre + drivers@.take(k as int + 1).map(
                    |i: int, d: DRV8825| spec_default_pump(d),
                ));
            }
            k = k + 1;
        }
        proof {
            assert(drivers@.take(n as int) =~= drivers@);
            assert(self.pumps@ =~= pre + drivers@.map(|i: int, d: DRV8825| spec_default_pump(d)));
        }
    }

    /// Empties the registry (the debug clear-config operation; the glue
    /// persists the empty registry and restarts the device).
    pub fn clear_config(&mut self)
        ensures
            final(self).pumps@.len() == 0,
            final(self).status == old(self).status,
            final(self).wf(),
    {
        self.pumps.clear();
    }

    /// The persisted image of the whole registry, in registry order.
    pub fn to_records(&self) -> (records: Vec<CalibrationRecord>)
        ensures
            records@.len() == self.pumps@.len(),
            forall|i: int|
                0 <= i < self.pumps@.len() ==> records@[i] == spec_record_of(
                    #[trigger] self.pumps@[i],
                ),
    {
        let mut records: Vec<CalibrationRecord> = Vec::new();
        let mut k: usize = 0;
        while k < self.pumps.len()
            invariant
                k as int <= self.pumps@.len(),
                records@.len() == k as int,
                forall|i: int|
                    0 <= i < k as int ==> records@[i] == spec_record_of(
                        #[trigger] self.pumps@[i],
                    ),
            decreases self.pumps@.len() - k as int,
        {
            let p = &self.pumps[k];
            records.push(
                CalibrationRecord {
                    id: p.id,
                    ml_per_step: p.ml_per_step,
                    prime_steps: p.prime_steps,
                },
            );
            k = k + 1;
        }
        records
    }

    /// The full status report: the device status and one block per
    /// pump, in registry order.
    pub fn full_status(&self) -> (r: FullStatus)
        ensures
            r.num_motors as int == self.pumps@.len(),
            r.status == self.status,
            r.motors@.len() == self.pumps@.len(),
            forall|i: int|
                0 <= i < self.pumps@.len() ==> r.motors@[i] == spec_motor_status(
                    #[trigger] self.pumps@[i],
                    i,
                ),
    {
        let mut motors: Vec<MotorStatus> = Vec::new();
        let mut k: usize = 0;
        while k < self.pumps.len()
            invariant
                k as int <= self.pumps@.len(),
                motors@.len() == k as int,
                forall|i: int|
                    0 <= i < k as int ==> motors@[i] == spec_motor_status(
                        #[trigger] self.pumps@[i],
                        i,
                    ),
            decreases self.pumps@.len() - k as int,
        {
            let p = &self.pumps[k];
            let position: i32 = match &p.driver {
                Some(d) => d.get_position(),
                None => 0,
            };
            motors.push(
                MotorStatus {
                    idx: k,
                    id: p.id,
                    position,
                    is_primed: p.is_primed(),
                    prime_steps: p.prime_steps,
                    ml_per_step: p.ml_per_step,
                },
            );
            k = k + 1;
        }
        FullStatus { num_motors: self.pumps.len(), motors, status: self.status }
    }

    /// Rescales one pump's calibration from a measured dispense:
    /// `expected` is what the request asked for, `actual` what was
    /// measured, both in volume units. The glue persists the registry on
    /// success.
    pub fn calibrate(&mut self, motor_idx: usize, expected: u64, actual: u64) -> (r: Result<
        (),
        ClientError,
    >)
        requires
            old(self).wf(),
        ensures
            final(self).wf(),
            final(self).status == old(self).status,
            motor_idx as int >= old(self).pumps@.len() ==> r == Err::<(), ClientError>(
                ClientError::BadIndex,
            ) && final(self).pumps@ == old(self).pumps@,
            (motor_idx as int) < old(self).pumps@.len() ==> ({
                let p = old(self).pumps@[motor_idx as int];
                let cal = p.ml_per_step;
                if expected == 0 || actual == 0 {
                    &&& r == Err::<(), ClientError>(ClientError::ZeroVolume)
                    &&& final(self).pumps@ == old(self).pumps@
                } else if cal.num as int * actual as int <= u64::MAX as int && cal.den as int
                    * expected as int <= u64::MAX as int {
                    &&& r is Ok
                    &&& final(self).pumps@ == old(self).pumps@.update(
                        motor_idx as int,
                        LogicalPump {
                            ml_per_step: MlPerStep {
                                num: (cal.num as int * actual as int) as u64,
                                den: (cal.den as int * expected as int) as u64,
                            },
                            ..p
                        },
                    )
                } else {
                    &&& r == Err::<(), ClientError>(ClientError::CalibrationOverflow)
                    &&& final(self).pumps@ == old(self).pumps@
                }
            }),
    {
        if motor_idx >= self.pumps.len() {
            return Err(ClientError::BadIndex);
        }
        let p = pump_mut(&mut self.pumps, motor_idx);
        let r = p.ml_per_step.calibrate(expected, actual);
        proof {
            if r is Ok {
            } else {
                assert(final(self).pumps@ =~= old(self).pumps@);
            }
        }
        r
    }

    /// Sets one pump's calibration rate directly (the debug operation,
    /// bypassing the measured-ratio semantics). The rate must be a
    /// positive rational.
    pub fn debug_calibrate(&mut self, motor_idx: usize, value: MlPerStep) -> (r: Result<
        (),
        ClientError,
    >)
        requires
            old(self).wf(),
        ensures
            final(self).wf(),
            final(self).status == old(self).status,
            motor_idx as int >= old(self).pumps@.len() ==> r == Err::<(), ClientError>(
                ClientError::BadIndex,
            ) && final(self).pumps@ == old(self).pumps@,
            (motor_idx as int) < old(self).pumps@.len() ==> (if value.wf() {
                &&& r is Ok
                &&& final(self).pumps@ == old(self).pumps@.update(
                    motor_idx as int,
                    LogicalPump { ml_per_step: value, ..old(self).pumps@[motor_idx as int] },
                )
            } else {
                &&& r == Err::<(), ClientError>(ClientError::ZeroVolume)
                &&& final(self).pumps@ == old(self).pumps@
            }),
    {
        if motor_idx >= self.pumps.len() {
            return Err(ClientError::BadIndex);
        }
        if value.num == 0 || value.den == 0 {
            proof {
                assert(final(self).pumps@ =~= old(self).pumps@);
            }
            return Err(ClientError::ZeroVolume);
        }
        let p = pump_mut(&mut self.pumps, motor_idx);
        p.ml_per_step = value;
        Ok(())
    }

    /// Drives one pump by a raw step count (the debug operation,
    /// bypassing priming and back-off). Motion brackets the `Running`
    /// status; a pump with no driver does nothing.
    pub fn debug_step(&mut self, chan: &mut TxChannel, motor_idx: usize, steps: i32) -> (r: Result<
        (),
        DoseError,
    >)
        requires
            old(self).wf(),
        ensures
            final(self).wf(),
            final(chan).spec_healthy() == old(chan).spec_healthy(),
            motor_idx as int >= old(self).pumps@.len() ==> r == Err::<(), DoseError>(
                DoseError::Client(ClientError::BadIndex),
            ) && final(self).pumps@ == old(self).pumps@ && final(self).status == old(self).status
                && final(chan).spec_log() == old(chan).spec_log(),
            (motor_idx as int) < old(self).pumps@.len() ==> ({
                let p = old(self).pumps@[motor_idx as int];
                match p.driver {
                    None => {
                        &&& r is Ok
                        &&& final(self).pumps@ == old(self).pumps@
                        &&& final(self).status == old(self).status
                        &&& final(chan).spec_log() == old(chan).spec_log()
                    },
                    Some(d) => {
                        &&& final(self).status == DeviceStatus::Idle
                        &&& final(self).pumps@ == old(self).pumps@.update(
                            motor_idx as int,
                            LogicalPump { driver: Some(spec_stepped(d, steps as int)), ..p },
                        )
                        &&& (old(chan).spec_healthy() ==> r is Ok && final(chan).spec_log() == old(
                            chan,
                        ).spec_log().push(spec_step_transmission(d, steps as int)))
                        &&& (!old(chan).spec_healthy() ==> r == Err::<(), DoseError>(
                            DoseError::Hardware(HardwareFault),
                        ) && final(chan).spec_log() == old(chan).spec_log())
                    },
                }
            }),
    {
        if motor_idx >= self.pumps.len() {
            return Err(DoseError::Client(ClientError::BadIndex));
        }
        if self.pumps[motor_idx].driver.is_none() {
            return Ok(());
        }
        self.status = DeviceStatus::Running;
        let p = pump_mut(&mut self.pumps, motor_idx);
        let r = p.step_driver(chan, steps);
        self.status = DeviceStatus::Idle;
        match r {
            Ok(()) => Ok(()),
            Err(e) => Err(DoseError::Hardware(e)),
        }
    }

    /// Purges one pump and re-baselines its counter to zero, bracketing
    /// the `Running` status.
    pub fn unprime_motor(&mut self, chan: &mut TxChannel, motor_idx: usize) -> (r: Result<
        (),
        DoseError,
    >)
        requires
            old(self).wf(),
        ensures
            final(self).wf(),
            final(chan).spec_healthy() == old(chan).spec_healthy(),
            motor_idx as int >= old(self).pumps@.len() ==> r == Err::<(), DoseError>(
                DoseError::Client(ClientError::BadIndex),
            ) && final(self).pumps@ == old(self).pumps@ && final(self).status == old(self).status
                && final(chan).spec_log() == old(chan).spec_log(),
            (motor_idx as int) < old(self).pumps@.len() ==> ({
                let p = old(self).pumps@[motor_idx as int];
                let (p2, txs, ok) = spec_unprime(p, old(chan).spec_healthy());
                &&& final(self).pumps@ == old(self).pumps@.update(motor_idx as int, p2)
                &&& final(self).status == DeviceStatus::Idle
                &&& final(chan).spec_log() == old(chan).spec_log() + txs
                &&& (r is Ok <==> ok)
                &&& (r is Err ==> r == Err::<(), DoseError>(DoseError::Hardware(HardwareFault)))
            }),
    {
        if motor_idx >= self.pumps.len() {
            return Err(DoseError::Client(ClientError::BadIndex));
        }
        self.status = DeviceStatus::Running;
        let p = pump_mut(&mut self.pumps, motor_idx);
        let r = p.unprime(chan);
        self.status = DeviceStatus::Idle;
        match r {
            Ok(()) => Ok(()),
            Err(e) => Err(DoseError::Hardware(e)),
        }
    }

    /// Re-primes one pump with a new priming step count: purges with the
    /// old count, adopts the new one, primes with it. The glue persists
    /// the registry afterwards.
    pub fn update_prime(&mut self, chan: &mut TxChannel, motor_idx: usize, prime_steps: u32) -> (r:
        Result<(), DoseError>)
        requires
            old(self).wf(),
        ensures
            final(self).wf(),
            final(chan).spec_healthy() == old(chan).spec_healthy(),
            motor_idx as int >= old(self).pumps@.len() ==> r == Err::<(), DoseError>(
                DoseError::Client(ClientError::BadIndex),
            ) && final(self).pumps@ == old(self).pumps@ && final(self).status == old(self).status
                && final(chan).spec_log() == old(chan).spec_log(),
            (motor_idx as int) < old(self).pumps@.len() ==> ({
                let p = old(self).pumps@[motor_idx as int];
                let h = old(chan).spec_healthy();
                let (p1, t1, ok1) = spec_unprime(p, h);
                let p1b = LogicalPump { prime_steps, ..p1 };
                let (p2, t2, ok2) = spec_ensure_primed(p1b, h);
                &&& final(self).pumps@ == old(self).pumps@.update(motor_idx as int, p2)
                &&& final(self).status == DeviceStatus::Idle
                &&& final(chan).spec_log() == old(chan).spec_log() + t1 + t2
                &&& (r is Ok <==> ok1 && ok2)
                &&& (r is Err ==> r == Err::<(), DoseError>(DoseError::Hardware(HardwareFault)))
            }),
    {
        if motor_idx >= self.pumps.len() {
            return Err(DoseError::Client(ClientError::BadIndex));
        }
        self.status = DeviceStatus::Running;
        let p = pump_mut(&mut self.pumps, motor_idx);
        let r1 = p.unprime(chan);
        p.prime_steps = prime_steps;
        let r2 = p.ensure_primed(chan);
        self.status = DeviceStatus::Idle;
        match (r1, r2) {
            (Ok(()), Ok(())) => Ok(()),
            (Err(e), _) => Err(DoseError::Hardware(e)),
            (_, Err(e)) => Err(DoseError::Hardware(e)),
        }
    }
}

/// What a batched dispense does, item by item in submission order:
/// the registry afterwards, everything put on the channel, whether every
/// index was in range, whether no motion faulted, and whether any item
/// was processed at all. An out-of-range index is noted and skipped; it
/// never aborts the rest of the batch.
pub open spec fn spec_dispense_batch(
    pumps: Seq<LogicalPump>,
    reqs: Seq<DispenseSingle>,
    healthy: bool,
) -> (Seq<LogicalPump>, Seq<TransmissionView>, bool, bool, bool)
    decreases reqs.len(),
{
    if reqs.len() <= 0 {
        (pumps, Seq::<TransmissionView>::empty(), true, true, false)
    } else {
        let q = reqs[0];
        if q.motor_idx as int >= pumps.len() {
            let rest = spec_dispense_batch(pumps, reqs.drop_first(), healthy);
            (rest.0, rest.1, false, rest.3, rest.4)
        } else {
            let step = spec_dispense_pump(pumps[q.motor_idx as int], q.ml, healthy);
            let rest = spec_dispense_batch(
                pumps.update(q.motor_idx as int, step.0),
                reqs.drop_first(),
                healthy,
            );
            (rest.0, step.1 + rest.1, rest.2, step.2 && rest.3, true)
        }
    }
}

/// What a dose-solution request does, nutrient by nutrient: each valid
/// index whose computed need is positive is dispensed; a nutrient with an
/// out-of-range index or a zero need is skipped silently.
pub open spec fn spec_dose_solution(
    pumps: Seq<LogicalPump>,
    nutrients: Seq<NutrientInfo>,
    solution: u64,
    healthy: bool,
) -> (Seq<LogicalPump>, Seq<TransmissionView>, bool)
    decreases nutrients.len(),
{
    if nutrients.len() <= 0 {
        (pumps, Seq::<TransmissionView>::empty(), true)
    } else {
        let nu = nutrients[0];
        if nu.motor_idx as int >= pumps.len() {
            spec_dose_solution(pumps, nutrients.drop_first(), solution, healthy)
        } else {
            let needed = spec_nutrient_volume(solution, nu.ml_per_gal);
            if needed == 0 {
                spec_dose_solution(pumps, nutrients.drop_first(), solution, healthy)
            } else {
                let step = spec_dispense_pump(pumps[nu.motor_idx as int], needed, healthy);
                let rest = spec_dose_solution(
                    pumps.update(nu.motor_idx as int, step.0),
                    nutrients.drop_first(),
                    solution,
                    healthy,
                );
                (rest.0, step.1 + rest.1, step.2 && rest.2)
            }
        }
    }
}

/// What unpriming every pump does, from index `i` on, in registry order.
pub open spec fn spec_unprime_from(pumps: Seq<LogicalPump>, i: int, healthy: bool) -> (
    Seq<LogicalPump>,
    Seq<TransmissionView>,
    bool,
)
    decreases pumps.len() - i,
{
    if i < 0 || i >= pumps.len() {
        (pumps, Seq::<TransmissionView>::empty(), true)
    } else {
        let step = spec_unprime(pumps[i], healthy);
        let rest = spec_unprime_from(pumps.update(i, step.0), i + 1, healthy);
        (rest.0, step.1 + rest.1, step.2 && rest.2)
    }
}

impl DosingModel {
    /// Processes a batched dispense request, items strictly in
    /// submission order. Each valid item primes its pump if needed,
    /// dispenses, and backs off, bracketing the `Running` status. An
    /// invalid index draws the client error for the whole call but never
    /// aborts the remaining items, and already-applied effects stand; a
    /// hardware fault likewise skips only its own pump's remaining
    /// motion.
    pub fn dispense(&mut self, chan: &mut TxChannel, reqs: &Vec<DispenseSingle>) -> (r: Result<
        (),
        DoseError,
    >)
        requires
            old(self).wf(),
        ensures
            final(self).wf(),
            final(chan).spec_healthy() == old(chan).spec_healthy(),
            ({
                let (ps, txs, iok, hok, any) = spec_dispense_batch(
                    old(self).pumps@,
                    reqs@,
                    old(chan).spec_healthy(),
                );
                &&& final(self).pumps@ == ps
                &&& final(chan).spec_log() == old(chan).spec_log() + txs
                &&& final(self).status == (if any {
                    DeviceStatus::Idle
                } else {
                    old(self).status
                })
                &&& r == (if !iok {
                    Err::<(), DoseError>(DoseError::Client(ClientError::BadIndex))
                } else if !hok {
                    Err::<(), DoseError>(DoseError::Hardware(HardwareFault))
                } else {
                    Ok::<(), DoseError>(())
                })
            }),
    {
        let ghost h = old(chan).spec_healthy();
        let ghost full = spec_dispense_batch(old(self).pumps@, reqs@, h);
        let mut any_bad = false;
        let mut any_hw = false;
        let mut any_run = false;
        let mut i: usize = 0;
        proof {
            assert(reqs@.skip(0) =~= reqs@);
        }
        while i < reqs.len()
            invariant
                old(self).wf(),
                self.wf(),
                i as int <= reqs@.len(),
                chan.spec_healthy() == h,
                full == spec_dispense_batch(old(self).pumps@, reqs@, h),
                ({
                    let rest = spec_dispense_batch(self.pumps@, reqs@.skip(i as int), h);
                    &&& full.0 == rest.0
                    &&& old(chan).spec_log() + full.1 == chan.spec_log() + rest.1
                    &&& full.2 == (!any_bad && rest.2)
                    &&& full.3 == (!any_hw && rest.3)
                    &&& full.4 == (any_run || rest.4)
                }),
                self.status == (if any_run {
                    DeviceStatus::Idle
                } else {
                    old(self).status
                }),
            decreases reqs@.len() - i as int,
        {
            let q = reqs[i];
            let ghost pre_pumps = self.pumps@;
            let ghost log_pre = chan.spec_log();
            proof {
                assert(reqs@.skip(i as int).drop_first() =~= reqs@.skip(i as int + 1));
                assert(reqs@.skip(i as int)[0] == reqs@[i as int]);
            }
            if q.motor_idx < self.pumps.len() {
                self.status = DeviceStatus::Running;
                let p = pump_mut(&mut self.pumps, q.motor_idx);
                let res = p.dispense_ml(chan, q.ml);
                self.status = DeviceStatus::Idle;
                any_run = true;
                if res.is_err() {
                    any_hw = true;
                }
                proof {
                    let step = spec_dispense_pump(pre_pumps[q.motor_idx as int], q.ml, h);
                    let rest_new = spec_dispense_batch(self.pumps@, reqs@.skip(i as int + 1), h);
                    assert(log_pre + (step.1 + rest_new.1) =~= (log_pre + step.1) + rest_new.1);
                }
            } else {
                any_bad = true;
            }
            i = i + 1;
        }
        proof {
            assert(reqs@.skip(reqs@.len() as int) =~= Seq::<DispenseSingle>::empty());
            assert(spec_dispense_batch(self.pumps@, reqs@.skip(i as int), h) == (
                self.pumps@,
                Seq::<TransmissionView>::empty(),
                true,
                true,
                false,
            ));
            assert(old(chan).spec_log() + full.1 =~= chan.spec_log());
        }
        if any_bad {
            Err(DoseError::Client(ClientError::BadIndex))
        } else if any_hw {
            Err(DoseError::Hardware(HardwareFault))
        } else {
            Ok(())
        }
    }

    /// Doses a mixed solution: converts the target amount to volume
    /// units through the fixed unit table, derives the equivalent volume
    /// in gallons (the reference unit of the per-nutrient
    /// concentrations) and dispenses each nutrient's positive need in
    /// order. The `Running` status brackets the whole request.
    pub fn dose_solution(
        &mut self,
        chan: &mut TxChannel,
        nutrients: &Vec<NutrientInfo>,
        target_amount: u64,
        target_unit: VolUnit,
    ) -> (r: Result<(), DoseError>)
        requires
            old(self).wf(),
        ensures
            final(self).wf(),
            final(chan).spec_healthy() == old(chan).spec_healthy(),
            final(self).status == DeviceStatus::Idle,
            ({
                let sol = spec_solution_volume(target_amount, target_unit);
                let (ps, txs, hok) = spec_dose_solution(old(self).pumps@, nutrients@, sol, old(
                    chan,
                ).spec_healthy());
                &&& final(self).pumps@ == ps
                &&& final(chan).spec_log() == old(chan).spec_log() + txs
                &&& r == (if hok {
                    Ok::<(), DoseError>(())
                } else {
                    Err::<(), DoseError>(DoseError::Hardware(HardwareFault))
                })
            }),
    {
        let ghost h = old(chan).spec_healthy();
        let solution = crate::units::solution_volume(target_amount, target_unit);
        let ghost full = spec_dose_solution(old(self).pumps@, nutrients@, solution, h);
        self.status = DeviceStatus::Running;
        let mut any_hw = false;
        let mut i: usize = 0;
        proof {
            assert(nutrients@.skip(0) =~= nutrients@);
        }
        while i < nutrients.len()
            invariant
                self.wf(),
                i as int <= nutrients@.len(),
                chan.spec_healthy() == h,
                solution == spec_solution_volume(target_amount, target_unit),
                full == spec_dose_solution(old(self).pumps@, nutrients@, solution, h),
                self.status == DeviceStatus::Running,
                ({
                    let rest = spec_dose_solution(
                        self.pumps@,
                        nutrients@.skip(i as int),
                        solution,
                        h,
                    );
                    &&& full.0 == rest.0
                    &&& old(chan).spec_log() + full.1 == chan.spec_log() + rest.1
                    &&& full.2 == (!any_hw && rest.2)
                }),
            decreases nutrients@.len() - i as int,
        {
            let idx = nutrients[i].motor_idx;
            let per_gal = nutrients[i].ml_per_gal;
            let ghost pre_pumps = self.pumps@;
            let ghost log_pre = chan.spec_log();
            proof {
                assert(nutrients@.skip(i as int).drop_first() =~= nutrients@.skip(i as int + 1));
                assert(nutrients@.skip(i as int)[0] == nutrients@[i as int]);
            }
            if idx < self.pumps.len() {
                let needed = crate::units::nutrient_volume(solution, per_gal);
                if needed > 0 {
                    let p = pump_mut(&mut self.pumps, idx);
                    let res = p.dispense_ml(chan, needed);
                    if res.is_err() {
                        any_hw = true;
                    }
                    proof {
                        let step = spec_dispense_pump(pre_pumps[idx as int], needed, h);
                        let rest_new = spec_dose_solution(
                            self.pumps@,
                            nutrients@.skip(i as int + 1),
                            solution,
                            h,
                        );
                        assert(log_pre + (step.1 + rest_new.1) =~= (log_pre + step.1)
                            + rest_new.1);
                    }
                }
            }
            i = i + 1;
        }
        self.status = DeviceStatus::Idle;
        proof {
            assert(nutrients@.skip(nutrients@.len() as int) =~= Seq::<NutrientInfo>::empty());
            assert(old(chan).spec_log() + full.1 =~= chan.spec_log());
        }
        if any_hw {
            Err(DoseError::Hardware(HardwareFault))
        } else {
            Ok(())
        }
    }

    /// Purges every pump in registry order, bracketing the `Running`
    /// status once for the whole sweep.
    pub fn unprime_all(&mut self, chan: &mut TxChannel) -> (r: Result<(), DoseError>)
        requires
            old(self).wf(),
        ensures
            final(self).wf(),
            final(chan).spec_healthy() == old(chan).spec_healthy(),
            final(self).status == DeviceStatus::Idle,
            ({
                let (ps, txs, hok) = spec_unprime_from(old(self).pumps@, 0, old(
                    chan,
                ).spec_healthy());
                &&& final(self).pumps@ == ps
                &&& final(chan).spec_log() == old(chan).spec_log() + txs
                &&& r == (if hok {
                    Ok::<(), DoseError>(())
                } else {
                    Err::<(), DoseError>(DoseError::Hardware(HardwareFault))
                })
            }),
    {
        let ghost h = old(chan).spec_healthy();
        let ghost full = spec_unprime_from(old(self).pumps@, 0, h);
        self.status = DeviceStatus::Running;
        let mut any_hw = false;
        let mut i: usize = 0;
        while i < self.pumps.len()
            invariant
                self.wf(),
                i as int <= self.pumps@.len(),
                self.pumps@.len() == old(self).pumps@.len(),
                chan.spec_healthy() == h,
                full == spec_unprime_from(old(self).pumps@, 0, h),
                self.status == DeviceStatus::Running,
                ({
                    let rest = spec_unprime_from(self.pumps@, i as int, h);
                    &&& full.0 == rest.0
                    &&& old(chan).spec_log() + full.1 == chan.spec_log() + rest.1
                    &&& full.2 == (!any_hw && rest.2)
                }),
            decreases self.pumps@.len() - i as int,
        {
            let ghost pre_pumps = self.pumps@;
            let ghost log_pre = chan.spec_log();
            let p = pump_mut(&mut self.pumps, i);
            let res = p.unprime(chan);
            if res.is_err() {
                any_hw = true;
            }
            proof {
                let step = spec_unprime(pre_pumps[i as int], h);
                let rest_new = spec_unprime_from(self.pumps@, i as int + 1, h);
                assert(log_pre + (step.1 + rest_new.1) =~= (log_pre + step.1) + rest_new.1);
            }
            i = i + 1;
        }
        self.status = DeviceStatus::Idle;
        proof {
            assert(old(chan).spec_log() + full.1 =~= chan.spec_log());
        }
        if any_hw {
            Err(DoseError::Hardware(HardwareFault))
        } else {
            Ok(())
        }
    }
}

} // verus!
