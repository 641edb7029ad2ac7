//! The dosing domain model: priming, dispensing, batches, status.

use nutrient_doser::channel::TxChannel;
use nutrient_doser::dosing::{LogicalPump, MlPerStep, BACKOFF_STEPS};
use nutrient_doser::driver::{DRV8825, MicroSteps};
use nutrient_doser::errors::{ClientError, DoseError};
use nutrient_doser::registry::{DeviceStatus, DispenseSingle, DosingModel, NutrientInfo};
use nutrient_doser::units::{VolUnit, VOL_UNITS_PER_ML};

fn small_driver(id: u32) -> DRV8825 {
    DRV8825::new(id, 1_000_000, 100, 1000, MicroSteps::M1).unwrap()
}

fn pump(id: u32, prime_steps: u32) -> LogicalPump {
    LogicalPump {
        id,
        driver: Some(small_driver(id)),
        ml_per_step: MlPerStep::default(),
        prime_steps,
    }
}

fn model(prime_steps: u32, pumps: usize) -> DosingModel {
    let mut m = DosingModel::new();
    for i in 0..pumps {
        m.pumps.push(pump(i as u32 + 1, prime_steps));
    }
    m
}

fn position(m: &DosingModel, idx: usize) -> i32 {
    m.pumps[idx].driver.as_ref().unwrap().get_position()
}

#[test]
fn ensure_primed_primes_an_unprimed_pump() {
    let mut p = pump(1, 4);
    let mut chan = TxChannel::new();
    assert!(!p.is_primed());
    p.ensure_primed(&mut chan).unwrap();
    assert!(p.is_primed());
    assert_eq!(p.driver.as_ref().unwrap().get_position(), 4);
    assert_eq!(chan.log_len(), 1);
}

#[test]
fn ensure_primed_twice_moves_at_most_once() {
    let mut p = pump(1, 4);
    let mut chan = TxChannel::new();
    p.ensure_primed(&mut chan).unwrap();
    p.ensure_primed(&mut chan).unwrap();
    // The second call found the pump primed and issued no motion.
    assert_eq!(chan.log_len(), 1);
    assert_eq!(p.driver.as_ref().unwrap().get_position(), 4);
}

#[test]
fn ensure_primed_is_inert_without_a_driver() {
    let mut p = LogicalPump { driver: None, ..LogicalPump::default() };
    let mut chan = TxChannel::new();
    p.ensure_primed(&mut chan).unwrap();
    assert!(!p.is_primed());
    assert_eq!(chan.log_len(), 0);
}

#[test]
fn unprime_always_rezeroes_the_counter() {
    let mut p = pump(1, 6);
    let mut chan = TxChannel::new();
    p.ensure_primed(&mut chan).unwrap();
    p.unprime(&mut chan).unwrap();
    assert_eq!(p.driver.as_ref().unwrap().get_position(), 0);
    // The purge drove twice the priming count in reverse.
    let t = chan.transmission_at(1);
    assert!(!t.forward);
    assert_eq!(t.symbols.len(), 12);

    // Whatever the position was — including never primed at all — the
    // counter ends at exactly zero.
    let mut q = pump(2, 6);
    let mut chan2 = TxChannel::new();
    q.unprime(&mut chan2).unwrap();
    assert_eq!(q.driver.as_ref().unwrap().get_position(), 0);
}

#[test]
fn dispense_ml_primes_steps_and_backs_off() {
    let mut p = pump(1, 4);
    let mut chan = TxChannel::new();
    // 0.032 ml at the default 0.0032 ml/step: ten steps.
    p.dispense_ml(&mut chan, 320).unwrap();
    // prime 4, dispense 10, back off 50.
    assert_eq!(p.driver.as_ref().unwrap().get_position(), 4 + 10 - BACKOFF_STEPS as i32);
    assert_eq!(chan.log_len(), 3);
    assert_eq!(chan.transmission_at(0).symbols.len(), 4);
    assert_eq!(chan.transmission_at(1).symbols.len(), 10);
    assert_eq!(chan.transmission_at(2).symbols.len(), BACKOFF_STEPS as usize);
    assert!(!chan.transmission_at(2).forward);
}

#[test]
fn dispense_skips_priming_when_already_primed() {
    let mut p = pump(1, 4);
    let mut chan = TxChannel::new();
    p.ensure_primed(&mut chan).unwrap();
    chan.clear_log();
    p.dispense_ml(&mut chan, 320).unwrap();
    assert_eq!(chan.log_len(), 2);
}

#[test]
fn batch_dispense_with_one_bad_index_still_runs_the_valid_items() {
    let mut m = model(0, 3);
    let mut chan = TxChannel::new();
    let reqs = vec![
        DispenseSingle { motor_idx: 0, ml: 320 },
        DispenseSingle { motor_idx: 7, ml: 320 },
        DispenseSingle { motor_idx: 1, ml: 640 },
    ];
    let r = m.dispense(&mut chan, &reqs);
    // The whole call reports the client error...
    assert_eq!(r, Err(DoseError::Client(ClientError::BadIndex)));
    // ...but both valid dispenses executed (10 and 20 steps, each with
    // its back-off; prime_steps is zero here).
    assert_eq!(position(&m, 0), 10 - BACKOFF_STEPS as i32);
    assert_eq!(position(&m, 1), 20 - BACKOFF_STEPS as i32);
    assert_eq!(position(&m, 2), 0);
    assert_eq!(m.get_status(), DeviceStatus::Idle);
}

#[test]
fn batch_dispense_of_only_valid_items_reports_success() {
    let mut m = model(0, 2);
    let mut chan = TxChannel::new();
    let reqs = vec![DispenseSingle { motor_idx: 1, ml: 320 }];
    assert!(m.dispense(&mut chan, &reqs).is_ok());
    assert_eq!(m.get_status(), DeviceStatus::Idle);
}

#[test]
fn empty_batch_leaves_the_status_alone() {
    let mut m = model(0, 1);
    m.set_status(DeviceStatus::Ota);
    let mut chan = TxChannel::new();
    assert!(m.dispense(&mut chan, &vec![]).is_ok());
    assert_eq!(m.get_status(), DeviceStatus::Ota);
}

#[test]
fn dispense_reports_a_hardware_fault() {
    let mut m = model(0, 1);
    let mut chan = TxChannel::new();
    chan.set_healthy(false);
    let reqs = vec![DispenseSingle { motor_idx: 0, ml: 320 }];
    assert_eq!(m.dispense(&mut chan, &reqs), Err(DoseError::Hardware(
        nutrient_doser::errors::HardwareFault,
    )));
    assert_eq!(m.get_status(), DeviceStatus::Idle);
}

#[test]
fn dose_solution_converts_and_dispenses_each_positive_need() {
    let mut m = model(0, 2);
    let mut chan = TxChannel::new();
    let nutrients = vec![
        NutrientInfo { name: String::from("grow"), motor_idx: 0, ml_per_gal: 64 * VOL_UNITS_PER_ML },
        NutrientInfo { name: String::from("bloom"), motor_idx: 1, ml_per_gal: 0 },
        NutrientInfo { name: String::from("stray"), motor_idx: 9, ml_per_gal: 64 * VOL_UNITS_PER_ML },
    ];
    // Half a gallon: 64 ml/gal comes to 32 ml, i.e. 10000 steps at the
    // default rate.
    let r = m.dose_solution(&mut chan, &nutrients, 5_000, VolUnit::Gal);
    assert!(r.is_ok());
    assert_eq!(position(&m, 0), 10_000 - BACKOFF_STEPS as i32);
    // A zero need and a stray index are both skipped silently.
    assert_eq!(position(&m, 1), 0);
    assert_eq!(m.get_status(), DeviceStatus::Idle);
}

#[test]
fn update_prime_purges_adopts_and_reprimes() {
    let mut m = model(4, 1);
    let mut chan = TxChannel::new();
    let r = m.update_prime(&mut chan, 0, 9);
    assert!(r.is_ok());
    assert_eq!(m.pumps[0].prime_steps, 9);
    // After the purge re-zeroed the counter, priming drove the new
    // count forward.
    assert_eq!(position(&m, 0), 9);
    assert_eq!(m.get_status(), DeviceStatus::Idle);
    assert_eq!(
        m.update_prime(&mut chan, 3, 9),
        Err(DoseError::Client(ClientError::BadIndex))
    );
}

#[test]
fn unprime_motor_and_unprime_all_rezero() {
    let mut m = model(5, 3);
    let mut chan = TxChannel::new();
    for i in 0..3 {
        let reqs = vec![DispenseSingle { motor_idx: i, ml: 3200 }];
        m.dispense(&mut chan, &reqs).unwrap();
    }
    m.unprime_motor(&mut chan, 0).unwrap();
    assert_eq!(position(&m, 0), 0);
    m.unprime_all(&mut chan).unwrap();
    for i in 0..3 {
        assert_eq!(position(&m, i), 0);
    }
    assert_eq!(m.get_status(), DeviceStatus::Idle);
    assert_eq!(
        m.unprime_motor(&mut chan, 5),
        Err(DoseError::Client(ClientError::BadIndex))
    );
}

#[test]
fn calibrate_rescales_one_pump_and_rejects_bad_requests() {
    let mut m = model(0, 2);
    assert!(m.calibrate(0, 10_000, 5_000).is_ok());
    assert_eq!(m.pumps[0].ml_per_step.num, 32 * 5_000);
    assert_eq!(m.pumps[0].ml_per_step.den, 10_000);
    assert_eq!(m.pumps[1].ml_per_step, MlPerStep::default());
    assert_eq!(m.calibrate(9, 10_000, 5_000), Err(ClientError::BadIndex));
    assert_eq!(m.calibrate(0, 0, 5_000), Err(ClientError::ZeroVolume));
}

#[test]
fn debug_calibrate_sets_the_rate_directly() {
    let mut m = model(0, 1);
    assert!(m.debug_calibrate(0, MlPerStep { num: 50, den: 1 }).is_ok());
    assert_eq!(m.pumps[0].ml_per_step, MlPerStep { num: 50, den: 1 });
    assert_eq!(
        m.debug_calibrate(0, MlPerStep { num: 0, den: 1 }),
        Err(ClientError::ZeroVolume)
    );
    assert_eq!(
        m.debug_calibrate(4, MlPerStep { num: 50, den: 1 }),
        Err(ClientError::BadIndex)
    );
}

#[test]
fn debug_step_drives_raw_steps_without_backoff() {
    let mut m = model(0, 1);
    let mut chan = TxChannel::new();
    assert!(m.debug_step(&mut chan, 0, 7).is_ok());
    assert_eq!(position(&m, 0), 7);
    assert_eq!(chan.log_len(), 1);
    assert_eq!(
        m.debug_step(&mut chan, 4, 7),
        Err(DoseError::Client(ClientError::BadIndex))
    );
}

#[test]
fn clear_config_empties_the_registry() {
    let mut m = model(0, 3);
    m.clear_config();
    assert_eq!(m.num_pumps(), 0);
}

#[test]
fn full_status_reports_every_pump() {
    let mut m = model(4, 2);
    let mut chan = TxChannel::new();
    m.dispense(&mut chan, &vec![DispenseSingle { motor_idx: 1, ml: 3200 }]).unwrap();
    let s = m.full_status();
    assert_eq!(s.num_motors, 2);
    assert_eq!(s.status, DeviceStatus::Idle);
    assert_eq!(s.motors.len(), 2);
    assert_eq!(s.motors[0].idx, 0);
    assert_eq!(s.motors[0].id, 1);
    assert_eq!(s.motors[0].position, 0);
    assert!(!s.motors[0].is_primed);
    assert_eq!(s.motors[1].idx, 1);
    assert_eq!(s.motors[1].id, 2);
    assert_eq!(s.motors[1].position, 4 + 100 - BACKOFF_STEPS as i32);
    assert!(s.motors[1].is_primed);
    assert_eq!(s.motors[1].prime_steps, 4);
    assert_eq!(s.motors[1].ml_per_step, MlPerStep::default());
}

#[test]
fn to_records_strips_the_drivers() {
    let m = model(4, 2);
    let records = m.to_records();
    assert_eq!(records.len(), 2);
    assert_eq!(records[0].id, 1);
    assert_eq!(records[0].prime_steps, 4);
    assert_eq!(records[0].ml_per_step, MlPerStep::default());
}
