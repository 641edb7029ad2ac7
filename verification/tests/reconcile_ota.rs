//! Startup reconciliation and the firmware-update decisions.

use nutrient_doser::dosing::{CalibrationRecord, MlPerStep};
use nutrient_doser::driver::{DRV8825, MicroSteps};
use nutrient_doser::ota::{validate_image, OtaError, OtaTransfer};
use nutrient_doser::reconcile::{boot_registry, reconcile};
use nutrient_doser::registry::DeviceStatus;

fn small_driver(id: u32) -> DRV8825 {
    DRV8825::new(id, 1_000_000, 100, 1000, MicroSteps::M1).unwrap()
}

fn record(id: u32, num: u64, prime_steps: u32) -> CalibrationRecord {
    CalibrationRecord { id, ml_per_step: MlPerStep { num, den: 1 }, prime_steps }
}

#[test]
fn reconcile_keeps_matches_drops_stale_seeds_new() {
    // Persisted identities {1, 2, 3}; physically detected {2, 3, 4}.
    let records = vec![record(1, 10, 1), record(2, 20, 2), record(3, 30, 3)];
    let drivers = vec![small_driver(2), small_driver(3), small_driver(4)];
    let m = reconcile(records, drivers);

    // Exactly {2, 3, 4} remain, all bound to drivers.
    assert_eq!(m.num_pumps(), 3);
    let ids: Vec<u32> = m.pumps.iter().map(|p| p.id).collect();
    assert_eq!(ids, vec![2, 3, 4]);
    for p in m.pumps.iter() {
        assert!(p.driver.is_some());
        assert_eq!(p.driver.as_ref().unwrap().id(), p.id);
    }

    // Identities 2 and 3 kept their persisted calibration; identity 1
    // was dropped; identity 4 was seeded with the default.
    assert_eq!(m.pumps[0].ml_per_step, MlPerStep { num: 20, den: 1 });
    assert_eq!(m.pumps[0].prime_steps, 2);
    assert_eq!(m.pumps[1].ml_per_step, MlPerStep { num: 30, den: 1 });
    assert_eq!(m.pumps[1].prime_steps, 3);
    assert_eq!(m.pumps[2].ml_per_step, MlPerStep { num: 32, den: 1 });
    assert_eq!(m.pumps[2].prime_steps, 0);
    assert_eq!(m.get_status(), DeviceStatus::Idle);
}

#[test]
fn reconcile_with_no_records_seeds_everything() {
    let m = reconcile(vec![], vec![small_driver(5), small_driver(6)]);
    assert_eq!(m.num_pumps(), 2);
    assert_eq!(m.pumps[0].id, 5);
    assert_eq!(m.pumps[1].id, 6);
    assert_eq!(m.pumps[0].ml_per_step, MlPerStep::default());
}

#[test]
fn reconcile_with_no_drivers_prunes_everything() {
    let m = reconcile(vec![record(1, 10, 1), record(2, 20, 2)], vec![]);
    assert_eq!(m.num_pumps(), 0);
}

#[test]
fn boot_registry_without_persistence_starts_fresh() {
    // An absent or unreadable store reconciles from scratch.
    let m = boot_registry(None, vec![small_driver(8)]);
    assert_eq!(m.num_pumps(), 1);
    assert_eq!(m.pumps[0].id, 8);
    assert_eq!(m.pumps[0].ml_per_step, MlPerStep::default());
    assert!(m.pumps[0].driver.is_some());
}

#[test]
fn boot_registry_with_persistence_reconciles() {
    let m = boot_registry(Some(vec![record(3, 40, 7)]), vec![small_driver(3)]);
    assert_eq!(m.num_pumps(), 1);
    assert_eq!(m.pumps[0].ml_per_step, MlPerStep { num: 40, den: 1 });
    assert_eq!(m.pumps[0].prime_steps, 7);
}

#[test]
fn validate_image_checks_status_and_size() {
    assert_eq!(validate_image(404, Some(50_000), 2_048, 4_128_768), Err(OtaError::BadStatus));
    assert_eq!(validate_image(200, None, 2_048, 4_128_768), Err(OtaError::TooSmall));
    assert_eq!(validate_image(200, Some(2_048), 2_048, 4_128_768), Err(OtaError::TooSmall));
    assert_eq!(
        validate_image(200, Some(9_000_000), 2_048, 4_128_768),
        Err(OtaError::TooLarge)
    );
    assert_eq!(validate_image(200, Some(50_000), 2_048, 4_128_768), Ok(50_000));
}

#[test]
fn ota_transfer_completes_at_the_advertised_size() {
    let mut t = OtaTransfer::begin(50_000);
    assert!(!t.is_complete());
    assert!(!t.on_chunk(20_480));
    assert!(!t.on_chunk(20_480));
    assert!(t.on_chunk(20_480));
    assert!(t.is_complete());
    assert_eq!(t.received(), 61_440);
}

#[test]
fn a_truncated_transfer_never_completes() {
    let mut t = OtaTransfer::begin(50_000);
    t.on_chunk(49_999);
    assert!(!t.is_complete());
}

#[test]
fn duplicate_persisted_identities_keep_only_the_first() {
    // Two persisted records carry the same identity: the detected
    // driver claims the first; the second stays unbound and is pruned.
    let records = vec![record(2, 20, 1), record(2, 99, 9)];
    let m = reconcile(records, vec![small_driver(2)]);
    assert_eq!(m.num_pumps(), 1);
    assert_eq!(m.pumps[0].ml_per_step, MlPerStep { num: 20, den: 1 });
    assert_eq!(m.pumps[0].prime_steps, 1);
}
