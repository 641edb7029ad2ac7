//! The startup reconciler: merges the persisted calibration records with
//! the physically detected pump drivers.
//!
//! Each detected driver claims the first persisted record carrying its
//! identity and is bound to it; a driver no record matches gets a fresh
//! default record appended after the persisted ones. A record no driver
//! claimed is pruned — a logical pump without hardware is discarded, not
//! kept as inert configuration. The caller persists the reconciled
//! registry immediately, so storage and runtime agree even when nothing
//! changed.

use crate::dosing::{CalibrationRecord, LogicalPump};
use crate::driver::DRV8825;
use crate::registry::{spec_default_pump, DeviceStatus, DosingModel};
use vstd::multiset::Multiset;
use vstd::prelude::*;

verus! {

/// A persisted record loaded back as a pump not yet bound to hardware.
pub open spec fn spec_unbound_pump(rec: CalibrationRecord) -> LogicalPump {
    LogicalPump {
        id: rec.id,
        driver: None,
        ml_per_step: rec.ml_per_step,
        prime_steps: rec.prime_steps,
    }
}

/// The first position carrying `id`, or `-1` when none does.
pub open spec fn spec_find_id(pumps: Seq<LogicalPump>, id: u32) -> int
    decreases pumps.len(),
{
    if pumps.len() <= 0 {
        -1
    } else if pumps[0].id == id {
        0
    } else {
        let rest = spec_find_id(pumps.drop_first(), id);
        if rest < 0 {
            -1
        } else {
            rest + 1
        }
    }
}

/// `spec_find_id` really is the first match: it answers `-1` exactly
/// when no pump carries the identity, and otherwise the position of the
/// first one that does.
pub proof fn lemma_find_id_props(s: Seq<LogicalPump>, id: u32)
    ensures
        ({
            let j = spec_find_id(s, id);
            &&& (j == -1 <==> forall|k: int| 0 <= k < s.len() ==> (#[trigger] s[k]).id != id)
            &&& (j >= 0 ==> j < s.len() && s[j].id == id && forall|k: int|
                0 <= k < j ==> (#[trigger] s[k]).id != id)
        }),
    decreases s.len(),
{
    if s.len() > 0 && s[0].id != id {
        lemma_find_id_props(s.drop_first(), id);
        assert(forall|k: int|
            1 <= k < s.len() ==> (#[trigger] s[k]) == s.drop_first()[k - 1]);
    }
}

/// Binding every detected driver in detection order: a driver claims
/// the first pump carrying its identity, or appends a fresh default
/// entry bound to itself.
pub open spec fn spec_bind_drivers(pumps: Seq<LogicalPump>, drivers: Seq<DRV8825>) -> Seq<
    LogicalPump,
>
    decreases drivers.len(),
{
    if drivers.len() <= 0 {
        pumps
    } else {
        let d = drivers[0];
        let j = spec_find_id(pumps, d.spec_id());
        let pumps2 = if j >= 0 {
            pumps.update(j, LogicalPump { driver: Some(d), ..pumps[j] })
        } else {
            pumps.push(spec_default_pump(d))
        };
        spec_bind_drivers(pumps2, drivers.drop_first())
    }
}

/// Pruning: only the pumps that hardware claimed stay.
pub open spec fn spec_prune_unbound(pumps: Seq<LogicalPump>) -> Seq<LogicalPump>
    decreases pumps.len(),
{
    if pumps.len() <= 0 {
        Seq::<LogicalPump>::empty()
    } else {
        let rest = spec_prune_unbound(pumps.drop_first());
        if pumps[0].driver is Some {
            seq![pumps[0]] + rest
        } else {
            rest
        }
    }
}

/// The whole reconciliation: load, bind, prune.
pub open spec fn spec_reconcile(records: Seq<CalibrationRecord>, drivers: Seq<DRV8825>) -> Seq<
    LogicalPump,
> {
    spec_prune_unbound(
        spec_bind_drivers(
            records.map(|i: int, r: CalibrationRecord| spec_unbound_pump(r)),
            drivers,
        ),
    )
}

/// The identities of a pump sequence, with multiplicity.
pub open spec fn spec_identity_multiset(pumps: Seq<LogicalPump>) -> Multiset<u32>
    decreases pumps.len(),
{
    if pumps.len() <= 0 {
        Multiset::<u32>::empty()
    } else {
        spec_identity_multiset(pumps.drop_first()).insert(pumps[0].id)
    }
}

/// The identities of the driver-bound pumps only, with multiplicity.
pub open spec fn spec_bound_identity_multiset(pumps: Seq<LogicalPump>) -> Multiset<u32>
    decreases pumps.len(),
{
    if pumps.len() <= 0 {
        Multiset::<u32>::empty()
    } else {
        let rest = spec_bound_identity_multiset(pumps.drop_first());
        if pumps[0].driver is Some {
            rest.insert(pumps[0].id)
        } else {
            rest
        }
    }
}

/// The identities of a driver sequence, with multiplicity.
pub open spec fn spec_driver_identity_multiset(drivers: Seq<DRV8825>) -> Multiset<u32>
    decreases drivers.len(),
{
    if drivers.len() <= 0 {
        Multiset::<u32>::empty()
    } else {
        spec_driver_identity_multiset(drivers.drop_first()).insert(drivers[0].id)
    }
}

/// Pruning keeps exactly the bound pumps, so its identities are the
/// bound identities.
proof fn lemma_prune_identities(s: Seq<LogicalPump>)
    ensures
        spec_identity_multiset(spec_prune_unbound(s)) == spec_bound_identity_multiset(s),
        spec_identity_multiset(spec_prune_unbound(s)).len() == spec_prune_unbound(s).len(),
    decreases s.len(),
{
    if s.len() > 0 {
        lemma_prune_identities(s.drop_first());
        if s[0].driver is Some {
            let rest = spec_prune_unbound(s.drop_first());
            assert((seq![s[0]] + rest).drop_first() =~= rest);
        }
    }
}

/// A pump sequence has as many identities as entries.
proof fn lemma_identity_count(s: Seq<LogicalPump>)
    ensures
        spec_identity_multiset(s).len() == s.len(),
    decreases s.len(),
{
    if s.len() > 0 {
        lemma_identity_count(s.drop_first());
    }
}

/// A driver sequence has as many identities as entries.
proof fn lemma_driver_identity_count(s: Seq<DRV8825>)
    ensures
        spec_driver_identity_multiset(s).len() == s.len(),
    decreases s.len(),
{
    if s.len() > 0 {
        lemma_driver_identity_count(s.drop_first());
    }
}

/// A wholly unbound sequence has no bound identities.
proof fn lemma_unbound_identities_empty(s: Seq<LogicalPump>)
    requires
        forall|i: int| 0 <= i < s.len() ==> (#[trigger] s[i]).driver is None,
    ensures
        spec_bound_identity_multiset(s) == Multiset::<u32>::empty(),
    decreases s.len(),
{
    if s.len() > 0 {
        assert(forall|i: int|
            0 <= i < s.drop_first().len() ==> (#[trigger] s.drop_first()[i]).driver is None);
        lemma_unbound_identities_empty(s.drop_first());
    }
}

/// Binding a driver onto an unbound pump adds exactly its identity to
/// the bound identities.
proof fn lemma_bound_identities_update(s: Seq<LogicalPump>, j: int, d: DRV8825)
    requires
        0 <= j < s.len(),
        s[j].driver is None,
    ensures
        spec_bound_identity_multiset(s.update(j, LogicalPump { driver: Some(d), ..s[j] }))
            == spec_bound_identity_multiset(s).insert(s[j].id),
    decreases s.len(),
{
    let s2 = s.update(j, LogicalPump { driver: Some(d), ..s[j] });
    if j == 0 {
        assert(s2.drop_first() =~= s.drop_first());
    } else {
        assert(s2.drop_first() =~= s.drop_first().update(
            j - 1,
            LogicalPump { driver: Some(d), ..s.drop_first()[j - 1] },
        ));
        lemma_bound_identities_update(s.drop_first(), j - 1, d);
        if s[0].driver is Some {
            assert(spec_bound_identity_multiset(s2) =~= spec_bound_identity_multiset(s).insert(
                s[j].id,
            ));
        }
    }
}

/// Appending a bound pump adds exactly its identity to the bound
/// identities.
proof fn lemma_bound_identities_push(s: Seq<LogicalPump>, p: LogicalPump)
    requires
        p.driver is Some,
    ensures
        spec_bound_identity_multiset(s.push(p)) == spec_bound_identity_multiset(s).insert(p.id),
    decreases s.len(),
{
    if s.len() == 0 {
        assert(s.push(p).drop_first() =~= Seq::<LogicalPump>::empty());
        assert(spec_bound_identity_multiset(Seq::<LogicalPump>::empty())
            == Multiset::<u32>::empty());
    } else {
        assert(s.push(p).drop_first() =~= s.drop_first().push(p));
        lemma_bound_identities_push(s.drop_first(), p);
        if s[0].driver is Some {
            assert(spec_bound_identity_multiset(s.push(p)) =~= spec_bound_identity_multiset(
                s,
            ).insert(p.id));
        }
    }
}

/// An update that keeps an entry's identity leaves every first-match
/// position alone.
proof fn lemma_find_id_update(s: Seq<LogicalPump>, j: int, p: LogicalPump, x: u32)
    requires
        0 <= j < s.len(),
        p.id == s[j].id,
    ensures
        spec_find_id(s.update(j, p), x) == spec_find_id(s, x),
    decreases s.len(),
{
    let s2 = s.update(j, p);
    if j == 0 {
        assert(s2.drop_first() =~= s.drop_first());
    } else {
        assert(s2.drop_first() =~= s.drop_first().update(j - 1, p));
        lemma_find_id_update(s.drop_first(), j - 1, p, x);
    }
}

/// Appending a pump with a different identity leaves a first-match
/// position alone.
proof fn lemma_find_id_push(s: Seq<LogicalPump>, p: LogicalPump, x: u32)
    requires
        p.id != x,
    ensures
        spec_find_id(s.push(p), x) == spec_find_id(s, x),
    decreases s.len(),
{
    if s.len() == 0 {
        assert(s.push(p).drop_first() =~= Seq::<LogicalPump>::empty());
        assert(spec_find_id(Seq::<LogicalPump>::empty(), x) == -1);
    } else {
        assert(s.push(p).drop_first() =~= s.drop_first().push(p));
        lemma_find_id_push(s.drop_first(), p, x);
    }
}

/// Binding a driver sequence with pairwise-distinct identities, onto a
/// registry whose first match for each of those identities (if any) is
/// still unbound, adds exactly the drivers' identities to the bound
/// identities.
proof fn lemma_bind_identities(pumps: Seq<LogicalPump>, drivers: Seq<DRV8825>)
    requires
        forall|i: int, j: int|
            0 <= i < j < drivers.len() ==> (#[trigger] drivers[i]).id != (#[trigger] drivers[j]).id,
        forall|j: int|
            0 <= j < drivers.len() ==> (spec_find_id(pumps, (#[trigger] drivers[j]).id) >= 0
                ==> pumps[spec_find_id(pumps, drivers[j].id)].driver is None),
    ensures
        spec_bound_identity_multiset(spec_bind_drivers(pumps, drivers))
            == spec_bound_identity_multiset(pumps).add(spec_driver_identity_multiset(drivers)),
    decreases drivers.len(),
{
    if drivers.len() == 0 {
        assert(spec_bound_identity_multiset(pumps).add(Multiset::<u32>::empty())
            =~= spec_bound_identity_multiset(pumps));
    } else {
        let d = drivers[0];
        let tail = drivers.drop_first();
        let j = spec_find_id(pumps, d.id);
        lemma_find_id_props(pumps, d.id);
        let pumps2 = if j >= 0 {
            pumps.update(j, LogicalPump { driver: Some(d), ..pumps[j] })
        } else {
            pumps.push(spec_default_pump(d))
        };
        if j >= 0 {
            lemma_bound_identities_update(pumps, j, d);
            assert(forall|k: int|
                0 <= k < tail.len() ==> spec_find_id(pumps2, (#[trigger] tail[k]).id)
                    == spec_find_id(pumps, tail[k].id)) by {
                assert forall|k: int| 0 <= k < tail.len() implies spec_find_id(
                    pumps2,
                    (#[trigger] tail[k]).id,
                ) == spec_find_id(pumps, tail[k].id) by {
                    assert(tail[k] == drivers[k + 1]);
                    lemma_find_id_update(
                        pumps,
                        j,
                        LogicalPump { driver: Some(d), ..pumps[j] },
                        tail[k].id,
                    );
                }
            }
            assert forall|k: int|
                0 <= k < tail.len() && spec_find_id(pumps2, (#[trigger] tail[k]).id)
                    >= 0 implies pumps2[spec_find_id(pumps2, tail[k].id)].driver is None by {
                assert(tail[k] == drivers[k + 1]);
                let f = spec_find_id(pumps2, tail[k].id);
                lemma_find_id_props(pumps, tail[k].id);
                assert(pumps[f].id == tail[k].id);
                assert(tail[k].id != d.id);
                assert(f != j);
            }
            lemma_bind_identities(pumps2, tail);
            assert(spec_bound_identity_multiset(pumps).insert(d.id).add(
                spec_driver_identity_multiset(tail),
            ) =~= spec_bound_identity_multiset(pumps).add(
                spec_driver_identity_multiset(tail).insert(d.id),
            ));
            assert(spec_driver_identity_multiset(drivers) == spec_driver_identity_multiset(
                tail,
            ).insert(d.id));
        } else {
            lemma_bound_identities_push(pumps, spec_default_pump(d));
            assert forall|k: int| 0 <= k < tail.len() implies spec_find_id(
                pumps2,
                (#[trigger] tail[k]).id,
            ) == spec_find_id(pumps, tail[k].id) by {
                assert(tail[k] == drivers[k + 1]);
                assert(tail[k].id != d.id);
                lemma_find_id_push(pumps, spec_default_pump(d), tail[k].id);
            }
            assert forall|k: int|
                0 <= k < tail.len() && spec_find_id(pumps2, (#[trigger] tail[k]).id)
                    >= 0 implies pumps2[spec_find_id(pumps2, tail[k].id)].driver is None by {
                assert(tail[k] == drivers[k + 1]);
                let f = spec_find_id(pumps2, tail[k].id);
                lemma_find_id_props(pumps, tail[k].id);
                assert(f < pumps.len());
                assert(pumps2[f] == pumps[f]);
            }
            lemma_bind_identities(pumps2, tail);
            assert(spec_bound_identity_multiset(pumps).insert(d.id).add(
                spec_driver_identity_multiset(tail),
            ) =~= spec_bound_identity_multiset(pumps).add(
                spec_driver_identity_multiset(tail).insert(d.id),
            ));
            assert(spec_driver_identity_multiset(drivers) == spec_driver_identity_multiset(
                tail,
            ).insert(d.id));
        }
    }
}

/// Reconciliation yields exactly the detected hardware: with pairwise
/// distinct driver identities, the reconciled registry holds one pump
/// per detected driver, and an identity occurs in it exactly as often
/// as a detected driver carries it — however the persisted records
/// overlapped the detected set, and whatever stale identities they
/// held.
pub proof fn lemma_reconcile_identities(records: Seq<CalibrationRecord>, drivers: Seq<DRV8825>)
    requires
        forall|i: int, j: int|
            0 <= i < j < drivers.len() ==> (#[trigger] drivers[i]).id != (#[trigger] drivers[j]).id,
    ensures
        spec_identity_multiset(spec_reconcile(records, drivers))
            == spec_driver_identity_multiset(drivers),
        spec_reconcile(records, drivers).len() == drivers.len(),
{
    let loaded = records.map(|i: int, r: CalibrationRecord| spec_unbound_pump(r));
    assert(forall|i: int| 0 <= i < loaded.len() ==> (#[trigger] loaded[i]).driver is None);
    assert(forall|j: int|
        0 <= j < drivers.len() ==> (spec_find_id(loaded, (#[trigger] drivers[j]).id) >= 0
            ==> loaded[spec_find_id(loaded, drivers[j].id)].driver is None)) by {
        assert forall|j: int|
            0 <= j < drivers.len() && spec_find_id(loaded, (#[trigger] drivers[j]).id)
                >= 0 implies loaded[spec_find_id(loaded, drivers[j].id)].driver is None by {
            lemma_find_id_props(loaded, drivers[j].id);
        }
    }
    lemma_bind_identities(loaded, drivers);
    lemma_unbound_identities_empty(loaded);
    let bound = spec_bind_drivers(loaded, drivers);
    lemma_prune_identities(bound);
    assert(Multiset::<u32>::empty().add(spec_driver_identity_multiset(drivers))
        =~= spec_driver_identity_multiset(drivers));
    lemma_identity_count(spec_prune_unbound(bound));
    lemma_driver_identity_count(drivers);
}

/// Finds the first registry position carrying `id`.
fn find_pump_index(pumps: &Vec<LogicalPump>, id: u32) -> (r: Option<usize>)
    ensures
        r matches Some(j) ==> (j as int) < pumps@.len() && j as int == spec_find_id(pumps@, id),
        r is None ==> spec_find_id(pumps@, id) == -1,
{
    let mut i: usize = 0;
    while i < pumps.len()
        invariant
            i as int <= pumps@.len(),
            forall|k: int| 0 <= k < i as int ==> (#[trigger] pumps@[k]).id != id,
        decreases pumps@.len() - i as int,
    {
        if pumps[i].id == id {
            proof {
                lemma_find_id_props(pumps@, id);
            }
            return Some(i);
        }
        i = i + 1;
    }
    proof {
        lemma_find_id_props(pumps@, id);
    }
    None
}

/// Reconciles the persisted records with the detected drivers and
/// returns the idle registry they agree on: every entry bound, matched
/// records keeping their calibration, new drivers seeded with the
/// default, stale records dropped.
pub fn reconcile(records: Vec<CalibrationRecord>, drivers: Vec<DRV8825>) -> (m: DosingModel)
    requires
        forall|i: int| 0 <= i < records@.len() ==> (#[trigger] records@[i]).wf(),
        forall|i: int| 0 <= i < drivers@.len() ==> (#[trigger] drivers@[i]).wf(),
    ensures
        m.wf(),
        m.spec_all_bound(),
        m.status == DeviceStatus::Idle,
        m.pumps@ == spec_reconcile(records@, drivers@),
{
    // Load: records come back as unbound pumps, in persisted order.
    let mut pumps: Vec<LogicalPump> = Vec::new();
    let mut k: usize = 0;
    while k < records.len()
        invariant
            k as int <= records@.len(),
            forall|i: int| 0 <= i < records@.len() ==> (#[trigger] records@[i]).wf(),
            pumps@.len() == k as int,
            forall|i: int|
                0 <= i < k as int ==> pumps@[i] == spec_unbound_pump(#[trigger] records@[i]),
            forall|i: int| 0 <= i < k as int ==> (#[trigger] pumps@[i]).wf(),
        decreases records@.len() - k as int,
    {
        let rec = records[k];
        pumps.push(
            LogicalPump {
                id: rec.id,
                driver: None,
                ml_per_step: rec.ml_per_step,
                prime_steps: rec.prime_steps,
            },
        );
        k = k + 1;
    }
    proof {
        assert(pumps@ =~= records@.map(|i: int, r: CalibrationRecord| spec_unbound_pump(r)));
    }

    // Bind: each driver claims its record or opens a fresh one.
    let ghost loaded = pumps@;
    let mut t: usize = 0;
    proof {
        assert(drivers@.skip(0) =~= drivers@);
    }
    while t < drivers.len()
        invariant
            t as int <= drivers@.len(),
            forall|i: int| 0 <= i < drivers@.len() ==> (#[trigger] drivers@[i]).wf(),
            forall|i: int| 0 <= i < pumps@.len() ==> (#[trigger] pumps@[i]).wf(),
            spec_bind_drivers(loaded, drivers@) == spec_bind_drivers(
                pumps@,
                drivers@.skip(t as int),
            ),
        decreases drivers@.len() - t as int,
    {
        let d = drivers[t];
        proof {
            assert(drivers@.skip(t as int).drop_first() =~= drivers@.skip(t as int + 1));
            assert(drivers@.skip(t as int)[0] == drivers@[t as int]);
        }
        match find_pump_index(&pumps, d.id()) {
            Some(j) => {
                let ghost pre = pumps@;
                let p: &mut LogicalPump = &mut pumps[j];
                p.driver = Some(d);
                proof {
                    assert(pumps@ =~= pre.update(
                        j as int,
                        LogicalPump { driver: Some(d), ..pre[j as int] },
                    ));
                }
            }
            None => {
                let id = d.id();
                pumps.push(
                    LogicalPump {
                        id,
                        driver: Some(d),
                        ml_per_step: crate::dosing::MlPerStep::default(),
                        prime_steps: 0,
                    },
                );
                proof {
                    assert(pumps@.last() == spec_default_pump(d));
                    assert(pumps@ =~= pumps@.drop_last().push(spec_default_pump(d)));
                }
            }
        }
        t = t + 1;
    }
    proof {
        assert(drivers@.skip(drivers@.len() as int) =~= Seq::<DRV8825>::empty());
    }

    // Prune: a record no driver claimed is dropped.
    let ghost bound = pumps@;
    let mut kept: Vec<LogicalPump> = Vec::new();
    let mut u: usize = 0;
    proof {
        assert(bound.skip(0) =~= bound);
        assert(Seq::<LogicalPump>::empty() + spec_prune_unbound(bound) =~= spec_prune_unbound(
            bound,
        ));
    }
    while u < pumps.len()
        invariant
            u as int <= pumps@.len(),
            pumps@ == bound,
            forall|i: int| 0 <= i < pumps@.len() ==> (#[trigger] pumps@[i]).wf(),
            spec_prune_unbound(bound) == kept@ + spec_prune_unbound(bound.skip(u as int)),
            forall|i: int| 0 <= i < kept@.len() ==> (#[trigger] kept@[i]).wf(),
            forall|i: int| 0 <= i < kept@.len() ==> (#[trigger] kept@[i]).driver is Some,
        decreases pumps@.len() - u as int,
    {
        proof {
            assert(bound.skip(u as int).drop_first() =~= bound.skip(u as int + 1));
            assert(bound.skip(u as int)[0] == bound[u as int]);
        }
        let p = pumps[u];
        if p.driver.is_some() {
            let ghost kept_pre = kept@;
            kept.push(p);
            proof {
                assert(kept@ + spec_prune_unbound(bound.skip(u as int + 1)) =~= kept_pre + (seq![
                    bound[u as int],
                ] + spec_prune_unbound(bound.skip(u as int + 1))));
            }
        }
        u = u + 1;
    }
    proof {
        assert(bound.skip(bound.len() as int) =~= Seq::<LogicalPump>::empty());
        assert(kept@ + Seq::<LogicalPump>::empty() =~= kept@);
    }
    DosingModel { pumps: kept, status: DeviceStatus::Idle }
}

/// Builds the boot registry: reconciles against the persisted records
/// when a readable set was loaded, and starts from the detected drivers
/// alone when none was (absent, corrupt or unreadable persistence).
pub fn boot_registry(persisted: Option<Vec<CalibrationRecord>>, drivers: Vec<DRV8825>) -> (m:
    DosingModel)
    requires
        persisted matches Some(records) ==> forall|i: int|
            0 <= i < records@.len() ==> (#[trigger] records@[i]).wf(),
        forall|i: int| 0 <= i < drivers@.len() ==> (#[trigger] drivers@[i]).wf(),
    ensures
        m.wf(),
        m.spec_all_bound(),
        m.status == DeviceStatus::Idle,
        persisted matches Some(records) ==> m.pumps@ == spec_reconcile(records@, drivers@),
        persisted is None ==> m.pumps@ == drivers@.map(
            |i: int, d: DRV8825| spec_default_pump(d),
        ),
{
    match persisted {
        Some(records) => reconcile(records, drivers),
        None => {
            let mut m = DosingModel::new();
            m.create_config(drivers);
            proof {
                assert(m.pumps@ =~= drivers@.map(|i: int, d: DRV8825| spec_default_pump(d)));
            }
            m
        }
    }
}

} // verus!
