//! The migration runner: walks the registry in ascending serial-number
//! order, skips what the ledger already records, applies what is pending
//! atomically, and runs the backfill once for the tag-representation change.

use vstd::prelude::*;
use crate::registry::{
    Descriptor,
    DescriptorModel,
    descriptor_models,
    wf_registry,
    registry,
    spec_registry,
    lemma_registry_shape,
};
use crate::store::{
    Store,
    StoreModel,
    spec_max_serial,
    spec_ensure_ledger,
    ensure_ledger,
    current_version,
};
use crate::backfill::{all_events_parse, spec_rebuild, rebuild_tags};

verus! {

/// Running a migration was either unnecessary, or completed.
#[derive(PartialEq, Eq, Structural, Debug, Clone, Copy)]
pub enum MigrationResult {
    Upgraded,
    NotNeeded,
}

/// Why an upgrade attempt stopped. A failed migration or backfill is fatal to
/// the startup sequence: later-numbered migrations are not attempted.
#[derive(PartialEq, Eq, Structural, Debug, Clone, Copy)]
pub enum MigrationError {
    /// The engine rejected one of a descriptor's statements; the whole
    /// transaction rolled back and the ledger is untouched.
    StatementFailed,
    /// An event's stored content did not parse during the backfill; nothing
    /// of the rebuild was committed.
    EventParse,
}

/// Whether the ledger of `s` records `serial` as applied.
pub open spec fn spec_applied(s: StoreModel, serial: i64) -> bool {
    s.ledger->Some_0.contains(serial)
}

/// The store after committing a pending descriptor: its statements join the
/// schema in order, and its serial number is recorded in the same
/// transaction.
pub open spec fn spec_apply(s: StoreModel, d: DescriptorModel) -> StoreModel {
    StoreModel {
        ledger: Some(s.ledger->Some_0.push(d.serial_number)),
        schema: s.schema + d.statements,
        ..s
    }
}

/// One runner step: skip an applied descriptor; otherwise commit it and, for
/// a descriptor flagged as requiring the backfill, run the backfill after the
/// commit. The second component says whether the walk may go on.
pub open spec fn spec_step(s: StoreModel, d: DescriptorModel) -> (StoreModel, bool) {
    if spec_applied(s, d.serial_number) {
        (s, true)
    } else {
        let s2 = spec_apply(s, d);
        if d.needs_backfill {
            if all_events_parse(s2.events) {
                (spec_rebuild(s2), true)
            } else {
                (s2, false)
            }
        } else {
            (s2, true)
        }
    }
}

/// The walk over a registry, in order, stopping at the first failed step.
pub open spec fn spec_upgrade(s: StoreModel, reg: Seq<DescriptorModel>) -> (StoreModel, bool)
    decreases reg.len(),
{
    if reg.len() == 0 {
        (s, true)
    } else {
        let prev = spec_upgrade(s, reg.drop_last());
        if !prev.1 {
            prev
        } else {
            spec_step(prev.0, reg.last())
        }
    }
}

/// Commits one pending descriptor: statements and ledger entry in one
/// transaction.
fn commit_descriptor(store: &mut Store, d: &Descriptor)
    requires
        old(store).wf(),
        old(store)@.ledger is Some,
        d@.serial_number > 0,
        !spec_applied(old(store)@, d@.serial_number),
    ensures
        final(store).wf(),
        final(store)@.ledger is Some,
        final(store)@ == spec_apply(old(store)@, d@),
{
    let ghost s0 = store@;
    let n = d.statements.len();
    for i in 0..n
        invariant
            n == d.statements@.len(),
            store@.ledger == s0.ledger,
            store@.events == s0.events,
            store@.tags == s0.tags,
            store.wf(),
            store@.schema == s0.schema + d@.statements.take(i as int),
    {
        let ghost pre = store.schema@;
        let ghost pre_deep = store.schema.deep_view();
        let stmt = d.statements[i].clone();
        store.schema.push(stmt);
        proof {
            assert(store.schema@ == pre.push(stmt));
            assert(pre_deep == s0.schema + d@.statements.take(i as int));
            assert(pre_deep.len() == pre.len());
            assert(d@.statements.len() == d.statements@.len());
            assert(store.schema.deep_view().len() == pre.len() + 1);
            assert((s0.schema + d@.statements.take(i + 1)).len() == pre.len() + 1);
            assert forall|k: int| 0 <= k < pre.len() + 1 implies #[trigger] store.schema.deep_view()[k]
                == (s0.schema + d@.statements.take(i + 1))[k] by {
                assert(store.schema.deep_view()[k] == store.schema@[k].deep_view());
                if k < pre.len() {
                    assert(store.schema@[k] == pre[k]);
                    assert(pre_deep[k] == pre[k].deep_view());
                    assert(pre_deep[k] == (s0.schema + d@.statements.take(i as int))[k]);
                } else {
                    assert(store.schema@[k] == stmt);
                    assert(d@.statements[i as int] == d.statements@[i as int]@);
                }
            }
            assert(store.schema.deep_view() =~= s0.schema + d@.statements.take(i + 1));
        }
    }
    assert(s0.schema + d@.statements.take(n as int) =~= s0.schema + d@.statements);
    match &mut store.ledger {
        Some(l) => {
            l.applied.push(d.serial_number);
        },
        None => {
            unreached()
        },
    }
    assert(store@ =~= spec_apply(s0, d@));
}

/// One attempt at a descriptor, exactly as the runner makes it.
///
/// `verdicts[i]` is the engine's answer to the descriptor's `i`-th statement.
/// An applied serial number is skipped without touching anything. Otherwise
/// the statements and the ledger entry stand in one transaction: if every
/// statement is accepted the transaction commits, and any rejection rolls the
/// whole transaction back — the ledger does not record the serial number and
/// none of the descriptor's schema changes are visible.
pub fn run_migration(store: &mut Store, d: &Descriptor, verdicts: &Vec<bool>) -> (r: Result<
    MigrationResult,
    MigrationError,
>)
    requires
        old(store).wf(),
        old(store)@.ledger is Some,
        d@.serial_number > 0,
        verdicts@.len() == d@.statements.len(),
    ensures
        final(store).wf(),
        final(store)@.ledger is Some,
        spec_applied(old(store)@, d@.serial_number) ==> r == Ok::<MigrationResult,
        MigrationError>(MigrationResult::NotNeeded) && final(store)@ == old(store)@,
        !spec_applied(old(store)@, d@.serial_number) && (forall|i: int|
            0 <= i < verdicts@.len() ==> verdicts@[i]) ==> r == Ok::<MigrationResult,
        MigrationError>(MigrationResult::Upgraded) && final(store)@ == spec_apply(
            old(store)@,
            d@,
        ),
        !spec_applied(old(store)@, d@.serial_number) && !(forall|i: int|
            0 <= i < verdicts@.len() ==> verdicts@[i]) ==> r == Err::<MigrationResult,
        MigrationError>(MigrationError::StatementFailed) && final(store)@ == old(store)@,
{
    let applied = match &store.ledger {
        Some(l) => l.contains(d.serial_number),
        None => unreached(),
    };
    if applied {
        return Ok(MigrationResult::NotNeeded);
    }
    let n = verdicts.len();
    for i in 0..n
        invariant
            n == verdicts@.len(),
            store@ == old(store)@,
            store.wf(),
            store@.ledger is Some,
            !spec_applied(old(store)@, d@.serial_number),
            forall|j: int| 0 <= j < i ==> verdicts@[j],
    {
        if !verdicts[i] {
            return Err(MigrationError::StatementFailed);
        }
    }
    commit_descriptor(store, d);
    Ok(MigrationResult::Upgraded)
}

/// Once a walk has stopped, the walk over any longer prefix of the registry
/// stops in the same state.
proof fn lemma_upgrade_stopped(s: StoreModel, reg: Seq<DescriptorModel>, i: int)
    requires
        0 <= i <= reg.len(),
        !spec_upgrade(s, reg.take(i)).1,
    ensures
        spec_upgrade(s, reg) == spec_upgrade(s, reg.take(i)),
    decreases reg.len() - i,
{
    if i == reg.len() {
        assert(reg.take(i) =~= reg);
    } else {
        assert(reg.take(i + 1).drop_last() =~= reg.take(i));
        assert(spec_upgrade(s, reg.take(i + 1)) == spec_upgrade(s, reg.take(i)));
        lemma_upgrade_stopped(s, reg, i + 1);
    }
}

/// Applies every pending descriptor of `reg` in ascending serial-number
/// order, each atomically, skipping the ones the ledger already records, and
/// running the backfill once, after the commit of a descriptor flagged for
/// it. Returns the final maximum applied serial number as the current schema
/// version; a failed backfill is fatal and stops the walk.
pub fn upgrade(store: &mut Store, reg: &Vec<Descriptor>) -> (r: Result<i64, MigrationError>)
    requires
        old(store).wf(),
        old(store)@.ledger is Some,
        wf_registry(descriptor_models(reg@)),
    ensures
        final(store).wf(),
        final(store)@.ledger is Some,
        final(store)@ == spec_upgrade(old(store)@, descriptor_models(reg@)).0,
        r is Ok <==> spec_upgrade(old(store)@, descriptor_models(reg@)).1,
        r is Ok ==> r->Ok_0 == spec_max_serial(final(store)@.ledger->Some_0),
        r is Err ==> r->Err_0 == MigrationError::EventParse,
        final(store)@.events == old(store)@.events,
{
    let ghost regm = descriptor_models(reg@);
    let ghost s0 = store@;
    let n = reg.len();
    assert(regm.take(0) =~= Seq::<DescriptorModel>::empty());
    for i in 0..n
        invariant
            n == reg@.len(),
            regm == descriptor_models(reg@),
            s0 == old(store)@,
            s0.ledger is Some,
            wf_registry(regm),
            store.wf(),
            store@.ledger is Some,
            spec_upgrade(s0, regm.take(i as int)) == (store@, true),
    {
        let d = &reg[i];
        assert(d@ == regm[i as int]);
        assert(regm.take(i + 1).drop_last() =~= regm.take(i as int));
        assert(regm.take(i + 1).last() == regm[i as int]);
        let applied = match &store.ledger {
            Some(l) => l.contains(d.serial_number),
            None => unreached(),
        };
        if !applied {
            commit_descriptor(store, d);
            if d.needs_backfill {
                match rebuild_tags(store) {
                    Ok(()) => {},
                    Err(_) => {
                        assert(spec_upgrade(s0, regm.take(i + 1)) == (store@, false));
                        proof {
                            lemma_upgrade_stopped(s0, regm, i + 1);
                            lemma_upgrade_applies_all(s0, regm);
                        }
                        return Err(MigrationError::EventParse);
                    },
                }
            }
        }
        assert(spec_upgrade(s0, regm.take(i + 1)) == (store@, true));
    }
    assert(regm.take(n as int) =~= regm);
    proof {
        lemma_upgrade_applies_all(s0, regm);
    }
    Ok(current_version(store))
}

/// Executes all migrations: idempotently creates the ledger, walks the
/// complete registry of this build, and reports the resulting schema version.
///
/// The final store is exactly the walk of this build's registry over the
/// ledger-ensured store, and the call succeeds exactly when that walk
/// completes — on which it reports the maximum applied serial number.
pub fn run_migrations(store: &mut Store) -> (r: Result<usize, MigrationError>)
    requires
        old(store).wf(),
    ensures
        final(store).wf(),
        final(store)@.ledger is Some,
        final(store)@ == spec_upgrade(spec_ensure_ledger(old(store)@), spec_registry()).0,
        r is Ok <==> spec_upgrade(spec_ensure_ledger(old(store)@), spec_registry()).1,
        r is Ok ==> forall|s: i64| 1 <= s <= 4 ==> spec_applied(final(store)@, s),
        r is Ok ==> r->Ok_0 == spec_max_serial(final(store)@.ledger->Some_0) as usize,
        r is Err ==> r->Err_0 == MigrationError::EventParse,
        final(store)@.events == old(store)@.events,
{
    ensure_ledger(store);
    let reg = registry();
    let ghost regm = descriptor_models(reg@);
    let ghost s1 = store@;
    let version = match upgrade(store, &reg) {
        Ok(v) => v,
        Err(e) => {
            return Err(e);
        },
    };
    proof {
        lemma_upgrade_applies_all(s1, regm);
        assert forall|s: i64| 1 <= s <= 4 implies spec_applied(store@, s) by {
            let i = s - 1;
            assert(regm[i].serial_number == s);
        }
        assert(spec_max_serial(store@.ledger->Some_0) >= 0) by {
            lemma_max_serial_bounds(store@.ledger->Some_0);
        }
    }
    Ok(version as usize)
}

/// On positive entries, the maximum serial number is no smaller than any
/// entry, and is an entry when the ledger is not empty.
proof fn lemma_max_serial_bounds(l: Seq<i64>)
    requires
        forall|i: int| 0 <= i < l.len() ==> #[trigger] l[i] > 0,
    ensures
        forall|i: int| 0 <= i < l.len() ==> #[trigger] l[i] <= spec_max_serial(l),
        l.len() > 0 ==> l.contains(spec_max_serial(l)),
    decreases l.len(),
{
    if l.len() > 0 {
        assert(forall|i: int| 0 <= i < l.drop_last().len() ==> #[trigger] l.drop_last()[i] == l[i]);
        lemma_max_serial_bounds(l.drop_last());
        assert forall|i: int| 0 <= i < l.len() implies #[trigger] l[i] <= spec_max_serial(l) by {
            if i < l.len() - 1 {
                assert(l.drop_last()[i] == l[i]);
            }
        }
        if spec_max_serial(l) == l.last() {
            assert(l.contains(spec_max_serial(l))) by {
                assert(l[l.len() - 1] == spec_max_serial(l));
            }
        } else {
            let m = spec_max_serial(l.drop_last());
            assert(spec_max_serial(l) == m);
            assert(l.drop_last().len() > 0);
            let j = choose|j: int| 0 <= j < l.drop_last().len() && l.drop_last()[j] == m;
            assert(l[j] == m);
        }
    }
}

/// A walk over a registry whose every serial number is already recorded
/// changes nothing and succeeds.
proof fn lemma_upgrade_noop(s: StoreModel, reg: Seq<DescriptorModel>)
    requires
        s.ledger is Some,
        forall|i: int| 0 <= i < reg.len() ==> spec_applied(s, (#[trigger] reg[i]).serial_number),
    ensures
        spec_upgrade(s, reg) == (s, true),
    decreases reg.len(),
{
    if reg.len() > 0 {
        assert(forall|i: int|
            0 <= i < reg.len() - 1 ==> #[trigger] reg.drop_last()[i] == reg[i]);
        lemma_upgrade_noop(s, reg.drop_last());
        assert(spec_applied(s, reg.last().serial_number));
    }
}

/// Idempotency: after a completed upgrade, running the upgrade again against
/// the resulting store changes nothing — every descriptor is skipped — and
/// reports the same current version.
pub proof fn lemma_upgrade_idempotent(s: StoreModel, reg: Seq<DescriptorModel>)
    requires
        s.ledger is Some,
        spec_upgrade(s, reg).1,
    ensures
        spec_upgrade(spec_upgrade(s, reg).0, reg) == (spec_upgrade(s, reg).0, true),
        spec_max_serial(spec_upgrade(spec_upgrade(s, reg).0, reg).0.ledger->Some_0)
            == spec_max_serial(spec_upgrade(s, reg).0.ledger->Some_0),
{
    lemma_upgrade_applies_all(s, reg);
    lemma_upgrade_noop(spec_upgrade(s, reg).0, reg);
}

/// Ordering: against a registry with serial numbers one through four of
/// which only one and three are recorded, the walk applies two and then
/// four — two's statements join the schema strictly before four's — and
/// afterward all four serial numbers are recorded.
pub proof fn lemma_upgrade_ordering(s: StoreModel, reg: Seq<DescriptorModel>)
    requires
        s.ledger is Some,
        reg.len() == 4,
        forall|i: int| 0 <= i < 4 ==> (#[trigger] reg[i]).serial_number == i + 1,
        forall|i: int| 0 <= i < 4 ==> ((#[trigger] reg[i]).needs_backfill <==> i == 1),
        spec_applied(s, 1),
        spec_applied(s, 3),
        !spec_applied(s, 2),
        !spec_applied(s, 4),
        all_events_parse(s.events),
    ensures
        spec_upgrade(s, reg).1,
        forall|k: i64| 1 <= k <= 4 ==> spec_applied(spec_upgrade(s, reg).0, k),
        spec_upgrade(s, reg).0.schema == s.schema + reg[1].statements + reg[3].statements,
{
    broadcast use vstd::seq_lib::lemma_seq_contains_after_push;

    let t0 = reg.take(0);
    let t1 = reg.take(1);
    let t2 = reg.take(2);
    let t3 = reg.take(3);
    assert(t0 =~= Seq::<DescriptorModel>::empty());
    assert(t1.drop_last() =~= t0 && t1.last() == reg[0]);
    assert(t2.drop_last() =~= t1 && t2.last() == reg[1]);
    assert(t3.drop_last() =~= t2 && t3.last() == reg[2]);
    assert(reg.drop_last() =~= t3 && reg.last() == reg[3]);

    assert(spec_upgrade(s, t0) == (s, true));
    assert(spec_applied(s, reg[0].serial_number));
    assert(spec_upgrade(s, t1) == (s, true));
    let s2 = spec_apply(s, reg[1]);
    assert(s2.events == s.events);
    let s2r = spec_rebuild(s2);
    assert(spec_upgrade(s, t2) == (s2r, true));
    assert(s2r.ledger == Some(s.ledger->Some_0.push(2)));
    assert(s2r.schema == s.schema + reg[1].statements);
    assert(spec_applied(s2r, 3));
    assert(spec_upgrade(s, t3) == (s2r, true));
    assert(!spec_applied(s2r, 4));
    let s4 = spec_apply(s2r, reg[3]);
    assert(spec_upgrade(s, reg) == (s4, true));
    assert(s4.schema == s.schema + reg[1].statements + reg[3].statements);
    assert(s4.ledger == Some(s.ledger->Some_0.push(2).push(4)));
    assert forall|k: i64| 1 <= k <= 4 implies spec_applied(s4, k) by {}
}

/// A walk over a store whose every event content parses always completes:
/// nothing else can stop it.
pub proof fn lemma_upgrade_completes(s: StoreModel, reg: Seq<DescriptorModel>)
    requires
        s.ledger is Some,
        all_events_parse(s.events),
    ensures
        spec_upgrade(s, reg).1,
    decreases reg.len(),
{
    if reg.len() > 0 {
        lemma_upgrade_completes(s, reg.drop_last());
        lemma_upgrade_applies_all(s, reg.drop_last());
        let prev = spec_upgrade(s, reg.drop_last());
        assert(prev.0.events == s.events);
    }
}

/// Success is owed whenever every stored event parses — on a fresh, empty
/// database in particular: the full run completes and reports a version.
pub proof fn lemma_run_migrations_completes(s: StoreModel)
    requires
        all_events_parse(s.events),
    ensures
        spec_upgrade(spec_ensure_ledger(s), spec_registry()).1,
{
    assert(spec_ensure_ledger(s).events == s.events);
    lemma_upgrade_completes(spec_ensure_ledger(s), spec_registry());
}

/// A failed backfill is fatal: when the tag-representation change is pending
/// and some event content does not parse, the full run stops — serials three
/// and four are never applied, the tag table is untouched, and serial two,
/// whose schema change had already committed, stays recorded.
pub proof fn lemma_backfill_failure_stops_the_run(s: StoreModel)
    requires
        s.ledger is Some,
        !spec_applied(s, 2),
        !spec_applied(s, 3),
        !spec_applied(s, 4),
        !all_events_parse(s.events),
    ensures
        !spec_upgrade(spec_ensure_ledger(s), spec_registry()).1,
        spec_applied(spec_upgrade(spec_ensure_ledger(s), spec_registry()).0, 2),
        !spec_applied(spec_upgrade(spec_ensure_ledger(s), spec_registry()).0, 3),
        !spec_applied(spec_upgrade(spec_ensure_ledger(s), spec_registry()).0, 4),
        spec_upgrade(spec_ensure_ledger(s), spec_registry()).0.tags == s.tags,
{
    broadcast use vstd::seq_lib::lemma_seq_contains_after_push;

    assert(spec_ensure_ledger(s) == s);
    lemma_registry_shape();
    let reg = spec_registry();
    let t0 = reg.take(0);
    let t1 = reg.take(1);
    let t2 = reg.take(2);
    assert(t0 =~= Seq::<DescriptorModel>::empty());
    assert(t1.drop_last() =~= t0 && t1.last() == reg[0]);
    assert(t2.drop_last() =~= t1 && t2.last() == reg[1]);
    assert(spec_upgrade(s, t0) == (s, true));

    let s1 = if spec_applied(s, 1) {
        s
    } else {
        spec_apply(s, reg[0])
    };
    assert(spec_upgrade(s, t1) == (s1, true));
    assert(s1.events == s.events && s1.tags == s.tags);
    assert(!spec_applied(s1, 2) && !spec_applied(s1, 3) && !spec_applied(s1, 4));

    let s2 = spec_apply(s1, reg[1]);
    assert(s2.events == s.events);
    assert(!all_events_parse(s2.events));
    assert(spec_upgrade(s, t2) == (s2, false));
    lemma_upgrade_stopped(s, reg, 2);
    assert(spec_upgrade(s, reg) == (s2, false));
    assert(spec_applied(s2, 2));
    assert(!spec_applied(s2, 3) && !spec_applied(s2, 4));
    assert(s2.tags == s.tags);
}

/// Idempotency of the full run: after a completed `run_migrations`, running
/// it again against the resulting store changes nothing and reports the same
/// current version.
pub proof fn lemma_run_migrations_idempotent(s: StoreModel)
    requires
        spec_upgrade(spec_ensure_ledger(s), spec_registry()).1,
    ensures
        spec_upgrade(
            spec_ensure_ledger(spec_upgrade(spec_ensure_ledger(s), spec_registry()).0),
            spec_registry(),
        ) == (spec_upgrade(spec_ensure_ledger(s), spec_registry()).0, true),
{
    let s1 = spec_ensure_ledger(s);
    lemma_upgrade_applies_all(s1, spec_registry());
    let s2 = spec_upgrade(s1, spec_registry()).0;
    assert(spec_ensure_ledger(s2) == s2);
    lemma_upgrade_idempotent(s1, spec_registry());
}

/// Ordering of the full run: from a ledger recording exactly one and three,
/// `run_migrations` applies two and then four — two's statements join the
/// schema strictly before four's — and afterwards all four serial numbers
/// are recorded.
pub proof fn lemma_run_migrations_ordering(s: StoreModel)
    requires
        s.ledger is Some,
        spec_applied(s, 1),
        spec_applied(s, 3),
        !spec_applied(s, 2),
        !spec_applied(s, 4),
        all_events_parse(s.events),
    ensures
        spec_upgrade(spec_ensure_ledger(s), spec_registry()).1,
        forall|k: i64|
            1 <= k <= 4 ==> spec_applied(
                spec_upgrade(spec_ensure_ledger(s), spec_registry()).0,
                k,
            ),
        spec_upgrade(spec_ensure_ledger(s), spec_registry()).0.schema == s.schema
            + spec_registry()[1].statements + spec_registry()[3].statements,
{
    assert(spec_ensure_ledger(s) == s);
    lemma_registry_shape();
    lemma_upgrade_ordering(s, spec_registry());
}

/// A completed walk leaves the ledger of the result recording every serial
/// number of the registry, on top of everything it recorded before.
pub proof fn lemma_upgrade_applies_all(s: StoreModel, reg: Seq<DescriptorModel>)
    requires
        s.ledger is Some,
    ensures
        spec_upgrade(s, reg).0.ledger is Some,
        spec_upgrade(s, reg).0.events == s.events,
        forall|x: i64|
            s.ledger->Some_0.contains(x) ==> #[trigger] spec_upgrade(
                s,
                reg,
            ).0.ledger->Some_0.contains(x),
        forall|x: i64|
            #[trigger] spec_upgrade(s, reg).0.ledger->Some_0.contains(x)
                ==> s.ledger->Some_0.contains(x) || exists|i: int|
                0 <= i < reg.len() && (#[trigger] reg[i]).serial_number == x,
        spec_upgrade(s, reg).1 ==> forall|i: int|
            0 <= i < reg.len() ==> spec_applied(spec_upgrade(s, reg).0, (#[trigger] reg[i]).serial_number),
    decreases reg.len(),
{
    if reg.len() > 0 {
        lemma_upgrade_applies_all(s, reg.drop_last());
        let front = reg.drop_last();
        let prev = spec_upgrade(s, front);
        let result = spec_upgrade(s, reg);
        assert(forall|i: int| 0 <= i < front.len() ==> #[trigger] front[i] == reg[i]);
        if !prev.1 {
            assert(result == prev);
            assert forall|x: i64| result.0.ledger->Some_0.contains(x) implies s.ledger->Some_0.contains(
                x,
            ) || exists|i: int| 0 <= i < reg.len() && (#[trigger] reg[i]).serial_number == x by {
                if !s.ledger->Some_0.contains(x) {
                    let i = choose|i: int|
                        0 <= i < front.len() && (#[trigger] front[i]).serial_number == x;
                    assert(reg[i].serial_number == x);
                }
            }
        } else {
            let d = reg.last();
            let before = prev.0.ledger->Some_0;
            if spec_applied(prev.0, d.serial_number) {
                assert(result == (prev.0, true));
            } else {
                let pushed = before.push(d.serial_number);
                assert(result.0.ledger == Some(pushed));
                assert forall|x: i64| before.contains(x) implies pushed.contains(x) by {
                    let j = choose|j: int| 0 <= j < before.len() && before[j] == x;
                    assert(pushed[j] == x);
                }
                assert(pushed.last() == d.serial_number);
                assert(pushed.contains(d.serial_number));
                assert forall|x: i64| pushed.contains(x) implies before.contains(x) || x
                    == d.serial_number by {
                    let j = choose|j: int| 0 <= j < pushed.len() && pushed[j] == x;
                    if j < before.len() {
                        assert(before[j] == x);
                    }
                }
            }
            assert forall|x: i64| result.0.ledger->Some_0.contains(x) implies s.ledger->Some_0.contains(
                x,
            ) || exists|i: int| 0 <= i < reg.len() && (#[trigger] reg[i]).serial_number == x by {
                if !s.ledger->Some_0.contains(x) {
                    if before.contains(x) {
                        let i = choose|i: int|
                            0 <= i < front.len() && (#[trigger] front[i]).serial_number == x;
                        assert(reg[i].serial_number == x);
                    } else {
                        assert(x == d.serial_number);
                        assert(reg[reg.len() - 1].serial_number == x);
                    }
                }
            }
            if result.1 {
                assert forall|i: int| 0 <= i < reg.len() implies spec_applied(
                    result.0,
                    (#[trigger] reg[i]).serial_number,
                ) by {
                    if i < reg.len() - 1 {
                        assert(front[i] == reg[i]);
                        assert(spec_applied(prev.0, front[i].serial_number));
                    }
                }
            }
        }
    }
}

} // verus!
