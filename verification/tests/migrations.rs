//! Runner behaviour: versioning, ordering, idempotency, atomicity.

use relay_migrations::registry::registry;
use relay_migrations::runner::{run_migration, run_migrations, upgrade, MigrationError, MigrationResult};
use relay_migrations::store::{current_version, ensure_ledger, Ledger, Store};

fn fresh_store() -> Store {
    Store { ledger: None, schema: Vec::new(), events: Vec::new(), tags: Vec::new() }
}

#[test]
fn fresh_database_upgrades_to_version_four() {
    let mut store = fresh_store();
    ensure_ledger(&mut store);
    let reg = registry();
    let version = upgrade(&mut store, &reg).expect("upgrade on a fresh store succeeds");
    assert_eq!(version, 4);
    let applied = &store.ledger.as_ref().unwrap().applied;
    assert_eq!(applied, &vec![1, 2, 3, 4]);
    assert_eq!(store.schema.len(), 4);
}

#[test]
fn run_migrations_reports_version_four() {
    let mut store = fresh_store();
    let version = run_migrations(&mut store).expect("run_migrations succeeds");
    assert_eq!(version, 4);
    assert_eq!(current_version(&store), 4);
}

#[test]
fn upgrade_twice_changes_nothing() {
    let mut store = fresh_store();
    let first = run_migrations(&mut store).expect("first run succeeds");
    let snapshot = store.clone();
    let second = run_migrations(&mut store).expect("second run succeeds");
    assert_eq!(first, second);
    assert_eq!(store, snapshot);
}

#[test]
fn pending_migrations_apply_in_ascending_order() {
    let mut store = fresh_store();
    store.ledger = Some(Ledger { applied: vec![1, 3] });
    let reg = registry();
    let version = upgrade(&mut store, &reg).expect("upgrade succeeds");
    assert_eq!(version, 4);
    let applied = &store.ledger.as_ref().unwrap().applied;
    assert!(applied.contains(&1));
    assert!(applied.contains(&2));
    assert!(applied.contains(&3));
    assert!(applied.contains(&4));
    // Two was committed strictly before four: its statements stand first.
    assert_eq!(store.schema.len(), 2);
    assert!(store.schema[0].contains("value_hex"));
    assert!(store.schema[1].contains("account"));
}

#[test]
fn rejected_statement_leaves_ledger_and_schema_untouched() {
    let mut store = fresh_store();
    ensure_ledger(&mut store);
    let reg = registry();
    let verdicts = vec![false];
    let r = run_migration(&mut store, &reg[0], &verdicts);
    assert_eq!(r, Err(MigrationError::StatementFailed));
    assert!(store.ledger.as_ref().unwrap().applied.is_empty());
    assert!(store.schema.is_empty());
}

#[test]
fn accepted_statements_commit_and_record_the_serial() {
    let mut store = fresh_store();
    ensure_ledger(&mut store);
    let reg = registry();
    let verdicts = vec![true];
    let r = run_migration(&mut store, &reg[0], &verdicts);
    assert_eq!(r, Ok(MigrationResult::Upgraded));
    assert_eq!(store.ledger.as_ref().unwrap().applied, vec![1]);
    assert_eq!(store.schema.len(), 1);
}

#[test]
fn applied_migration_is_not_needed_again() {
    let mut store = fresh_store();
    store.ledger = Some(Ledger { applied: vec![1] });
    let reg = registry();
    let verdicts = vec![true];
    let r = run_migration(&mut store, &reg[0], &verdicts);
    assert_eq!(r, Ok(MigrationResult::NotNeeded));
    assert_eq!(store.ledger.as_ref().unwrap().applied, vec![1]);
    assert!(store.schema.is_empty());
}

#[test]
fn registry_serials_increase_strictly_from_one() {
    let reg = registry();
    assert_eq!(reg.len(), 4);
    for (i, d) in reg.iter().enumerate() {
        assert_eq!(d.serial_number, i as i64 + 1);
        assert_eq!(d.needs_backfill, i == 1);
        assert!(!d.statements.is_empty());
    }
}

#[test]
fn malformed_event_makes_startup_fail() {
    let mut store = fresh_store();
    store.events.push(relay_migrations::event::EventRow {
        id: vec![0x01],
        content: b"not a json document".to_vec(),
    });
    let r = run_migrations(&mut store);
    assert_eq!(r, Err(MigrationError::EventParse));
    // The failed backfill committed nothing.
    assert!(store.tags.is_empty());
    // The schema change itself had already committed, so its serial stays,
    // and the runner never went on to the later-numbered migrations.
    let applied = &store.ledger.as_ref().unwrap().applied;
    assert!(applied.contains(&2));
    assert!(!applied.contains(&3));
    assert!(!applied.contains(&4));
}

#[test]
fn ensure_ledger_is_idempotent() {
    let mut store = fresh_store();
    ensure_ledger(&mut store);
    assert_eq!(store.ledger.as_ref().unwrap().applied, Vec::<i64>::new());
    store.ledger.as_mut().unwrap().applied.push(7);
    ensure_ledger(&mut store);
    assert_eq!(store.ledger.as_ref().unwrap().applied, vec![7]);
}
