//! Backfill behaviour: lossless hex packing, malformed-tag discard, conflict
//! tolerance, and the end-to-end scenario.

use relay_migrations::backfill::rebuild_tags;
use relay_migrations::event::EventRow;
use relay_migrations::runner::{run_migrations, MigrationError};
use relay_migrations::store::Store;
use relay_migrations::tags::{TagRow, TagValue};

fn store_with_events(events: Vec<EventRow>) -> Store {
    Store { ledger: None, schema: Vec::new(), events, tags: Vec::new() }
}

fn event(id: Vec<u8>, content: &[u8]) -> EventRow {
    EventRow { id, content: content.to_vec() }
}

#[test]
fn end_to_end_scenario() {
    let mut store = store_with_events(Vec::new());
    let version = run_migrations(&mut store).expect("fresh upgrade succeeds");
    assert_eq!(version, 4);
    store.events.push(event(
        vec![0x11],
        br#"{"tags":[["e","abc123"],["e","abc123"],["p","NotHex"]]}"#,
    ));
    rebuild_tags(&mut store).expect("backfill succeeds");
    assert_eq!(store.tags.len(), 2);
    assert_eq!(
        store.tags[0],
        TagRow { event_id: vec![0x11], name: 'e', value: TagValue::Packed(vec![0xab, 0xc1, 0x23]) },
    );
    assert_eq!(
        store.tags[1],
        TagRow { event_id: vec![0x11], name: 'p', value: TagValue::Plain(b"NotHex".to_vec()) },
    );
}

#[test]
fn lowercase_even_hex_is_packed_and_mixed_case_stays_verbatim() {
    let mut store = store_with_events(vec![event(
        vec![0x01],
        br#"{"tags":[["e","deadbeef"],["p","DeadBeef"]]}"#,
    )]);
    rebuild_tags(&mut store).expect("backfill succeeds");
    assert_eq!(store.tags.len(), 2);
    let packed = &store.tags[0];
    assert_eq!(packed.name, 'e');
    match &packed.value {
        TagValue::Packed(bytes) => {
            assert_eq!(bytes, &vec![0xde, 0xad, 0xbe, 0xef]);
            // Re-encoding the stored bytes restores the original string.
            assert_eq!(hex::encode(bytes), "deadbeef");
        }
        TagValue::Plain(_) => panic!("deadbeef must be hex-packed"),
    }
    assert_eq!(
        store.tags[1],
        TagRow { event_id: vec![0x01], name: 'p', value: TagValue::Plain(b"DeadBeef".to_vec()) },
    );
}

#[test]
fn odd_length_hex_stays_verbatim() {
    let mut store = store_with_events(vec![event(vec![0x02], br#"{"tags":[["e","abc"]]}"#)]);
    rebuild_tags(&mut store).expect("backfill succeeds");
    assert_eq!(
        store.tags,
        vec![TagRow { event_id: vec![0x02], name: 'e', value: TagValue::Plain(b"abc".to_vec()) }],
    );
}

#[test]
fn empty_value_is_packed_to_no_bytes() {
    let mut store = store_with_events(vec![event(vec![0x03], br#"{"tags":[["e",""]]}"#)]);
    rebuild_tags(&mut store).expect("backfill succeeds");
    assert_eq!(
        store.tags,
        vec![TagRow { event_id: vec![0x03], name: 'e', value: TagValue::Packed(Vec::new()) }],
    );
}

#[test]
fn malformed_tag_entries_are_discarded() {
    let mut store = store_with_events(vec![event(
        vec![0x04],
        br#"{"tags":[["x"],["ee","value"],[],["p","kept"]]}"#,
    )]);
    rebuild_tags(&mut store).expect("backfill succeeds");
    assert_eq!(
        store.tags,
        vec![TagRow { event_id: vec![0x04], name: 'p', value: TagValue::Plain(b"kept".to_vec()) }],
    );
}

#[test]
fn duplicate_pairs_collapse_to_one_row() {
    let mut store = store_with_events(vec![event(
        vec![0x05],
        br#"{"tags":[["t","zz"],["t","zz"],["t","zz"]]}"#,
    )]);
    rebuild_tags(&mut store).expect("backfill succeeds");
    assert_eq!(
        store.tags,
        vec![TagRow { event_id: vec![0x05], name: 't', value: TagValue::Plain(b"zz".to_vec()) }],
    );
}

#[test]
fn parse_failure_aborts_without_touching_the_table() {
    let mut store = store_with_events(vec![
        event(vec![0x06], br#"{"tags":[["e","aa"]]}"#),
        event(vec![0x07], b"{broken"),
    ]);
    store.tags.push(TagRow {
        event_id: vec![0x00],
        name: 'q',
        value: TagValue::Plain(b"old".to_vec()),
    });
    let before = store.tags.clone();
    assert_eq!(rebuild_tags(&mut store), Err(MigrationError::EventParse));
    assert_eq!(store.tags, before);
}

#[test]
fn missing_or_malformed_tags_field_is_a_parse_failure() {
    let mut store = store_with_events(vec![event(vec![0x08], br#"{"other":1}"#)]);
    assert_eq!(rebuild_tags(&mut store), Err(MigrationError::EventParse));

    let mut store = store_with_events(vec![event(vec![0x09], br#"{"tags":"no"}"#)]);
    assert_eq!(rebuild_tags(&mut store), Err(MigrationError::EventParse));

    let mut store = store_with_events(vec![event(vec![0x0a], br#"{"tags":[["e",5]]}"#)]);
    assert_eq!(rebuild_tags(&mut store), Err(MigrationError::EventParse));
}

#[test]
fn rebuild_replaces_earlier_rows_entirely() {
    let mut store = store_with_events(vec![event(vec![0x0b], br#"{"tags":[["n","01"]]}"#)]);
    store.tags.push(TagRow {
        event_id: vec![0x0b],
        name: 'z',
        value: TagValue::Plain(b"stale".to_vec()),
    });
    rebuild_tags(&mut store).expect("backfill succeeds");
    assert_eq!(
        store.tags,
        vec![TagRow { event_id: vec![0x0b], name: 'n', value: TagValue::Packed(vec![0x01]) }],
    );
}

#[test]
fn events_with_no_usable_tags_leave_the_table_empty() {
    let mut store = store_with_events(vec![event(vec![0x0c], br#"{"tags":[]}"#)]);
    rebuild_tags(&mut store).expect("backfill succeeds");
    assert!(store.tags.is_empty());
}
