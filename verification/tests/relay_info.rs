//! Assembly of the relay info document from configuration.

use relay_migrations::config::{Info, PayToRelay};
use relay_migrations::info::RelayInfo;

fn info_with_url(url: Option<&str>) -> Info {
    Info {
        relay_url: url.map(str::to_string),
        name: Some("a relay".to_string()),
        description: None,
        pubkey: Some("abcdef".to_string()),
        contact: Some("admin".to_string()),
    }
}

#[test]
fn paid_relay_reports_fees_and_payment_url() {
    let i = info_with_url(Some("wss://relay.example/"));
    let p = PayToRelay { enabled: true, admission_cost: 21, cost_per_event: 2 };
    let r = RelayInfo::new(i, p, Some("1.2.3".to_string()));
    assert_eq!(r.id.as_deref(), Some("wss://relay.example/"));
    assert_eq!(r.name.as_deref(), Some("a relay"));
    assert_eq!(r.version.as_deref(), Some("1.2.3"));
    assert_eq!(r.payment_url.as_deref(), Some("https://relay.example/join"));
    assert_eq!(r.limitation.as_ref().unwrap().payment_required, Some(true));
    let fees = r.fees.unwrap();
    let admission = fees.admission.unwrap();
    assert_eq!(admission.len(), 1);
    assert_eq!(admission[0].amount, 21);
    assert_eq!(admission[0].unit, "sats");
    let publication = fees.publication.unwrap();
    assert_eq!(publication.len(), 1);
    assert_eq!(publication[0].amount, 2);
    assert_eq!(publication[0].unit, "sats");
    assert_eq!(
        r.supported_nips,
        Some(vec![1, 2, 9, 11, 12, 15, 16, 20, 22, 33, 111]),
    );
    assert_eq!(
        r.software.as_deref(),
        Some("https://git.sr.ht/~gheartsfield/nostr-rs-relay"),
    );
}

#[test]
fn free_relay_reports_neither_fees_nor_payment_url() {
    let i = info_with_url(Some("wss://relay.example/"));
    let p = PayToRelay { enabled: false, admission_cost: 21, cost_per_event: 2 };
    let r = RelayInfo::new(i, p, None);
    assert_eq!(r.limitation.as_ref().unwrap().payment_required, Some(false));
    assert!(r.fees.is_none());
    assert!(r.payment_url.is_none());
    assert!(r.version.is_none());
}

#[test]
fn zero_costs_leave_their_schedules_out() {
    let i = info_with_url(None);
    let p = PayToRelay { enabled: true, admission_cost: 0, cost_per_event: 0 };
    let r = RelayInfo::new(i, p, None);
    let fees = r.fees.unwrap();
    assert!(fees.admission.is_none());
    assert!(fees.publication.is_none());
    // No relay URL, no payment URL.
    assert!(r.payment_url.is_none());
}
