//! The relay metadata document: a pure data-transfer value assembled from
//! configuration.

use vstd::prelude::*;
use crate::config;

verus! {

/// Limitations of the relay.
#[derive(Debug, Clone, PartialEq, Eq)]
pub struct Limitation {
    pub payment_required: Option<bool>,
}

/// Fee schedules for admission and publication.
#[derive(Debug, Clone, PartialEq, Eq)]
pub struct Fees {
    pub admission: Option<Vec<Fee>>,
    pub publication: Option<Vec<Fee>>,
}

/// One fee: an amount in a named unit.
#[derive(Debug, Clone, PartialEq, Eq)]
pub struct Fee {
    pub amount: u64,
    pub unit: String,
}

/// The relay info document.
#[derive(Debug, Clone, PartialEq, Eq)]
pub struct RelayInfo {
    pub id: Option<String>,
    pub name: Option<String>,
    pub description: Option<String>,
    pub pubkey: Option<String>,
    pub contact: Option<String>,
    pub supported_nips: Option<Vec<i64>>,
    pub software: Option<String>,
    pub version: Option<String>,
    pub limitation: Option<Limitation>,
    pub payment_url: Option<String>,
    pub fees: Option<Fees>,
}

/// The string `s` with every occurrence of `from` replaced by `to`, as
/// `str::replace` computes it; a function of the three strings alone.
pub uninterp spec fn replaced(s: Seq<char>, from: Seq<char>, to: Seq<char>) -> Seq<char>;

/// Relies on `str::replace`: replaces every match of `from` in `s` with `to`.
#[verifier::external_body]
fn str_replace(s: &str, from: &str, to: &str) -> (r: String)
    ensures
        r@ == replaced(s@, from@, to@),
{
    s.replace(from, to)
}

impl RelayInfo {
    /// Assembles the document from configuration. The payment URL is the
    /// relay URL with its scheme rewritten from websocket to HTTP, joined
    /// with `join`; fee schedules appear only for positive costs, and only
    /// while payment is required.
    pub fn new(i: config::Info, p: config::PayToRelay, version: Option<String>) -> (r: RelayInfo)
        ensures
            r.id == i.relay_url,
            r.name == i.name,
            r.description == i.description,
            r.pubkey == i.pubkey,
            r.contact == i.contact,
            r.version == version,
            r.software is Some && r.software->Some_0@ == "https://git.sr.ht/~gheartsfield/nostr-rs-relay"@,
            r.supported_nips is Some && r.supported_nips->Some_0@ == seq![
                1i64,
                2,
                9,
                11,
                12,
                15,
                16,
                20,
                22,
                33,
                111,
            ],
            r.limitation is Some && r.limitation->Some_0.payment_required == Some(p.enabled),
            !p.enabled ==> r.payment_url is None && r.fees is None,
            p.enabled ==> r.fees is Some,
            p.enabled && p.admission_cost > 0 ==> {
                let admission = r.fees->Some_0.admission;
                admission is Some && admission->Some_0@.len() == 1
                    && admission->Some_0@[0].amount == p.admission_cost
                    && admission->Some_0@[0].unit@ == "sats"@
            },
            p.enabled && p.admission_cost == 0 ==> r.fees->Some_0.admission is None,
            p.enabled && p.cost_per_event > 0 ==> {
                let publication = r.fees->Some_0.publication;
                publication is Some && publication->Some_0@.len() == 1
                    && publication->Some_0@[0].amount == p.cost_per_event
                    && publication->Some_0@[0].unit@ == "sats"@
            },
            p.enabled && p.cost_per_event == 0 ==> r.fees->Some_0.publication is None,
            p.enabled && i.relay_url is Some ==> r.payment_url is Some && r.payment_url->Some_0@
                == replaced(i.relay_url->Some_0@, "ws"@, "http"@) + "join"@,
            p.enabled && i.relay_url is None ==> r.payment_url is None,
    {
        let limitations = Limitation { payment_required: Some(p.enabled) };

        let (payment_url, fees): (Option<String>, Option<Fees>) = if p.enabled {
            let admission_fee: Option<Vec<Fee>> = if p.admission_cost > 0 {
                let mut schedule: Vec<Fee> = Vec::new();
                schedule.push(Fee { amount: p.admission_cost, unit: String::from_str("sats") });
                Some(schedule)
            } else {
                None
            };

            let post_fee: Option<Vec<Fee>> = if p.cost_per_event > 0 {
                let mut schedule: Vec<Fee> = Vec::new();
                schedule.push(Fee { amount: p.cost_per_event, unit: String::from_str("sats") });
                Some(schedule)
            } else {
                None
            };

            let fees = Fees { admission: admission_fee, publication: post_fee };

            let payment_url: Option<String> = match &i.relay_url {
                Some(url) => Some(str_replace(url.as_str(), "ws", "http").concat("join")),
                None => None,
            };
            (payment_url, Some(fees))
        } else {
            (None, None)
        };

        RelayInfo {
            id: i.relay_url,
            name: i.name,
            description: i.description,
            pubkey: i.pubkey,
            contact: i.contact,
            supported_nips: Some(vec![1, 2, 9, 11, 12, 15, 16, 20, 22, 33, 111]),
            software: Some(String::from_str("https://git.sr.ht/~gheartsfield/nostr-rs-relay")),
            version,
            limitation: Some(limitations),
            payment_url,
            fees,
        }
    }
}

} // verus!
