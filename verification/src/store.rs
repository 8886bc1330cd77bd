//! The durable state the runner mutates: the version ledger, the committed
//! schema changes, the event table and the derived tag table.
//!
//! The ledger is the single source of truth for the current schema version: a
//! serial number appears at most once, and its maximum is the version.

use vstd::prelude::*;
use crate::event::{EventRow, EventModel};
use crate::tags::{TagRow, TagRowModel, models};

verus! {

/// The version ledger: one entry per applied migration.
#[derive(Debug, Clone, PartialEq, Eq)]
pub struct Ledger {
    pub applied: Vec<i64>,
}

impl Ledger {
    /// Entries are positive serial numbers, each recorded at most once.
    pub open spec fn wf(&self) -> bool {
        &&& forall|i: int| 0 <= i < self.applied@.len() ==> #[trigger] self.applied@[i] > 0
        &&& forall|i: int, j: int|
            0 <= i < j < self.applied@.len() ==> self.applied@[i] != self.applied@[j]
    }

    /// Whether `serial` is recorded as applied.
    pub fn contains(&self, serial: i64) -> (r: bool)
        ensures
            r == self.applied@.contains(serial),
    {
        let n = self.applied.len();
        for i in 0..n
            invariant
                n == self.applied@.len(),
                forall|j: int| 0 <= j < i ==> self.applied@[j] != serial,
        {
            if self.applied[i] == serial {
                return true;
            }
        }
        false
    }
}

/// The maximum recorded serial number; zero on an empty ledger.
pub open spec fn spec_max_serial(l: Seq<i64>) -> i64
    decreases l.len(),
{
    if l.len() == 0 {
        0
    } else {
        let m = spec_max_serial(l.drop_last());
        if l.last() > m {
            l.last()
        } else {
            m
        }
    }
}

/// The durable store: ledger (absent until created), committed schema
/// statements in commit order, event table, and derived tag table.
#[derive(Debug, Clone, PartialEq, Eq)]
pub struct Store {
    pub ledger: Option<Ledger>,
    pub schema: Vec<String>,
    pub events: Vec<EventRow>,
    pub tags: Vec<TagRow>,
}

/// The mathematical shape of the durable store.
#[verifier::ext_equal]
pub struct StoreModel {
    pub ledger: Option<Seq<i64>>,
    pub schema: Seq<Seq<char>>,
    pub events: Seq<EventModel>,
    pub tags: Seq<TagRowModel>,
}

impl View for Store {
    type V = StoreModel;

    open spec fn view(&self) -> StoreModel {
        StoreModel {
            ledger: match self.ledger {
                Some(l) => Some(l.applied@),
                None => None,
            },
            schema: self.schema.deep_view(),
            events: self.events@.map_values(|e: EventRow| e@),
            tags: models(self.tags@),
        }
    }
}

impl Store {
    /// A well-formed store: the ledger, once it exists, is well-formed.
    pub open spec fn wf(&self) -> bool {
        match self.ledger {
            Some(l) => l.wf(),
            None => true,
        }
    }
}

/// The store after the ledger has been ensured: an absent ledger becomes the
/// empty one, an existing store is untouched.
pub open spec fn spec_ensure_ledger(s: StoreModel) -> StoreModel {
    if s.ledger is Some {
        s
    } else {
        StoreModel { ledger: Some(Seq::<i64>::empty()), ..s }
    }
}

/// Idempotently creates the version ledger if it is absent. Safe to call on
/// every startup: an existing ledger, and everything else, is untouched.
pub fn ensure_ledger(store: &mut Store)
    ensures
        final(store)@ == spec_ensure_ledger(old(store)@),
        final(store)@.ledger is Some,
        old(store).wf() ==> final(store).wf(),
{
    if store.ledger.is_none() {
        store.ledger = Some(Ledger { applied: Vec::new() });
        assert(store@ =~= spec_ensure_ledger(old(store)@));
    }
}

/// The current schema version: the maximum serial number the ledger records,
/// zero while nothing has been applied.
pub fn current_version(store: &Store) -> (v: i64)
    requires
        store@.ledger is Some,
    ensures
        v == spec_max_serial(store@.ledger->Some_0),
{
    let ledger = match &store.ledger {
        Some(l) => l,
        None => unreached(),
    };
    let ghost entries = ledger.applied@;
    let n = ledger.applied.len();
    let mut v: i64 = 0;
    assert(entries.take(0) =~= Seq::<i64>::empty());
    for i in 0..n
        invariant
            n == entries.len(),
            entries == ledger.applied@,
            store@.ledger == Some(entries),
            v == spec_max_serial(entries.take(i as int)),
    {
        assert(entries.take(i + 1).drop_last() =~= entries.take(i as int));
        assert(entries.take(i + 1).last() == entries[i as int]);
        if ledger.applied[i] > v {
            v = ledger.applied[i];
        }
    }
    assert(entries.take(n as int) =~= entries);
    v
}

} // verus!
