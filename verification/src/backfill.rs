//! The backfill processor: a full, all-or-nothing rebuild of the derived tag
//! table from the stored event contents.
//!
//! The rebuild replaces the whole table — deletion strictly precedes any
//! re-insertion, and the replacement is committed only once every event has
//! been processed. A single malformed event content aborts the rebuild with
//! nothing committed.

use vstd::prelude::*;
use crate::event::{EventModel, tags_of, extract_tags};
use crate::store::{Store, StoreModel};
use crate::tags::{TagRow, TagRowModel, models, spec_event_rows, tag_qualifies};
use crate::runner::MigrationError;

verus! {

/// Every stored event content parses as a document with a tag list.
pub open spec fn all_events_parse(events: Seq<EventModel>) -> bool {
    forall|i: int| 0 <= i < events.len() ==> (#[trigger] tags_of(events[i].content)) is Some
}

/// The tag table a full rebuild derives: starting from the emptied table, the
/// rows of every event's qualifying tag entries, inserted in event order with
/// duplicates collapsed.
pub open spec fn spec_rebuild_rows(events: Seq<EventModel>) -> Seq<TagRowModel>
    decreases events.len(),
{
    if events.len() == 0 {
        Seq::empty()
    } else {
        spec_event_rows(
            spec_rebuild_rows(events.drop_last()),
            events.last().id,
            tags_of(events.last().content)->Some_0,
        )
    }
}

/// The store after a backfill: the tag table fully replaced when every event
/// parses, untouched (the aborted rebuild commits nothing) otherwise.
pub open spec fn spec_rebuild(s: StoreModel) -> StoreModel {
    if all_events_parse(s.events) {
        StoreModel { tags: spec_rebuild_rows(s.events), ..s }
    } else {
        s
    }
}

/// The tag entry `j` of event `i`.
pub open spec fn event_tag_entry(events: Seq<EventModel>, i: int, j: int) -> Seq<Seq<char>> {
    tags_of(events[i].content)->Some_0[j]
}

/// A row arises from a qualifying tag entry of some event: an entry of at
/// least two elements whose first element is a single-character name.
pub open spec fn row_has_source(events: Seq<EventModel>, r: TagRowModel) -> bool {
    exists|i: int, j: int|
        #![trigger event_tag_entry(events, i, j)]
        0 <= i < events.len() && 0 <= j < tags_of(events[i].content)->Some_0.len()
            && tag_qualifies(event_tag_entry(events, i, j)) && r == crate::tags::spec_row_of(
            events[i].id,
            event_tag_entry(events, i, j),
        )
}

/// Rows taken from one event come from the table already built or from one of
/// the event's qualifying tag entries.
proof fn lemma_event_rows_sound(
    rows: Seq<TagRowModel>,
    id: Seq<u8>,
    tags: Seq<Seq<Seq<char>>>,
    r: TagRowModel,
)
    requires
        spec_event_rows(rows, id, tags).contains(r),
    ensures
        rows.contains(r) || exists|j: int|
            0 <= j < tags.len() && tag_qualifies(#[trigger] tags[j]) && r
                == crate::tags::spec_row_of(id, tags[j]),
    decreases tags.len(),
{
    broadcast use vstd::seq_lib::lemma_seq_contains_after_push;

    if tags.len() > 0 {
        let front = tags.drop_last();
        assert(forall|j: int| 0 <= j < front.len() ==> #[trigger] front[j] == tags[j]);
        let prefix = spec_event_rows(rows, id, front);
        let last = tags.last();
        if tag_qualifies(last) {
            let row = crate::tags::spec_row_of(id, last);
            if prefix.contains(r) {
                lemma_event_rows_sound(rows, id, front, r);
            } else {
                assert(r == row);
                assert(tags[tags.len() - 1] == last);
            }
        } else {
            lemma_event_rows_sound(rows, id, front, r);
        }
    }
}

/// Malformed tag entries are discarded: every row of a full rebuild arises
/// from a qualifying tag entry — an entry of fewer than two elements, or one
/// whose first element is not a single character, never produces a row.
pub proof fn lemma_rebuild_rows_sound(events: Seq<EventModel>, r: TagRowModel)
    requires
        spec_rebuild_rows(events).contains(r),
    ensures
        row_has_source(events, r),
    decreases events.len(),
{
    if events.len() > 0 {
        let front = events.drop_last();
        assert(forall|i: int| 0 <= i < front.len() ==> #[trigger] front[i] == events[i]);
        let ts = tags_of(events.last().content)->Some_0;
        lemma_event_rows_sound(spec_rebuild_rows(front), events.last().id, ts, r);
        if spec_rebuild_rows(front).contains(r) {
            lemma_rebuild_rows_sound(front, r);
            let (i, j) = choose|i: int, j: int|
                #![trigger event_tag_entry(front, i, j)]
                0 <= i < front.len() && 0 <= j < tags_of(front[i].content)->Some_0.len()
                    && tag_qualifies(event_tag_entry(front, i, j)) && r
                    == crate::tags::spec_row_of(front[i].id, event_tag_entry(front, i, j));
            assert(event_tag_entry(events, i, j) == event_tag_entry(front, i, j));
        } else {
            let j = choose|j: int|
                0 <= j < ts.len() && tag_qualifies(#[trigger] ts[j]) && r
                    == crate::tags::spec_row_of(events.last().id, ts[j]);
            let i = events.len() - 1;
            assert(events[i] == events.last());
            assert(event_tag_entry(events, i, j) == ts[j]);
        }
    }
}

/// Conflict-tolerant insertion keeps the table free of duplicates.
proof fn lemma_event_rows_unique(rows: Seq<TagRowModel>, id: Seq<u8>, tags: Seq<Seq<Seq<char>>>)
    requires
        rows.no_duplicates(),
    ensures
        spec_event_rows(rows, id, tags).no_duplicates(),
    decreases tags.len(),
{
    if tags.len() > 0 {
        lemma_event_rows_unique(rows, id, tags.drop_last());
        let prefix = spec_event_rows(rows, id, tags.drop_last());
        if tag_qualifies(tags.last()) {
            let row = crate::tags::spec_row_of(id, tags.last());
            if !prefix.contains(row) {
                let pushed = prefix.push(row);
                assert forall|i: int, j: int| 0 <= i < j < pushed.len() implies pushed[i]
                    != pushed[j] by {
                    if j == pushed.len() - 1 {
                        assert(pushed[j] == row);
                        if pushed[i] == row {
                            assert(prefix[i] == row);
                            assert(prefix.contains(row));
                        }
                    }
                }
            }
        }
    }
}

/// A tag list that names the same `(name, value)` pair twice still yields a
/// table without duplicate rows: a full rebuild never stores one combination
/// twice.
pub proof fn lemma_rebuild_rows_unique(events: Seq<EventModel>)
    ensures
        spec_rebuild_rows(events).no_duplicates(),
    decreases events.len(),
{
    if events.len() == 0 {
        assert(Seq::<TagRowModel>::empty().no_duplicates());
    } else {
        lemma_rebuild_rows_unique(events.drop_last());
        lemma_event_rows_unique(
            spec_rebuild_rows(events.drop_last()),
            events.last().id,
            tags_of(events.last().content)->Some_0,
        );
    }
}

/// Rebuilds every derived tag row from the event table.
///
/// The emptied table and all re-inserted rows are committed together, after
/// the last event: a parse failure mid-stream aborts the whole rebuild and
/// leaves the stored tag table exactly as it was.
pub fn rebuild_tags(store: &mut Store) -> (r: Result<(), MigrationError>)
    requires
        old(store).wf(),
    ensures
        final(store).wf(),
        final(store)@ == spec_rebuild(old(store)@),
        r is Ok <==> all_events_parse(old(store)@.events),
        r is Err ==> r->Err_0 == MigrationError::EventParse && final(store)@ == old(store)@,
{
    let ghost s0 = store@;
    // The write scope: deletion of the old rows and every re-insertion stay
    // buffered here until the single commit below.
    let mut rebuilt: Vec<TagRow> = Vec::new();
    let n = store.events.len();
    assert(s0.events.take(0) =~= Seq::<EventModel>::empty());
    for i in 0..n
        invariant
            n == store.events@.len(),
            store@ == s0,
            store.wf(),
            models(rebuilt@) == spec_rebuild_rows(s0.events.take(i as int)),
            forall|j: int| 0 <= j < i ==> (#[trigger] tags_of(s0.events[j].content)) is Some,
    {
        let e = &store.events[i];
        assert(e@ == s0.events[i as int]);
        match extract_tags(&e.content) {
            Some(tags) => {
                assert(s0.events.take(i + 1).drop_last() =~= s0.events.take(i as int));
                assert(s0.events.take(i + 1).last() == s0.events[i as int]);
                let id = e.id.clone();
                crate::tags::append_event_rows(&mut rebuilt, &id, &tags);
                assert(models(rebuilt@) == spec_rebuild_rows(s0.events.take(i + 1)));
            },
            None => {
                assert(tags_of(s0.events[i as int].content) is None);
                assert(!all_events_parse(s0.events));
                return Err(MigrationError::EventParse);
            },
        }
    }
    assert(s0.events.take(n as int) =~= s0.events);
    assert(all_events_parse(s0.events));
    // Commit of the write scope: the replacement becomes visible at once.
    store.tags = rebuilt;
    assert(store@ =~= spec_rebuild(s0));
    Ok(())
}

} // verus!
