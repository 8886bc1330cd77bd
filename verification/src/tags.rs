//! Derived tag rows and their regeneration from an event's tag list.
//!
//! A tag row is fully regenerable from its event's content. Its name must
//! match the single-character grammar; its value is stored hex-packed exactly
//! when the losslessness test admits it, verbatim otherwise. Duplicate
//! `(event_id, name, value)` combinations collapse to one row.

use vstd::prelude::*;
use vstd::utf8::encode_utf8;
use crate::hexpack::{is_packable, spec_hex_decode, is_lower_hex, hex_decode};

verus! {

/// The stored form of a tag's value: verbatim string bytes in the `value`
/// column, or decoded bytes in the `value_hex` column. Exactly one of the two
/// is populated per row.
#[derive(Debug, Clone, PartialEq, Eq)]
pub enum TagValue {
    Plain(Vec<u8>),
    Packed(Vec<u8>),
}

/// The mathematical shape of a stored tag value.
#[verifier::ext_equal]
pub enum TagValueModel {
    Plain(Seq<u8>),
    Packed(Seq<u8>),
}

impl View for TagValue {
    type V = TagValueModel;

    open spec fn view(&self) -> TagValueModel {
        match self {
            TagValue::Plain(b) => TagValueModel::Plain(b@),
            TagValue::Packed(b) => TagValueModel::Packed(b@),
        }
    }
}

/// One row of the tag table.
#[derive(Debug, Clone, PartialEq, Eq)]
pub struct TagRow {
    pub event_id: Vec<u8>,
    pub name: char,
    pub value: TagValue,
}

/// The mathematical shape of a tag row.
#[verifier::ext_equal]
pub struct TagRowModel {
    pub event_id: Seq<u8>,
    pub name: char,
    pub value: TagValueModel,
}

impl View for TagRow {
    type V = TagRowModel;

    open spec fn view(&self) -> TagRowModel {
        TagRowModel { event_id: self.event_id@, name: self.name, value: self.value@ }
    }
}

/// The rows of a tag table, as their mathematical shapes.
pub open spec fn models(rows: Seq<TagRow>) -> Seq<TagRowModel> {
    rows.map_values(|r: TagRow| r@)
}

/// The stored form the losslessness test chooses for a tag value: hex-packed
/// when decode and re-encode reproduce the value exactly, verbatim otherwise.
pub open spec fn spec_tag_value(v: Seq<char>) -> TagValueModel {
    if is_packable(v) {
        TagValueModel::Packed(spec_hex_decode(v))
    } else {
        TagValueModel::Plain(encode_utf8(v))
    }
}

/// A tag entry carries indexable semantics: at least two elements, and a
/// first element matching the single-character tag-name grammar.
pub open spec fn tag_qualifies(t: Seq<Seq<char>>) -> bool {
    t.len() >= 2 && t[0].len() == 1
}

/// The row a qualifying tag entry of the event `id` produces.
pub open spec fn spec_row_of(id: Seq<u8>, t: Seq<Seq<char>>) -> TagRowModel {
    TagRowModel { event_id: id, name: t[0][0], value: spec_tag_value(t[1]) }
}

/// Conflict-tolerant insertion: a row that is already present is not added
/// again.
pub open spec fn spec_insert(rows: Seq<TagRowModel>, r: TagRowModel) -> Seq<TagRowModel> {
    if rows.contains(r) {
        rows
    } else {
        rows.push(r)
    }
}

/// The table reached from `rows` by inserting, in order, the row of every
/// qualifying tag entry of the event `id`.
pub open spec fn spec_event_rows(rows: Seq<TagRowModel>, id: Seq<u8>, tags: Seq<Seq<Seq<char>>>) -> Seq<TagRowModel>
    decreases tags.len(),
{
    if tags.len() == 0 {
        rows
    } else {
        let prefix = spec_event_rows(rows, id, tags.drop_last());
        if tag_qualifies(tags.last()) {
            spec_insert(prefix, spec_row_of(id, tags.last()))
        } else {
            prefix
        }
    }
}

/// Byte-vector equality.
fn bytes_eq(a: &Vec<u8>, b: &Vec<u8>) -> (r: bool)
    ensures
        r == (a@ == b@),
{
    if a.len() != b.len() {
        assert(a@ != b@);
        return false;
    }
    let n = a.len();
    for i in 0..n
        invariant
            n == a@.len() == b@.len(),
            forall|j: int| 0 <= j < i ==> a@[j] == b@[j],
    {
        if a[i] != b[i] {
            return false;
        }
    }
    assert(a@ =~= b@);
    true
}

/// Whether two rows store the same `(event_id, name, value)` combination.
fn row_eq(a: &TagRow, b: &TagRow) -> (r: bool)
    ensures
        r == (a@ == b@),
{
    if a.name != b.name {
        return false;
    }
    if !bytes_eq(&a.event_id, &b.event_id) {
        return false;
    }
    match (&a.value, &b.value) {
        (TagValue::Plain(_), TagValue::Packed(_)) => false,
        (TagValue::Packed(_), TagValue::Plain(_)) => false,
        (TagValue::Plain(x), TagValue::Plain(y)) => bytes_eq(x, y),
        (TagValue::Packed(x), TagValue::Packed(y)) => bytes_eq(x, y),
    }
}

/// Whether the table already holds this row.
fn rows_contain(rows: &Vec<TagRow>, r: &TagRow) -> (b: bool)
    ensures
        b == models(rows@).contains(r@),
{
    let n = rows.len();
    for i in 0..n
        invariant
            n == rows@.len(),
            forall|j: int| 0 <= j < i ==> models(rows@)[j] != r@,
    {
        if row_eq(&rows[i], r) {
            assert(models(rows@)[i as int] == r@);
            return true;
        }
    }
    assert(!models(rows@).contains(r@));
    false
}

/// Conflict-tolerant insertion into the table: a no-op when the combination
/// is already present, never an error.
pub fn insert_row(rows: &mut Vec<TagRow>, r: TagRow)
    ensures
        models(final(rows)@) == spec_insert(models(old(rows)@), r@),
{
    if !rows_contain(rows, &r) {
        let ghost before = models(rows@);
        rows.push(r);
        assert(models(rows@) =~= before.push(r@));
    }
}

/// Inserts into the table, in order, the row of every qualifying tag entry of
/// the event `id`: entries of fewer than two elements and names outside the
/// single-character grammar are discarded, duplicates collapse to one row.
pub fn append_event_rows(rows: &mut Vec<TagRow>, id: &Vec<u8>, tags: &Vec<Vec<String>>)
    ensures
        models(final(rows)@) == spec_event_rows(models(old(rows)@), id@, tags.deep_view()),
{
    let ghost init = models(old(rows)@);
    let ghost all = tags.deep_view();
    let n = tags.len();
    assert(all.take(0) =~= Seq::<Seq<Seq<char>>>::empty());
    for i in 0..n
        invariant
            n == tags@.len(),
            all == tags.deep_view(),
            models(rows@) == spec_event_rows(init, id@, all.take(i as int)),
    {
        let t = &tags[i];
        assert(t.deep_view() == all[i as int]);
        assert(all.take(i + 1).drop_last() =~= all.take(i as int));
        assert(all.take(i + 1).last() == all[i as int]);
        if t.len() > 1 {
            match crate::event::single_char_tagname(t[0].as_str()) {
                Some(name) => {
                    assert(tag_qualifies(all[i as int]));
                    let value = tag_value_of(t[1].as_str());
                    assert(t[1]@ == all[i as int][1]);
                    insert_row(rows, TagRow { event_id: id.clone(), name, value });
                    assert(models(rows@) == spec_event_rows(init, id@, all.take(i + 1)));
                },
                None => {
                    assert(!tag_qualifies(all[i as int]));
                },
            }
        } else {
            assert(!tag_qualifies(all[i as int]));
        }
    }
    assert(all.take(n as int) =~= all);
}

/// The stored form of one tag value, chosen by the losslessness test.
pub fn tag_value_of(v: &str) -> (r: TagValue)
    ensures
        r@ == spec_tag_value(v@),
{
    if v.unicode_len() % 2 == 0 && is_lower_hex(v) {
        TagValue::Packed(hex_decode(v))
    } else {
        TagValue::Plain(v.as_bytes_vec())
    }
}

} // verus!
