//! Serial two: the tag-representation change — a nullable `value_hex` column
//! for hex-packed values. The committed change is followed by the backfill
//! that rebuilds every tag row from its event's content.

use vstd::prelude::*;
use crate::registry::{Descriptor, DescriptorModel};

verus! {

pub const VERSION: i64 = 2;

/// The mathematical shape of this serial's descriptor: the exact
/// statement text it ships, never mutated once shipped.
pub open spec fn spec_migration() -> DescriptorModel {
    DescriptorModel {
        serial_number: VERSION,
        statements: seq![
            r#"
-- Add tag value column
ALTER TABLE tag ADD COLUMN value_hex bytea;
-- Remove not-null constraint
ALTER TABLE tag ALTER COLUMN value DROP NOT NULL;
-- Add value index
CREATE INDEX tag_value_hex_idx ON tag USING btree (value_hex);
        "#@,
        ],
        needs_backfill: true,
    }
}

/// The descriptor adding the hex-packed tag value column.
pub fn migration() -> (d: Descriptor)
    ensures
        d@ == spec_migration(),
{
    let mut statements: Vec<String> = Vec::new();
    statements.push(String::from_str(
        r#"
-- Add tag value column
ALTER TABLE tag ADD COLUMN value_hex bytea;
-- Remove not-null constraint
ALTER TABLE tag ALTER COLUMN value DROP NOT NULL;
-- Add value index
CREATE INDEX tag_value_hex_idx ON tag USING btree (value_hex);
        "#,
    ));
    let d = Descriptor { serial_number: VERSION, statements, needs_backfill: true };
    proof {
        assert(d@.statements =~= spec_migration().statements);
        assert(d@ =~= spec_migration());
    }
    d
}

} // verus!
