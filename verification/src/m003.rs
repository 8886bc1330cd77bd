//! Serial three: the uniqueness constraint that makes duplicate tag rows
//! impossible at the storage layer.

use vstd::prelude::*;
use crate::registry::{Descriptor, DescriptorModel};

verus! {

pub const VERSION: i64 = 3;

/// The mathematical shape of this serial's descriptor: the exact
/// statement text it ships, never mutated once shipped.
pub open spec fn spec_migration() -> DescriptorModel {
    DescriptorModel {
        serial_number: VERSION,
        statements: seq![
            r#"
-- Add unique constraint on tag
ALTER TABLE tag ADD CONSTRAINT unique_constraint_name UNIQUE (event_id, "name", value);
        "#@,
        ],
        needs_backfill: false,
    }
}

/// The descriptor adding the unique constraint on tag rows.
pub fn migration() -> (d: Descriptor)
    ensures
        d@ == spec_migration(),
{
    let mut statements: Vec<String> = Vec::new();
    statements.push(String::from_str(
        r#"
-- Add unique constraint on tag
ALTER TABLE tag ADD CONSTRAINT unique_constraint_name UNIQUE (event_id, "name", value);
        "#,
    ));
    let d = Descriptor { serial_number: VERSION, statements, needs_backfill: false };
    proof {
        assert(d@.statements =~= spec_migration().statements);
        assert(d@ =~= spec_migration());
    }
    d
}

} // verus!
