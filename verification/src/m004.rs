//! Serial four: the account and invoice tables.

use vstd::prelude::*;
use crate::registry::{Descriptor, DescriptorModel};

verus! {

pub const VERSION: i64 = 4;

/// The mathematical shape of this serial's descriptor: the exact
/// statement text it ships, never mutated once shipped.
pub open spec fn spec_migration() -> DescriptorModel {
    DescriptorModel {
        serial_number: VERSION,
        statements: seq![
            r#"
-- Create account table
CREATE TABLE "account" (
    pubkey varchar NOT NULL,
    is_admitted BOOLEAN NOT NULL DEFAULT FALSE,
    balance BIGINT NOT NULL DEFAULT 0,
    tos_accepted_at TIMESTAMP,
    CONSTRAINT account_pkey PRIMARY KEY (pubkey)
);

CREATE TYPE status AS ENUM ('Paid', 'Unpaid', 'Expired');


CREATE TABLE "invoice" (
    payment_hash varchar NOT NULL,
    pubkey varchar NOT NULL,
    amount BIGINT NOT NULL,
    status status NOT NULL DEFAULT 'Unpaid',
    description varchar,
    confirmed_at timestamp,
    created_at timestamp,
    invoice varchar,
    CONSTRAINT invoice_payment_hash PRIMARY KEY (payment_hash),
    CONSTRAINT invoice_pubkey_fkey FOREIGN KEY (pubkey) REFERENCES account (pubkey) ON DELETE CASCADE
);
        "#@,
        ],
        needs_backfill: false,
    }
}

/// The descriptor creating the account and invoice tables.
pub fn migration() -> (d: Descriptor)
    ensures
        d@ == spec_migration(),
{
    let mut statements: Vec<String> = Vec::new();
    statements.push(String::from_str(
        r#"
-- Create account table
CREATE TABLE "account" (
    pubkey varchar NOT NULL,
    is_admitted BOOLEAN NOT NULL DEFAULT FALSE,
    balance BIGINT NOT NULL DEFAULT 0,
    tos_accepted_at TIMESTAMP,
    CONSTRAINT account_pkey PRIMARY KEY (pubkey)
);

CREATE TYPE status AS ENUM ('Paid', 'Unpaid', 'Expired');


CREATE TABLE "invoice" (
    payment_hash varchar NOT NULL,
    pubkey varchar NOT NULL,
    amount BIGINT NOT NULL,
    status status NOT NULL DEFAULT 'Unpaid',
    description varchar,
    confirmed_at timestamp,
    created_at timestamp,
    invoice varchar,
    CONSTRAINT invoice_payment_hash PRIMARY KEY (payment_hash),
    CONSTRAINT invoice_pubkey_fkey FOREIGN KEY (pubkey) REFERENCES account (pubkey) ON DELETE CASCADE
);
        "#,
    ));
    let d = Descriptor { serial_number: VERSION, statements, needs_backfill: false };
    proof {
        assert(d@.statements =~= spec_migration().statements);
        assert(d@ =~= spec_migration());
    }
    d
}

} // verus!
