//! Schema-versioning and online-backfill engine for a persistent event store.
//!
//! The library tracks which structural migrations have been applied to a
//! database, applies any outstanding ones in strictly increasing serial-number
//! order inside atomic transactions, and — for the migration that changes how
//! tag values are represented — rebuilds every derived tag row from the stored
//! event contents without loss.

pub mod backfill;
pub mod config;
pub mod event;
pub mod info;
pub mod hexpack;
pub mod m001;
pub mod m002;
pub mod m003;
pub mod m004;
pub mod registry;
pub mod runner;
pub mod store;
pub mod tags;
