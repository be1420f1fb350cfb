//! Policy resolution and checksum verification for table-by-table database
//! migration.
//!
//! A migration run copies tables between two clusters under a per-table
//! policy: full copy, schema-only, a predicate row filter, or a rolling
//! time-window filter.  This crate holds the pure core of that system:
//! qualified table identity, the policy registry, resolution of the
//! effective extraction directive, and the order-independent checksum
//! engine used to verify that source and target agree after the copy.

pub mod checksum;
pub mod config;
pub mod digest;
pub mod directive;
pub mod errors;
pub mod ident;
pub mod privileges;
pub mod publication;
pub mod rules;
pub mod text;
