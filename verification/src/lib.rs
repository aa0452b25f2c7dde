//! Persistence core for a small civic-records office.
//!
//! The crate models the office's relational store: residents grouped into
//! households, map pins marking each household's location, officials, incident
//! (blotter) records, income and expense ledgers, and a singleton settings
//! record. Every repository operation and every derived query carries a
//! contract that pins down exactly what it returns and how it changes the
//! store.

pub mod barangay_map;
pub mod blotters;
pub mod errors;
pub mod households;
pub mod ledger;
pub mod officials;
pub mod repo;
pub mod residents;
pub mod schema;
pub mod settings;
pub mod store;
pub mod text;
