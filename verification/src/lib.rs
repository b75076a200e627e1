//! A memory store with maintenance, aging, pruning and import/export framing.

pub mod types;
pub mod aging;
pub mod cache;
pub mod clock;
pub mod doctor;
pub mod engine;
pub mod field_laws;
pub mod import_export;
pub mod index;
pub mod laws;
pub mod ledger;
pub mod maintenance;
pub mod order;
pub mod reports;
pub mod store;
pub mod text;
