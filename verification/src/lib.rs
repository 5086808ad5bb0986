//! A verified data-access core for a document catalog: papers, their authors,
//! and their subject tags, held relationally with many-to-many junction tables.
//!
//! The store is modelled as five tables with uniqueness constraints on natural
//! keys (author and subject names, paper urls) and composite keys on the
//! junction tables. The write path runs inside an explicit transaction and is
//! proved all-or-nothing: a failure at any statement leaves the committed state
//! untouched. Entity resolution (get-or-create by name) is proved idempotent.

pub mod models;
pub mod model;
pub mod db;
pub mod laws;
