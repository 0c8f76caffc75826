//! An in-memory investigation-graph data store.
//!
//! The store holds nodes (investigated entities such as people,
//! organizations, wallets or domains) and relationships (typed, weighted,
//! directed edges with confidence scores). It offers create, read, update,
//! delete and search operations, and maintains referential integrity:
//! deleting a node removes every relationship that references it.

pub mod entities;
pub mod requests;
pub mod store;
pub mod text;
pub mod trusted;
