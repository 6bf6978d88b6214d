//! The authorization-and-relationship engine of a company directory:
//! memberships and roles, connections between companies, project rooms,
//! cascading deletion and notification fan-out, over an in-memory entity
//! store.

pub mod roles;
pub mod rows;
pub mod seqs;
pub mod text;
mod scan;
pub mod model;
pub mod tables;
pub mod store;
pub mod changes;
pub mod soundness;
pub mod context;
pub mod authority;
pub mod notify;
pub mod accounts;
pub mod team;
pub mod inbox;
pub mod connections;
pub mod projects;
pub mod cascade;
pub mod proofs;
pub mod laws;
