//! Proofs that each procedure keeps the store well formed, one module for
//! each part of what well-formedness says, and one that puts them together.

pub mod people;
pub mod seats;
pub mod companies;
pub mod links;
pub mod records;
pub mod wellformed;
