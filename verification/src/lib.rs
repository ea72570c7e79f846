//! An in-process todo collection: insertion-ordered records with
//! store-assigned identifiers, and the create/list/get/update/delete
//! operations a request handler calls, each with a verified contract.

pub mod laws;
pub mod store;
pub mod todo;
