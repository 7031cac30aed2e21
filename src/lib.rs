//! An in-memory petstore: repositories of pets, tags, categories, orders and
//! users over keyed stores with fail-fast access arbitration, a facade that
//! implements the operations spanning several of them, and the decoding of
//! request parameters.
pub mod catalog;
pub mod error;
pub mod matcher;
pub mod model;
pub mod orders;
pub mod petstore;
pub mod pets;
pub mod request;
pub mod store;
pub mod users;

pub use crate::petstore::Petstore;
