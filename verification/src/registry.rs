//! Service-discovery records and the consistent-hash registry store.

pub mod model;
pub mod store;
pub mod upstream;
