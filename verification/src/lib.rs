//! Service discovery over DNS SRV records: record ordering by priority and
//! weight, a time-based cache of the last resolution, and a client that turns
//! the ordered records into candidate URIs with a static fallback.

pub mod cache;
pub mod client;
pub mod name;
pub mod order;
pub mod random;
pub mod record;
pub mod resolver;
