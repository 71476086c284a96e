//! Resolution of questions over multicast DNS: the result cache, the folding
//! of link events into records, and the resolver that ties them together.

pub mod cache;
pub mod query;
pub mod resolver;
