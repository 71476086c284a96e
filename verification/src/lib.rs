//! A DNS-SD discovery proxy core: classifies unicast DNS questions for a
//! discovery domain, folds multicast DNS events into resource records,
//! rewrites names between the discovery domain and `local.`, shapes the
//! unicast answer and caches results per owner name and record type.

pub mod addr;
pub mod config;
pub mod dns_handler;
pub mod mdns_resolver;
pub mod rr;
pub mod text;
pub mod time;
