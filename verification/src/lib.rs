//! Public-IP change logging: the poll cycle, the connection census and the
//! text log they feed, with their contracts.

pub mod census;
pub mod census_laws;
pub mod clock;
pub mod entry;
pub mod log_laws;
pub mod log_store;
pub mod poller;
pub mod poller_laws;
pub mod resolver;
pub mod scan;
pub mod text;
