//! Verified core of a client for the online.net DNS API: record and zone
//! types, the rules that select and filter records, the text encodings
//! used on the wire, the requests that the HTTP layer sends, and the steps
//! of an edit of the zone in use.

pub mod api;
pub mod cli;
pub mod copy;
pub mod dns;
pub mod edit;
pub mod net;
pub mod text;
pub mod zone;

pub use api::{HttpMethod, Request};
pub use dns::{DNSType, Domain, Error, Record, Version};
pub use net::{Collector, PostData};
