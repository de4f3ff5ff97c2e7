//! Server-side decisions of a dynamic-DNS update service.
//!
//! A client presents a key and a secret; the handler authenticates it against a
//! stored credential record, and, when the client's address changed, asks for a
//! DNS upsert and then for the record to be rewritten with the new address.
//! The outside work (store reads and writes, DNS changes) is done by the caller,
//! which feeds the results back into [`handler::advance`].
pub mod address;
pub mod digest;
pub mod handler;
pub mod laws;
pub mod record;
