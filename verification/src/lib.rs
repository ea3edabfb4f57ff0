//! Proof-of-Response (PoR): a typed peer-probing message protocol.
//!
//! Nodes in a peer-to-peer network exchange a closed set of seven message
//! variants (probe requests, responses, partition signals, sync heartbeats,
//! payment and ack bookkeeping, identity announcements), each correlated by
//! a `RequestId`.  The library provides two independent wire encodings — a
//! compact self-describing binary form and a schema'd interchange form with
//! explicit field presence and required-field validation — together with the
//! stateless handler that dispatches an inbound message and decides what to
//! send back.

pub mod binary;
pub mod handler;
pub mod messages;
pub mod schema;
pub mod text;
pub mod timing;
