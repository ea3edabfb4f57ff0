//! The protocol handler: stateless dispatch of one decoded inbound message.
//!
//! The handler is a pure transform: given the source peer and the message, it
//! returns the ordered list of messages to send, addressed peer by peer.  A
//! probe request is answered with a response that echoes the payload and
//! carries the identifier unchanged; every other variant is terminal here —
//! reaction policy belongs to the surrounding collaborator, which sees the
//! typed variant itself.

use vstd::prelude::*;

use crate::messages::PorMessage;
use crate::messages::PorMessageV;
use crate::messages::RequestId;
use crate::messages::ResponseMessage;
use crate::messages::ResponseMessageV;

verus! {

/// The node-local protocol actor.  It keeps no state: request/response
/// correlation and pending-request bookkeeping are its callers' concern.
pub struct PorActor {}

impl PorActor {
    pub fn new() -> (r: PorActor) {
        PorActor {  }
    }

    /// Dispatch one inbound message from `source_peer`.
    ///
    /// A `Request` produces exactly one outbound message: a `Response` to
    /// the source peer, carrying the request's identifier unchanged and
    /// echoing its payload.  Every other variant produces no outbound
    /// message.
    pub fn handle(&self, source_peer: &str, msg: &PorMessage) -> (out: Vec<(String, PorMessage)>)
        ensures
            match msg@ {
                PorMessageV::Request(req) => {
                    &&& out@.len() == 1
                    &&& out@[0].0@ == source_peer@
                    &&& out@[0].1@ == PorMessageV::Response(
                        (ResponseMessageV { request_id: req.request_id, payload: req.payload }),
                    )
                },
                _ => out@.len() == 0,
            },
    {
        match msg {
            PorMessage::Request(req) => {
                let reply = ResponseMessage {
                    request_id: RequestId {
                        origin_node: req.request_id.origin_node.clone(),
                        timestamp: req.request_id.timestamp,
                        sequence: req.request_id.sequence,
                    },
                    payload: req.payload.clone(),
                };
                let mut out: Vec<(String, PorMessage)> = Vec::new();
                out.push((source_peer.to_owned(), PorMessage::Response(reply)));
                out
            },
            _ => Vec::new(),
        }
    }
}

} // verus!
