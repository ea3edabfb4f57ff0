//! The typed message model: the correlation identifier, the seven protocol
//! variants, and the envelope over exactly those variants.
//!
//! Every message except the identity announcement carries a `RequestId` by
//! value; the identifier is created once by the node that initiates a probe
//! and is copied verbatim into every message causally derived from it.

use vstd::prelude::*;
use vstd::string::StringExecFns;

use crate::text::dec_digits;
use crate::text::i64_dec_string;
use crate::text::spec_i64_dec;
use crate::text::u32_dec_string_pad4;
use crate::text::zero_pad4;
use crate::timing::PorDuration;
use crate::timing::UtcInstant;

verus! {

/// The deterministic textual form of an identifier: the origin node, the
/// whole seconds of its timestamp, and its sequence number zero-padded to at
/// least four digits, separated by dashes.
pub open spec fn canonical_view(r: RequestIdV) -> Seq<char> {
    r.origin_node + seq!['-'] + spec_i64_dec(r.timestamp.secs as int) + seq!['-'] + zero_pad4(
        dec_digits(r.sequence as nat),
    )
}

/// Mathematical model of a `RequestId`.
pub struct RequestIdV {
    pub origin_node: Seq<char>,
    pub timestamp: UtcInstant,
    pub sequence: u32,
}

impl RequestIdV {
    pub open spec fn wf(self) -> bool {
        self.timestamp.wf()
    }
}

/// Correlation identifier shared by a request/response pair and by every
/// accounting message derived from the same probe.
#[derive(Clone, Debug, PartialEq, Eq)]
pub struct RequestId {
    pub origin_node: String,
    pub timestamp: UtcInstant,
    pub sequence: u32,
}

impl View for RequestId {
    type V = RequestIdV;

    open spec fn view(&self) -> RequestIdV {
        RequestIdV {
            origin_node: self.origin_node@,
            timestamp: self.timestamp,
            sequence: self.sequence,
        }
    }
}

impl RequestId {
    /// A fresh identifier for a probe this node initiates; the timestamp is
    /// the current UTC time.
    pub fn new(origin_node: String, sequence: u32) -> (r: RequestId)
        ensures
            r@.origin_node == origin_node@,
            r@.sequence == sequence,
            r@.wf(),
    {
        RequestId { origin_node, timestamp: UtcInstant::now(), sequence }
    }

    /// The identifier's canonical text, used for logging and keying; it is
    /// the same however the message travelled.
    pub fn canonical_string(&self) -> (r: String)
        ensures
            r@ == canonical_view(self@),
    {
        let mut s = self.origin_node.clone();
        s.append("-");
        let secs_part = i64_dec_string(self.timestamp.secs);
        s.append(secs_part.as_str());
        s.append("-");
        let seq_part = u32_dec_string_pad4(self.sequence);
        s.append(seq_part.as_str());
        proof {
            reveal_strlit("-");
            assert("-"@ =~= seq!['-']);
            assert(s@ =~= canonical_view(self@));
        }
        s
    }
}

/// Model of a probe request.
pub struct RequestMessageV {
    pub request_id: RequestIdV,
    pub payload: Seq<char>,
    pub path: Seq<Seq<char>>,
    pub total_latency: PorDuration,
    pub total_cost: u64,
}

impl RequestMessageV {
    pub open spec fn wf(self) -> bool {
        self.request_id.wf() && self.total_latency.wf()
    }
}

/// A probe sent along a path; the path grows as the probe is forwarded.
#[derive(Clone, Debug, PartialEq, Eq)]
pub struct RequestMessage {
    pub request_id: RequestId,
    pub payload: String,
    pub path: Vec<String>,
    pub total_latency: PorDuration,
    pub total_cost: u64,
}

impl View for RequestMessage {
    type V = RequestMessageV;

    open spec fn view(&self) -> RequestMessageV {
        RequestMessageV {
            request_id: self.request_id@,
            payload: self.payload@,
            path: self.path.deep_view(),
            total_latency: self.total_latency,
            total_cost: self.total_cost,
        }
    }
}

/// Model of an answer to a probe.
pub struct ResponseMessageV {
    pub request_id: RequestIdV,
    pub payload: Seq<char>,
}

impl ResponseMessageV {
    pub open spec fn wf(self) -> bool {
        self.request_id.wf()
    }
}

/// The answer to a probe, correlated by its `RequestId`.
#[derive(Clone, Debug, PartialEq, Eq)]
pub struct ResponseMessage {
    pub request_id: RequestId,
    pub payload: String,
}

impl View for ResponseMessage {
    type V = ResponseMessageV;

    open spec fn view(&self) -> ResponseMessageV {
        ResponseMessageV { request_id: self.request_id@, payload: self.payload@ }
    }
}

/// Model of a partition signal.
pub struct EdgeCutMessageV {
    pub request_id: RequestIdV,
    pub node1: Seq<char>,
    pub node2: Seq<char>,
}

impl EdgeCutMessageV {
    pub open spec fn wf(self) -> bool {
        self.request_id.wf()
    }
}

/// Signals a detected broken edge between two named nodes.
#[derive(Clone, Debug, PartialEq, Eq)]
pub struct EdgeCutMessage {
    pub request_id: RequestId,
    pub node1: String,
    pub node2: String,
}

impl View for EdgeCutMessage {
    type V = EdgeCutMessageV;

    open spec fn view(&self) -> EdgeCutMessageV {
        EdgeCutMessageV {
            request_id: self.request_id@,
            node1: self.node1@,
            node2: self.node2@,
        }
    }
}

/// Model of a synchronization heartbeat.
pub struct SyncMessageV {
    pub request_id: RequestIdV,
    pub timestamp: UtcInstant,
    pub next_expected: UtcInstant,
    pub has_late_payment: bool,
}

impl SyncMessageV {
    pub open spec fn wf(self) -> bool {
        self.request_id.wf() && self.timestamp.wf() && self.next_expected.wf()
    }
}

/// Periodic synchronization heartbeat.
#[derive(Clone, Debug, PartialEq, Eq)]
pub struct SyncMessage {
    pub request_id: RequestId,
    pub timestamp: UtcInstant,
    pub next_expected: UtcInstant,
    pub has_late_payment: bool,
}

impl View for SyncMessage {
    type V = SyncMessageV;

    open spec fn view(&self) -> SyncMessageV {
        SyncMessageV {
            request_id: self.request_id@,
            timestamp: self.timestamp,
            next_expected: self.next_expected,
            has_late_payment: self.has_late_payment,
        }
    }
}

/// Model of an accounting update.
pub struct PaymentMessageV {
    pub request_id: RequestIdV,
    pub amount: u64,
    pub latency_so_far: PorDuration,
}

impl PaymentMessageV {
    pub open spec fn wf(self) -> bool {
        self.request_id.wf() && self.latency_so_far.wf()
    }
}

/// Accounting update tied to a probe.
#[derive(Clone, Debug, PartialEq, Eq)]
pub struct PaymentMessage {
    pub request_id: RequestId,
    pub amount: u64,
    pub latency_so_far: PorDuration,
}

impl View for PaymentMessage {
    type V = PaymentMessageV;

    open spec fn view(&self) -> PaymentMessageV {
        PaymentMessageV {
            request_id: self.request_id@,
            amount: self.amount,
            latency_so_far: self.latency_so_far,
        }
    }
}

/// Model of a bare acknowledgment.
pub struct AckMessageV {
    pub request_id: RequestIdV,
}

impl AckMessageV {
    pub open spec fn wf(self) -> bool {
        self.request_id.wf()
    }
}

/// Bare acknowledgment of a probe.
#[derive(Clone, Debug, PartialEq, Eq)]
pub struct AckMessage {
    pub request_id: RequestId,
}

impl View for AckMessage {
    type V = AckMessageV;

    open spec fn view(&self) -> AckMessageV {
        AckMessageV { request_id: self.request_id@ }
    }
}

/// Model of an identity announcement.
pub struct NodeIdMessageV {
    pub node_name: Seq<char>,
    pub node_version: u32,
}

impl NodeIdMessageV {
    pub open spec fn wf(self) -> bool {
        true
    }
}

/// Identity announcement; the one variant that carries no `RequestId`.
#[derive(Clone, Debug, PartialEq, Eq)]
pub struct NodeIdMessage {
    pub node_name: String,
    pub node_version: u32,
}

impl View for NodeIdMessage {
    type V = NodeIdMessageV;

    open spec fn view(&self) -> NodeIdMessageV {
        NodeIdMessageV { node_name: self.node_name@, node_version: self.node_version }
    }
}

/// Model of the envelope: a tagged union over exactly the seven variants.
pub enum PorMessageV {
    Request(RequestMessageV),
    Response(ResponseMessageV),
    EdgeCut(EdgeCutMessageV),
    Sync(SyncMessageV),
    Payment(PaymentMessageV),
    Ack(AckMessageV),
    NodeId(NodeIdMessageV),
}

impl PorMessageV {
    pub open spec fn wf(self) -> bool {
        match self {
            PorMessageV::Request(m) => m.wf(),
            PorMessageV::Response(m) => m.wf(),
            PorMessageV::EdgeCut(m) => m.wf(),
            PorMessageV::Sync(m) => m.wf(),
            PorMessageV::Payment(m) => m.wf(),
            PorMessageV::Ack(m) => m.wf(),
            PorMessageV::NodeId(m) => m.wf(),
        }
    }
}

/// The envelope sent between peers: exactly one of the seven variants.
#[derive(Clone, Debug, PartialEq, Eq)]
pub enum PorMessage {
    Request(RequestMessage),
    Response(ResponseMessage),
    EdgeCut(EdgeCutMessage),
    Sync(SyncMessage),
    Payment(PaymentMessage),
    Ack(AckMessage),
    NodeId(NodeIdMessage),
}

impl View for PorMessage {
    type V = PorMessageV;

    open spec fn view(&self) -> PorMessageV {
        match self {
            PorMessage::Request(m) => PorMessageV::Request(m@),
            PorMessage::Response(m) => PorMessageV::Response(m@),
            PorMessage::EdgeCut(m) => PorMessageV::EdgeCut(m@),
            PorMessage::Sync(m) => PorMessageV::Sync(m@),
            PorMessage::Payment(m) => PorMessageV::Payment(m@),
            PorMessage::Ack(m) => PorMessageV::Ack(m@),
            PorMessage::NodeId(m) => PorMessageV::NodeId(m@),
        }
    }
}

/// Duplicate an ordered list of node identifiers, keeping its contents.
pub fn clone_string_vec(v: &Vec<String>) -> (r: Vec<String>)
    ensures
        r.deep_view() == v.deep_view(),
{
    let r = v.clone();
    proof {
        assert forall|i: int| 0 <= i < r.deep_view().len() implies r.deep_view()[i]
            == v.deep_view()[i] by {
            assert(cloned::<String>(v[i], r[i]));
        }
        assert(r.deep_view() =~= v.deep_view());
    }
    r
}

/// A bare probe request: the degenerate echo-only protocol.
#[derive(Clone, Debug, PartialEq, Eq)]
pub struct PoRRequest {
    pub payload: Vec<u8>,
}

impl View for PoRRequest {
    type V = Seq<u8>;

    open spec fn view(&self) -> Seq<u8> {
        self.payload@
    }
}

/// A bare probe response: the degenerate echo-only protocol.
#[derive(Clone, Debug, PartialEq, Eq)]
pub struct PoRResponse {
    pub payload: Vec<u8>,
}

impl View for PoRResponse {
    type V = Seq<u8>;

    open spec fn view(&self) -> Seq<u8> {
        self.payload@
    }
}

} // verus!
