//! The schema'd interchange form of the protocol.
//!
//! On this channel every field is optional at the wire level, for forward and
//! backward compatibility, and becomes mandatory at the typed-model level:
//! decoding validates, per variant, that each required sub-message is present
//! and well formed, and reports the offending field through a hierarchical
//! error taxonomy.  Timestamps travel as seconds plus nanoseconds; durations
//! travel as whole milliseconds, an accepted precision floor.

use vstd::prelude::*;

use crate::messages::AckMessage;
use crate::messages::AckMessageV;
use crate::messages::EdgeCutMessage;
use crate::messages::EdgeCutMessageV;
use crate::messages::NodeIdMessage;
use crate::messages::NodeIdMessageV;
use crate::messages::PaymentMessage;
use crate::messages::PaymentMessageV;
use crate::messages::PorMessage;
use crate::messages::PorMessageV;
use crate::messages::clone_string_vec;
use crate::messages::RequestId;
use crate::messages::RequestIdV;
use crate::messages::RequestMessage;
use crate::messages::RequestMessageV;
use crate::messages::ResponseMessage;
use crate::messages::ResponseMessageV;
use crate::messages::SyncMessage;
use crate::messages::SyncMessageV;
use crate::timing::spec_millis_to_duration;
use crate::timing::PorDuration;
use crate::timing::millis_to_duration;
use crate::timing::duration_to_millis;
use crate::timing::UtcInstant;

verus! {

// ---------------------------------------------------------------------------
// Error taxonomy
// ---------------------------------------------------------------------------

/// A wire field that is mandatory at the typed-model level was absent, or its
/// value could not be converted.
#[derive(Clone, Debug, PartialEq, Eq)]
pub enum ParseRequiredError<E> {
    Missing,
    Other(E),
}

/// A wire timestamp whose subsecond count does not fit below one second.
#[derive(Clone, Debug, PartialEq, Eq)]
pub enum ParseTimestampError {
    OutOfRange,
}

/// Failure to parse an embedded `RequestId` sub-message.
#[derive(Clone, Debug, PartialEq, Eq)]
pub enum ParseProofOfResponseError {
    Timestamp(ParseRequiredError<ParseTimestampError>),
}

#[derive(Clone, Debug, PartialEq, Eq)]
pub enum ParseRequestMessageError {
    RequestId(ParseRequiredError<ParseProofOfResponseError>),
}

#[derive(Clone, Debug, PartialEq, Eq)]
pub enum ParseResponseMessageError {
    RequestId(ParseRequiredError<ParseProofOfResponseError>),
}

#[derive(Clone, Debug, PartialEq, Eq)]
pub enum ParseEdgeCutMessageError {
    RequestId(ParseRequiredError<ParseProofOfResponseError>),
}

#[derive(Clone, Debug, PartialEq, Eq)]
pub enum ParseSyncMessageError {
    RequestId(ParseRequiredError<ParseProofOfResponseError>),
    Timestamp(ParseRequiredError<ParseTimestampError>),
    NextExpected(ParseRequiredError<ParseTimestampError>),
}

#[derive(Clone, Debug, PartialEq, Eq)]
pub enum ParsePaymentMessageError {
    RequestId(ParseRequiredError<ParseProofOfResponseError>),
}

#[derive(Clone, Debug, PartialEq, Eq)]
pub enum ParseAckMessageError {
    RequestId(ParseRequiredError<ParseProofOfResponseError>),
}

/// The identity announcement has no required sub-message, so nothing can
/// fail; the type exists to keep the taxonomy uniform and its one variant is
/// never produced.
#[derive(Clone, Debug, PartialEq, Eq)]
pub enum ParseNodeIdMessageError {
    Infallible,
}

/// Failure to parse the outer envelope: either no variant field is populated
/// at all, or the populated variant fails its own validation.
#[derive(Clone, Debug, PartialEq, Eq)]
pub enum ParsePorMessageError {
    NoResponseType,
    Request(ParseRequestMessageError),
    Response(ParseResponseMessageError),
    EdgeCut(ParseEdgeCutMessageError),
    Sync(ParseSyncMessageError),
    Payment(ParsePaymentMessageError),
    Ack(ParseAckMessageError),
    NodeId(ParseNodeIdMessageError),
}

// ---------------------------------------------------------------------------
// Wire model: every field a peer may omit is an Option
// ---------------------------------------------------------------------------

/// A wire timestamp: seconds since the Unix epoch plus nanoseconds.
#[derive(Clone, Copy, Debug, PartialEq, Eq, Structural)]
pub struct WireTimestamp {
    pub seconds: i64,
    pub nanos: i32,
}

/// The `RequestId` sub-message as it travels on the schema'd channel.
#[derive(Clone, Debug, PartialEq, Eq)]
pub struct WireRequestId {
    pub origin_node: String,
    pub timestamp: Option<WireTimestamp>,
    pub sequence: u32,
}

// ---------------------------------------------------------------------------
// RequestId conversions
// ---------------------------------------------------------------------------

/// The wire timestamp converts to a typed instant exactly when its subsecond
/// count lies below one second.
pub open spec fn wire_timestamp_valid(ts: WireTimestamp) -> bool {
    0 <= ts.nanos < 1_000_000_000
}

/// The typed instant a valid wire timestamp stands for.
pub open spec fn parsed_timestamp(ts: WireTimestamp) -> UtcInstant
    recommends
        wire_timestamp_valid(ts),
{
    UtcInstant { secs: ts.seconds, nanos: ts.nanos as u32 }
}

/// The wire form of a typed instant.
pub open spec fn wire_of_timestamp(i: UtcInstant) -> WireTimestamp {
    WireTimestamp { seconds: i.secs, nanos: i.nanos as i32 }
}

/// A wire `RequestId` parses exactly when its timestamp is present and valid.
pub open spec fn wire_request_id_valid(w: WireRequestId) -> bool {
    w.timestamp matches Some(ts) && wire_timestamp_valid(ts)
}

/// The typed identifier a valid wire `RequestId` stands for.
pub open spec fn parsed_request_id(w: WireRequestId) -> RequestIdV
    recommends
        wire_request_id_valid(w),
{
    RequestIdV {
        origin_node: w.origin_node@,
        timestamp: parsed_timestamp(w.timestamp->Some_0),
        sequence: w.sequence,
    }
}

/// The precise error an invalid wire `RequestId` is rejected with.
pub open spec fn request_id_parse_error(w: WireRequestId) -> ParseProofOfResponseError
    recommends
        !wire_request_id_valid(w),
{
    match w.timestamp {
        None => ParseProofOfResponseError::Timestamp(ParseRequiredError::Missing),
        Some(_) => ParseProofOfResponseError::Timestamp(
            ParseRequiredError::Other(ParseTimestampError::OutOfRange),
        ),
    }
}

impl WireRequestId {
    /// Encode a typed identifier; every sub-field is populated.
    pub fn from(x: &RequestId) -> (r: WireRequestId)
        requires
            x@.wf(),
        ensures
            r.origin_node@ == x@.origin_node,
            r.timestamp == Some(wire_of_timestamp(x.timestamp)),
            r.sequence == x@.sequence,
            wire_request_id_valid(r),
            parsed_request_id(r) == x@,
    {
        WireRequestId {
            origin_node: x.origin_node.clone(),
            timestamp: Some(WireTimestamp { seconds: x.timestamp.secs, nanos: x.timestamp.nanos as i32 }),
            sequence: x.sequence,
        }
    }
}

impl RequestId {
    /// Decode the embedded identifier, validating its required timestamp.
    pub fn try_from(x: &WireRequestId) -> (r: Result<RequestId, ParseProofOfResponseError>)
        ensures
            match r {
                Ok(id) => wire_request_id_valid(*x) && id@ == parsed_request_id(*x),
                Err(e) => !wire_request_id_valid(*x) && e == request_id_parse_error(*x),
            },
    {
        match &x.timestamp {
            None => Err(ParseProofOfResponseError::Timestamp(ParseRequiredError::Missing)),
            Some(ts) => {
                if ts.nanos < 0 || ts.nanos >= 1_000_000_000 {
                    Err(ParseProofOfResponseError::Timestamp(
                        ParseRequiredError::Other(ParseTimestampError::OutOfRange),
                    ))
                } else {
                    Ok(RequestId {
                        origin_node: x.origin_node.clone(),
                        timestamp: UtcInstant { secs: ts.seconds, nanos: ts.nanos as u32 },
                        sequence: x.sequence,
                    })
                }
            },
        }
    }
}

// ---------------------------------------------------------------------------
// Variant wire messages
// ---------------------------------------------------------------------------

/// The probe request as it travels on the schema'd channel.
#[derive(Clone, Debug, PartialEq, Eq)]
pub struct WireRequest {
    pub request_id: Option<WireRequestId>,
    pub payload: String,
    pub path: Vec<String>,
    pub total_latency_ms: u64,
    pub total_cost: u64,
}

/// The probe response as it travels on the schema'd channel.
#[derive(Clone, Debug, PartialEq, Eq)]
pub struct WireResponse {
    pub request_id: Option<WireRequestId>,
    pub payload: String,
}

/// The partition signal as it travels on the schema'd channel.
#[derive(Clone, Debug, PartialEq, Eq)]
pub struct WireEdgeCut {
    pub request_id: Option<WireRequestId>,
    pub node1: String,
    pub node2: String,
}

/// The synchronization heartbeat as it travels on the schema'd channel.
#[derive(Clone, Debug, PartialEq, Eq)]
pub struct WireSync {
    pub request_id: Option<WireRequestId>,
    pub timestamp: Option<WireTimestamp>,
    pub next_expected: Option<WireTimestamp>,
    pub has_late_payment: bool,
}

/// The accounting update as it travels on the schema'd channel.
#[derive(Clone, Debug, PartialEq, Eq)]
pub struct WirePayment {
    pub request_id: Option<WireRequestId>,
    pub amount: u64,
    pub latency_so_far_ms: u64,
}

/// The bare acknowledgment as it travels on the schema'd channel.
#[derive(Clone, Debug, PartialEq, Eq)]
pub struct WireAck {
    pub request_id: Option<WireRequestId>,
}

/// The identity announcement as it travels on the schema'd channel.
#[derive(Clone, Debug, PartialEq, Eq)]
pub struct WireNodeId {
    pub node_name: String,
    pub node_version: u32,
}

/// The outer envelope: at most one populated variant field.
#[derive(Clone, Debug, PartialEq, Eq)]
pub enum WireResponseType {
    Request(WireRequest),
    Response(WireResponse),
    EdgeCut(WireEdgeCut),
    Sync(WireSync),
    Payment(WirePayment),
    Ack(WireAck),
    NodeId(WireNodeId),
}

/// The envelope of the schema'd channel; an empty one is rejected on decode,
/// never defaulted.
#[derive(Clone, Debug, PartialEq, Eq)]
pub struct WirePorMessage {
    pub response_type: Option<WireResponseType>,
}

// ---------------------------------------------------------------------------
// Required-field validation, variant by variant
// ---------------------------------------------------------------------------

/// How a missing or invalid embedded `RequestId` is reported.
pub open spec fn required_request_id_error(rid: Option<WireRequestId>) -> ParseRequiredError<
    ParseProofOfResponseError,
>
    recommends
        !(rid matches Some(w) && wire_request_id_valid(w)),
{
    match rid {
        None => ParseRequiredError::Missing,
        Some(w) => ParseRequiredError::Other(request_id_parse_error(w)),
    }
}

/// How a missing or invalid required timestamp field is reported.
pub open spec fn required_timestamp_error(ts: Option<WireTimestamp>) -> ParseRequiredError<
    ParseTimestampError,
>
    recommends
        !(ts matches Some(t) && wire_timestamp_valid(t)),
{
    match ts {
        None => ParseRequiredError::Missing,
        Some(_) => ParseRequiredError::Other(ParseTimestampError::OutOfRange),
    }
}

pub open spec fn wire_request_valid(w: WireRequest) -> bool {
    w.request_id matches Some(rid) && wire_request_id_valid(rid)
}

pub open spec fn parsed_request(w: WireRequest) -> RequestMessageV
    recommends
        wire_request_valid(w),
{
    RequestMessageV {
        request_id: parsed_request_id(w.request_id->Some_0),
        payload: w.payload@,
        path: w.path.deep_view(),
        total_latency: spec_millis_to_duration(w.total_latency_ms),
        total_cost: w.total_cost,
    }
}

pub open spec fn request_parse_error(w: WireRequest) -> ParseRequestMessageError
    recommends
        !wire_request_valid(w),
{
    ParseRequestMessageError::RequestId(required_request_id_error(w.request_id))
}

pub open spec fn wire_response_valid(w: WireResponse) -> bool {
    w.request_id matches Some(rid) && wire_request_id_valid(rid)
}

pub open spec fn parsed_response(w: WireResponse) -> ResponseMessageV
    recommends
        wire_response_valid(w),
{
    ResponseMessageV {
        request_id: parsed_request_id(w.request_id->Some_0),
        payload: w.payload@,
    }
}

pub open spec fn response_parse_error(w: WireResponse) -> ParseResponseMessageError
    recommends
        !wire_response_valid(w),
{
    ParseResponseMessageError::RequestId(required_request_id_error(w.request_id))
}

pub open spec fn wire_edge_cut_valid(w: WireEdgeCut) -> bool {
    w.request_id matches Some(rid) && wire_request_id_valid(rid)
}

pub open spec fn parsed_edge_cut(w: WireEdgeCut) -> EdgeCutMessageV
    recommends
        wire_edge_cut_valid(w),
{
    EdgeCutMessageV {
        request_id: parsed_request_id(w.request_id->Some_0),
        node1: w.node1@,
        node2: w.node2@,
    }
}

pub open spec fn edge_cut_parse_error(w: WireEdgeCut) -> ParseEdgeCutMessageError
    recommends
        !wire_edge_cut_valid(w),
{
    ParseEdgeCutMessageError::RequestId(required_request_id_error(w.request_id))
}

pub open spec fn wire_sync_valid(w: WireSync) -> bool {
    &&& w.request_id matches Some(rid) && wire_request_id_valid(rid)
    &&& w.timestamp matches Some(ts) && wire_timestamp_valid(ts)
    &&& w.next_expected matches Some(ne) && wire_timestamp_valid(ne)
}

pub open spec fn parsed_sync(w: WireSync) -> SyncMessageV
    recommends
        wire_sync_valid(w),
{
    SyncMessageV {
        request_id: parsed_request_id(w.request_id->Some_0),
        timestamp: parsed_timestamp(w.timestamp->Some_0),
        next_expected: parsed_timestamp(w.next_expected->Some_0),
        has_late_payment: w.has_late_payment,
    }
}

/// The offending field is reported in the order the fields are validated:
/// the embedded identifier, then the heartbeat's own timestamp, then the
/// expected time of the next heartbeat.
pub open spec fn sync_parse_error(w: WireSync) -> ParseSyncMessageError
    recommends
        !wire_sync_valid(w),
{
    if !(w.request_id matches Some(rid) && wire_request_id_valid(rid)) {
        ParseSyncMessageError::RequestId(required_request_id_error(w.request_id))
    } else if !(w.timestamp matches Some(ts) && wire_timestamp_valid(ts)) {
        ParseSyncMessageError::Timestamp(required_timestamp_error(w.timestamp))
    } else {
        ParseSyncMessageError::NextExpected(required_timestamp_error(w.next_expected))
    }
}

pub open spec fn wire_payment_valid(w: WirePayment) -> bool {
    w.request_id matches Some(rid) && wire_request_id_valid(rid)
}

pub open spec fn parsed_payment(w: WirePayment) -> PaymentMessageV
    recommends
        wire_payment_valid(w),
{
    PaymentMessageV {
        request_id: parsed_request_id(w.request_id->Some_0),
        amount: w.amount,
        latency_so_far: spec_millis_to_duration(w.latency_so_far_ms),
    }
}

pub open spec fn payment_parse_error(w: WirePayment) -> ParsePaymentMessageError
    recommends
        !wire_payment_valid(w),
{
    ParsePaymentMessageError::RequestId(required_request_id_error(w.request_id))
}

pub open spec fn wire_ack_valid(w: WireAck) -> bool {
    w.request_id matches Some(rid) && wire_request_id_valid(rid)
}

pub open spec fn parsed_ack(w: WireAck) -> AckMessageV
    recommends
        wire_ack_valid(w),
{
    AckMessageV { request_id: parsed_request_id(w.request_id->Some_0) }
}

pub open spec fn ack_parse_error(w: WireAck) -> ParseAckMessageError
    recommends
        !wire_ack_valid(w),
{
    ParseAckMessageError::RequestId(required_request_id_error(w.request_id))
}

pub open spec fn parsed_node_id(w: WireNodeId) -> NodeIdMessageV {
    NodeIdMessageV { node_name: w.node_name@, node_version: w.node_version }
}

// ---------------------------------------------------------------------------
// Variant conversions
// ---------------------------------------------------------------------------

impl WireRequest {
    pub fn from(x: &RequestMessage) -> (r: WireRequest)
        requires
            x@.wf(),
        ensures
            r.request_id matches Some(rid) && wire_request_id_valid(rid) && parsed_request_id(rid)
                == x@.request_id,
            r.payload@ == x@.payload,
            r.path.deep_view() == x@.path,
            r.total_latency_ms == x.total_latency.spec_as_millis() % 0x1_0000_0000_0000_0000,
            r.total_cost == x@.total_cost,
    {
        WireRequest {
            request_id: Some(WireRequestId::from(&x.request_id)),
            payload: x.payload.clone(),
            path: clone_string_vec(&x.path),
            total_latency_ms: duration_to_millis(x.total_latency),
            total_cost: x.total_cost,
        }
    }
}

impl RequestMessage {
    pub fn try_from(x: &WireRequest) -> (r: Result<RequestMessage, ParseRequestMessageError>)
        ensures
            match r {
                Ok(m) => wire_request_valid(*x) && m@ == parsed_request(*x),
                Err(e) => !wire_request_valid(*x) && e == request_parse_error(*x),
            },
    {
        match &x.request_id {
            None => Err(ParseRequestMessageError::RequestId(ParseRequiredError::Missing)),
            Some(rid) => match RequestId::try_from(rid) {
                Err(e) => Err(ParseRequestMessageError::RequestId(ParseRequiredError::Other(e))),
                Ok(request_id) => Ok(RequestMessage {
                    request_id,
                    payload: x.payload.clone(),
                    path: clone_string_vec(&x.path),
                    total_latency: millis_to_duration(x.total_latency_ms),
                    total_cost: x.total_cost,
                }),
            },
        }
    }
}

impl WireResponse {
    pub fn from(x: &ResponseMessage) -> (r: WireResponse)
        requires
            x@.wf(),
        ensures
            r.request_id matches Some(rid) && wire_request_id_valid(rid) && parsed_request_id(rid)
                == x@.request_id,
            r.payload@ == x@.payload,
            wire_response_valid(r) && parsed_response(r) == x@,
    {
        WireResponse {
            request_id: Some(WireRequestId::from(&x.request_id)),
            payload: x.payload.clone(),
        }
    }
}

impl ResponseMessage {
    pub fn try_from(x: &WireResponse) -> (r: Result<ResponseMessage, ParseResponseMessageError>)
        ensures
            match r {
                Ok(m) => wire_response_valid(*x) && m@ == parsed_response(*x),
                Err(e) => !wire_response_valid(*x) && e == response_parse_error(*x),
            },
    {
        match &x.request_id {
            None => Err(ParseResponseMessageError::RequestId(ParseRequiredError::Missing)),
            Some(rid) => match RequestId::try_from(rid) {
                Err(e) => Err(ParseResponseMessageError::RequestId(ParseRequiredError::Other(e))),
                Ok(request_id) => Ok(ResponseMessage { request_id, payload: x.payload.clone() }),
            },
        }
    }
}

impl WireEdgeCut {
    pub fn from(x: &EdgeCutMessage) -> (r: WireEdgeCut)
        requires
            x@.wf(),
        ensures
            wire_edge_cut_valid(r) && parsed_edge_cut(r) == x@,
    {
        WireEdgeCut {
            request_id: Some(WireRequestId::from(&x.request_id)),
            node1: x.node1.clone(),
            node2: x.node2.clone(),
        }
    }
}

impl EdgeCutMessage {
    pub fn try_from(x: &WireEdgeCut) -> (r: Result<EdgeCutMessage, ParseEdgeCutMessageError>)
        ensures
            match r {
                Ok(m) => wire_edge_cut_valid(*x) && m@ == parsed_edge_cut(*x),
                Err(e) => !wire_edge_cut_valid(*x) && e == edge_cut_parse_error(*x),
            },
    {
        match &x.request_id {
            None => Err(ParseEdgeCutMessageError::RequestId(ParseRequiredError::Missing)),
            Some(rid) => match RequestId::try_from(rid) {
                Err(e) => Err(ParseEdgeCutMessageError::RequestId(ParseRequiredError::Other(e))),
                Ok(request_id) => Ok(EdgeCutMessage {
                    request_id,
                    node1: x.node1.clone(),
                    node2: x.node2.clone(),
                }),
            },
        }
    }
}

impl WireSync {
    pub fn from(x: &SyncMessage) -> (r: WireSync)
        requires
            x@.wf(),
        ensures
            wire_sync_valid(r) && parsed_sync(r) == x@,
    {
        WireSync {
            request_id: Some(WireRequestId::from(&x.request_id)),
            timestamp: Some(WireTimestamp {
                seconds: x.timestamp.secs,
                nanos: x.timestamp.nanos as i32,
            }),
            next_expected: Some(WireTimestamp {
                seconds: x.next_expected.secs,
                nanos: x.next_expected.nanos as i32,
            }),
            has_late_payment: x.has_late_payment,
        }
    }
}

impl SyncMessage {
    pub fn try_from(x: &WireSync) -> (r: Result<SyncMessage, ParseSyncMessageError>)
        ensures
            match r {
                Ok(m) => wire_sync_valid(*x) && m@ == parsed_sync(*x),
                Err(e) => !wire_sync_valid(*x) && e == sync_parse_error(*x),
            },
    {
        let request_id = match &x.request_id {
            None => {
                return Err(ParseSyncMessageError::RequestId(ParseRequiredError::Missing));
            },
            Some(rid) => match RequestId::try_from(rid) {
                Err(e) => {
                    return Err(ParseSyncMessageError::RequestId(ParseRequiredError::Other(e)));
                },
                Ok(request_id) => request_id,
            },
        };
        let timestamp = match parse_required_timestamp(&x.timestamp) {
            Err(e) => {
                return Err(ParseSyncMessageError::Timestamp(e));
            },
            Ok(t) => t,
        };
        let next_expected = match parse_required_timestamp(&x.next_expected) {
            Err(e) => {
                return Err(ParseSyncMessageError::NextExpected(e));
            },
            Ok(t) => t,
        };
        Ok(SyncMessage { request_id, timestamp, next_expected, has_late_payment: x.has_late_payment })
    }
}

/// Validate one required timestamp field of the heartbeat.
fn parse_required_timestamp(ts: &Option<WireTimestamp>) -> (r: Result<
    UtcInstant,
    ParseRequiredError<ParseTimestampError>,
>)
    ensures
        match r {
            Ok(t) => *ts matches Some(w) && wire_timestamp_valid(w) && t == parsed_timestamp(w),
            Err(e) => !(*ts matches Some(w) && wire_timestamp_valid(w)) && e
                == required_timestamp_error(*ts),
        },
{
    match ts {
        None => Err(ParseRequiredError::Missing),
        Some(w) => {
            if w.nanos < 0 || w.nanos >= 1_000_000_000 {
                Err(ParseRequiredError::Other(ParseTimestampError::OutOfRange))
            } else {
                Ok(UtcInstant { secs: w.seconds, nanos: w.nanos as u32 })
            }
        },
    }
}

impl WirePayment {
    pub fn from(x: &PaymentMessage) -> (r: WirePayment)
        requires
            x@.wf(),
        ensures
            wire_payment_valid(r),
            r.amount == x@.amount,
            r.latency_so_far_ms == x.latency_so_far.spec_as_millis() % 0x1_0000_0000_0000_0000,
            parsed_payment(r).request_id == x@.request_id,
    {
        WirePayment {
            request_id: Some(WireRequestId::from(&x.request_id)),
            amount: x.amount,
            latency_so_far_ms: duration_to_millis(x.latency_so_far),
        }
    }
}

impl PaymentMessage {
    pub fn try_from(x: &WirePayment) -> (r: Result<PaymentMessage, ParsePaymentMessageError>)
        ensures
            match r {
                Ok(m) => wire_payment_valid(*x) && m@ == parsed_payment(*x),
                Err(e) => !wire_payment_valid(*x) && e == payment_parse_error(*x),
            },
    {
        match &x.request_id {
            None => Err(ParsePaymentMessageError::RequestId(ParseRequiredError::Missing)),
            Some(rid) => match RequestId::try_from(rid) {
                Err(e) => Err(ParsePaymentMessageError::RequestId(ParseRequiredError::Other(e))),
                Ok(request_id) => Ok(PaymentMessage {
                    request_id,
                    amount: x.amount,
                    latency_so_far: millis_to_duration(x.latency_so_far_ms),
                }),
            },
        }
    }
}

impl WireAck {
    pub fn from(x: &AckMessage) -> (r: WireAck)
        requires
            x@.wf(),
        ensures
            wire_ack_valid(r) && parsed_ack(r) == x@,
    {
        WireAck { request_id: Some(WireRequestId::from(&x.request_id)) }
    }
}

impl AckMessage {
    pub fn try_from(x: &WireAck) -> (r: Result<AckMessage, ParseAckMessageError>)
        ensures
            match r {
                Ok(m) => wire_ack_valid(*x) && m@ == parsed_ack(*x),
                Err(e) => !wire_ack_valid(*x) && e == ack_parse_error(*x),
            },
    {
        match &x.request_id {
            None => Err(ParseAckMessageError::RequestId(ParseRequiredError::Missing)),
            Some(rid) => match RequestId::try_from(rid) {
                Err(e) => Err(ParseAckMessageError::RequestId(ParseRequiredError::Other(e))),
                Ok(request_id) => Ok(AckMessage { request_id }),
            },
        }
    }
}

impl WireNodeId {
    pub fn from(x: &NodeIdMessage) -> (r: WireNodeId)
        ensures
            parsed_node_id(r) == x@,
    {
        WireNodeId { node_name: x.node_name.clone(), node_version: x.node_version }
    }
}

impl NodeIdMessage {
    /// The identity announcement has no required sub-message; decoding
    /// cannot fail.
    pub fn try_from(x: &WireNodeId) -> (r: Result<NodeIdMessage, ParseNodeIdMessageError>)
        ensures
            r matches Ok(m) && m@ == parsed_node_id(*x),
    {
        Ok(NodeIdMessage { node_name: x.node_name.clone(), node_version: x.node_version })
    }
}

// ---------------------------------------------------------------------------
// Envelope conversions
// ---------------------------------------------------------------------------

/// An envelope parses exactly when one variant field is populated and that
/// variant passes its own validation.
pub open spec fn wire_envelope_valid(x: WirePorMessage) -> bool {
    match x.response_type {
        None => false,
        Some(WireResponseType::Request(w)) => wire_request_valid(w),
        Some(WireResponseType::Response(w)) => wire_response_valid(w),
        Some(WireResponseType::EdgeCut(w)) => wire_edge_cut_valid(w),
        Some(WireResponseType::Sync(w)) => wire_sync_valid(w),
        Some(WireResponseType::Payment(w)) => wire_payment_valid(w),
        Some(WireResponseType::Ack(w)) => wire_ack_valid(w),
        Some(WireResponseType::NodeId(_)) => true,
    }
}

/// The typed message a valid envelope stands for.
pub open spec fn parsed_envelope(x: WirePorMessage) -> PorMessageV
    recommends
        wire_envelope_valid(x),
{
    match x.response_type {
        None => PorMessageV::Ack((AckMessageV {
            request_id: (RequestIdV {
                origin_node: Seq::empty(),
                timestamp: (UtcInstant { secs: 0, nanos: 0 }),
                sequence: 0,
            }),
        })),  // unreachable under the recommends
        Some(WireResponseType::Request(w)) => PorMessageV::Request(parsed_request(w)),
        Some(WireResponseType::Response(w)) => PorMessageV::Response(parsed_response(w)),
        Some(WireResponseType::EdgeCut(w)) => PorMessageV::EdgeCut(parsed_edge_cut(w)),
        Some(WireResponseType::Sync(w)) => PorMessageV::Sync(parsed_sync(w)),
        Some(WireResponseType::Payment(w)) => PorMessageV::Payment(parsed_payment(w)),
        Some(WireResponseType::Ack(w)) => PorMessageV::Ack(parsed_ack(w)),
        Some(WireResponseType::NodeId(w)) => PorMessageV::NodeId(parsed_node_id(w)),
    }
}

/// The precise error an invalid envelope is rejected with: an empty envelope
/// is `NoResponseType`, and a populated variant wraps its own error.
pub open spec fn envelope_parse_error(x: WirePorMessage) -> ParsePorMessageError
    recommends
        !wire_envelope_valid(x),
{
    match x.response_type {
        None => ParsePorMessageError::NoResponseType,
        Some(WireResponseType::Request(w)) => ParsePorMessageError::Request(
            request_parse_error(w),
        ),
        Some(WireResponseType::Response(w)) => ParsePorMessageError::Response(
            response_parse_error(w),
        ),
        Some(WireResponseType::EdgeCut(w)) => ParsePorMessageError::EdgeCut(
            edge_cut_parse_error(w),
        ),
        Some(WireResponseType::Sync(w)) => ParsePorMessageError::Sync(sync_parse_error(w)),
        Some(WireResponseType::Payment(w)) => ParsePorMessageError::Payment(
            payment_parse_error(w),
        ),
        Some(WireResponseType::Ack(w)) => ParsePorMessageError::Ack(ack_parse_error(w)),
        // unreachable under the recommends: the announcement always parses
        Some(WireResponseType::NodeId(_)) => ParsePorMessageError::NoResponseType,
    }
}

/// A duration after one pass over the schema'd channel: milliseconds keep
/// their value (up to the 64-bit width of the wire field) and anything below
/// one millisecond is dropped.
pub open spec fn floored_duration(d: PorDuration) -> PorDuration {
    spec_millis_to_duration((d.spec_as_millis() % 0x1_0000_0000_0000_0000) as u64)
}

/// What one encode/decode pass over the schema'd channel preserves of a
/// message: everything, except that each duration is floored to whole
/// milliseconds.
pub open spec fn schema_floor(m: PorMessageV) -> PorMessageV {
    match m {
        PorMessageV::Request(v) => PorMessageV::Request(RequestMessageV {
            request_id: v.request_id,
            payload: v.payload,
            path: v.path,
            total_latency: floored_duration(v.total_latency),
            total_cost: v.total_cost,
        }),
        PorMessageV::Payment(v) => PorMessageV::Payment(PaymentMessageV {
            request_id: v.request_id,
            amount: v.amount,
            latency_so_far: floored_duration(v.latency_so_far),
        }),
        other => other,
    }
}

impl WirePorMessage {
    /// Encode a typed message; exactly one variant field is populated, and
    /// decoding the result gives the message back with its durations floored
    /// to whole milliseconds.
    pub fn from(x: &PorMessage) -> (r: WirePorMessage)
        requires
            x@.wf(),
        ensures
            wire_envelope_valid(r),
            parsed_envelope(r) == schema_floor(x@),
            r.response_type is Some,
    {
        let response_type = match x {
            PorMessage::Request(m) => WireResponseType::Request(WireRequest::from(m)),
            PorMessage::Response(m) => WireResponseType::Response(WireResponse::from(m)),
            PorMessage::EdgeCut(m) => WireResponseType::EdgeCut(WireEdgeCut::from(m)),
            PorMessage::Sync(m) => WireResponseType::Sync(WireSync::from(m)),
            PorMessage::Payment(m) => WireResponseType::Payment(WirePayment::from(m)),
            PorMessage::Ack(m) => WireResponseType::Ack(WireAck::from(m)),
            PorMessage::NodeId(m) => WireResponseType::NodeId(WireNodeId::from(m)),
        };
        WirePorMessage { response_type: Some(response_type) }
    }
}

impl PorMessage {
    /// Decode the schema'd envelope, enforcing the per-variant required
    /// fields; an empty envelope is rejected as `NoResponseType`, never
    /// defaulted to a variant.
    pub fn try_from(x: &WirePorMessage) -> (r: Result<PorMessage, ParsePorMessageError>)
        ensures
            match r {
                Ok(m) => wire_envelope_valid(*x) && m@ == parsed_envelope(*x),
                Err(e) => !wire_envelope_valid(*x) && e == envelope_parse_error(*x),
            },
            x.response_type is None ==> r == Err::<PorMessage, ParsePorMessageError>(
                ParsePorMessageError::NoResponseType,
            ),
    {
        match &x.response_type {
            None => Err(ParsePorMessageError::NoResponseType),
            Some(WireResponseType::Request(w)) => match RequestMessage::try_from(w) {
                Ok(m) => Ok(PorMessage::Request(m)),
                Err(e) => Err(ParsePorMessageError::Request(e)),
            },
            Some(WireResponseType::Response(w)) => match ResponseMessage::try_from(w) {
                Ok(m) => Ok(PorMessage::Response(m)),
                Err(e) => Err(ParsePorMessageError::Response(e)),
            },
            Some(WireResponseType::EdgeCut(w)) => match EdgeCutMessage::try_from(w) {
                Ok(m) => Ok(PorMessage::EdgeCut(m)),
                Err(e) => Err(ParsePorMessageError::EdgeCut(e)),
            },
            Some(WireResponseType::Sync(w)) => match SyncMessage::try_from(w) {
                Ok(m) => Ok(PorMessage::Sync(m)),
                Err(e) => Err(ParsePorMessageError::Sync(e)),
            },
            Some(WireResponseType::Payment(w)) => match PaymentMessage::try_from(w) {
                Ok(m) => Ok(PorMessage::Payment(m)),
                Err(e) => Err(ParsePorMessageError::Payment(e)),
            },
            Some(WireResponseType::Ack(w)) => match AckMessage::try_from(w) {
                Ok(m) => Ok(PorMessage::Ack(m)),
                Err(e) => Err(ParsePorMessageError::Ack(e)),
            },
            Some(WireResponseType::NodeId(w)) => match NodeIdMessage::try_from(w) {
                Ok(m) => Ok(PorMessage::NodeId(m)),
                Err(e) => Err(ParsePorMessageError::NodeId(e)),
            },
        }
    }
}

} // verus!
