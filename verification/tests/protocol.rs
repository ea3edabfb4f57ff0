//! End-to-end tests of the protocol library: both wire codecs, the
//! validation and error taxonomy of the schema'd form, the handler's
//! dispatch, and the canonical identifier text.

use por_protocol::binary::decode;
use por_protocol::binary::encode;
use por_protocol::binary::DecodeError;
use por_protocol::handler::PorActor;
use por_protocol::messages::AckMessage;
use por_protocol::messages::EdgeCutMessage;
use por_protocol::messages::NodeIdMessage;
use por_protocol::messages::PaymentMessage;
use por_protocol::messages::PoRRequest;
use por_protocol::messages::PoRResponse;
use por_protocol::messages::PorMessage;
use por_protocol::messages::RequestId;
use por_protocol::messages::RequestMessage;
use por_protocol::messages::ResponseMessage;
use por_protocol::messages::SyncMessage;
use por_protocol::schema::ParsePorMessageError;
use por_protocol::schema::ParseProofOfResponseError;
use por_protocol::schema::ParseRequiredError;
use por_protocol::schema::ParseSyncMessageError;
use por_protocol::schema::ParseTimestampError;
use por_protocol::schema::WirePorMessage;
use por_protocol::schema::WireRequestId;
use por_protocol::schema::WireResponseType;
use por_protocol::schema::WireSync;
use por_protocol::schema::WireTimestamp;
use por_protocol::timing::duration_to_millis;
use por_protocol::timing::millis_to_duration;
use por_protocol::timing::PorDuration;
use por_protocol::timing::UtcInstant;

fn sample_request_id() -> RequestId {
    RequestId {
        origin_node: "node-a".to_string(),
        timestamp: UtcInstant { secs: 1_700_000_000, nanos: 123_456_789 },
        sequence: 42,
    }
}

#[test]
fn test_por_request_serialization() {
    let request = PoRRequest {
        payload: b"test request".to_vec(),
    };

    let bytes = request.try_to_vec().unwrap();
    let deserialized = PoRRequest::try_from_slice(&bytes).unwrap();
    assert_eq!(request, deserialized);
}

#[test]
fn test_por_response_serialization() {
    let response = PoRResponse {
        payload: b"test response".to_vec(),
    };

    let bytes = response.try_to_vec().unwrap();
    let deserialized = PoRResponse::try_from_slice(&bytes).unwrap();
    assert_eq!(response, deserialized);
}

#[test]
fn binary_round_trip_request() {
    let msg = PorMessage::Request(RequestMessage {
        request_id: sample_request_id(),
        payload: "probe payload".to_string(),
        path: vec!["node-a".to_string(), "node-b".to_string()],
        total_latency: PorDuration { secs: 1, nanos: 250_000_000 },
        total_cost: 99,
    });
    let bytes = encode(&msg).unwrap();
    assert_eq!(decode(&bytes).unwrap(), msg);
}

#[test]
fn binary_round_trip_response() {
    let msg = PorMessage::Response(ResponseMessage {
        request_id: sample_request_id(),
        payload: "answer".to_string(),
    });
    let bytes = encode(&msg).unwrap();
    assert_eq!(decode(&bytes).unwrap(), msg);
}

#[test]
fn binary_round_trip_edge_cut() {
    let msg = PorMessage::EdgeCut(EdgeCutMessage {
        request_id: sample_request_id(),
        node1: "node-b".to_string(),
        node2: "node-c".to_string(),
    });
    let bytes = encode(&msg).unwrap();
    assert_eq!(decode(&bytes).unwrap(), msg);
}

#[test]
fn binary_round_trip_sync() {
    let msg = PorMessage::Sync(SyncMessage {
        request_id: sample_request_id(),
        timestamp: UtcInstant { secs: 1_700_000_100, nanos: 5 },
        next_expected: UtcInstant { secs: 1_700_000_160, nanos: 0 },
        has_late_payment: true,
    });
    let bytes = encode(&msg).unwrap();
    assert_eq!(decode(&bytes).unwrap(), msg);
}

#[test]
fn binary_round_trip_payment() {
    let msg = PorMessage::Payment(PaymentMessage {
        request_id: sample_request_id(),
        amount: 1_000_000,
        latency_so_far: PorDuration { secs: 0, nanos: 750_000 },
    });
    let bytes = encode(&msg).unwrap();
    assert_eq!(decode(&bytes).unwrap(), msg);
}

#[test]
fn binary_round_trip_ack() {
    let msg = PorMessage::Ack(AckMessage { request_id: sample_request_id() });
    let bytes = encode(&msg).unwrap();
    assert_eq!(decode(&bytes).unwrap(), msg);
}

#[test]
fn binary_round_trip_node_id() {
    let msg = PorMessage::NodeId(NodeIdMessage {
        node_name: "node-z".to_string(),
        node_version: 3,
    });
    let bytes = encode(&msg).unwrap();
    assert_eq!(decode(&bytes).unwrap(), msg);
}

#[test]
fn binary_round_trip_non_ascii_strings() {
    let msg = PorMessage::Response(ResponseMessage {
        request_id: RequestId {
            origin_node: "nœud-α".to_string(),
            timestamp: UtcInstant { secs: -12, nanos: 999_999_999 },
            sequence: 0,
        },
        payload: "répond — ✓".to_string(),
    });
    let bytes = encode(&msg).unwrap();
    assert_eq!(decode(&bytes).unwrap(), msg);
}

#[test]
fn binary_rejects_unknown_tag() {
    let msg = PorMessage::Ack(AckMessage { request_id: sample_request_id() });
    let mut bytes = encode(&msg).unwrap();
    bytes[0] = 9;
    assert_eq!(decode(&bytes).unwrap_err(), DecodeError::UnknownTag);
}

#[test]
fn binary_rejects_empty_stream() {
    let bytes: Vec<u8> = Vec::new();
    assert_eq!(decode(&bytes).unwrap_err(), DecodeError::Truncated);
}

#[test]
fn binary_rejects_truncation() {
    let msg = PorMessage::Ack(AckMessage { request_id: sample_request_id() });
    let bytes = encode(&msg).unwrap();
    assert_eq!(
        decode(&bytes[..bytes.len() - 1]).unwrap_err(),
        DecodeError::Truncated
    );
}

#[test]
fn binary_rejects_trailing_bytes() {
    let msg = PorMessage::Ack(AckMessage { request_id: sample_request_id() });
    let mut bytes = encode(&msg).unwrap();
    bytes.push(0);
    assert_eq!(decode(&bytes).unwrap_err(), DecodeError::TrailingBytes);
}

#[test]
fn binary_rejects_invalid_field() {
    // A sync message whose trailing boolean byte holds neither 0 nor 1.
    let msg = PorMessage::Sync(SyncMessage {
        request_id: sample_request_id(),
        timestamp: UtcInstant { secs: 0, nanos: 0 },
        next_expected: UtcInstant { secs: 0, nanos: 0 },
        has_late_payment: false,
    });
    let mut bytes = encode(&msg).unwrap();
    let last = bytes.len() - 1;
    bytes[last] = 7;
    assert_eq!(decode(&bytes).unwrap_err(), DecodeError::InvalidField);
}

#[test]
fn binary_rejects_invalid_utf8() {
    let msg = PorMessage::NodeId(NodeIdMessage {
        node_name: "ab".to_string(),
        node_version: 1,
    });
    let mut bytes = encode(&msg).unwrap();
    // The first byte of the name "ab": turn it into a lone continuation byte.
    bytes[5] = 0xff;
    assert_eq!(decode(&bytes).unwrap_err(), DecodeError::InvalidField);
}

fn valid_wire_request_id() -> WireRequestId {
    WireRequestId {
        origin_node: "node-a".to_string(),
        timestamp: Some(WireTimestamp { seconds: 1_700_000_000, nanos: 123_456_789 }),
        sequence: 42,
    }
}

#[test]
fn schema_round_trip_sync() {
    let msg = PorMessage::Sync(SyncMessage {
        request_id: sample_request_id(),
        timestamp: UtcInstant { secs: 1_700_000_100, nanos: 5 },
        next_expected: UtcInstant { secs: 1_700_000_160, nanos: 0 },
        has_late_payment: false,
    });
    let wire = WirePorMessage::from(&msg);
    assert_eq!(PorMessage::try_from(&wire).unwrap(), msg);
}

#[test]
fn schema_sync_missing_next_expected() {
    let wire = WirePorMessage {
        response_type: Some(WireResponseType::Sync(WireSync {
            request_id: Some(valid_wire_request_id()),
            timestamp: Some(WireTimestamp { seconds: 1_700_000_100, nanos: 5 }),
            next_expected: None,
            has_late_payment: false,
        })),
    };
    assert_eq!(
        PorMessage::try_from(&wire).unwrap_err(),
        ParsePorMessageError::Sync(ParseSyncMessageError::NextExpected(
            ParseRequiredError::Missing
        ))
    );
}

#[test]
fn schema_sync_missing_timestamp() {
    let wire = WirePorMessage {
        response_type: Some(WireResponseType::Sync(WireSync {
            request_id: Some(valid_wire_request_id()),
            timestamp: None,
            next_expected: Some(WireTimestamp { seconds: 1_700_000_160, nanos: 0 }),
            has_late_payment: false,
        })),
    };
    assert_eq!(
        PorMessage::try_from(&wire).unwrap_err(),
        ParsePorMessageError::Sync(ParseSyncMessageError::Timestamp(
            ParseRequiredError::Missing
        ))
    );
}

#[test]
fn schema_sync_missing_request_id() {
    let wire = WirePorMessage {
        response_type: Some(WireResponseType::Sync(WireSync {
            request_id: None,
            timestamp: Some(WireTimestamp { seconds: 1_700_000_100, nanos: 5 }),
            next_expected: Some(WireTimestamp { seconds: 1_700_000_160, nanos: 0 }),
            has_late_payment: false,
        })),
    };
    assert_eq!(
        PorMessage::try_from(&wire).unwrap_err(),
        ParsePorMessageError::Sync(ParseSyncMessageError::RequestId(
            ParseRequiredError::Missing
        ))
    );
}

#[test]
fn schema_request_id_missing_timestamp() {
    let wire = WireRequestId {
        origin_node: "node-a".to_string(),
        timestamp: None,
        sequence: 1,
    };
    assert_eq!(
        RequestId::try_from(&wire).unwrap_err(),
        ParseProofOfResponseError::Timestamp(ParseRequiredError::Missing)
    );
}

#[test]
fn schema_request_id_timestamp_out_of_range() {
    let wire = WireRequestId {
        origin_node: "node-a".to_string(),
        timestamp: Some(WireTimestamp { seconds: 0, nanos: -1 }),
        sequence: 1,
    };
    assert_eq!(
        RequestId::try_from(&wire).unwrap_err(),
        ParseProofOfResponseError::Timestamp(ParseRequiredError::Other(
            ParseTimestampError::OutOfRange
        ))
    );
}

#[test]
fn schema_empty_envelope_is_no_response_type() {
    let wire = WirePorMessage { response_type: None };
    assert_eq!(
        PorMessage::try_from(&wire).unwrap_err(),
        ParsePorMessageError::NoResponseType
    );
}

#[test]
fn schema_round_trip_request_keeps_fields() {
    let msg = PorMessage::Request(RequestMessage {
        request_id: sample_request_id(),
        payload: "probe".to_string(),
        path: vec!["node-a".to_string()],
        total_latency: PorDuration { secs: 2, nanos: 0 },
        total_cost: 7,
    });
    let wire = WirePorMessage::from(&msg);
    assert_eq!(PorMessage::try_from(&wire).unwrap(), msg);
}

#[test]
fn schema_duration_precision_floor() {
    // 1500 microseconds cross the schema'd channel as exactly 1 millisecond.
    let msg = PorMessage::Payment(PaymentMessage {
        request_id: sample_request_id(),
        amount: 5,
        latency_so_far: PorDuration { secs: 0, nanos: 1_500_000 },
    });
    let wire = WirePorMessage::from(&msg);
    match PorMessage::try_from(&wire).unwrap() {
        PorMessage::Payment(p) => {
            assert_eq!(p.latency_so_far, PorDuration { secs: 0, nanos: 1_000_000 });
        }
        other => panic!("wrong variant: {:?}", other),
    }
}

#[test]
fn duration_millis_conversions() {
    assert_eq!(
        duration_to_millis(PorDuration { secs: 1, nanos: 2_500_000 }),
        1002
    );
    assert_eq!(
        duration_to_millis(PorDuration { secs: 0, nanos: 1_500_000 }),
        1
    );
    assert_eq!(
        millis_to_duration(2500),
        PorDuration { secs: 2, nanos: 500_000_000 }
    );
    assert_eq!(millis_to_duration(0), PorDuration { secs: 0, nanos: 0 });
}

#[test]
fn handler_echoes_request() {
    let actor = PorActor::new();
    let request_id = sample_request_id();
    let msg = PorMessage::Request(RequestMessage {
        request_id: request_id.clone(),
        payload: "ping".to_string(),
        path: vec![],
        total_latency: PorDuration { secs: 0, nanos: 0 },
        total_cost: 0,
    });
    let out = actor.handle("peer-p", &msg);
    assert_eq!(out.len(), 1);
    assert_eq!(out[0].0, "peer-p");
    assert_eq!(
        out[0].1,
        PorMessage::Response(ResponseMessage {
            request_id,
            payload: "ping".to_string(),
        })
    );
}

#[test]
fn handler_ack_is_terminal() {
    let actor = PorActor::new();
    let msg = PorMessage::Ack(AckMessage { request_id: sample_request_id() });
    let out = actor.handle("peer-p", &msg);
    assert_eq!(out.len(), 0);
}

#[test]
fn handler_terminal_for_all_non_request_variants() {
    let actor = PorActor::new();
    let terminals = vec![
        PorMessage::Response(ResponseMessage {
            request_id: sample_request_id(),
            payload: "x".to_string(),
        }),
        PorMessage::EdgeCut(EdgeCutMessage {
            request_id: sample_request_id(),
            node1: "a".to_string(),
            node2: "b".to_string(),
        }),
        PorMessage::Sync(SyncMessage {
            request_id: sample_request_id(),
            timestamp: UtcInstant { secs: 0, nanos: 0 },
            next_expected: UtcInstant { secs: 60, nanos: 0 },
            has_late_payment: false,
        }),
        PorMessage::Payment(PaymentMessage {
            request_id: sample_request_id(),
            amount: 1,
            latency_so_far: PorDuration { secs: 0, nanos: 0 },
        }),
        PorMessage::NodeId(NodeIdMessage {
            node_name: "n".to_string(),
            node_version: 1,
        }),
    ];
    for msg in &terminals {
        assert_eq!(actor.handle("peer-q", msg).len(), 0);
    }
}

#[test]
fn canonical_string_form() {
    let id = RequestId {
        origin_node: "alice".to_string(),
        timestamp: UtcInstant { secs: 1_700_000_000, nanos: 999 },
        sequence: 7,
    };
    assert_eq!(id.canonical_string(), "alice-1700000000-0007");
}

#[test]
fn canonical_string_negative_seconds_and_wide_sequence() {
    let id = RequestId {
        origin_node: "node-b".to_string(),
        timestamp: UtcInstant { secs: -5, nanos: 0 },
        sequence: 123,
    };
    assert_eq!(id.canonical_string(), "node-b--5-0123");

    let id2 = RequestId {
        origin_node: "node-c".to_string(),
        timestamp: UtcInstant { secs: 0, nanos: 0 },
        sequence: 12345,
    };
    assert_eq!(id2.canonical_string(), "node-c-0-12345");
}

#[test]
fn request_id_new_captures_valid_time() {
    let id = RequestId::new("origin".to_string(), 3);
    assert_eq!(id.origin_node, "origin");
    assert_eq!(id.sequence, 3);
    assert!(id.timestamp.nanos < 1_000_000_000);
}

#[test]
fn por_request_rejects_malformed_bytes() {
    // Length prefix claims four bytes but only two follow.
    let bytes: Vec<u8> = vec![4, 0, 0, 0, 1, 2];
    assert_eq!(
        PoRRequest::try_from_slice(&bytes).unwrap_err(),
        DecodeError::Truncated
    );
    // Trailing byte after the payload.
    let bytes2: Vec<u8> = vec![1, 0, 0, 0, 9, 9];
    assert_eq!(
        PoRResponse::try_from_slice(&bytes2).unwrap_err(),
        DecodeError::TrailingBytes
    );
}
