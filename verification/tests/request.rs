use awawausb::completion::immediate_reply;
use awawausb::device::{DeviceOpResult, USBTransferDirection};
use awawausb::numtext::{decimal_string, parse_unsigned};
use awawausb::protocol::{Errors, RequestMessage, ResponseMessage};
use awawausb::request::{
    decode_payload, parse_sid, plan_request, DeviceCommand, MalformedReason, Payload, RequestPlan,
};

fn s(x: &str) -> String {
    x.to_string()
}

#[test]
fn session_ids_parse_as_decimal_u64() {
    assert_eq!(parse_sid("0"), Some(0));
    assert_eq!(parse_sid("42"), Some(42));
    assert_eq!(parse_sid("+7"), Some(7));
    assert_eq!(parse_sid("18446744073709551615"), Some(u64::MAX));
    assert_eq!(parse_sid("18446744073709551616"), None);
    assert_eq!(parse_sid(""), None);
    assert_eq!(parse_sid("-1"), None);
    assert_eq!(parse_sid("0x10"), None);
}

#[test]
fn session_id_text_roundtrip_values() {
    for v in [0u64, 9, 10, 255, 1000, 123456789, u64::MAX] {
        assert_eq!(parse_sid(&decimal_string(v)), Some(v));
        assert_eq!(decimal_string(v), v.to_string());
    }
}

#[test]
fn unsigned_text_parsing_limits() {
    assert_eq!(parse_unsigned(b"ff", 16, 255), Some(255));
    assert_eq!(parse_unsigned(b"FF", 16, 255), Some(255));
    assert_eq!(parse_unsigned(b"100", 16, 255), None);
    assert_eq!(parse_unsigned(b"1a", 10, 255), None);
    assert_eq!(parse_unsigned(b"+", 10, 255), None);
}

#[test]
fn payloads_are_base64_url_safe_without_padding() {
    match decode_payload(&Some(s("AQID"))) {
        Payload::Bytes(b) => assert_eq!(b, vec![1, 2, 3]),
        other => panic!("unexpected {:?}", other),
    }
    assert!(matches!(decode_payload(&Some(s("AQID=="))), Payload::Invalid));
    assert!(matches!(decode_payload(&Some(s("!!"))), Payload::Invalid));
    assert!(matches!(decode_payload(&None), Payload::Absent));
    match decode_payload(&Some(s("_-8"))) {
        Payload::Bytes(b) => assert_eq!(b, vec![0xff, 0xef]),
        other => panic!("unexpected {:?}", other),
    }
}

#[test]
fn device_requests_are_planned() {
    match plan_request(RequestMessage::ClaimInterface { sid: s("3"), txn_id: s("t1"), value: 2 }) {
        RequestPlan::Run { sid: 3, command: DeviceCommand::ClaimInterface { value: 2 } } => {},
        other => panic!("unexpected {:?}", other),
    }
    match plan_request(RequestMessage::SetAltInterface { sid: s("4"), txn_id: s("t"), iface: 1, alt: 2 }) {
        RequestPlan::Run { sid: 4, command: DeviceCommand::SetAltInterface { iface: 1, alt: 2 } } => {},
        other => panic!("unexpected {:?}", other),
    }
    assert!(matches!(
        plan_request(RequestMessage::OpenDevice { sid: s("x"), txn_id: s("t") }),
        RequestPlan::Malformed(MalformedReason::BadSessionId)
    ));
}

#[test]
fn control_transfers_are_planned() {
    let out = plan_request(RequestMessage::ControlTransfer {
        sid: s("1"),
        txn_id: s("t"),
        request_type: 0x00,
        request: 9,
        value: 1,
        index: 0,
        data: Some(s("AQID")),
        length: None,
        _timeout_internal: Some(500),
    });
    match out {
        RequestPlan::Run {
            sid: 1,
            command: DeviceCommand::ControlTransfer { dir, len, buf, timeout, request: 9, .. },
        } => {
            assert_eq!(dir, USBTransferDirection::HostToDevice);
            assert_eq!(len, 3);
            assert_eq!(buf, vec![1, 2, 3]);
            assert_eq!(timeout, 500);
        },
        other => panic!("unexpected {:?}", other),
    }
    let out = plan_request(RequestMessage::ControlTransfer {
        sid: s("1"),
        txn_id: s("t"),
        request_type: 0x80,
        request: 6,
        value: 0x0100,
        index: 0,
        data: None,
        length: Some(18),
        _timeout_internal: None,
    });
    match out {
        RequestPlan::Run { command: DeviceCommand::ControlTransfer { dir, len, timeout, .. }, .. } => {
            assert_eq!(dir, USBTransferDirection::DeviceToHost);
            assert_eq!(len, 18);
            assert_eq!(timeout, 0);
        },
        other => panic!("unexpected {:?}", other),
    }
    let big = "A".repeat(87384);
    assert!(matches!(
        plan_request(RequestMessage::ControlTransfer {
            sid: s("1"),
            txn_id: s("t"),
            request_type: 0x00,
            request: 9,
            value: 0,
            index: 0,
            data: Some(big),
            length: None,
            _timeout_internal: None,
        }),
        RequestPlan::Reject(Errors::RequestTooBig)
    ));
    assert!(matches!(
        plan_request(RequestMessage::ControlTransfer {
            sid: s("1"),
            txn_id: s("t"),
            request_type: 0x80,
            request: 6,
            value: 0,
            index: 0,
            data: Some(s("AA")),
            length: Some(1),
            _timeout_internal: None,
        }),
        RequestPlan::Malformed(MalformedReason::Inconsistent)
    ));
    assert!(matches!(
        plan_request(RequestMessage::ControlTransfer {
            sid: s("1"),
            txn_id: s("t"),
            request_type: 0x00,
            request: 6,
            value: 0,
            index: 0,
            data: Some(s("*")),
            length: None,
            _timeout_internal: None,
        }),
        RequestPlan::Malformed(MalformedReason::BadPayload)
    ));
}

#[test]
fn data_and_isoc_transfers_are_planned() {
    match plan_request(RequestMessage::DataTransfer {
        sid: s("5"),
        txn_id: s("t"),
        ep: 0x81,
        data: None,
        length: Some(64),
    }) {
        RequestPlan::Run { sid: 5, command: DeviceCommand::DataTransfer { dir, ep: 0x81, len: 64, .. } } => {
            assert_eq!(dir, USBTransferDirection::DeviceToHost);
        },
        other => panic!("unexpected {:?}", other),
    }
    match plan_request(RequestMessage::IsocTransfer {
        sid: s("5"),
        txn_id: s("t"),
        ep: 0x01,
        data: Some(s("AQID")),
        pkt_len: vec![2, 2],
    }) {
        RequestPlan::Run { command: DeviceCommand::IsocTransfer { dir, total_len, buf, pkt_len, .. }, .. } => {
            assert_eq!(dir, USBTransferDirection::HostToDevice);
            assert_eq!(total_len, 4);
            assert_eq!(buf, vec![1, 2, 3, 0]);
            assert_eq!(pkt_len, vec![2, 2]);
        },
        other => panic!("unexpected {:?}", other),
    }
    assert!(matches!(
        plan_request(RequestMessage::IsocTransfer {
            sid: s("5"),
            txn_id: s("t"),
            ep: 0x81,
            data: None,
            pkt_len: vec![0x10000],
        }),
        RequestPlan::Reject(Errors::RequestTooBig)
    ));
}

#[test]
fn immediate_replies() {
    match immediate_reply(s("t9"), Ok(DeviceOpResult::SendCompletionNow)) {
        Some(ResponseMessage::RequestComplete { txn_id, babble: false, data: None, bytes_written: 0 }) => {
            assert_eq!(txn_id, "t9")
        },
        other => panic!("unexpected {:?}", other),
    }
    assert!(immediate_reply(s("t9"), Ok(DeviceOpResult::ManualCompletion)).is_none());
    match immediate_reply(s("t9"), Err(Errors::InvalidNumber)) {
        Some(ResponseMessage::RequestError { txn_id, error: Errors::InvalidNumber, bytes_written: 0 }) => {
            assert_eq!(txn_id, "t9")
        },
        other => panic!("unexpected {:?}", other),
    }
}

/// A request refused by planning is answered with the error under its own
/// transaction id.
#[test]
fn refused_request_gets_error_reply() {
    let msg = RequestMessage::IsocTransfer {
        sid: s("1"),
        txn_id: s("iso-7"),
        ep: 0x81,
        data: None,
        pkt_len: vec![1, 0x20000],
    };
    let txn = msg.txn_id().to_string();
    let err = match plan_request(msg) {
        RequestPlan::Reject(e) => e,
        other => panic!("unexpected {:?}", other),
    };
    match immediate_reply(txn, Err(err)) {
        Some(ResponseMessage::RequestError { txn_id, error: Errors::RequestTooBig, bytes_written: 0 }) => {
            assert_eq!(txn_id, "iso-7")
        },
        other => panic!("unexpected {:?}", other),
    }
}

/// Only the texts the encoder writes are accepted: a set bit past the last
/// byte, or a single character left over, is refused.
#[test]
fn payloads_must_be_canonical_base64() {
    match decode_payload(&Some(s("Zm8"))) {
        Payload::Bytes(b) => assert_eq!(b, b"fo".to_vec()),
        _ => panic!("expected bytes"),
    }
    assert!(matches!(decode_payload(&Some(s("Zm9"))), Payload::Invalid));
    assert!(matches!(decode_payload(&Some(s("Zm8A1"))), Payload::Invalid));
    assert!(matches!(decode_payload(&Some(s("-_8"))), Payload::Bytes(_)));
}
