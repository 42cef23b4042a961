use awawausb::completion::{
    linux_completion_response, linux_iso_completion_response, macos_completion_response,
    macos_isoc_completion_response, windows_completion_response, IsoPacketResult, IsoRxPacket,
    IsocFrameResult, LINUX_EOVERFLOW, LINUX_EPIPE, WIN_ERROR_GEN_FAILURE,
};
use awawausb::device::{USBTransferDirection, K_IO_RETURN_OVERRUN, K_IO_USB_PIPE_STALLED};
use awawausb::protocol::{Errors, IsocPacketState, ResponseMessage};

fn s(x: &str) -> String {
    x.to_string()
}

#[test]
fn linux_control_completion_skips_setup_packet() {
    let buf = [0x80u8, 6, 0, 1, 0, 0, 3, 0, 1, 2, 3];
    match linux_completion_response(s("t"), 0, 3, USBTransferDirection::DeviceToHost, true, &buf) {
        ResponseMessage::RequestComplete { txn_id, babble: false, data: Some(d), bytes_written: 3 } => {
            assert_eq!(txn_id, "t");
            assert_eq!(d, "AQID");
        },
        other => panic!("unexpected {:?}", other),
    }
}

#[test]
fn linux_completion_errors() {
    match linux_completion_response(s("t"), -LINUX_EPIPE, 2, USBTransferDirection::HostToDevice, false, &[]) {
        ResponseMessage::RequestError { error: Errors::Stall, bytes_written: 2, .. } => {},
        other => panic!("unexpected {:?}", other),
    }
    match linux_completion_response(s("t"), -LINUX_EOVERFLOW, 1, USBTransferDirection::DeviceToHost, false, &[7]) {
        ResponseMessage::RequestComplete { babble: true, data: Some(d), .. } => assert_eq!(d, "Bw"),
        other => panic!("unexpected {:?}", other),
    }
    match linux_completion_response(s("t"), -19, 0, USBTransferDirection::HostToDevice, false, &[]) {
        ResponseMessage::RequestError { error: Errors::TransferError, .. } => {},
        other => panic!("unexpected {:?}", other),
    }
    match linux_completion_response(s("t"), 0, 4, USBTransferDirection::HostToDevice, false, &[1, 2, 3, 4]) {
        ResponseMessage::RequestComplete { data: None, bytes_written: 4, .. } => {},
        other => panic!("unexpected {:?}", other),
    }
}

#[test]
fn linux_iso_completion() {
    let pkts = [
        IsoPacketResult { status: 0, actual_length: 2 },
        IsoPacketResult { status: (-LINUX_EOVERFLOW) as u32, actual_length: 1 },
    ];
    match linux_iso_completion_response(s("i"), 0, 3, &pkts, USBTransferDirection::DeviceToHost, &[1, 2, 3]) {
        ResponseMessage::IsocRequestComplete { txn_id, data: Some(d), pkt_status, pkt_len } => {
            assert_eq!(txn_id, "i");
            assert_eq!(d, "AQID");
            assert_eq!(pkt_status, vec![IsocPacketState::Success, IsocPacketState::Babble]);
            assert_eq!(pkt_len, vec![2, 1]);
        },
        other => panic!("unexpected {:?}", other),
    }
    let bad = [IsoPacketResult { status: 5, actual_length: 0 }];
    match linux_iso_completion_response(s("i"), 0, 7, &bad, USBTransferDirection::DeviceToHost, &[]) {
        ResponseMessage::RequestError { error: Errors::TransferError, bytes_written: 7, .. } => {},
        other => panic!("unexpected {:?}", other),
    }
}

#[test]
fn macos_completions() {
    match macos_completion_response(s("m"), K_IO_USB_PIPE_STALLED, 0, USBTransferDirection::DeviceToHost, &[]) {
        ResponseMessage::RequestError { error: Errors::Stall, .. } => {},
        other => panic!("unexpected {:?}", other),
    }
    match macos_completion_response(s("m"), K_IO_RETURN_OVERRUN, 2, USBTransferDirection::DeviceToHost, &[0xff, 0xff]) {
        ResponseMessage::RequestComplete { babble: true, data: Some(d), bytes_written: 2, .. } => {
            assert_eq!(d, "__8")
        },
        other => panic!("unexpected {:?}", other),
    }
    let frames = [
        IsocFrameResult { status: 0, act_count: 1 },
        IsocFrameResult { status: K_IO_RETURN_OVERRUN, act_count: 2 },
    ];
    match macos_isoc_completion_response(s("m"), 0, &frames, USBTransferDirection::DeviceToHost, &[9, 8, 7]) {
        ResponseMessage::IsocRequestComplete { pkt_status, pkt_len, data: Some(_), .. } => {
            assert_eq!(pkt_status, vec![IsocPacketState::Success, IsocPacketState::Babble]);
            assert_eq!(pkt_len, vec![1, 2]);
        },
        other => panic!("unexpected {:?}", other),
    }
}

#[test]
fn windows_completions() {
    match windows_completion_response(s("w"), WIN_ERROR_GEN_FAILURE, 0, USBTransferDirection::HostToDevice, false, vec![], &[], &[]) {
        ResponseMessage::RequestError { error: Errors::Stall, .. } => {},
        other => panic!("unexpected {:?}", other),
    }
    let buf = [1u8, 2, 0, 0, 3, 4];
    let pkts = [
        IsoRxPacket { offset: 0, length: 2, status: 0 },
        IsoRxPacket { offset: 4, length: 1, status: 0 },
    ];
    match windows_completion_response(s("w"), 0, 3, USBTransferDirection::DeviceToHost, true, vec![4, 4], &pkts, &buf) {
        ResponseMessage::IsocRequestComplete { data: Some(d), pkt_len, pkt_status, .. } => {
            assert_eq!(d, "AQID");
            assert_eq!(pkt_len, vec![2, 1]);
            assert_eq!(pkt_status, vec![IsocPacketState::Success, IsocPacketState::Success]);
        },
        other => panic!("unexpected {:?}", other),
    }
    match windows_completion_response(s("w"), 0, 0, USBTransferDirection::HostToDevice, true, vec![4, 4], &[], &[]) {
        ResponseMessage::IsocRequestComplete { data: None, pkt_len, .. } => assert_eq!(pkt_len, vec![4, 4]),
        other => panic!("unexpected {:?}", other),
    }
    let failed = [IsoRxPacket { offset: 0, length: 1, status: 1 }];
    match windows_completion_response(s("w"), 0, 1, USBTransferDirection::DeviceToHost, true, vec![1], &failed, &buf) {
        ResponseMessage::RequestError { error: Errors::TransferError, .. } => {},
        other => panic!("unexpected {:?}", other),
    }
}
