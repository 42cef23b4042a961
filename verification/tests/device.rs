use std::collections::HashMap;

use awawausb::ch9_core::DeviceDescriptor;
use awawausb::device::{
    completed_now, reformat_config_descriptors, submitted, unplug_notification, DeviceOpResult,
    OpStep, USBDeviceState, USBInterfaceState, K_IO_RETURN_EXCLUSIVE_ACCESS, K_IO_USB_PIPE_STALLED,
};
use awawausb::macos::device_descriptor_from_fields;
use awawausb::protocol::{Errors, RequestMessage, ResponseMessage};
use awawausb::request::{plan_request, DeviceCommand, RequestPlan};
use awawausb::USBDescriptor;
use awawausb::{parse_descriptor_set, DescriptorRef};
use awawausb::descriptor_set::is_well_framed;

/// One configuration (value 1) with interface 0 (string 5) owning endpoints
/// 0x81 and 0x02, then interface 1 alternate setting 1 owning endpoint 0x83.
fn config_blob() -> Vec<u8> {
    let mut b = vec![9u8, 2, 48, 0, 2, 1, 0, 0x80, 50];
    b.extend_from_slice(&[9, 4, 0, 0, 2, 0xff, 0, 0, 5]);
    b.extend_from_slice(&[7, 5, 0x81, 2, 0x00, 0x02, 0]);
    b.extend_from_slice(&[7, 5, 0x02, 2, 0x00, 0x02, 0]);
    b.extend_from_slice(&[9, 4, 1, 1, 1, 0xff, 0, 0, 0]);
    b.extend_from_slice(&[7, 5, 0x83, 3, 0x08, 0x00, 4]);
    b
}

fn if_state() -> HashMap<u8, USBInterfaceState> {
    let mut m = HashMap::new();
    m.insert(0, USBInterfaceState { alt_setting: 0, claimed: false });
    m.insert(1, USBInterfaceState { alt_setting: 1, claimed: false });
    m
}

fn device() -> USBDeviceState {
    let dev = DeviceDescriptor::decode(&[
        18, 1, 0x00, 0x02, 0, 0, 0, 64, 0x34, 0x12, 0x78, 0x56, 0x00, 0x01, 1, 2, 3, 1,
    ]);
    USBDeviceState::new(
        dev,
        vec![config_blob()],
        Some("Maker".to_string()),
        Some("Gadget".to_string()),
        None,
        1,
        if_state(),
        false,
    )
}

#[test]
fn descriptor_set_walk() {
    let blob = config_blob();
    assert!(is_well_framed(&blob));
    let mut p = parse_descriptor_set(&blob);
    let ds = p.descriptors();
    assert_eq!(ds.len(), 6);
    assert!(matches!(ds[0], DescriptorRef::Config(c) if c.bConfigurationValue == 1));
    assert!(matches!(ds[2], DescriptorRef::Endpoint(e) if e.bEndpointAddress == 0x81));
    let mut p2 = parse_descriptor_set(&blob);
    assert!(matches!(p2.next(), Some(DescriptorRef::Config(_))));
    assert!(matches!(p2.next(), Some(DescriptorRef::Interface(_))));
}

#[test]
fn descriptor_set_unknown_and_truncated() {
    let blob = [3u8, 0x24, 0xaa, 4, 4, 0, 0];
    assert!(is_well_framed(&blob));
    let mut p = parse_descriptor_set(&blob);
    let ds = p.descriptors();
    assert_eq!(ds.len(), 1);
    assert!(matches!(&ds[0], DescriptorRef::UnknownDescriptor(b) if b == &vec![3u8, 0x24, 0xaa]));
    assert!(!is_well_framed(&[9u8, 0x24, 0]));
    assert!(!is_well_framed(&[3u8, 0x24, 0xaa, 9, 4, 0]));
    assert!(!is_well_framed(&[0u8, 0x24, 0]));
}

#[test]
fn reformat_builds_configurations_and_endpoint_owners() {
    let (configs, eps) = reformat_config_descriptors(&vec![config_blob()], 1, &if_state(), false);
    assert_eq!(configs.len(), 1);
    let c = &configs[0];
    assert_eq!(c.bConfigurationValue, 1);
    assert_eq!(c.interfaces.len(), 2);
    assert_eq!(c.interfaces[0].iInterface, 5);
    assert_eq!(c.interfaces[0].endpoints.len(), 2);
    assert_eq!(c.interfaces[0].endpoints[0].bEndpointAddress, 0x81);
    assert_eq!(c.interfaces[0].endpoints[0].wMaxPacketSize, 0x200);
    assert_eq!(c.interfaces[1].current_alt_setting, 1);
    assert_eq!(eps.len(), 3);
    assert_eq!(eps[&0x81], 0);
    assert_eq!(eps[&0x02], 0);
    assert_eq!(eps[&0x83], 1);
}

#[test]
fn reformat_inactive_configuration_reports_alt_setting_zero() {
    let (configs, _) = reformat_config_descriptors(&vec![config_blob()], 2, &if_state(), false);
    assert_eq!(configs[0].interfaces[1].current_alt_setting, 0);
}

#[test]
fn reformat_concatenated_sets_split_at_each_configuration() {
    let mut blob = config_blob();
    let mut second = vec![9u8, 2, 18, 0, 1, 2, 7, 0x80, 50];
    second.extend_from_slice(&[9, 4, 0, 0, 0, 8, 6, 0x50, 0]);
    blob.extend_from_slice(&second);
    let (configs, _) = reformat_config_descriptors(&vec![blob.clone()], 1, &if_state(), true);
    assert_eq!(configs.len(), 2);
    assert_eq!(configs[1].bConfigurationValue, 2);
    assert_eq!(configs[1].iConfiguration, 7);
    let (configs, _) = reformat_config_descriptors(&vec![blob], 1, &if_state(), false);
    assert_eq!(configs.len(), 1);
}

#[test]
fn unopened_device_refuses_requests() {
    let d = device();
    assert_eq!(d.check_open(), Err(Errors::InvalidState));
    assert_eq!(d.claim_step(0), Err(Errors::InvalidState));
    assert_eq!(d.endpoint_step(0x81), Err(Errors::InvalidState));
    assert_eq!(d.claimed_iface_step(0), Err(Errors::InvalidState));
    assert_eq!(d.ctrl_step(0x00, 0), Err(Errors::InvalidState));
    assert_eq!(d.open_step(), OpStep::CallOs);
}

#[test]
fn open_claim_transfer_release() {
    let mut d = device();
    assert_eq!(d.finish_open(Ok(())), Ok(DeviceOpResult::SendCompletionNow));
    assert_eq!(d.open_step(), OpStep::Done(DeviceOpResult::SendCompletionNow));
    assert_eq!(d.claim_step(7), Err(Errors::InvalidNumber));
    assert_eq!(d.claim_step(0), Ok(OpStep::CallOs));
    assert_eq!(d.endpoint_step(0x81), Err(Errors::InvalidState));
    assert_eq!(d.finish_claim(0, Ok(())), Ok(DeviceOpResult::SendCompletionNow));
    assert_eq!(d.claim_step(0), Ok(OpStep::Done(DeviceOpResult::SendCompletionNow)));
    assert_eq!(d.endpoint_step(0x81), Ok(0));
    assert_eq!(d.endpoint_step(0x02), Ok(0));
    assert_eq!(d.endpoint_step(0x83), Err(Errors::InvalidState));
    assert_eq!(d.endpoint_step(0x05), Err(Errors::InvalidNumber));
    assert_eq!(d.claimed_interfaces(), vec![0]);
    // interface recipient, interface 0
    assert_eq!(d.ctrl_step(0x81, 0x0000), Ok(()));
    assert_eq!(d.ctrl_step(0x81, 0x0001), Err(Errors::InvalidState));
    // endpoint recipient
    assert_eq!(d.ctrl_step(0x82, 0x0081), Ok(()));
    assert_eq!(d.ctrl_step(0x82, 0x0181), Err(Errors::InvalidNumber));
    assert_eq!(d.finish_set_alt(0, 3, Ok(())), Ok(DeviceOpResult::SendCompletionNow));
    assert_eq!(d.current_if_state[&0].alt_setting, 3);
    assert_eq!(d.finish_release(0, Ok(())), Ok(DeviceOpResult::SendCompletionNow));
    assert_eq!(d.endpoint_step(0x81), Err(Errors::InvalidState));
    assert_eq!(d.claimed_iface_step(0), Err(Errors::InvalidState));
    assert_eq!(d.finish_close(Ok(())), Ok(DeviceOpResult::SendCompletionNow));
    assert_eq!(d.check_open(), Err(Errors::InvalidState));
}

#[test]
fn claim_failures_are_reported() {
    let mut d = device();
    d.finish_open(Ok(())).unwrap();
    assert_eq!(d.finish_claim(1, Err(K_IO_RETURN_EXCLUSIVE_ACCESS)), Err(Errors::AlreadyClaimed));
    assert_eq!(d.finish_claim(1, Err(-1)), Err(Errors::TransferError));
    assert!(!d.current_if_state[&1].claimed);
    assert_eq!(d.finish_set_configuration(2, Err(5)), Err(Errors::TransferError));
    assert_eq!(d.current_configuration_id, 1);
    assert_eq!(d.finish_set_configuration(2, Ok(())), Ok(DeviceOpResult::SendCompletionNow));
    assert_eq!(d.current_configuration_id, 2);
}

#[test]
fn plug_and_unplug_notifications() {
    let d = device();
    match d.plug_notification(42) {
        ResponseMessage::NewDevice {
            sid,
            idVendor,
            idProduct,
            bcdUSB,
            manufacturer,
            product,
            serial,
            current_config,
            configs,
            ..
        } => {
            assert_eq!(sid, "42");
            assert_eq!(idVendor, 0x1234);
            assert_eq!(idProduct, 0x5678);
            assert_eq!(bcdUSB, 0x0200);
            assert_eq!(manufacturer.as_deref(), Some("Maker"));
            assert_eq!(product.as_deref(), Some("Gadget"));
            assert_eq!(serial, None);
            assert_eq!(current_config, 1);
            assert_eq!(configs.len(), 1);
            assert_eq!(configs[0].interfaces.len(), 2);
        },
        other => panic!("unexpected {:?}", other),
    }
    match unplug_notification(18446744073709551615) {
        ResponseMessage::UnplugDevice { sid } => assert_eq!(sid, "18446744073709551615"),
        other => panic!("unexpected {:?}", other),
    }
}

#[test]
fn operating_system_results() {
    assert_eq!(completed_now(Ok(())), Ok(DeviceOpResult::SendCompletionNow));
    assert_eq!(completed_now(Err(3)), Err(Errors::TransferError));
    assert_eq!(submitted(Ok(()), true), Ok(DeviceOpResult::ManualCompletion));
    assert_eq!(submitted(Err(K_IO_USB_PIPE_STALLED), true), Err(Errors::Stall));
    assert_eq!(submitted(Err(K_IO_USB_PIPE_STALLED), false), Err(Errors::TransferError));
}

#[test]
fn interfaces_are_replaced_and_closing_releases() {
    let mut d = device();
    d.finish_open(Ok(())).unwrap();
    d.finish_claim(0, Ok(())).unwrap();
    d.finish_claim(1, Ok(())).unwrap();
    assert_eq!(d.claimed_interfaces(), vec![0, 1]);
    d.mark_released(1);
    assert_eq!(d.claimed_interfaces(), vec![0]);
    assert_eq!(d.finish_close(Err(9)), Err(Errors::TransferError));
    assert!(d.opened);
    let mut fresh = HashMap::new();
    fresh.insert(4u8, USBInterfaceState { alt_setting: 2, claimed: false });
    d.set_interfaces(fresh);
    assert_eq!(d.claim_step(0), Err(Errors::InvalidNumber));
    assert_eq!(d.claim_step(4), Ok(OpStep::CallOs));
}

#[test]
fn macos_device_descriptor_from_fields() {
    let d = device_descriptor_from_fields(0x0210, 64, 0xef, 2, 1, 0x1234, 0x5678, 0x0100, 1, 2, 3, 1);
    assert_eq!(d.bLength, 18);
    assert_eq!(d.bDescriptorType, 1);
    assert_eq!(d.bcdUSB, 0x0210);
    assert_eq!(d.idProduct, 0x5678);
    assert!(d.validate());
}

/// A request naming the session id a plug notification announced runs on that session.
#[test]
fn requests_reach_the_announced_session() {
    let d = device();
    let sid = match d.plug_notification(77) {
        ResponseMessage::NewDevice { sid, .. } => sid,
        other => panic!("unexpected {:?}", other),
    };
    match plan_request(RequestMessage::OpenDevice { sid, txn_id: "o".to_string() }) {
        RequestPlan::Run { sid: 77, command: DeviceCommand::OpenDevice } => {},
        other => panic!("unexpected {:?}", other),
    }
}
