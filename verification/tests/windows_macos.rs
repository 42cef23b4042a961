use awawausb::ch9_core::DeviceDescriptor;
use awawausb::macos::{
    endpoint_addresses, find_every_interface, pipe_for_endpoint, register_pipes,
    unregister_pipes, CFUUIDBytes, PipeProperties, K_IOUSB_FIND_INTERFACE_DONT_CARE,
};
use awawausb::protocol::Errors;
use awawausb::winenum::{
    descriptor_length_from_probe, descriptor_request_value, guid_eq, guid_listed,
    hub_port_from_location_info, interface_number_from_instance_id, is_composite_parent_driver,
    is_winusb_driver, multi_sz_to_list, probe_request_length, string_language, strings_to_cache,
    should_probe, try_parse_guid, wants_bos_descriptor, CfgMgrError, Guid,
};
use awawausb::USBDescriptor;
use std::collections::HashMap;

fn wide(s: &str) -> Vec<u16> {
    s.encode_utf16().collect()
}

#[test]
fn guids_are_parsed_and_printed() {
    let g = try_parse_guid("{dee824ef-729b-4a0e-9c14-b7117d33a817}\0").unwrap();
    assert_eq!(g.data1, 0xdee824ef);
    assert_eq!(g.data2, 0x729b);
    assert_eq!(g.data3, 0x4a0e);
    assert_eq!(g.data4, [0x9c, 0x14, 0xb7, 0x11, 0x7d, 0x33, 0xa8, 0x17]);
    assert_eq!(g.debug_string(), "{dee824ef-729b-4a0e-9c14-b7117d33a817}");
    let upper = try_parse_guid("DEE824EF-729B-4A0E-9C14-B7117D33A817").unwrap();
    assert!(guid_eq(&g, &upper));
    assert!(try_parse_guid("{dee824ef-729b-4a0e-9c14b7117d33a817}").is_none());
    assert!(try_parse_guid("{dee824ef-729b-4a0e-9c14-b7117d33a81}").is_none());
    assert!(try_parse_guid("{dee824ef-729b-4a0e-9c14-b7117d33a8zz}").is_none());
    assert!(try_parse_guid("{1dee824ef-729b-4a0e-9c14-b7117d33a817}").is_none());
    let other = Guid { data1: 1, data2: 2, data3: 3, data4: [0; 8] };
    assert!(guid_listed(&[other, upper], &g));
    assert!(!guid_listed(&[other], &g));
}

#[test]
fn multi_sz_lists() {
    let inp = [0x61u16, 0x62, 0, 0x63, 0, 0];
    assert_eq!(multi_sz_to_list(&inp), vec![vec![0x61, 0x62, 0], vec![0x63, 0]]);
    assert_eq!(multi_sz_to_list(&[0, 0, 0]), vec![vec![0u16], vec![0u16]]);
    assert_eq!(multi_sz_to_list(&[]), Vec::<Vec<u16>>::new());
    assert_eq!(multi_sz_to_list(&[0x61]), vec![vec![0x61u16, 0]]);
}

#[test]
fn configuration_manager_errors_are_named() {
    assert_eq!(CfgMgrError(0).describe(), "CR_SUCCESS");
    assert_eq!(CfgMgrError(5).describe(), "CR_INVALID_DEVNODE/INST");
    assert_eq!(CfgMgrError(26).describe(), "CR_BUFFER_SMALL");
    assert_eq!(CfgMgrError(59).describe(), "CR_INVALID_STRUCTURE_SIZE");
    assert_eq!(CfgMgrError(60).describe(), "unknown error 60");
    assert_eq!(CfgMgrError::from(3u32), CfgMgrError(3));
}

#[test]
fn driver_names() {
    assert!(is_winusb_driver(&wide("WinUSB\0")));
    assert!(is_winusb_driver(&wide("WINUSB\0")));
    assert!(!is_winusb_driver(&wide("WinUSB")));
    assert!(!is_winusb_driver(&wide("WinUSB\0\0")));
    assert!(is_composite_parent_driver(&wide("USBCCGP\0")));
    assert!(is_composite_parent_driver(&wide("dg_ssudbus\0")));
    assert!(!is_composite_parent_driver(&wide("usbhub\0")));
}

#[test]
fn instance_ids_and_locations() {
    assert_eq!(interface_number_from_instance_id("USB\\VID_046D&PID_C52B&MI_02\\7&2A3C&0&0002"), Some(2));
    assert_eq!(interface_number_from_instance_id("usb\\vid_046d&pid_c52b&mi_0f\\x"), Some(15));
    assert_eq!(interface_number_from_instance_id("USB\\VID_046D&PID_C52B&MI_02"), None);
    assert_eq!(interface_number_from_instance_id("USB\\VID_046D&PID_C52B\\5&1"), None);
    assert_eq!(interface_number_from_instance_id("HID\\VID_046D&PID_C52B&MI_02\\x"), None);
    assert_eq!(hub_port_from_location_info("Port_#0002.Hub_#0001"), Some(2));
    assert_eq!(hub_port_from_location_info("port_#12.hub"), Some(12));
    assert_eq!(hub_port_from_location_info("Port_#0002"), None);
    assert_eq!(hub_port_from_location_info("Hub_#0001.Port_#2"), None);
    assert_eq!(hub_port_from_location_info("Port_#x.Hub"), None);
}

#[test]
fn hub_descriptor_requests() {
    assert_eq!(descriptor_request_value(2, 1), 0x0201);
    assert_eq!(probe_request_length(2), 4);
    assert_eq!(probe_request_length(15), 4);
    assert_eq!(probe_request_length(3), 2);
    assert_eq!(descriptor_length_from_probe(2, [9, 2, 0x20, 0x01]), Some(0x120));
    assert_eq!(descriptor_length_from_probe(3, [4, 3, 9, 4]), Some(4));
    assert_eq!(descriptor_length_from_probe(2, [9, 3, 0x20, 0x01]), None);
    assert!(wants_bos_descriptor(0x0201));
    assert!(!wants_bos_descriptor(0x0200));
    assert_eq!(string_language(&[4, 3, 0x09, 0x04]), Some(0x0409));
    assert_eq!(string_language(&[2, 3]), None);
    assert_eq!(string_language(&[4, 2, 0x09, 0x04]), None);
}

#[test]
fn strings_fetched_for_a_new_device() {
    let dev = DeviceDescriptor::decode(&[18, 1, 0, 2, 0, 0, 0, 64, 0, 0, 0, 0, 0, 1, 1, 2, 0, 1]);
    let mut blob = vec![9u8, 2, 18, 0, 1, 1, 4, 0x80, 50];
    blob.extend_from_slice(&[9, 4, 0, 0, 0, 0xff, 0, 0, 5]);
    assert_eq!(strings_to_cache(&dev, &vec![blob]), vec![0, 1, 2, 4, 5]);
}

#[test]
fn uuids_are_printed() {
    let u = CFUUIDBytes::new([
        0x01, 0xA2, 0xD0, 0xE9, 0x42, 0xF6, 0x4A, 0x87, 0x8B, 0x8B, 0x77, 0x05, 0x7C, 0x8C, 0xE0, 0xCE,
    ]);
    assert_eq!(u.debug_string(), "01A2D0E9-42F6-4A87-8B8B-77057C8CE0CE");
}

#[test]
fn macos_pipes() {
    let req = find_every_interface();
    assert_eq!(req.bInterfaceClass, K_IOUSB_FIND_INTERFACE_DONT_CARE);
    let p_in = PipeProperties { direction: 1, number: 1, transfer_type: 2, max_packet_size: 512, interval: 0 };
    let p_out = PipeProperties { direction: 0, number: 2, transfer_type: 2, max_packet_size: 512, interval: 0 };
    assert_eq!(p_in.endpoint_address(), 0x81);
    let eps = endpoint_addresses(&[Some(p_in), None, Some(p_out)]);
    assert_eq!(eps, vec![0x81, 0x02]);
    let mut pipes: HashMap<u8, (usize, u8)> = HashMap::new();
    assert!(!register_pipes(&mut pipes, 3, &eps));
    assert_eq!(pipe_for_endpoint(&pipes, 0x81), Ok((3, 1)));
    assert_eq!(pipe_for_endpoint(&pipes, 0x02), Ok((3, 2)));
    assert!(register_pipes(&mut pipes, 4, &vec![0x02]));
    assert_eq!(pipe_for_endpoint(&pipes, 0x02), Ok((4, 1)));
    unregister_pipes(&mut pipes, &eps);
    assert_eq!(pipe_for_endpoint(&pipes, 0x81), Err(Errors::InvalidNumber));
    assert!(pipes.is_empty());
}

/// A GUID's registry text reads back as the same GUID.
#[test]
fn guid_text_reads_back() {
    let g = Guid {
        data1: 0xc244e858,
        data2: 0x109c,
        data3: 0x11d4,
        data4: [0x91, 0xd4, 0x00, 0x50, 0xe4, 0xc6, 0x42, 0x6f],
    };
    let text = g.debug_string();
    assert_eq!(text, "{c244e858-109c-11d4-91d4-0050e4c6426f}");
    let back = try_parse_guid(&text).unwrap();
    assert_eq!(back.data1, g.data1);
    assert_eq!(back.data2, g.data2);
    assert_eq!(back.data3, g.data3);
    assert_eq!(back.data4, g.data4);
    let with_nul = format!("{}\0", text);
    let back = try_parse_guid(&with_nul).unwrap();
    assert_eq!(
        (back.data1, back.data2, back.data3, back.data4),
        (g.data1, g.data2, g.data3, g.data4)
    );
}

/// An endpoint listed twice for one interface counts as a duplicate; the
/// later pipe wins.
#[test]
fn repeated_endpoint_in_one_interface_is_a_duplicate() {
    let mut pipes: HashMap<u8, (usize, u8)> = HashMap::new();
    assert!(register_pipes(&mut pipes, 0, &vec![0x03, 0x03]));
    assert_eq!(pipes.get(&0x03), Some(&(0, 2)));
}

/// Only WinUSB interfaces announced under one of their registered classes
/// are probed.
#[test]
fn only_registered_winusb_interfaces_are_probed() {
    let g = Guid { data1: 1, data2: 2, data3: 3, data4: [4; 8] };
    let other = Guid { data1: 9, data2: 2, data3: 3, data4: [4; 8] };
    assert!(should_probe(&wide("winusb\0"), &[other, g], &g));
    assert!(!should_probe(&wide("usbccgp\0"), &[g], &g));
    assert!(!should_probe(&wide("WinUSB\0"), &[other], &g));
    assert!(!should_probe(&wide("WinUSB\0"), &[], &g));
}
