use std::collections::HashMap;

use awawausb::device::USBInterfaceState;
use awawausb::engine::{
    classify_epoll_event, udev_plug_paths, LoopAction, SessionIds, RUNLOOP_EPOLL_STDIN,
    RUNLOOP_EPOLL_UDEV,
};
use awawausb::framing::{frame_message, message_length, MAX_MESSAGE_LEN};
use awawausb::sysfs::{
    dev_major, dev_minor, device_from_sysfs, parse_sysfs_u8, record_sysfs_interface,
    sysfs_char_dev_name, LinuxHandles,
};
use awawausb::udev::{murmur_hash_2, UdevFeedCafeMessage};

fn header(props_len: u32) -> Vec<u8> {
    let mut p = b"libudev\0".to_vec();
    p.extend_from_slice(&0xfeedcafeu32.to_be_bytes());
    p.extend_from_slice(&40u32.to_ne_bytes());
    p.extend_from_slice(&40u32.to_ne_bytes());
    p.extend_from_slice(&props_len.to_ne_bytes());
    p.extend_from_slice(&0x0577c5e5u32.to_be_bytes());
    p.extend_from_slice(&0x27f8f50cu32.to_be_bytes());
    p.extend_from_slice(&0u32.to_be_bytes());
    p.extend_from_slice(&0u32.to_be_bytes());
    p
}

fn event_packet() -> Vec<u8> {
    let props: &[u8] =
        b"ACTION=add\0DEVNAME=/dev/bus/usb/001/002\0DEVPATH=/devices/pci0/usb1/1-1\0SUBSYSTEM=usb\0";
    let mut p = header(props.len() as u32);
    p.extend_from_slice(props);
    p
}

#[test]
fn murmur_hash_values() {
    // values for a little-endian host
    assert_eq!(murmur_hash_2(b"usb", 0), 0x0577c5e5);
    assert_eq!(murmur_hash_2(b"usb_device", 0), 0x27f8f50c);
    assert_eq!(murmur_hash_2(b"", 0), 0);
    assert_eq!(murmur_hash_2(b"abcd", 0), 0xe411e190);
    // two whole blocks, both read in the host's order
    assert_eq!(murmur_hash_2(b"abcdefgh", 0), 0x20ad3684);
}

#[test]
fn udev_event_is_validated_and_split() {
    let pkt = event_packet();
    let mut msg = UdevFeedCafeMessage::from_packet(&pkt).unwrap();
    assert_eq!(msg.mangle_and_validate(), Ok(()));
    assert_eq!(msg.hdr.version_magic, 0xfeedcafe);
    assert_eq!(msg.hdr.subsystem_hash, murmur_hash_2(b"usb", 0));
    assert_eq!(msg.hdr.devtype_hash, murmur_hash_2(b"usb_device", 0));
    let props = msg.properties();
    assert_eq!(props.len(), 4);
    assert_eq!(props[0].key, b"ACTION");
    assert_eq!(props[0].val, Some(&b"add"[..]));
    assert_eq!(props[3].key, b"SUBSYSTEM");
    let (name, dir) = udev_plug_paths(&props).unwrap();
    assert_eq!(name, b"/dev/bus/usb/001/002".to_vec());
    assert_eq!(dir, b"/sys/devices/pci0/usb1/1-1".to_vec());
}

#[test]
fn udev_properties_keep_empty_and_valueless_entries() {
    let props: &[u8] = b"A=1=2\0\0NOVALUE";
    let mut p = header(props.len() as u32);
    p.extend_from_slice(props);
    let mut msg = UdevFeedCafeMessage::from_packet(&p).unwrap();
    msg.mangle_and_validate().unwrap();
    let props = msg.properties();
    assert_eq!(props.len(), 3);
    assert_eq!(props[0].key, b"A");
    assert_eq!(props[0].val, Some(&b"1=2"[..]));
    assert_eq!(props[1].key, b"");
    assert_eq!(props[1].val, None);
    assert_eq!(props[2].key, b"NOVALUE");
    assert_eq!(props[2].val, None);
    assert!(udev_plug_paths(&props).is_none());
}

#[test]
fn udev_packets_are_refused() {
    assert!(UdevFeedCafeMessage::from_packet(&[0u8; 39]).is_none());
    let mut bad_magic = event_packet();
    bad_magic[0] = b'L';
    let mut m = UdevFeedCafeMessage::from_packet(&bad_magic).unwrap();
    assert_eq!(m.mangle_and_validate(), Err(()));
    let mut bad_version = event_packet();
    bad_version[8] = 0;
    let mut m = UdevFeedCafeMessage::from_packet(&bad_version).unwrap();
    assert_eq!(m.mangle_and_validate(), Err(()));
    let mut too_long = header(1000);
    too_long.extend_from_slice(b"A=1\0");
    let mut m = UdevFeedCafeMessage::from_packet(&too_long).unwrap();
    assert_eq!(m.mangle_and_validate(), Err(()));
}

#[test]
fn sysfs_numbers() {
    assert_eq!(parse_sysfs_u8(b"1\n", 10), 1);
    assert_eq!(parse_sysfs_u8(b" 0a \n", 16), 10);
    assert_eq!(parse_sysfs_u8(b"\xc2\xa012\n", 10), 12);
    assert_eq!(parse_sysfs_u8(b"300\n", 10), 0);
    assert_eq!(parse_sysfs_u8(b"\xff1", 10), 0);
    assert_eq!(parse_sysfs_u8(b"", 10), 0);
}

#[test]
fn sysfs_interfaces_are_recorded() {
    let mut m: HashMap<u8, USBInterfaceState> = HashMap::new();
    assert!(!record_sysfs_interface(&mut m, b"01\n", Some(b"2\n")));
    assert!(!record_sysfs_interface(&mut m, b"00\n", None));
    assert!(record_sysfs_interface(&mut m, b"1\n", Some(b"0\n")));
    assert_eq!(m[&1], USBInterfaceState { alt_setting: 0, claimed: false });
    assert_eq!(m[&0], USBInterfaceState { alt_setting: 0, claimed: false });
    assert_eq!(m.len(), 2);
}

#[test]
fn device_numbers_and_sysfs_name() {
    assert_eq!(dev_major(0xbd02), 189);
    assert_eq!(dev_minor(0xbd02), 2);
    assert_eq!(sysfs_char_dev_name(0xbd02), "189:2");
    assert_eq!(dev_major(0x120006783459a), 0x12345);
    assert_eq!(dev_minor(0x120006783459a), 0x6789a);
    let h = LinuxHandles::new();
    assert_eq!((h.sysfs_fd, h.dev_fd), (-1, -1));
}

#[test]
fn device_from_sysfs_files() {
    let mut all = vec![18u8, 1, 0x00, 0x02, 0, 0, 0, 64, 0x34, 0x12, 0x78, 0x56, 0x00, 0x01, 1, 2, 3, 1];
    all.extend_from_slice(&[9, 2, 25, 0, 1, 1, 0, 0x80, 50]);
    all.extend_from_slice(&[9, 4, 0, 0, 1, 0xff, 0, 0, 0]);
    all.extend_from_slice(&[7, 5, 0x81, 2, 0x40, 0x00, 0]);
    let d = device_from_sysfs(&all, Some("M".to_string()), None, None, b"1\n", HashMap::new()).unwrap();
    assert_eq!(d.device_descriptor.idVendor, 0x1234);
    assert_eq!(d.config_descriptors, vec![all[18..].to_vec()]);
    assert_eq!(d.current_configuration_id, 1);
    assert_eq!(d.reformatted_config_descriptors.len(), 1);
    assert_eq!(d.ep_to_idx[&0x81], 0);
    assert!(!d.opened);
    assert!(device_from_sysfs(&all[..17], None, None, None, b"", HashMap::new()).is_none());
}

#[test]
fn native_messaging_frames() {
    let framed = frame_message(b"{}");
    assert_eq!(framed.len(), 6);
    assert_eq!(&framed[..4], &2u32.to_ne_bytes());
    assert_eq!(&framed[4..], b"{}");
    assert_eq!(message_length(2u32.to_ne_bytes()), 2);
    assert_eq!(message_length(0x10_0000u32.to_ne_bytes()) as usize, MAX_MESSAGE_LEN);
    // the header of a frame reads back as the message's length
    let msg = vec![7u8; 300];
    let framed = frame_message(&msg);
    assert_eq!(message_length([framed[0], framed[1], framed[2], framed[3]]), 300);
}

#[test]
fn event_loop_decisions() {
    assert_eq!(classify_epoll_event(RUNLOOP_EPOLL_STDIN, true, false), LoopAction::HandleStdin);
    assert_eq!(classify_epoll_event(RUNLOOP_EPOLL_STDIN, false, true), LoopAction::Nothing);
    assert_eq!(classify_epoll_event(RUNLOOP_EPOLL_UDEV, false, false), LoopAction::DrainUdev);
    assert_eq!(classify_epoll_event(7, false, true), LoopAction::Unplug(7));
    assert_eq!(classify_epoll_event(7, true, false), LoopAction::Nothing);
    let mut ids = SessionIds::new();
    assert_eq!(ids.new_sid(), 0);
    assert_eq!(ids.new_sid(), 1);
    assert_eq!(ids.next, 2);
}

/// A property list that starts past the end of the packet is refused.
#[test]
fn udev_offset_past_the_payload_is_refused() {
    let mut p = header(0);
    p[16..20].copy_from_slice(&100u32.to_ne_bytes());
    p.extend_from_slice(b"A=1\0");
    let mut m = UdevFeedCafeMessage::from_packet(&p).unwrap();
    assert_eq!(m.mangle_and_validate(), Err(()));
}
