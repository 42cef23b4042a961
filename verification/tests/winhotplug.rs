use awawausb::ch9_core::DeviceDescriptor;
use awawausb::winhotplug::{NewInterface, WinHotplugDatabase};

fn wide(s: &str) -> Vec<u16> {
    s.encode_utf16().collect()
}

#[test]
fn interfaces_of_one_device_share_a_session() {
    let mut db = WinHotplugDatabase::new();
    let dev = wide("USB\\VID_1234&PID_5678\\SN1");
    assert!(!db.is_known_device(&dev));
    assert_eq!(db.register_interface(dev.clone(), 0, wide("\\\\?\\usb#if0")), (0, false));
    assert!(db.is_known_device(&dev));
    assert_eq!(db.register_interface(dev.clone(), 1, wide("\\\\?\\usb#if1")), (0, false));
    let other = wide("USB\\VID_1234&PID_5678\\SN2");
    assert_eq!(db.register_interface(other.clone(), 0, wide("\\\\?\\usb#other")), (1, false));
    assert_eq!(db.next_session_id, 2);
    // the same path again is reported as seen
    assert_eq!(db.register_interface(dev.clone(), 1, wide("\\\\?\\usb#if1")), (0, true));
}

/// Plugging an interface in and out again leaves the record as it was.
#[test]
fn unplugging_forgets_interfaces_and_devices() {
    let mut db = WinHotplugDatabase::new();
    let dev = wide("USB\\VID_1234&PID_5678\\SN1");
    db.register_interface(dev.clone(), 0, wide("p0"));
    db.register_interface(dev.clone(), 2, wide("p2"));
    assert_eq!(db.unregister_interface(&wide("p2")), Some((0, 2)));
    assert!(db.is_known_device(&dev));
    assert_eq!(db.unregister_interface(&wide("p2")), None);
    assert_eq!(db.unregister_interface(&wide("unknown")), None);
    assert_eq!(db.unregister_interface(&wide("p0")), Some((0, 0)));
    assert!(!db.is_known_device(&dev));
    assert!(db.devices.is_empty());
    assert!(db.path_to_device_map.is_empty());
    // a device seen again later gets a new session
    assert_eq!(db.register_interface(dev.clone(), 0, wide("p0")), (1, false));
}

fn device_descriptor(vid: u16, pid: u16) -> DeviceDescriptor {
    DeviceDescriptor {
        bLength: 18,
        bDescriptorType: 1,
        bcdUSB: 0x0200,
        bDeviceClass: 0,
        bDeviceSubClass: 0,
        bDeviceProtocol: 0,
        bMaxPacketSize0: 64,
        idVendor: vid,
        idProduct: pid,
        bcdDevice: 0x0100,
        iManufacturer: 0,
        iProduct: 0,
        iSerialNumber: 0,
        bNumConfigurations: 1,
    }
}

/// A blocked security key is never recorded; other devices are, and only the
/// first interface of a device carries its descriptors.
#[test]
fn probing_skips_blocked_devices() {
    let mut db = WinHotplugDatabase::new();
    let key = wide("USB\\VID_096E&PID_0850\\K1");
    assert_eq!(
        db.probe_step(key.clone(), 0, wide("k0"), Some(device_descriptor(0x096e, 0x0850))),
        None
    );
    assert!(!db.is_known_device(&key));
    assert_eq!(db.next_session_id, 0);
    assert!(db.path_to_device_map.is_empty());

    let dev = wide("USB\\VID_1234&PID_5678\\SN1");
    assert_eq!(
        db.probe_step(dev.clone(), 0, wide("p0"), Some(device_descriptor(0x1234, 0x5678))),
        Some(NewInterface { session_id: 0, new_device: true, path_was_known: false })
    );
    assert_eq!(
        db.probe_step(dev.clone(), 1, wide("p1"), None),
        Some(NewInterface { session_id: 0, new_device: false, path_was_known: false })
    );
    assert_eq!(db.next_session_id, 1);
}
