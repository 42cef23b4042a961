use std::collections::HashMap;

use awawausb::protocol::{Errors, ResponseMessage};
use awawausb::sessions::{check_session, remove_session};

#[test]
fn requests_for_unknown_sessions_are_refused() {
    let mut devices: HashMap<u64, &str> = HashMap::new();
    devices.insert(3, "dev");
    assert_eq!(check_session(&devices, 3), Ok(()));
    assert_eq!(check_session(&devices, 4), Err(Errors::DeviceNotFound));
}

#[test]
fn unplugged_devices_are_forgotten_and_announced() {
    let mut devices: HashMap<u64, &str> = HashMap::new();
    devices.insert(3, "dev");
    let (dev, msg) = remove_session(&mut devices, 3);
    assert_eq!(dev, Some("dev"));
    assert!(devices.is_empty());
    match msg {
        ResponseMessage::UnplugDevice { sid } => assert_eq!(sid, "3"),
        _ => panic!("expected an unplug notification"),
    }
    let (dev, msg) = remove_session(&mut devices, 12);
    assert_eq!(dev, None);
    match msg {
        ResponseMessage::UnplugDevice { sid } => assert_eq!(sid, "12"),
        _ => panic!("expected an unplug notification"),
    }
}
