use awawausb::blocklists::is_blocked_device;

#[test]
fn security_keys_are_blocked() {
    assert!(is_blocked_device(0x096e, 0x0850));
    assert!(is_blocked_device(0x1050, 0x0407));
    assert!(!is_blocked_device(0x1234, 0x5678));
    assert!(!is_blocked_device(0x096e, 0x0000));
}
