use awawausb::ch9_core::{
    bmRequestType, decode_utf16, descriptor_types, ConfigDescriptor, DeviceDescriptor,
    DeviceQualifierDescriptor, EndpointDescriptor, InterfaceDescriptor, StringDescriptor,
    StringDescriptorFixed,
};
use awawausb::USBDescriptor;

fn lossy(units: Vec<Result<char, u16>>) -> String {
    units
        .into_iter()
        .map(|c| c.unwrap_or(char::REPLACEMENT_CHARACTER))
        .collect::<String>()
}

#[test]
fn test_req_debug_formatting() {
    assert_eq!(bmRequestType(0x80).debug_string(), "0x80 (D->H std dev)");
    assert_eq!(bmRequestType(0x00).debug_string(), "0x00 (H->D std dev)");
    assert_eq!(bmRequestType(0xA0).debug_string(), "0xa0 (D->H cls dev)");
    assert_eq!(bmRequestType(0xC0).debug_string(), "0xc0 (D->H vnd dev)");
    assert_eq!(bmRequestType(0x81).debug_string(), "0x81 (D->H std if)");
    assert_eq!(bmRequestType(0x82).debug_string(), "0x82 (D->H std ep)");
    assert_eq!(bmRequestType(0x83).debug_string(), "0x83 (D->H std 3)");
}

/// The wire sizes of the fixed-layout descriptors, and that they can be read
/// from any byte offset (the wire layout has no alignment).
#[test]
fn ch9_core_test_sizes() {
    assert_eq!(DeviceDescriptor::size(), 18);
    assert_eq!(DeviceQualifierDescriptor::size(), 10);
    assert_eq!(ConfigDescriptor::size(), 9);
    assert_eq!(InterfaceDescriptor::size(), 9);
    assert_eq!(EndpointDescriptor::size(), 7);

    let mut buf = vec![0xeeu8];
    buf.extend_from_slice(&[18, 1, 0x00, 0x02, 0, 0, 0, 64, 0x34, 0x12, 0x78, 0x56, 0x00, 0x01, 1, 2, 3, 1]);
    let (d, rest) = DeviceDescriptor::from_bytes(&buf[1..]).unwrap();
    assert_eq!(rest.len(), 0);
    assert_eq!(d.idVendor, 0x1234);
    assert_eq!(d.idProduct, 0x5678);
    assert_eq!(d.to_bytes().len(), 18);

    let q = [0xeeu8, 10, 6, 0x00, 0x02, 0, 0, 0, 64, 1, 0];
    let (dq, rest) = DeviceQualifierDescriptor::from_bytes(&q[1..]).unwrap();
    assert_eq!(rest.len(), 0);
    assert_eq!(dq.bcdUSB, 0x0200);
    assert_eq!(dq.to_bytes().len(), 10);

    let c = [0xeeu8, 9, 2, 0x20, 0x00, 1, 1, 0, 0x80, 50];
    let (cd, _) = ConfigDescriptor::from_bytes(&c[1..]).unwrap();
    assert_eq!(cd.wTotalLength, 0x20);
    assert_eq!(cd.to_bytes().len(), 9);

    let i = [0xeeu8, 9, 4, 0, 0, 2, 0xff, 0, 0, 0];
    let (id, _) = InterfaceDescriptor::from_bytes(&i[1..]).unwrap();
    assert_eq!(id.bNumEndpoints, 2);
    assert_eq!(id.to_bytes().len(), 9);

    let e = [0xeeu8, 7, 5, 0x81, 2, 0x00, 0x02, 0];
    let (ed, _) = EndpointDescriptor::from_bytes(&e[1..]).unwrap();
    assert_eq!(ed.wMaxPacketSize, 0x200);
    assert_eq!(ed.to_bytes().len(), 7);
}

#[test]
fn test_string_desc() {
    let test = StringDescriptorFixed::<8> {
        bLength: 10,
        bDescriptorType: descriptor_types::STRING,
        bytes: [b'a', 0, b's', 0, b'd', 0, b'f', 0],
    };

    assert_eq!(test.bLength, 10);
    assert_eq!(test.bytes, [b'a', 0, b's', 0, b'd', 0, b'f', 0]);

    let test_ptr = test.unsize();
    assert_eq!(2 + test_ptr.bytes.len(), 10);

    let parsed = lossy(test_ptr.payload());
    assert_eq!(parsed, "asdf");

    let test_as_bytes = [10u8, descriptor_types::STRING, b'a', 0, b's', 0, b'd', 0, b'f', 0];
    let (test_ptr_2, test_left) = StringDescriptor::from_bytes(&test_as_bytes);
    assert_eq!(test_left.len(), 0);
    let parsed = lossy(test_ptr_2.payload());
    assert_eq!(parsed, "asdf");
    assert!(test_ptr_2 == test_ptr);
}

#[test]
fn string_descriptor_equality_compares_payloads() {
    let a = StringDescriptor { bLength: 4, bDescriptorType: 3, bytes: vec![b'x', 0] };
    let b = StringDescriptor { bLength: 4, bDescriptorType: 3, bytes: vec![b'y', 0] };
    assert!(a == a.clone());
    assert!(a != b);
}

#[test]
fn string_descriptor_try_from_bytes_refuses_bad_headers() {
    assert!(StringDescriptor::try_from_bytes(&[1]).is_none());
    assert!(StringDescriptor::try_from_bytes(&[4, 2, 0, 0]).is_none());
    assert!(StringDescriptor::try_from_bytes(&[6, 3, 0, 0]).is_none());
    let (d, rest) = StringDescriptor::try_from_bytes(&[4, 3, 0x09, 0x04, 0xaa]).unwrap();
    assert_eq!(d.bytes, vec![0x09, 0x04]);
    assert_eq!(rest, &[0xaa]);
}

#[test]
fn utf16_decoding_keeps_unpaired_surrogates() {
    let r = decode_utf16(&[0x61, 0xd83d, 0xde00, 0xdc00, 0x62]);
    assert_eq!(r, vec![Ok('a'), Ok('\u{1f600}'), Err(0xdc00), Ok('b')]);
    let r = decode_utf16(&[0xd800]);
    assert_eq!(r, vec![Err(0xd800)]);
}

#[test]
fn descriptor_validation() {
    let dev = DeviceDescriptor::decode(&[18, 1, 0, 2, 0, 0, 0, 64, 0, 0, 0, 0, 0, 0, 0, 0, 0, 1]);
    assert!(dev.validate());
    let bad = DeviceDescriptor::decode(&[17, 1, 0, 2, 0, 0, 0, 64, 0, 0, 0, 0, 0, 0, 0, 0, 0, 1]);
    assert!(!bad.validate());
    let ep = EndpointDescriptor::decode(&[7, 5, 0x81, 2, 0, 2, 0]);
    assert!(ep.validate());
    let wrong_type = EndpointDescriptor::decode(&[7, 4, 0x81, 2, 0, 2, 0]);
    assert!(!wrong_type.validate());
}

#[test]
fn descriptor_bytes_roundtrip() {
    let raw = [9u8, 2, 0x34, 0x12, 2, 7, 5, 0xc0, 0xfa];
    let c = ConfigDescriptor::decode(&raw);
    assert_eq!(c.to_bytes(), raw.to_vec());
    assert_eq!(ConfigDescriptor::decode(&c.to_bytes()), c);
}

#[test]
fn from_bytes_rest_follows_stated_length() {
    let raw = [12u8, 5, 0x02, 2, 0x40, 0, 0, 0xaa, 0xbb, 0xcc, 0xdd, 0xee, 0x01];
    let (ep, rest) = EndpointDescriptor::from_bytes(&raw).unwrap();
    assert_eq!(ep.bEndpointAddress, 0x02);
    assert_eq!(rest, &[0x01]);
    assert!(EndpointDescriptor::from_bytes(&raw[..6]).is_none());
}

/// Units are read little-endian, pairs of surrogates joined, and a trailing
/// odd byte dropped; `bLength` is not consulted.
#[test]
fn string_payload_is_little_endian_utf16() {
    let d = StringDescriptor {
        bLength: 0,
        bDescriptorType: 3,
        bytes: vec![0x3d, 0xd8, 0x00, 0xde, 0x41, 0x00, 0x42],
    };
    assert_eq!(d.payload(), vec![Ok('\u{1F600}'), Ok('A')]);
    let lone = StringDescriptor { bLength: 4, bDescriptorType: 3, bytes: vec![0x00, 0xdc] };
    assert_eq!(lone.payload(), vec![Err(0xdc00)]);
}
