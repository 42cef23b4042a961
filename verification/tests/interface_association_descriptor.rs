use awawausb::interface_association_descriptor::{InterfaceAssociationDescriptor, DESC_TYPE_IAD};
use awawausb::USBDescriptor;

/// The wire size of an interface association descriptor, and that it can be
/// read from any byte offset.
#[test]
fn interface_association_descriptor_test_sizes() {
    assert_eq!(InterfaceAssociationDescriptor::size(), 8);
    let raw = [0u8, 8, DESC_TYPE_IAD, 2, 3, 0x0e, 0x03, 0, 4];
    let (d, rest) = InterfaceAssociationDescriptor::from_bytes(&raw[1..]).unwrap();
    assert_eq!(rest.len(), 0);
    assert_eq!(d.bFirstInterface, 2);
    assert_eq!(d.bInterfaceCount, 3);
    assert_eq!(d.iFunction, 4);
    assert_eq!(d.to_bytes(), raw[1..].to_vec());
}
