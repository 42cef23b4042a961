//! Where each field of the standard descriptors lies on the wire: the byte
//! offsets of USB 2.0 chapter 9 (and of the interface association ECN), with
//! 16-bit fields little-endian. Decoding reads each field from its offset and
//! encoding writes it there.
use vstd::prelude::*;

use crate::ch9_core::{
    ConfigDescriptor, DeviceDescriptor, DeviceQualifierDescriptor, EndpointDescriptor,
    GenericDescriptorHeader, InterfaceDescriptor,
};
use crate::descriptor::USBDescriptor;
use crate::interface_association_descriptor::InterfaceAssociationDescriptor;

verus! {

/// A 16-bit field stored little-endian at offset `at`.
pub open spec fn wire16(b: Seq<u8>, at: int) -> int {
    b[at] as int + 256 * b[at + 1] as int
}

/// A 16-bit field written little-endian at offset `at`.
pub open spec fn holds16(b: Seq<u8>, at: int, v: u16) -> bool {
    b[at] as int == v as int % 256 && b[at + 1] as int == v as int / 256
}

/// Every descriptor starts with its length and its type.
pub proof fn header_wire_layout(b: Seq<u8>, h: GenericDescriptorHeader)
    requires
        b.len() >= 2,
    ensures
        GenericDescriptorHeader::spec_decode(b).bLength == b[0],
        GenericDescriptorHeader::spec_decode(b).bDescriptorType == b[1],
        h.spec_encode().len() == 2,
        h.spec_encode()[0] == h.bLength,
        h.spec_encode()[1] == h.bDescriptorType,
{
}

/// The device descriptor: length, type, bcdUSB (2-3), class, subclass,
/// protocol, max packet size of endpoint 0, idVendor (8-9), idProduct
/// (10-11), bcdDevice (12-13), the three string indexes and the number of
/// configurations.
pub proof fn device_descriptor_wire_layout(b: Seq<u8>, d: DeviceDescriptor)
    requires
        b.len() >= 18,
    ensures
        ({
            let x = DeviceDescriptor::spec_decode(b);
            &&& x.bLength == b[0]
            &&& x.bDescriptorType == b[1]
            &&& x.bcdUSB as int == wire16(b, 2)
            &&& x.bDeviceClass == b[4]
            &&& x.bDeviceSubClass == b[5]
            &&& x.bDeviceProtocol == b[6]
            &&& x.bMaxPacketSize0 == b[7]
            &&& x.idVendor as int == wire16(b, 8)
            &&& x.idProduct as int == wire16(b, 10)
            &&& x.bcdDevice as int == wire16(b, 12)
            &&& x.iManufacturer == b[14]
            &&& x.iProduct == b[15]
            &&& x.iSerialNumber == b[16]
            &&& x.bNumConfigurations == b[17]
        }),
        ({
            let e = d.spec_encode();
            &&& e.len() == 18
            &&& e[0] == d.bLength
            &&& e[1] == d.bDescriptorType
            &&& holds16(e, 2, d.bcdUSB)
            &&& e[4] == d.bDeviceClass
            &&& e[5] == d.bDeviceSubClass
            &&& e[6] == d.bDeviceProtocol
            &&& e[7] == d.bMaxPacketSize0
            &&& holds16(e, 8, d.idVendor)
            &&& holds16(e, 10, d.idProduct)
            &&& holds16(e, 12, d.bcdDevice)
            &&& e[14] == d.iManufacturer
            &&& e[15] == d.iProduct
            &&& e[16] == d.iSerialNumber
            &&& e[17] == d.bNumConfigurations
        }),
{
}

/// The device qualifier: length, type, bcdUSB (2-3), class, subclass,
/// protocol, max packet size of endpoint 0, number of configurations and a
/// reserved byte.
pub proof fn device_qualifier_wire_layout(b: Seq<u8>, d: DeviceQualifierDescriptor)
    requires
        b.len() >= 10,
    ensures
        ({
            let x = DeviceQualifierDescriptor::spec_decode(b);
            &&& x.bLength == b[0]
            &&& x.bDescriptorType == b[1]
            &&& x.bcdUSB as int == wire16(b, 2)
            &&& x.bDeviceClass == b[4]
            &&& x.bDeviceSubClass == b[5]
            &&& x.bDeviceProtocol == b[6]
            &&& x.bMaxPacketSize0 == b[7]
            &&& x.bNumConfigurations == b[8]
            &&& x.bReserved == b[9]
        }),
        ({
            let e = d.spec_encode();
            &&& e.len() == 10
            &&& e[0] == d.bLength
            &&& e[1] == d.bDescriptorType
            &&& holds16(e, 2, d.bcdUSB)
            &&& e[4] == d.bDeviceClass
            &&& e[5] == d.bDeviceSubClass
            &&& e[6] == d.bDeviceProtocol
            &&& e[7] == d.bMaxPacketSize0
            &&& e[8] == d.bNumConfigurations
            &&& e[9] == d.bReserved
        }),
{
}

/// The configuration descriptor: length, type, wTotalLength (2-3), number
/// of interfaces, configuration value, string index, attributes, max power.
pub proof fn config_descriptor_wire_layout(b: Seq<u8>, d: ConfigDescriptor)
    requires
        b.len() >= 9,
    ensures
        ({
            let x = ConfigDescriptor::spec_decode(b);
            &&& x.bLength == b[0]
            &&& x.bDescriptorType == b[1]
            &&& x.wTotalLength as int == wire16(b, 2)
            &&& x.bNumInterfaces == b[4]
            &&& x.bConfigurationValue == b[5]
            &&& x.iConfiguration == b[6]
            &&& x.bmAttributes == b[7]
            &&& x.bMaxPower == b[8]
        }),
        ({
            let e = d.spec_encode();
            &&& e.len() == 9
            &&& e[0] == d.bLength
            &&& e[1] == d.bDescriptorType
            &&& holds16(e, 2, d.wTotalLength)
            &&& e[4] == d.bNumInterfaces
            &&& e[5] == d.bConfigurationValue
            &&& e[6] == d.iConfiguration
            &&& e[7] == d.bmAttributes
            &&& e[8] == d.bMaxPower
        }),
{
}

/// The interface descriptor: length, type, interface number, alternate
/// setting, number of endpoints, class, subclass, protocol, string index.
pub proof fn interface_descriptor_wire_layout(b: Seq<u8>, d: InterfaceDescriptor)
    requires
        b.len() >= 9,
    ensures
        ({
            let x = InterfaceDescriptor::spec_decode(b);
            &&& x.bLength == b[0]
            &&& x.bDescriptorType == b[1]
            &&& x.bInterfaceNumber == b[2]
            &&& x.bAlternateSetting == b[3]
            &&& x.bNumEndpoints == b[4]
            &&& x.bInterfaceClass == b[5]
            &&& x.bInterfaceSubClass == b[6]
            &&& x.bInterfaceProtocol == b[7]
            &&& x.iInterface == b[8]
        }),
        ({
            let e = d.spec_encode();
            &&& e.len() == 9
            &&& e[0] == d.bLength
            &&& e[1] == d.bDescriptorType
            &&& e[2] == d.bInterfaceNumber
            &&& e[3] == d.bAlternateSetting
            &&& e[4] == d.bNumEndpoints
            &&& e[5] == d.bInterfaceClass
            &&& e[6] == d.bInterfaceSubClass
            &&& e[7] == d.bInterfaceProtocol
            &&& e[8] == d.iInterface
        }),
{
}

/// The endpoint descriptor: length, type, endpoint address, attributes,
/// wMaxPacketSize (4-5), interval.
pub proof fn endpoint_descriptor_wire_layout(b: Seq<u8>, d: EndpointDescriptor)
    requires
        b.len() >= 7,
    ensures
        ({
            let x = EndpointDescriptor::spec_decode(b);
            &&& x.bLength == b[0]
            &&& x.bDescriptorType == b[1]
            &&& x.bEndpointAddress == b[2]
            &&& x.bmAttributes == b[3]
            &&& x.wMaxPacketSize as int == wire16(b, 4)
            &&& x.bInterval == b[6]
        }),
        ({
            let e = d.spec_encode();
            &&& e.len() == 7
            &&& e[0] == d.bLength
            &&& e[1] == d.bDescriptorType
            &&& e[2] == d.bEndpointAddress
            &&& e[3] == d.bmAttributes
            &&& holds16(e, 4, d.wMaxPacketSize)
            &&& e[6] == d.bInterval
        }),
{
}

/// The interface association descriptor: length, type, first interface,
/// interface count, function class, subclass, protocol, string index.
pub proof fn interface_association_wire_layout(b: Seq<u8>, d: InterfaceAssociationDescriptor)
    requires
        b.len() >= 8,
    ensures
        ({
            let x = InterfaceAssociationDescriptor::spec_decode(b);
            &&& x.bLength == b[0]
            &&& x.bDescriptorType == b[1]
            &&& x.bFirstInterface == b[2]
            &&& x.bInterfaceCount == b[3]
            &&& x.bFunctionClass == b[4]
            &&& x.bFunctionSubClass == b[5]
            &&& x.bFunctionProtocol == b[6]
            &&& x.iFunction == b[7]
        }),
        ({
            let e = d.spec_encode();
            &&& e.len() == 8
            &&& e[0] == d.bLength
            &&& e[1] == d.bDescriptorType
            &&& e[2] == d.bFirstInterface
            &&& e[3] == d.bInterfaceCount
            &&& e[4] == d.bFunctionClass
            &&& e[5] == d.bFunctionSubClass
            &&& e[6] == d.bFunctionProtocol
            &&& e[7] == d.iFunction
        }),
{
}

} // verus!
