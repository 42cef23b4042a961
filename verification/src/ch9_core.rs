//! Data _actually_ defined by Chapter 9 of the USB specification
use vstd::prelude::*;

use crate::descriptor::{
    USBDescriptor, le16, lo8, hi8, read_le16, write_lo8, write_hi8, lemma_le16_split, lemma_le16_join,
};

use vstd::std_specs::cmp::PartialEqSpecImpl;

pub mod descriptor_types;
pub mod features;
pub mod requests;

verus! {

// Stuff for bmRequestType
pub const REQ_DIR_H2D: u8 = 0x00;
pub const REQ_DIR_D2H: u8 = 0x80;

pub const REQ_TY_STANDARD: u8 = 0x00;
pub const REQ_TY_CLASS: u8 = 0x20;
pub const REQ_TY_VENDOR: u8 = 0x40;
pub const REQ_TY_RESERVED: u8 = 0x60;

pub const REQ_RECP_DEVICE: u8 = 0;
pub const REQ_RECP_INTERFACE: u8 = 1;
pub const REQ_RECP_ENDPOINT: u8 = 2;
pub const REQ_RECP_OTHER: u8 = 3;

// Stuff for config desc bmAttributes
pub const CFG_ATTR_SELF_POWER: u8 = 0x40;
pub const CFG_ATTR_REMOTE_WAKEUP: u8 = 0x20;

// Stuff for endpoint address
pub const EP_DIR_OUT: u8 = 0;
pub const EP_DIR_IN: u8 = 0x80;

// Stuff for endpoint desc bmAttributes
pub const EP_TY_CONTROL: u8 = 0;
pub const EP_TY_ISOC: u8 = 1;
pub const EP_TY_BULK: u8 = 2;
pub const EP_TY_INTERRUPT: u8 = 3;

pub const EP_ISOC_SYNC_NONE: u8 = 0x00;
pub const EP_ISOC_SYNC_ASYNC: u8 = 0x04;
pub const EP_ISOC_SYNC_ADAPTIVE: u8 = 0x08;
pub const EP_ISOC_SYNC_SYNC: u8 = 0x0c;

pub const EP_ISOC_USAGE_DATA: u8 = 0x00;
pub const EP_ISOC_USAGE_FB: u8 = 0x10;
pub const EP_ISOC_USAGE_IMPLICIT_FB: u8 = 0x20;

/// The `bmRequestType` bitfield in a control transfer
#[allow(non_camel_case_types)]
#[derive(Copy, Clone, PartialEq, Eq, Structural, PartialOrd, Ord, Hash)]
pub struct bmRequestType(pub u8);

impl Default for bmRequestType {
    fn default() -> (r: Self)
        ensures
            r == bmRequestType(0),
    {
        bmRequestType(0)
    }
}

impl From<u8> for bmRequestType {
    fn from(value: u8) -> (r: Self) {
        bmRequestType(value)
    }
}

impl vstd::std_specs::convert::FromSpecImpl<u8> for bmRequestType {
    open spec fn obeys_from_spec() -> bool {
        true
    }

    open spec fn from_spec(value: u8) -> Self {
        bmRequestType(value)
    }
}

impl From<bmRequestType> for u8 {
    fn from(value: bmRequestType) -> (r: Self) {
        value.0
    }
}

impl vstd::std_specs::convert::FromSpecImpl<bmRequestType> for u8 {
    open spec fn obeys_from_spec() -> bool {
        true
    }

    open spec fn from_spec(value: bmRequestType) -> Self {
        value.0
    }
}

/// Lower-case hexadecimal digit of a value below 16.
pub open spec fn hex_digit(n: u8) -> char {
    if n < 10 {
        (48 + n) as char
    } else {
        (87 + n) as char
    }
}

/// Decimal digit of a value below 10.
pub open spec fn dec_digit(n: u8) -> char {
    (48 + n) as char
}

/// The direction part of the text: `D->H ` when the top bit is set, else `H->D `.
pub open spec fn spec_direction_text(v: u8) -> Seq<char> {
    if v & 0x80 != 0 {
        seq!['D', '-', '>', 'H', ' ']
    } else {
        seq!['H', '-', '>', 'D', ' ']
    }
}

/// The type part of the text, from bits 5 and 6.
pub open spec fn spec_type_text(v: u8) -> Seq<char> {
    let t = (v >> 5u8) & 3u8;
    if t == 0 {
        seq!['s', 't', 'd', ' ']
    } else if t == 1 {
        seq!['c', 'l', 's', ' ']
    } else if t == 2 {
        seq!['v', 'n', 'd', ' ']
    } else {
        seq!['r', 's', 'v', ' ']
    }
}

/// The recipient part of the text, from bits 0 to 4: a name for the three
/// standard recipients, else the number in decimal.
pub open spec fn spec_recipient_text(v: u8) -> Seq<char> {
    let r = v & 0x1fu8;
    if r == 0 {
        seq!['d', 'e', 'v']
    } else if r == 1 {
        seq!['i', 'f']
    } else if r == 2 {
        seq!['e', 'p']
    } else if r < 10 {
        seq![dec_digit(r)]
    } else {
        seq![dec_digit(r / 10), dec_digit(r % 10)]
    }
}

/// The debugging text of a request type, such as `0x80 (D->H std dev)`.
pub open spec fn spec_request_type_text(v: u8) -> Seq<char> {
    seq!['0', 'x', hex_digit(v / 16), hex_digit(v % 16), ' ', '(']
        + spec_direction_text(v) + spec_type_text(v) + spec_recipient_text(v) + seq![')']
}

fn push_hex_digit(out: &mut Vec<char>, n: u8)
    requires
        n < 16,
    ensures
        final(out)@ == old(out)@.push(hex_digit(n)),
{
    if n < 10 {
        out.push((48 + n) as char);
    } else {
        out.push((87 + n) as char);
    }
}

fn push_chars(out: &mut Vec<char>, s: &[char])
    ensures
        final(out)@ == old(out)@ + s@,
{
    let ghost start = out@;
    let mut i: usize = 0;
    while i < s.len()
        invariant
            i <= s@.len(),
            out@ == start + s@.subrange(0, i as int),
        decreases s@.len() - i,
    {
        out.push(s[i]);
        i = i + 1;
        proof {
            assert(out@ =~= start + s@.subrange(0, i as int));
        }
    }
    proof {
        assert(s@.subrange(0, s@.len() as int) =~= s@);
    }
}

impl bmRequestType {
    /// The debugging text of this request type, such as `0x80 (D->H std dev)`:
    /// the value in hexadecimal, then the direction, type and recipient.
    pub fn debug_string(&self) -> (s: String)
        ensures
            s@ == spec_request_type_text(self.0),
    {
        let v = self.0;
        let mut out: Vec<char> = Vec::new();
        out.push('0');
        out.push('x');
        push_hex_digit(&mut out, v / 16);
        push_hex_digit(&mut out, v % 16);
        out.push(' ');
        out.push('(');
        let ghost head = out@;
        if v & REQ_DIR_D2H != 0 {
            push_chars(&mut out, &['D', '-', '>', 'H', ' ']);
        } else {
            push_chars(&mut out, &['H', '-', '>', 'D', ' ']);
        }
        let ghost with_dir = out@;
        let t = (v >> 5u8) & 3u8;
        if t == 0 {
            push_chars(&mut out, &['s', 't', 'd', ' ']);
        } else if t == 1 {
            push_chars(&mut out, &['c', 'l', 's', ' ']);
        } else if t == 2 {
            push_chars(&mut out, &['v', 'n', 'd', ' ']);
        } else {
            push_chars(&mut out, &['r', 's', 'v', ' ']);
        }
        let ghost with_ty = out@;
        let r = v & 0x1fu8;
        assert(r < 32) by (bit_vector)
            requires
                r == v & 0x1fu8,
        ;
        if r == 0 {
            push_chars(&mut out, &['d', 'e', 'v']);
        } else if r == 1 {
            push_chars(&mut out, &['i', 'f']);
        } else if r == 2 {
            push_chars(&mut out, &['e', 'p']);
        } else if r < 10 {
            out.push((48 + r) as char);
        } else {
            out.push((48 + r / 10) as char);
            out.push((48 + r % 10) as char);
        }
        let ghost with_recp = out@;
        out.push(')');
        proof {
            assert(head == seq!['0', 'x', hex_digit(v / 16), hex_digit(v % 16), ' ', '(']);
            assert(with_dir =~= head + spec_direction_text(v));
            assert(with_ty =~= with_dir + spec_type_text(v));
            assert(with_recp =~= with_ty + spec_recipient_text(v));
            assert(out@ =~= spec_request_type_text(v));
        }
        crate::host::string_from_chars(&out)
    }
}

/// The two bytes that start every descriptor.
#[allow(non_snake_case)]
#[derive(Copy, Clone, PartialEq, Eq, Structural, Hash, Debug)]
pub struct GenericDescriptorHeader {
    pub bLength: u8,
    pub bDescriptorType: u8,
}

impl USBDescriptor for GenericDescriptorHeader {
    open spec fn spec_size() -> nat {
        2
    }

    open spec fn spec_decode(b: Seq<u8>) -> Self {
        GenericDescriptorHeader { bLength: b[0], bDescriptorType: b[1] }
    }

    open spec fn spec_encode(self) -> Seq<u8> {
        seq![self.bLength, self.bDescriptorType]
    }

    fn size() -> (n: usize) {
        2
    }

    fn decode(b: &[u8]) -> (d: Self) {
        GenericDescriptorHeader { bLength: b[0], bDescriptorType: b[1] }
    }

    fn to_bytes(&self) -> (r: Vec<u8>) {
        let mut v = Vec::new();
        v.push(self.bLength);
        v.push(self.bDescriptorType);
        proof {
            assert(v@ =~= self.spec_encode());
        }
        v
    }

    proof fn lemma_encode_decode(d: Self) {
    }

    proof fn lemma_decode_encode(b: Seq<u8>) {
        assert(Self::spec_decode(b).spec_encode() =~= b);
    }
}

/// Standard device descriptor.
#[allow(non_snake_case)]
#[derive(Copy, Clone, PartialEq, Eq, Structural, Hash, Debug)]
pub struct DeviceDescriptor {
    pub bLength: u8,
    pub bDescriptorType: u8,
    pub bcdUSB: u16,
    pub bDeviceClass: u8,
    pub bDeviceSubClass: u8,
    pub bDeviceProtocol: u8,
    pub bMaxPacketSize0: u8,
    pub idVendor: u16,
    pub idProduct: u16,
    pub bcdDevice: u16,
    pub iManufacturer: u8,
    pub iProduct: u8,
    pub iSerialNumber: u8,
    pub bNumConfigurations: u8,
}

impl USBDescriptor for DeviceDescriptor {
    open spec fn spec_size() -> nat {
        18
    }

    open spec fn spec_decode(b: Seq<u8>) -> Self {
        DeviceDescriptor {
            bLength: b[0],
            bDescriptorType: b[1],
            bcdUSB: le16(b[2], b[3]),
            bDeviceClass: b[4],
            bDeviceSubClass: b[5],
            bDeviceProtocol: b[6],
            bMaxPacketSize0: b[7],
            idVendor: le16(b[8], b[9]),
            idProduct: le16(b[10], b[11]),
            bcdDevice: le16(b[12], b[13]),
            iManufacturer: b[14],
            iProduct: b[15],
            iSerialNumber: b[16],
            bNumConfigurations: b[17],
        }
    }

    open spec fn spec_encode(self) -> Seq<u8> {
        seq![
            self.bLength,
            self.bDescriptorType,
            lo8(self.bcdUSB),
            hi8(self.bcdUSB),
            self.bDeviceClass,
            self.bDeviceSubClass,
            self.bDeviceProtocol,
            self.bMaxPacketSize0,
            lo8(self.idVendor),
            hi8(self.idVendor),
            lo8(self.idProduct),
            hi8(self.idProduct),
            lo8(self.bcdDevice),
            hi8(self.bcdDevice),
            self.iManufacturer,
            self.iProduct,
            self.iSerialNumber,
            self.bNumConfigurations,
        ]
    }

    fn size() -> (n: usize) {
        18
    }

    fn decode(b: &[u8]) -> (d: Self) {
        DeviceDescriptor {
            bLength: b[0],
            bDescriptorType: b[1],
            bcdUSB: read_le16(b[2], b[3]),
            bDeviceClass: b[4],
            bDeviceSubClass: b[5],
            bDeviceProtocol: b[6],
            bMaxPacketSize0: b[7],
            idVendor: read_le16(b[8], b[9]),
            idProduct: read_le16(b[10], b[11]),
            bcdDevice: read_le16(b[12], b[13]),
            iManufacturer: b[14],
            iProduct: b[15],
            iSerialNumber: b[16],
            bNumConfigurations: b[17],
        }
    }

    fn to_bytes(&self) -> (r: Vec<u8>) {
        let mut v: Vec<u8> = Vec::new();
        v.push(self.bLength);
        v.push(self.bDescriptorType);
        v.push(write_lo8(self.bcdUSB));
        v.push(write_hi8(self.bcdUSB));
        v.push(self.bDeviceClass);
        v.push(self.bDeviceSubClass);
        v.push(self.bDeviceProtocol);
        v.push(self.bMaxPacketSize0);
        v.push(write_lo8(self.idVendor));
        v.push(write_hi8(self.idVendor));
        v.push(write_lo8(self.idProduct));
        v.push(write_hi8(self.idProduct));
        v.push(write_lo8(self.bcdDevice));
        v.push(write_hi8(self.bcdDevice));
        v.push(self.iManufacturer);
        v.push(self.iProduct);
        v.push(self.iSerialNumber);
        v.push(self.bNumConfigurations);
        proof {
            assert(v@ =~= self.spec_encode());
        }
        v
    }

    proof fn lemma_encode_decode(d: Self) {
        lemma_le16_split(d.bcdUSB);
        lemma_le16_split(d.idVendor);
        lemma_le16_split(d.idProduct);
        lemma_le16_split(d.bcdDevice);
    }

    proof fn lemma_decode_encode(b: Seq<u8>) {
        lemma_le16_join(b[2], b[3]);
        lemma_le16_join(b[8], b[9]);
        lemma_le16_join(b[10], b[11]);
        lemma_le16_join(b[12], b[13]);
        assert(Self::spec_decode(b).spec_encode() =~= b);
    }
}


impl DeviceDescriptor {
    /// What `validate` checks: the stated length covers the layout, the type is
    /// `DEVICE`, and the endpoint-zero packet size is one USB allows.
    pub open spec fn spec_valid(self) -> bool {
        &&& self.bLength >= 18
        &&& self.bDescriptorType == descriptor_types::DEVICE
        &&& (self.bMaxPacketSize0 == 8 || self.bMaxPacketSize0 == 16 || self.bMaxPacketSize0 == 32
            || self.bMaxPacketSize0 == 64)
    }

    pub fn validate(&self) -> (r: bool)
        ensures
            r == self.spec_valid(),
    {
        if (self.bLength as usize) < Self::size() {
            return false;
        }
        if self.bDescriptorType != descriptor_types::DEVICE {
            return false;
        }
        match self.bMaxPacketSize0 {
            8 | 16 | 32 | 64 => {},
            _ => return false,
        }
        true
    }
}

/// Device qualifier descriptor (high-speed capable devices).
#[allow(non_snake_case)]
#[derive(Copy, Clone, PartialEq, Eq, Structural, Hash, Debug)]
pub struct DeviceQualifierDescriptor {
    pub bLength: u8,
    pub bDescriptorType: u8,
    pub bcdUSB: u16,
    pub bDeviceClass: u8,
    pub bDeviceSubClass: u8,
    pub bDeviceProtocol: u8,
    pub bMaxPacketSize0: u8,
    pub bNumConfigurations: u8,
    pub bReserved: u8,
}

impl USBDescriptor for DeviceQualifierDescriptor {
    open spec fn spec_size() -> nat {
        10
    }

    open spec fn spec_decode(b: Seq<u8>) -> Self {
        DeviceQualifierDescriptor {
            bLength: b[0],
            bDescriptorType: b[1],
            bcdUSB: le16(b[2], b[3]),
            bDeviceClass: b[4],
            bDeviceSubClass: b[5],
            bDeviceProtocol: b[6],
            bMaxPacketSize0: b[7],
            bNumConfigurations: b[8],
            bReserved: b[9],
        }
    }

    open spec fn spec_encode(self) -> Seq<u8> {
        seq![
            self.bLength,
            self.bDescriptorType,
            lo8(self.bcdUSB),
            hi8(self.bcdUSB),
            self.bDeviceClass,
            self.bDeviceSubClass,
            self.bDeviceProtocol,
            self.bMaxPacketSize0,
            self.bNumConfigurations,
            self.bReserved,
        ]
    }

    fn size() -> (n: usize) {
        10
    }

    fn decode(b: &[u8]) -> (d: Self) {
        DeviceQualifierDescriptor {
            bLength: b[0],
            bDescriptorType: b[1],
            bcdUSB: read_le16(b[2], b[3]),
            bDeviceClass: b[4],
            bDeviceSubClass: b[5],
            bDeviceProtocol: b[6],
            bMaxPacketSize0: b[7],
            bNumConfigurations: b[8],
            bReserved: b[9],
        }
    }

    fn to_bytes(&self) -> (r: Vec<u8>) {
        let mut v: Vec<u8> = Vec::new();
        v.push(self.bLength);
        v.push(self.bDescriptorType);
        v.push(write_lo8(self.bcdUSB));
        v.push(write_hi8(self.bcdUSB));
        v.push(self.bDeviceClass);
        v.push(self.bDeviceSubClass);
        v.push(self.bDeviceProtocol);
        v.push(self.bMaxPacketSize0);
        v.push(self.bNumConfigurations);
        v.push(self.bReserved);
        proof {
            assert(v@ =~= self.spec_encode());
        }
        v
    }

    proof fn lemma_encode_decode(d: Self) {
        lemma_le16_split(d.bcdUSB);
    }

    proof fn lemma_decode_encode(b: Seq<u8>) {
        lemma_le16_join(b[2], b[3]);
        assert(Self::spec_decode(b).spec_encode() =~= b);
    }
}


impl DeviceQualifierDescriptor {
    /// What `validate` checks: the stated length covers the layout, the type is
    /// `DEVICE_QUALIFIER`, and the endpoint-zero packet size is one USB allows.
    pub open spec fn spec_valid(self) -> bool {
        &&& self.bLength >= 10
        &&& self.bDescriptorType == descriptor_types::DEVICE_QUALIFIER
        &&& (self.bMaxPacketSize0 == 8 || self.bMaxPacketSize0 == 16 || self.bMaxPacketSize0 == 32
            || self.bMaxPacketSize0 == 64)
    }

    pub fn validate(&self) -> (r: bool)
        ensures
            r == self.spec_valid(),
    {
        if (self.bLength as usize) < Self::size() {
            return false;
        }
        if self.bDescriptorType != descriptor_types::DEVICE_QUALIFIER {
            return false;
        }
        match self.bMaxPacketSize0 {
            8 | 16 | 32 | 64 => {},
            _ => return false,
        }
        true
    }
}

/// Configuration descriptor header (also used for other-speed configurations).
#[allow(non_snake_case)]
#[derive(Copy, Clone, PartialEq, Eq, Structural, Hash, Debug)]
pub struct ConfigDescriptor {
    pub bLength: u8,
    pub bDescriptorType: u8,
    pub wTotalLength: u16,
    pub bNumInterfaces: u8,
    pub bConfigurationValue: u8,
    pub iConfiguration: u8,
    pub bmAttributes: u8,
    pub bMaxPower: u8,
}

impl USBDescriptor for ConfigDescriptor {
    open spec fn spec_size() -> nat {
        9
    }

    open spec fn spec_decode(b: Seq<u8>) -> Self {
        ConfigDescriptor {
            bLength: b[0],
            bDescriptorType: b[1],
            wTotalLength: le16(b[2], b[3]),
            bNumInterfaces: b[4],
            bConfigurationValue: b[5],
            iConfiguration: b[6],
            bmAttributes: b[7],
            bMaxPower: b[8],
        }
    }

    open spec fn spec_encode(self) -> Seq<u8> {
        seq![
            self.bLength,
            self.bDescriptorType,
            lo8(self.wTotalLength),
            hi8(self.wTotalLength),
            self.bNumInterfaces,
            self.bConfigurationValue,
            self.iConfiguration,
            self.bmAttributes,
            self.bMaxPower,
        ]
    }

    fn size() -> (n: usize) {
        9
    }

    fn decode(b: &[u8]) -> (d: Self) {
        ConfigDescriptor {
            bLength: b[0],
            bDescriptorType: b[1],
            wTotalLength: read_le16(b[2], b[3]),
            bNumInterfaces: b[4],
            bConfigurationValue: b[5],
            iConfiguration: b[6],
            bmAttributes: b[7],
            bMaxPower: b[8],
        }
    }

    fn to_bytes(&self) -> (r: Vec<u8>) {
        let mut v: Vec<u8> = Vec::new();
        v.push(self.bLength);
        v.push(self.bDescriptorType);
        v.push(write_lo8(self.wTotalLength));
        v.push(write_hi8(self.wTotalLength));
        v.push(self.bNumInterfaces);
        v.push(self.bConfigurationValue);
        v.push(self.iConfiguration);
        v.push(self.bmAttributes);
        v.push(self.bMaxPower);
        proof {
            assert(v@ =~= self.spec_encode());
        }
        v
    }

    proof fn lemma_encode_decode(d: Self) {
        lemma_le16_split(d.wTotalLength);
    }

    proof fn lemma_decode_encode(b: Seq<u8>) {
        lemma_le16_join(b[2], b[3]);
        assert(Self::spec_decode(b).spec_encode() =~= b);
    }
}


impl ConfigDescriptor {
    /// What `validate` checks: the stated length covers the layout and the type
    /// is `CONFIGURATION` or `OTHER_SPEED_CONFIGURATION`.
    pub open spec fn spec_valid(self) -> bool {
        &&& self.bLength >= 9
        &&& (self.bDescriptorType == descriptor_types::CONFIGURATION || self.bDescriptorType
            == descriptor_types::OTHER_SPEED_CONFIGURATION)
    }

    pub fn validate(&self) -> (r: bool)
        ensures
            r == self.spec_valid(),
    {
        if (self.bLength as usize) < Self::size() {
            return false;
        }
        if self.bDescriptorType != descriptor_types::CONFIGURATION && self.bDescriptorType
            != descriptor_types::OTHER_SPEED_CONFIGURATION {
            return false;
        }
        true
    }
}

/// Interface descriptor.
#[allow(non_snake_case)]
#[derive(Copy, Clone, PartialEq, Eq, Structural, Hash, Debug)]
pub struct InterfaceDescriptor {
    pub bLength: u8,
    pub bDescriptorType: u8,
    pub bInterfaceNumber: u8,
    pub bAlternateSetting: u8,
    pub bNumEndpoints: u8,
    pub bInterfaceClass: u8,
    pub bInterfaceSubClass: u8,
    pub bInterfaceProtocol: u8,
    pub iInterface: u8,
}

impl USBDescriptor for InterfaceDescriptor {
    open spec fn spec_size() -> nat {
        9
    }

    open spec fn spec_decode(b: Seq<u8>) -> Self {
        InterfaceDescriptor {
            bLength: b[0],
            bDescriptorType: b[1],
            bInterfaceNumber: b[2],
            bAlternateSetting: b[3],
            bNumEndpoints: b[4],
            bInterfaceClass: b[5],
            bInterfaceSubClass: b[6],
            bInterfaceProtocol: b[7],
            iInterface: b[8],
        }
    }

    open spec fn spec_encode(self) -> Seq<u8> {
        seq![
            self.bLength,
            self.bDescriptorType,
            self.bInterfaceNumber,
            self.bAlternateSetting,
            self.bNumEndpoints,
            self.bInterfaceClass,
            self.bInterfaceSubClass,
            self.bInterfaceProtocol,
            self.iInterface,
        ]
    }

    fn size() -> (n: usize) {
        9
    }

    fn decode(b: &[u8]) -> (d: Self) {
        InterfaceDescriptor {
            bLength: b[0],
            bDescriptorType: b[1],
            bInterfaceNumber: b[2],
            bAlternateSetting: b[3],
            bNumEndpoints: b[4],
            bInterfaceClass: b[5],
            bInterfaceSubClass: b[6],
            bInterfaceProtocol: b[7],
            iInterface: b[8],
        }
    }

    fn to_bytes(&self) -> (r: Vec<u8>) {
        let mut v: Vec<u8> = Vec::new();
        v.push(self.bLength);
        v.push(self.bDescriptorType);
        v.push(self.bInterfaceNumber);
        v.push(self.bAlternateSetting);
        v.push(self.bNumEndpoints);
        v.push(self.bInterfaceClass);
        v.push(self.bInterfaceSubClass);
        v.push(self.bInterfaceProtocol);
        v.push(self.iInterface);
        proof {
            assert(v@ =~= self.spec_encode());
        }
        v
    }

    proof fn lemma_encode_decode(d: Self) {
    }

    proof fn lemma_decode_encode(b: Seq<u8>) {
        assert(Self::spec_decode(b).spec_encode() =~= b);
    }
}


impl InterfaceDescriptor {
    /// What `validate` checks: the stated length covers the layout and the type is `INTERFACE`.
    pub open spec fn spec_valid(self) -> bool {
        &&& self.bLength >= 9
        &&& self.bDescriptorType == descriptor_types::INTERFACE
    }

    pub fn validate(&self) -> (r: bool)
        ensures
            r == self.spec_valid(),
    {
        if (self.bLength as usize) < Self::size() {
            return false;
        }
        if self.bDescriptorType != descriptor_types::INTERFACE {
            return false;
        }
        true
    }
}

/// Endpoint descriptor.
#[allow(non_snake_case)]
#[derive(Copy, Clone, PartialEq, Eq, Structural, Hash, Debug)]
pub struct EndpointDescriptor {
    pub bLength: u8,
    pub bDescriptorType: u8,
    pub bEndpointAddress: u8,
    pub bmAttributes: u8,
    pub wMaxPacketSize: u16,
    pub bInterval: u8,
}

impl USBDescriptor for EndpointDescriptor {
    open spec fn spec_size() -> nat {
        7
    }

    open spec fn spec_decode(b: Seq<u8>) -> Self {
        EndpointDescriptor {
            bLength: b[0],
            bDescriptorType: b[1],
            bEndpointAddress: b[2],
            bmAttributes: b[3],
            wMaxPacketSize: le16(b[4], b[5]),
            bInterval: b[6],
        }
    }

    open spec fn spec_encode(self) -> Seq<u8> {
        seq![
            self.bLength,
            self.bDescriptorType,
            self.bEndpointAddress,
            self.bmAttributes,
            lo8(self.wMaxPacketSize),
            hi8(self.wMaxPacketSize),
            self.bInterval,
        ]
    }

    fn size() -> (n: usize) {
        7
    }

    fn decode(b: &[u8]) -> (d: Self) {
        EndpointDescriptor {
            bLength: b[0],
            bDescriptorType: b[1],
            bEndpointAddress: b[2],
            bmAttributes: b[3],
            wMaxPacketSize: read_le16(b[4], b[5]),
            bInterval: b[6],
        }
    }

    fn to_bytes(&self) -> (r: Vec<u8>) {
        let mut v: Vec<u8> = Vec::new();
        v.push(self.bLength);
        v.push(self.bDescriptorType);
        v.push(self.bEndpointAddress);
        v.push(self.bmAttributes);
        v.push(write_lo8(self.wMaxPacketSize));
        v.push(write_hi8(self.wMaxPacketSize));
        v.push(self.bInterval);
        proof {
            assert(v@ =~= self.spec_encode());
        }
        v
    }

    proof fn lemma_encode_decode(d: Self) {
        lemma_le16_split(d.wMaxPacketSize);
    }

    proof fn lemma_decode_encode(b: Seq<u8>) {
        lemma_le16_join(b[4], b[5]);
        assert(Self::spec_decode(b).spec_encode() =~= b);
    }
}


impl EndpointDescriptor {
    /// What `validate` checks: the stated length covers the layout and the type is `ENDPOINT`.
    pub open spec fn spec_valid(self) -> bool {
        &&& self.bLength >= 7
        &&& self.bDescriptorType == descriptor_types::ENDPOINT
    }

    pub fn validate(&self) -> (r: bool)
        ensures
            r == self.spec_valid(),
    {
        if (self.bLength as usize) < Self::size() {
            return false;
        }
        if self.bDescriptorType != descriptor_types::ENDPOINT {
            return false;
        }
        true
    }
}


/// A string descriptor with a payload of `LEN` bytes, as built at compile time.
#[allow(non_snake_case)]
#[derive(Copy, Clone, PartialEq, Eq, Hash, Debug)]
pub struct StringDescriptorFixed<const LEN: usize> {
    pub bLength: u8,
    pub bDescriptorType: u8,
    pub bytes: [u8; LEN],
}

impl<const LEN: usize> StringDescriptorFixed<LEN> {
    /// The same descriptor with a payload whose length is only known at run time.
    pub fn unsize(&self) -> (r: StringDescriptor)
        ensures
            r.bLength == self.bLength,
            r.bDescriptorType == self.bDescriptorType,
            r.bytes@ == self.bytes@,
    {
        let mut bytes: Vec<u8> = Vec::new();
        let mut i: usize = 0;
        while i < LEN
            invariant
                i <= LEN,
                self.bytes@.len() == LEN,
                bytes@ == self.bytes@.subrange(0, i as int),
            decreases LEN - i,
        {
            bytes.push(self.bytes[i]);
            i = i + 1;
            proof {
                assert(bytes@ =~= self.bytes@.subrange(0, i as int));
            }
        }
        proof {
            assert(self.bytes@.subrange(0, LEN as int) =~= self.bytes@);
        }
        StringDescriptor {
            bLength: self.bLength,
            bDescriptorType: self.bDescriptorType,
            bytes,
        }
    }
}

/// A string descriptor: the header followed by a UTF-16 payload.
#[allow(non_snake_case)]
#[derive(Clone, Debug, Hash)]
pub struct StringDescriptor {
    pub bLength: u8,
    pub bDescriptorType: u8,
    pub bytes: Vec<u8>,
}

/// When the parser accepts a string descriptor at the start of `b`: the header
/// is there, the type is `STRING` and the stated length covers the header and
/// fits in `b`.
pub open spec fn spec_string_descriptor_ok(b: Seq<u8>) -> bool {
    &&& b.len() >= 2
    &&& b[1] == descriptor_types::STRING
    &&& 2 <= b[0] <= b.len()
}

/// One decoded UTF-16 unit or pair: a character, or an unpaired surrogate.
pub open spec fn spec_decode_utf16(units: Seq<u16>) -> Seq<Result<char, u16>>
    decreases units.len(),
{
    if units.len() == 0 {
        seq![]
    } else {
        let u = units[0];
        if u < 0xD800 || u > 0xDFFF {
            seq![Ok((u as u32) as char)] + spec_decode_utf16(units.drop_first())
        } else if u >= 0xDC00 {
            seq![Err(u)] + spec_decode_utf16(units.drop_first())
        } else if units.len() >= 2 && 0xDC00 <= units[1] <= 0xDFFF {
            let c = (0x10000 + (u as int - 0xD800) * 0x400 + (units[1] as int - 0xDC00)) as u32;
            seq![Ok(c as char)] + spec_decode_utf16(units.subrange(2, units.len() as int))
        } else {
            seq![Err(u)] + spec_decode_utf16(units.drop_first())
        }
    }
}

/// Decodes UTF-16 code units: each scalar value becomes `Ok`, each unpaired
/// surrogate becomes `Err` with the surrogate, like `char::decode_utf16`.
pub fn decode_utf16(units: &[u16]) -> (r: Vec<Result<char, u16>>)
    ensures
        r@ == spec_decode_utf16(units@),
{
    let mut out: Vec<Result<char, u16>> = Vec::new();
    let mut i: usize = 0;
    proof {
        assert(units@.subrange(0, units@.len() as int) =~= units@);
        assert(out@ + spec_decode_utf16(units@) =~= spec_decode_utf16(units@));
    }
    while i < units.len()
        invariant
            i <= units@.len(),
            spec_decode_utf16(units@) == out@ + spec_decode_utf16(
                units@.subrange(i as int, units@.len() as int),
            ),
        decreases units@.len() - i,
    {
        let ghost rest = units@.subrange(i as int, units@.len() as int);
        let u = units[i];
        if u < 0xD800 || u > 0xDFFF {
            let c = crate::host::char_from_u32(u as u32).unwrap();
            out.push(Ok(c));
            i = i + 1;
            proof {
                assert(rest.drop_first() =~= units@.subrange(i as int, units@.len() as int));
            }
        } else if u >= 0xDC00 {
            out.push(Err(u));
            i = i + 1;
            proof {
                assert(rest.drop_first() =~= units@.subrange(i as int, units@.len() as int));
            }
        } else if i + 1 < units.len() && 0xDC00 <= units[i + 1] && units[i + 1] <= 0xDFFF {
            let lo = units[i + 1];
            let code: u32 = 0x10000 + ((u as u32) - 0xD800) * 0x400 + ((lo as u32) - 0xDC00);
            let c = crate::host::char_from_u32(code).unwrap();
            out.push(Ok(c));
            i = i + 2;
            proof {
                assert(rest.subrange(2, rest.len() as int) =~= units@.subrange(
                    i as int,
                    units@.len() as int,
                ));
            }
        } else {
            out.push(Err(u));
            i = i + 1;
            proof {
                assert(rest.drop_first() =~= units@.subrange(i as int, units@.len() as int));
            }
        }
    }
    proof {
        assert(units@.subrange(i as int, units@.len() as int) =~= Seq::<u16>::empty());
        assert(out@ + Seq::<Result<char, u16>>::empty() =~= out@);
    }
    out
}

/// The payload's 16-bit units, little-endian as USB string descriptors are:
/// unit `i` is byte `2i` plus 256 times byte `2i + 1`. A trailing odd byte is
/// ignored.
pub open spec fn spec_le_units(bytes: Seq<u8>) -> Seq<u16> {
    Seq::new(bytes.len() / 2, |i: int| (bytes[2 * i] + 256 * bytes[2 * i + 1]) as u16)
}

impl PartialEq for StringDescriptor {
    fn eq(&self, other: &Self) -> (r: bool) {
        if self.bLength != other.bLength || self.bDescriptorType != other.bDescriptorType
            || self.bytes.len() != other.bytes.len() {
            return false;
        }
        let mut i: usize = 0;
        while i < self.bytes.len()
            invariant
                i <= self.bytes@.len(),
                self.bytes@.len() == other.bytes@.len(),
                forall|j: int| 0 <= j < i ==> self.bytes@[j] == other.bytes@[j],
            decreases self.bytes@.len() - i,
        {
            if self.bytes[i] != other.bytes[i] {
                return false;
            }
            i = i + 1;
        }
        assert(self.bytes@ =~= other.bytes@);
        true
    }
}

impl PartialEqSpecImpl for StringDescriptor {
    open spec fn obeys_eq_spec() -> bool {
        true
    }

    open spec fn eq_spec(&self, other: &Self) -> bool {
        &&& self.bLength == other.bLength
        &&& self.bDescriptorType == other.bDescriptorType
        &&& self.bytes@ == other.bytes@
    }
}

impl StringDescriptor {
    /// Decode the string descriptor as UTF-16, its units read little-endian.
    pub fn payload(&self) -> (r: Vec<Result<char, u16>>)
        ensures
            r@ == spec_decode_utf16(spec_le_units(self.bytes@)),
    {
        let len = self.bytes.len();
        let n = len / 2;
        let mut units: Vec<u16> = Vec::new();
        let mut i: usize = 0;
        while i < n
            invariant
                i <= n,
                len == self.bytes@.len(),
                n == len / 2,
                units@ == spec_le_units(self.bytes@).subrange(0, i as int),
            decreases n - i,
        {
            assert(2 * i + 1 < len);
            let k = 2 * i;
            let u = ((self.bytes[k] as u32) + (self.bytes[k + 1] as u32) * 256) as u16;
            units.push(u);
            i = i + 1;
            assert(units@ =~= spec_le_units(self.bytes@).subrange(0, i as int));
        }
        assert(units@ =~= spec_le_units(self.bytes@));
        decode_utf16(units.as_slice())
    }

    /// Reads a string descriptor at the start of `bytes`, whose payload runs to
    /// the stated `bLength`; also returns what follows it.
    pub fn from_bytes(bytes: &[u8]) -> (r: (StringDescriptor, &[u8]))
        requires
            spec_string_descriptor_ok(bytes@),
        ensures
            r.0.bLength == bytes@[0],
            r.0.bDescriptorType == bytes@[1],
            r.0.bytes@ == bytes@.subrange(2, bytes@[0] as int),
            r.1@ == bytes@.subrange(bytes@[0] as int, bytes@.len() as int),
    {
        let desc_sz = bytes[0] as usize;
        let (head, bytes_left) = bytes.split_at(desc_sz);
        let payload = head.split_at(2).1;
        let desc = StringDescriptor {
            bLength: bytes[0],
            bDescriptorType: bytes[1],
            bytes: vstd::slice::slice_to_vec(payload),
        };
        proof {
            assert(payload@ =~= bytes@.subrange(2, bytes@[0] as int));
        }
        (desc, bytes_left)
    }

    /// Like `from_bytes`, but `None` where the bytes do not hold a string
    /// descriptor that fits: too short, another type, or a stated length that
    /// is below the header's or beyond the end.
    pub fn try_from_bytes(bytes: &[u8]) -> (r: Option<(StringDescriptor, &[u8])>)
        ensures
            spec_string_descriptor_ok(bytes@) <==> r is Some,
            r matches Some((d, rest)) ==> {
                &&& d.bLength == bytes@[0]
                &&& d.bDescriptorType == bytes@[1]
                &&& d.bytes@ == bytes@.subrange(2, bytes@[0] as int)
                &&& rest@ == bytes@.subrange(bytes@[0] as int, bytes@.len() as int)
            },
    {
        if bytes.len() < 2 || bytes[1] != descriptor_types::STRING || bytes[0] < 2 || (bytes[0]
            as usize) > bytes.len() {
            None
        } else {
            Some(Self::from_bytes(bytes))
        }
    }
}

} // verus!
