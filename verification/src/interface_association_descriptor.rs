//! Interface Association Descriptors (IAD) Engineering Change Notice (ECN)
use vstd::prelude::*;

use crate::descriptor::{
    USBDescriptor, le16, lo8, hi8, lemma_le16_split, lemma_le16_join,
};

verus! {

pub const DESC_TYPE_IAD: u8 = 11;

/// Interface association descriptor.
#[allow(non_snake_case)]
#[derive(Copy, Clone, PartialEq, Eq, Structural, Hash, Debug)]
pub struct InterfaceAssociationDescriptor {
    pub bLength: u8,
    pub bDescriptorType: u8,
    pub bFirstInterface: u8,
    pub bInterfaceCount: u8,
    pub bFunctionClass: u8,
    pub bFunctionSubClass: u8,
    pub bFunctionProtocol: u8,
    pub iFunction: u8,
}

impl USBDescriptor for InterfaceAssociationDescriptor {
    open spec fn spec_size() -> nat {
        8
    }

    open spec fn spec_decode(b: Seq<u8>) -> Self {
        InterfaceAssociationDescriptor {
            bLength: b[0],
            bDescriptorType: b[1],
            bFirstInterface: b[2],
            bInterfaceCount: b[3],
            bFunctionClass: b[4],
            bFunctionSubClass: b[5],
            bFunctionProtocol: b[6],
            iFunction: b[7],
        }
    }

    open spec fn spec_encode(self) -> Seq<u8> {
        seq![
            self.bLength,
            self.bDescriptorType,
            self.bFirstInterface,
            self.bInterfaceCount,
            self.bFunctionClass,
            self.bFunctionSubClass,
            self.bFunctionProtocol,
            self.iFunction,
        ]
    }

    fn size() -> (n: usize) {
        8
    }

    fn decode(b: &[u8]) -> (d: Self) {
        InterfaceAssociationDescriptor {
            bLength: b[0],
            bDescriptorType: b[1],
            bFirstInterface: b[2],
            bInterfaceCount: b[3],
            bFunctionClass: b[4],
            bFunctionSubClass: b[5],
            bFunctionProtocol: b[6],
            iFunction: b[7],
        }
    }

    fn to_bytes(&self) -> (r: Vec<u8>) {
        let mut v: Vec<u8> = Vec::new();
        v.push(self.bLength);
        v.push(self.bDescriptorType);
        v.push(self.bFirstInterface);
        v.push(self.bInterfaceCount);
        v.push(self.bFunctionClass);
        v.push(self.bFunctionSubClass);
        v.push(self.bFunctionProtocol);
        v.push(self.iFunction);
        proof {
            assert(v@ =~= self.spec_encode());
        }
        v
    }

    proof fn lemma_encode_decode(d: Self) {
    }

    proof fn lemma_decode_encode(b: Seq<u8>) {
        assert(Self::spec_decode(b).spec_encode() =~= b);
    }
}


} // verus!
